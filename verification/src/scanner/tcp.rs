//! Well-known TCP services and the record of an open port.
use crate::types::PortResult;
use crate::text::literal;
use vstd::prelude::*;

verus! {

/// The service usually found on a port.
pub open spec fn service_name_text(port: u16) -> Seq<char> {
    if port == 21 {
        "FTP"@
    } else if port == 22 {
        "SSH"@
    } else if port == 23 {
        "Telnet"@
    } else if port == 25 {
        "SMTP"@
    } else if port == 53 {
        "DNS"@
    } else if port == 80 {
        "HTTP"@
    } else if port == 110 {
        "POP3"@
    } else if port == 139 {
        "NetBIOS"@
    } else if port == 443 {
        "HTTPS"@
    } else if port == 445 {
        "SMB"@
    } else if port == 1433 {
        "MSSQL"@
    } else if port == 3306 {
        "MySQL"@
    } else if port == 3389 {
        "RDP"@
    } else if port == 5432 {
        "PostgreSQL"@
    } else if port == 8080 {
        "HTTP-Proxy"@
    } else if port == 8443 {
        "HTTPS-Alt"@
    } else {
        "Unknown"@
    }
}

/// Names the service usually found on a port; `Unknown` for others.
pub fn resolve_service_name(port: u16) -> (r: &'static str)
    ensures
        r@ == service_name_text(port),
{
    match port {
        21 => "FTP",
        22 => "SSH",
        23 => "Telnet",
        25 => "SMTP",
        53 => "DNS",
        80 => "HTTP",
        110 => "POP3",
        139 => "NetBIOS",
        443 => "HTTPS",
        445 => "SMB",
        1433 => "MSSQL",
        3306 => "MySQL",
        3389 => "RDP",
        5432 => "PostgreSQL",
        8080 => "HTTP-Proxy",
        8443 => "HTTPS-Alt",
        _ => "Unknown",
    }
}

/// The record of an open port: the port, its service name and the banner
/// read from it.
pub fn open_port_result(port: u16, banner: Option<String>) -> (r: PortResult)
    ensures
        r.port == port,
        r.service@ == service_name_text(port),
        r.banner == banner,
{
    PortResult { port, service: literal(resolve_service_name(port)), banner }
}

/// Law: the service table. Each well-known port has its own name (3306 is
/// MySQL, 1433 is MSSQL, and so on), and every other port is `Unknown`.
pub proof fn law_service_name_table()
    ensures
        service_name_text(21) == "FTP"@,
        service_name_text(22) == "SSH"@,
        service_name_text(23) == "Telnet"@,
        service_name_text(25) == "SMTP"@,
        service_name_text(53) == "DNS"@,
        service_name_text(80) == "HTTP"@,
        service_name_text(110) == "POP3"@,
        service_name_text(139) == "NetBIOS"@,
        service_name_text(443) == "HTTPS"@,
        service_name_text(445) == "SMB"@,
        service_name_text(1433) == "MSSQL"@,
        service_name_text(3306) == "MySQL"@,
        service_name_text(3389) == "RDP"@,
        service_name_text(5432) == "PostgreSQL"@,
        service_name_text(8080) == "HTTP-Proxy"@,
        service_name_text(8443) == "HTTPS-Alt"@,
        forall|p: u16| p != 21 && p != 22 && p != 23 && p != 25 && p != 53 && p != 80 && p != 110 && p != 139 && p != 443 && p != 445 && p != 1433 && p != 3306 && p != 3389 && p != 5432 && p != 8080 && p != 8443 ==> #[trigger] service_name_text(p) == "Unknown"@,
{
}

} // verus!
