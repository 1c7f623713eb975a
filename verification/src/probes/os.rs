use vstd::prelude::*;

verus! {

/// The operating-system family suggested by the TTL of a reply.
pub open spec fn os_guess_text(ttl: u8) -> Seq<char> {
    if 1 <= ttl && ttl <= 64 {
        "Linux / Android / iOS"@
    } else if 65 <= ttl && ttl <= 128 {
        "Windows"@
    } else if 129 <= ttl {
        "Cisco / Network Appliance / Solaris"@
    } else {
        "Desconhecido"@
    }
}

/// Guesses the operating system from the initial TTL seen in its packets:
/// 1..=64 Unix-like, 65..=128 Windows, above that network appliances,
/// and 0 unknown.
pub fn guess_os_by_ttl(ttl: u8) -> (r: &'static str)
    ensures
        r@ == os_guess_text(ttl),
{
    if ttl >= 1 && ttl <= 64 {
        "Linux / Android / iOS"
    } else if ttl >= 65 && ttl <= 128 {
        "Windows"
    } else if ttl >= 129 {
        "Cisco / Network Appliance / Solaris"
    } else {
        "Desconhecido"
    }
}

/// Law: the TTL ranges of the guess. TTLs up to 64 are Unix-like systems,
/// up to 128 Windows, above that network appliances; 0 is unknown.
pub proof fn law_os_guess_ranges()
    ensures
        os_guess_text(0) == "Desconhecido"@,
        forall|t: u8| 1 <= t <= 64 ==> #[trigger] os_guess_text(t) == "Linux / Android / iOS"@,
        forall|t: u8| 65 <= t <= 128 ==> #[trigger] os_guess_text(t) == "Windows"@,
        forall|t: u8| 129 <= t ==> #[trigger] os_guess_text(t) == "Cisco / Network Appliance / Solaris"@,
{
}

} // verus!
