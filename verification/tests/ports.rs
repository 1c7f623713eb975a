use netscanner::ports::{default_common_ports, parse_port_range};

#[test]
fn top_selects_the_common_ports() {
    let expected = vec![21, 22, 23, 25, 53, 80, 110, 139, 443, 445, 1433, 3306, 3389, 5432, 8080, 8443];
    assert_eq!(default_common_ports(), expected);
    assert_eq!(parse_port_range("top"), Ok(expected.clone()));
    assert_eq!(parse_port_range("TOP"), Ok(expected));
}

#[test]
fn lists_and_ranges_are_sorted_and_unique() {
    assert_eq!(parse_port_range("80,443"), Ok(vec![80, 443]));
    assert_eq!(parse_port_range("443, 80 ,80"), Ok(vec![80, 443]));
    assert_eq!(parse_port_range("20-22, 21, 8080"), Ok(vec![20, 21, 22, 8080]));
    assert_eq!(parse_port_range(" 5 - 7 "), Ok(vec![5, 6, 7]));
    assert_eq!(parse_port_range("+9"), Ok(vec![9]));
    assert_eq!(parse_port_range("65534-65535"), Ok(vec![65534, 65535]));
    assert_eq!(parse_port_range("1-1024").map(|v| v.len()), Ok(1024));
    assert_eq!(parse_port_range("0-65535").map(|v| v.len()), Ok(65536));
}

#[test]
fn malformed_parts_are_reported() {
    assert_eq!(parse_port_range("1-2-3"), Err("Intervalo de portas inválido: 1-2-3".to_string()));
    assert_eq!(parse_port_range("a-5"), Err("Porta inicial inválida: a".to_string()));
    assert_eq!(parse_port_range("5- b"), Err("Porta final inválida:  b".to_string()));
    assert_eq!(parse_port_range("10-5"), Err("Intervalo inválido: 10 > 5".to_string()));
    assert_eq!(parse_port_range("80,x"), Err("Porta inválida: x".to_string()));
    assert_eq!(parse_port_range("70000"), Err("Porta inválida: 70000".to_string()));
    assert_eq!(parse_port_range(""), Err("Porta inválida: ".to_string()));
    assert_eq!(parse_port_range("80,,443"), Err("Porta inválida: ".to_string()));
    assert_eq!(parse_port_range("x,1-2-3"), Err("Porta inválida: x".to_string()));
}
