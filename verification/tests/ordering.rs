use sys_info::text::{name_le, str_le, to_upper};

#[test]
fn uppercase_mapping_changes_its_input() {
    assert_eq!(to_upper("eth0"), "ETH0");
    assert_eq!(to_upper("Wlan1"), "WLAN1");
    assert_eq!(to_upper(""), "");
}

#[test]
fn code_point_order_is_lexicographic() {
    assert!(str_le("A", "B"));
    assert!(!str_le("B", "A"));
    assert!(str_le("ETH", "ETH0"));
    assert!(!str_le("ETH0", "ETH"));
    assert!(str_le("ETH10", "ETH2"));
    assert!(str_le("", "A"));
    assert!(str_le("SAME", "SAME"));
}

#[test]
fn name_order_ignores_case() {
    // Byte order would put "B" before "a"; uppercasing both sides reverses
    // that.
    assert!(!str_le("a", "B"));
    assert!(name_le("a", "B"));
    assert!(!name_le("B", "a"));
    assert!(name_le("eth0", "ETH0"));
    assert!(name_le("ETH0", "eth0"));
}
