use sys_info::net::{collect_network, AddrRecord, Address, IoCounters};

fn addr(name: &str, address: Address) -> AddrRecord {
    AddrRecord { name: name.to_string(), address }
}

fn counters(interface: &str, bs: u64, br: u64, ps: u64, pr: u64) -> Option<IoCounters> {
    Some(IoCounters {
        interface: interface.to_string(),
        bytes_sent: bs,
        bytes_recv: br,
        packets_sent: ps,
        packets_recv: pr,
    })
}

#[test]
fn three_interfaces_merge_and_sort_case_insensitively() {
    let addrs = vec![
        addr("eth0", Address::V4("10.0.0.1".to_string())),
        addr("wlan0", Address::V6("fe80::1".to_string())),
        addr("lo", Address::Mac("00:00:00:00:00:00".to_string())),
    ];
    let cs = vec![counters("eth0", 100, 0, 0, 0)];
    let net = collect_network(addrs, cs);

    assert_eq!(net.len(), 3);
    assert_eq!(net[0].name, "eth0");
    assert_eq!(net[1].name, "lo");
    assert_eq!(net[2].name, "wlan0");

    assert_eq!(net[0].ip, "10.0.0.1");
    assert_eq!(net[0].ip_v6, "");
    assert_eq!(net[0].mac, "");
    assert_eq!(net[0].bytes_sent, 100);

    assert_eq!(net[1].mac, "00:00:00:00:00:00");
    assert_eq!(net[1].ip, "");

    assert_eq!(net[2].ip_v6, "fe80::1");
    assert_eq!(net[2].ip, "");
}

#[test]
fn interface_without_counters_reports_zeros() {
    let addrs = vec![
        addr("eth0", Address::V4("10.0.0.1".to_string())),
        addr("wlan0", Address::V6("fe80::1".to_string())),
    ];
    let cs = vec![counters("eth0", 5, 6, 7, 8)];
    let net = collect_network(addrs, cs);
    assert_eq!(net[1].name, "wlan0");
    assert_eq!(net[1].bytes_sent, 0);
    assert_eq!(net[1].bytes_recv, 0);
    assert_eq!(net[1].packets_sent, 0);
    assert_eq!(net[1].packets_recv, 0);
}

#[test]
fn counters_without_address_are_dropped() {
    let addrs = vec![addr("eth0", Address::V4("10.0.0.1".to_string()))];
    let cs = vec![
        counters("dummy0", 1, 2, 3, 4),
        counters("eth0", 9, 8, 7, 6),
    ];
    let net = collect_network(addrs, cs);
    assert_eq!(net.len(), 1);
    assert_eq!(net[0].name, "eth0");
    assert_eq!(net[0].bytes_sent, 9);
    assert_eq!(net[0].bytes_recv, 8);
    assert_eq!(net[0].packets_sent, 7);
    assert_eq!(net[0].packets_recv, 6);
}

#[test]
fn unreadable_counter_entries_are_skipped() {
    let addrs = vec![addr("eth0", Address::V4("10.0.0.1".to_string()))];
    let cs: Vec<Option<IoCounters>> = vec![None, counters("eth0", 11, 12, 13, 14), None];
    let net = collect_network(addrs, cs);
    assert_eq!(net.len(), 1);
    assert_eq!(net[0].bytes_sent, 11);
    assert_eq!(net[0].packets_recv, 14);
}

#[test]
fn later_address_of_same_family_overwrites_earlier() {
    let addrs = vec![
        addr("eth0", Address::V4("10.0.0.1".to_string())),
        addr("eth0", Address::V4("10.0.0.2".to_string())),
        addr("eth0", Address::V6("fe80::9".to_string())),
    ];
    let net = collect_network(addrs, Vec::new());
    assert_eq!(net.len(), 1);
    // The later IPv4 wins; the IPv6 of another family leaves it untouched.
    assert_eq!(net[0].ip, "10.0.0.2");
    assert_eq!(net[0].ip_v6, "fe80::9");
    assert_eq!(net[0].mac, "");
}

#[test]
fn later_counter_entry_overwrites_earlier() {
    let addrs = vec![addr("eth0", Address::Other)];
    let cs = vec![counters("eth0", 1, 1, 1, 1), counters("eth0", 2, 2, 2, 2)];
    let net = collect_network(addrs, cs);
    assert_eq!(net[0].bytes_sent, 2);
}

#[test]
fn sort_uppercases_both_sides() {
    // Byte order would put "B" (66) before "a" (97); the contract order
    // uppercases both sides, so "a" comes first.
    let addrs = vec![
        addr("B1", Address::Other),
        addr("a0", Address::Other),
    ];
    let net = collect_network(addrs, Vec::new());
    assert_eq!(net[0].name, "a0");
    assert_eq!(net[1].name, "B1");
}

#[test]
fn sorted_ascending_over_many_names() {
    let names = ["Wlan1", "eth10", "ETH2", "lo", "docker0", "veth9"];
    let addrs: Vec<AddrRecord> = names.iter().map(|n| addr(n, Address::Other)).collect();
    let net = collect_network(addrs, Vec::new());
    let got: Vec<String> = net.iter().map(|e| e.name.clone()).collect();
    // Uppercased, "ETH10" precedes "ETH2" lexicographically ('1' < '2').
    assert_eq!(got, vec!["docker0", "eth10", "ETH2", "lo", "veth9", "Wlan1"]);
}

#[test]
fn empty_phases_give_empty_list() {
    let net = collect_network(Vec::new(), Vec::new());
    assert_eq!(net.len(), 0);
}
