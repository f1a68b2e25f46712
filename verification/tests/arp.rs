use speed::addr::{IpAddr, Ipv4};
use speed::arp::{
    arp_key, parse_arp_key, parse_arp_key_to_ip, parse_arp_table, scan_arp_neighbors_windows,
    ArpNeighbor, ArpRun,
};

const TABLE: &str = "\r\nInterface: 192.168.0.10 --- 0x7\r\n  \
    Internet Address      Physical Address      Type\r\n  \
    192.168.0.1           01-23-45-67-89-AB     dynamic\r\n  \
    192.168.0.77          aa:BB:cc:dd:ee:ff     static  extra\r\n  \
    192.168.0.2           dynamic\r\n  \
    192.168.0.3           001122334455          dynamic\r\n";

fn parts(n: &ArpNeighbor) -> (&str, &str, &str, Option<&str>) {
    (n.ip.as_str(), n.mac.as_str(), n.kind.as_str(), n.label.as_deref())
}

fn run(stdout: &[u8]) -> Result<ArpRun, String> {
    Ok(ArpRun { success: true, status: "exit code: 0".to_string(), stdout: stdout.to_vec() })
}

#[test]
fn the_table_is_read() {
    let list = parse_arp_table(TABLE, &Some("192.168.0.77".to_string()));
    assert_eq!(
        list.iter().map(parts).collect::<Vec<_>>(),
        vec![
            ("192.168.0.1", "01:23:45:67:89:ab", "dynamic", None),
            ("192.168.0.77", "aa:bb:cc:dd:ee:ff", "static", Some("esp32tft")),
        ]
    );
    assert!(parse_arp_table("", &None).is_empty());
    assert!(parse_arp_table(TABLE, &None).iter().all(|n| n.label.is_none()));
}

#[test]
fn the_table_is_read_line_by_line() {
    let (first, second) = ("1.1.1.1 a-b x\n", "no\n2.2.2.2 c:d y\n");
    let both = format!("{}{}", first, second);
    let together = parse_arp_table(&both, &None);
    let mut apart = parse_arp_table(first, &None);
    apart.extend(parse_arp_table(second, &None));
    assert_eq!(
        together.iter().map(parts).collect::<Vec<_>>(),
        apart.iter().map(parts).collect::<Vec<_>>()
    );
    assert_eq!(together.len(), 2);
}

#[test]
fn only_ascii_letters_of_a_mac_are_made_small() {
    let list = parse_arp_table("1.1.1.1 \u{c4}-Z-- X", &None);
    assert_eq!(parts(&list[0]), ("1.1.1.1", "\u{c4}:z::", "X", None));
}

#[test]
fn a_scan_reads_what_arp_printed() {
    let esp = Some(IpAddr::V4(Ipv4 { a: 192, b: 168, c: 0, d: 77 }));
    let list = scan_arp_neighbors_windows(run(TABLE.as_bytes()), esp).unwrap();
    assert_eq!(list.len(), 2);
    assert_eq!(list[1].label.as_deref(), Some("esp32tft"));

    let esp = Some(IpAddr::V6(1));
    let list = scan_arp_neighbors_windows(run(b"1.1.1.1 a-\xff dynamic\n"), esp).unwrap();
    assert_eq!(parts(&list[0]), ("1.1.1.1", "a:\u{fffd}", "dynamic", None));
}

#[test]
fn a_scan_that_fails_says_why() {
    let failed = ArpRun { success: false, status: "exit code: 1".to_string(), stdout: vec![] };
    assert_eq!(
        scan_arp_neighbors_windows(Ok(failed), None).unwrap_err(),
        "arp -a exited with status exit code: 1"
    );
    assert_eq!(
        scan_arp_neighbors_windows(Err("not found".to_string()), None).unwrap_err(),
        "failed to run arp -a: not found"
    );
}

#[test]
fn keys_give_their_addresses_back() {
    let n = ArpNeighbor {
        ip: "192.168.0.1".to_string(),
        mac: "aa:bb".to_string(),
        kind: "dynamic".to_string(),
        label: None,
    };
    let key = arp_key(&n);
    assert_eq!(key, "192.168.0.1|aa:bb");
    assert_eq!(parse_arp_key(&key), Some(("192.168.0.1", "aa:bb")));
    assert_eq!(
        parse_arp_key_to_ip(&key),
        Some(IpAddr::V4(Ipv4 { a: 192, b: 168, c: 0, d: 1 }))
    );
}

#[test]
fn odd_keys_are_parsed() {
    assert_eq!(parse_arp_key("a|b|c"), Some(("a", "b|c")));
    assert_eq!(parse_arp_key("|"), Some(("", "")));
    assert_eq!(parse_arp_key("\u{fc}|\u{e9}"), Some(("\u{fc}", "\u{e9}")));
    assert_eq!(parse_arp_key("abc"), None);
    assert_eq!(parse_arp_key_to_ip("::1|x"), Some(IpAddr::V6(1)));
    assert_eq!(parse_arp_key_to_ip("(error)|x"), None);
    assert_eq!(parse_arp_key_to_ip("1.2.3.4"), None);
}
