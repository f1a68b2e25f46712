use embassy_net::{Ipv4Address, Ipv4Cidr};
use speed::addr::{
    announce_target, ip_from, ip_string, ipv4_string, local_mac_list, mac_string, read_ip,
    read_ipv4, IpAddr, Ipv4,
};

fn v4(a: u8, b: u8, c: u8, d: u8) -> Ipv4 {
    Ipv4 { a, b, c, d }
}

#[test]
fn ipv4_texts_are_read() {
    for s in [
        "192.168.0.1", "0.0.0.0", "255.255.255.255", "256.0.0.1", "1.2.3", "1.2.3.4.5", "01.2.3.4",
        "1.2.3.04", "1..2.3", "", ".", "...", "1.2.3.4 ", " 1.2.3.4", "+1.2.3.4", "1.2.3.-4",
        "00.0.0.0", "1.2.3.1000", "a.b.c.d", "0.00.0.0",
    ] {
        let std = s.parse::<Ipv4Address>().ok().map(|ip| {
            let [a, b, c, d] = ip.octets();
            v4(a, b, c, d)
        });
        assert_eq!(read_ipv4(s), std, "{:?}", s);
    }
}

#[test]
fn ipv4_texts_are_written_and_read_back() {
    for ip in [v4(192, 168, 0, 1), v4(0, 0, 0, 0), v4(255, 255, 255, 255), v4(10, 9, 100, 99)] {
        let s = ipv4_string(ip);
        assert_eq!(s, Ipv4Address::new(ip.a, ip.b, ip.c, ip.d).to_string());
        assert_eq!(read_ipv4(&s), Some(ip));
        assert_eq!(read_ip(&ip_string(IpAddr::V4(ip))), Some(IpAddr::V4(ip)));
    }
}

#[test]
fn ipv6_texts_are_read_and_written() {
    assert_eq!(read_ip("::1"), Some(IpAddr::V6(1)));
    assert_eq!(read_ip("fe80::1"), Some(IpAddr::V6(0xfe80_0000_0000_0000_0000_0000_0000_0001)));
    assert_eq!(read_ip("fe80::1%eth0"), None);
    assert_eq!(read_ip("(error)"), None);
    assert_eq!(ip_string(IpAddr::V6(1)), "::1");
    assert_eq!(ip_string(IpAddr::V6(0x2001_0db8_0000_0000_0000_0000_0000_00ff)), "2001:db8::ff");
}

#[test]
fn version_four_comes_first() {
    let ip = v4(1, 2, 3, 4);
    assert_eq!(ip_from(Some(ip), Some(9)), Some(IpAddr::V4(ip)));
    assert_eq!(ip_from(None, Some(9)), Some(IpAddr::V6(9)));
    assert_eq!(ip_from(None, None), None);
}

#[test]
fn the_panel_announces_to_its_network() {
    assert_eq!(announce_target(Some((v4(192, 168, 1, 77), 24))), v4(192, 168, 1, 255));
    assert_eq!(announce_target(Some((v4(10, 20, 30, 40), 8))), v4(10, 255, 255, 255));
    assert_eq!(announce_target(Some((v4(10, 20, 30, 40), 0))), v4(255, 255, 255, 255));
    assert_eq!(announce_target(Some((v4(10, 20, 30, 40), 30))), v4(10, 20, 30, 43));
    assert_eq!(announce_target(Some((v4(10, 20, 30, 40), 31))), v4(255, 255, 255, 255));
    assert_eq!(announce_target(Some((v4(10, 20, 30, 40), 32))), v4(255, 255, 255, 255));
    assert_eq!(announce_target(None), v4(255, 255, 255, 255));
    for prefix in 0..=32u8 {
        let block = Ipv4Cidr::new(Ipv4Address::new(172, 16, 5, 9), prefix);
        let std = block.broadcast().unwrap_or(Ipv4Address::new(255, 255, 255, 255));
        let [a, b, c, d] = std.octets();
        assert_eq!(announce_target(Some((v4(172, 16, 5, 9), prefix))), v4(a, b, c, d));
    }
}

#[test]
fn the_panel_shows_its_mac_in_small_letters() {
    assert_eq!(mac_string([0x00, 0x1a, 0xff, 0x09, 0xa0, 0x5b]), "00:1a:ff:09:a0:5b");
}

#[test]
fn the_desktop_shows_its_mac_in_capitals() {
    let mac = [0x00, 0x1a, 0xff, 0x09, 0xa0, 0x5b];
    assert_eq!(local_mac_list(Ok(Some(mac))), vec!["00:1A:FF:09:A0:5B".to_string()]);
    assert_eq!(local_mac_list(Ok(None)), vec!["(unknown)".to_string()]);
    assert_eq!(
        local_mac_list(Err("Internal API error".to_string())),
        vec!["(error: Internal API error)".to_string()]
    );
}
