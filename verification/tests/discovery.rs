use speed::addr::{IpAddr, Ipv4};
use speed::discovery::{
    announce, broadcast_ip, unicast_ip, BrokerNews, DesktopDiscovery, DiscoveryMsg,
    PanelDiscovery, PanelNews, DISCOVERY_PORT, ESP_ANNOUNCE,
};

const ALL: Ipv4 = Ipv4 { a: 255, b: 255, c: 255, d: 255 };
const DESK: Ipv4 = Ipv4 { a: 192, b: 168, c: 1, d: 5 };
const FROM: Ipv4 = Ipv4 { a: 10, b: 0, c: 0, d: 1 };
const SECOND: u64 = 1_000_000_000;

fn msg(service: &str, ip: Option<&str>, mqtt_port: Option<u16>, reconnect: Option<bool>) -> DiscoveryMsg {
    DiscoveryMsg {
        service: Some(service.to_string()),
        reconnect,
        ip: ip.map(|s| s.to_string()),
        mqtt_port,
    }
}

/// Reads an announcement as the panel does.
fn read(text: &str) -> DiscoveryMsg {
    let v: serde_json::Value = serde_json::from_str(text).unwrap();
    DiscoveryMsg {
        service: v["service"].as_str().map(|s| s.to_string()),
        reconnect: v["reconnect"].as_bool(),
        ip: v["ip"].as_str().map(|s| s.to_string()),
        mqtt_port: v["mqtt_port"].as_u64().map(|p| p as u16),
    }
}

#[test]
fn the_desktop_announces_its_broker() {
    assert_eq!(
        announce(Some(DESK), false),
        "{\"service\":\"web_gui\",\"mqtt_port\":1883,\"ip\":\"192.168.1.5\"}"
    );
    assert_eq!(
        announce(Some(DESK), true),
        "{\"service\":\"web_gui\",\"mqtt_port\":1883,\"ip\":\"192.168.1.5\",\"reconnect\":true}"
    );
    assert_eq!(announce(None, false), "{\"service\":\"web_gui\",\"mqtt_port\":1883,\"ip\":\"\"}");
    assert_eq!(ESP_ANNOUNCE, "{\"service\":\"esp32tft\",\"http_port\":8080}");
    assert_eq!(DISCOVERY_PORT, 53530);
}

#[test]
fn an_announcement_reaches_the_panel() {
    let mut panel = PanelDiscovery::new();
    let news = panel.received(&read(&announce(Some(DESK), true)), FROM);
    assert_eq!(news, BrokerNews { broker: Some((DESK, 1883)), reconnect: true });
    let news = panel.received(&read(&announce(Some(DESK), false)), ALL);
    assert_eq!(news, BrokerNews { broker: None, reconnect: false });
    let news = panel.received(&read(&announce(None, false)), FROM);
    assert_eq!(news, BrokerNews { broker: Some((FROM, 1883)), reconnect: false });
}

#[test]
fn the_panel_takes_the_port_and_address_named() {
    let mut panel = PanelDiscovery::new();
    let news = panel.received(&msg("web_gui", Some("192.168.1.5"), Some(9), None), FROM);
    assert_eq!(news.broker, Some((DESK, 9)));
    let news = panel.received(&msg("web_gui", Some("nonsense"), Some(9), Some(true)), FROM);
    assert_eq!(news, BrokerNews { broker: Some((FROM, 9)), reconnect: true });
    let news = panel.received(&msg("web_gui", None, None, Some(false)), FROM);
    assert_eq!(news, BrokerNews { broker: Some((FROM, 1883)), reconnect: false });
}

#[test]
fn the_panel_passes_over_other_services() {
    let mut panel = PanelDiscovery::new();
    let none = BrokerNews { broker: None, reconnect: false };
    assert_eq!(panel.received(&msg("esp32tft", Some("1.2.3.4"), Some(1), Some(true)), FROM), none);
    let unnamed = DiscoveryMsg { service: None, ..msg("", None, None, Some(true)) };
    assert_eq!(panel.received(&unnamed, FROM), none);
    assert_eq!(panel.last_broker, None);
}

#[test]
fn settings_are_read() {
    let some = |s: &str| Some(s.to_string());
    assert_eq!(broadcast_ip(None), ALL);
    assert_eq!(broadcast_ip(some("192.168.1.5")), DESK);
    assert_eq!(broadcast_ip(some("::1")), ALL);
    assert_eq!(unicast_ip(None), None);
    assert_eq!(unicast_ip(some("192.168.1.5")), Some(IpAddr::V4(DESK)));
    assert_eq!(unicast_ip(some("::1")), Some(IpAddr::V6(1)));
    assert_eq!(unicast_ip(some("panel")), None);
}

#[test]
fn the_desktop_refreshes_a_quiet_panel() {
    let (all, panel, desk) = (IpAddr::V4(ALL), IpAddr::V4(FROM), IpAddr::V4(DESK));
    let mut d = DesktopDiscovery::new(ALL, Some(desk));
    assert_eq!(d.tick(0), vec![all, desk]);
    d.received(&Some("esp32tft".to_string()), panel, 10 * SECOND);
    assert_eq!(d.tick(40 * SECOND), vec![all, desk]);
    assert_eq!(d.tick(40 * SECOND + 1), vec![all, desk, panel]);
    assert_eq!(d.tick(41 * SECOND), vec![all, desk]);
    assert_eq!(d.last_seen, Some((panel, 40 * SECOND + 1)));
    assert_eq!(DesktopDiscovery::new(DESK, None).tick(0), vec![desk]);
}

#[test]
fn the_desktop_answers_a_new_panel() {
    let panel = IpAddr::V4(FROM);
    let esp = Some("esp32tft".to_string());
    let mut d = DesktopDiscovery::new(ALL, None);
    assert_eq!(d.received(&esp, panel, 1), PanelNews { panel: Some(panel), reply: true });
    assert_eq!(d.received(&esp, panel, 2), PanelNews { panel: Some(panel), reply: false });
    assert_eq!(d.last_seen, Some((panel, 2)));
    let other = IpAddr::V6(1);
    assert_eq!(d.received(&esp, other, 3), PanelNews { panel: Some(other), reply: true });
    assert_eq!(d.received(&esp, panel, 4), PanelNews { panel: Some(panel), reply: true });
}

#[test]
fn the_desktop_passes_over_other_services() {
    let mut d = DesktopDiscovery::new(ALL, None);
    let none = PanelNews { panel: None, reply: false };
    assert_eq!(d.received(&None, IpAddr::V4(FROM), 1), none);
    assert_eq!(d.received(&Some("web_gui".to_string()), IpAddr::V4(FROM), 1), none);
    assert_eq!((d.last_logged, d.last_seen), (None, None));
}
