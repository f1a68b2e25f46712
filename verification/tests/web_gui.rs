use speed::addr::{IpAddr, Ipv4};
use speed::arp::ArpNeighbor;
use speed::web_gui::{mqtt_alive, update, Animation, ArpScanResult, Effect, Message, WebGui};

const PANEL: Ipv4 = Ipv4 { a: 192, b: 168, c: 0, d: 77 };
const KEY: &str = "192.168.0.77|aa:bb";
const QUIET: (Effect, Animation) = (Effect::Nothing, Animation::Hold);

fn gui() -> WebGui {
    WebGui::new(vec!["00:11:22:33:44:55".to_string()])
}

fn neighbor(ip: &str, mac: &str, label: Option<&str>) -> ArpNeighbor {
    ArpNeighbor {
        ip: ip.to_string(),
        mac: mac.to_string(),
        kind: "dynamic".to_string(),
        label: label.map(|s| s.to_string()),
    }
}

fn found() -> ArpScanResult {
    ArpScanResult::Found(vec![
        neighbor("192.168.0.1", "cc:dd", None),
        neighbor("192.168.0.77", "aa:bb", Some("esp32tft")),
    ])
}

fn typed(gui: &mut WebGui, s: &str) {
    assert_eq!(update(gui, Message::InputChanged(s.to_string())), QUIET);
}

fn select(gui: &mut WebGui, key: &str, on: bool) -> (Effect, Animation) {
    update(gui, Message::SelectArp(key.to_string(), on))
}

#[test]
fn the_program_starts_with_a_scan() {
    let g = gui();
    assert_eq!((g.esp_counter, g.edit_value, g.edit_text.as_str()), (0, 0, "0"));
    assert!(g.arp_in_flight);
    assert_eq!(g.refresh_button(), ("Refreshing...", false));
    assert!(g.arp_rows().is_empty());
}

#[test]
fn only_digits_of_the_input_count() {
    let mut g = gui();
    for (raw, value, text) in [
        ("42", 42, "42"),
        ("4x2", 42, "42"),
        ("-5", 5, "5"),
        ("007", 7, "7"),
        ("1000", 100, "100"),
        ("99999999999", 0, "0"),
        ("\u{663}", 0, ""),
        ("", 0, ""),
    ] {
        typed(&mut g, raw);
        assert_eq!((g.edit_value, g.edit_text.as_str()), (value, text), "{:?}", raw);
    }
}

#[test]
fn the_slider_sets_the_text() {
    let mut g = gui();
    for (v, value) in [(55, 55), (-1, 0), (101, 100)] {
        assert_eq!(update(&mut g, Message::SliderChanged(v)), QUIET);
        assert_eq!((g.edit_value, g.edit_text.clone()), (value, value.to_string()));
        let shown = g.edit_text.clone();
        typed(&mut g, &shown);
        assert_eq!((g.edit_value, g.edit_text.clone()), (value, value.to_string()));
    }
}

#[test]
fn the_shown_value_is_submitted() {
    let mut g = gui();
    typed(&mut g, "250");
    assert_eq!(update(&mut g, Message::Submit), (Effect::Submit(100), Animation::Hold));
    typed(&mut g, "");
    assert_eq!(update(&mut g, Message::Submit), (Effect::Submit(0), Animation::Hold));
}

#[test]
fn a_selected_neighbour_is_told() {
    let mut g = gui();
    let tell = (Effect::Announce(IpAddr::V4(PANEL)), Animation::Hold);
    assert_eq!(select(&mut g, KEY, true), tell);
    assert_eq!(g.selected_arp_key.as_deref(), Some(KEY));
    assert_eq!(g.last_esp_ip, Some(IpAddr::V4(PANEL)));
    assert_eq!(select(&mut g, "other|x", false), QUIET);
    assert_eq!(g.selected_arp_key.as_deref(), Some(KEY));
    assert_eq!(select(&mut g, KEY, false), QUIET);
    assert_eq!(g.selected_arp_key, None);
    assert_eq!(g.last_esp_ip, Some(IpAddr::V4(PANEL)));
    assert_eq!(select(&mut g, "(error)|x", true), QUIET);
    assert_eq!(g.selected_arp_key.as_deref(), Some("(error)|x"));
    assert_eq!(g.last_esp_ip, Some(IpAddr::V4(PANEL)));
}

#[test]
fn one_scan_runs_at_a_time() {
    let mut g = gui();
    assert_eq!(update(&mut g, Message::RefreshArp), QUIET);
    assert_eq!(update(&mut g, Message::Tick(vec![])), (Effect::Nothing, Animation::Advance));
    assert_eq!(update(&mut g, Message::Tick(vec![found()])), (Effect::Nothing, Animation::Restart));
    assert!(!g.arp_in_flight);
    assert_eq!(g.refresh_button(), ("Refresh", true));
    assert_eq!(update(&mut g, Message::Tick(vec![])), QUIET);
    assert_eq!(update(&mut g, Message::RefreshArp), (Effect::Scan(None), Animation::Restart));
    assert_eq!(update(&mut g, Message::RefreshArp), QUIET);
    update(&mut g, Message::Tick(vec![found()]));
    g.panel_found(IpAddr::V4(PANEL));
    assert_eq!(
        update(&mut g, Message::RefreshArp),
        (Effect::Scan(Some(IpAddr::V4(PANEL))), Animation::Restart)
    );
}

#[test]
fn a_scan_drops_a_selection_that_is_gone() {
    let mut g = gui();
    select(&mut g, KEY, true);
    update(&mut g, Message::Tick(vec![found()]));
    assert_eq!(g.selected_arp_key.as_deref(), Some(KEY));
    let rows = g.arp_rows();
    assert_eq!(rows.iter().map(|r| r.checked).collect::<Vec<_>>(), vec![false, true]);
    update(&mut g, Message::Tick(vec![ArpScanResult::Failed("no arp".to_string())]));
    assert_eq!(g.selected_arp_key.as_deref(), Some(KEY));
    update(&mut g, Message::Tick(vec![ArpScanResult::Found(vec![]), found()]));
    assert_eq!(g.selected_arp_key, None);
    assert_eq!(g.arp_neighbors.len(), 2);
}

#[test]
fn a_failed_scan_is_shown() {
    let mut g = gui();
    update(&mut g, Message::Tick(vec![found(), ArpScanResult::Failed("no arp".to_string())]));
    let rows = g.arp_rows();
    assert_eq!(rows.len(), 1);
    assert_eq!(
        (rows[0].id, rows[0].ip_text.as_str(), rows[0].mac.as_str(), rows[0].kind.as_str()),
        (1, "(error)", "no arp", "")
    );
    assert!(!g.arp_in_flight);
}

#[test]
fn rows_show_labels_and_keys() {
    let mut g = gui();
    g.scan_ended(found());
    let rows = g.arp_rows();
    assert_eq!((rows[0].id, rows[0].ip_text.as_str()), (1, "192.168.0.1"));
    assert_eq!((rows[1].id, rows[1].ip_text.as_str()), (2, "192.168.0.77 (esp32tft)"));
    assert_eq!((rows[1].key.as_str(), rows[1].kind.as_str()), (KEY, "dynamic"));
    assert!(rows.iter().all(|r| !r.checked));
}

#[test]
fn the_summary_names_the_panel() {
    let mut g = gui();
    let s = g.summary(Some(Ipv4 { a: 10, b: 0, c: 0, d: 2 }));
    assert_eq!((s.local_ip.as_str(), s.local_mac.as_str()), ("10.0.0.2", "00:11:22:33:44:55"));
    assert_eq!((s.device_ip.as_str(), s.device_mac.as_str()), ("(none)", "(none)"));

    g.panel_found(IpAddr::V4(PANEL));
    let s = g.summary(None);
    assert_eq!(s.local_ip, "(unknown)");
    assert_eq!((s.device_ip.as_str(), s.device_mac.as_str()), ("192.168.0.77", "(unknown)"));

    g.scan_ended(found());
    assert_eq!(g.summary(None).device_mac, "aa:bb");
    g.panel_found(IpAddr::V6(1));
    let s = g.summary(None);
    assert_eq!((s.device_ip.as_str(), s.device_mac.as_str()), ("::1", "(unknown)"));

    select(&mut g, "192.168.0.1|cc:dd", true);
    let s = g.summary(None);
    assert_eq!((s.device_ip.as_str(), s.device_mac.as_str()), ("192.168.0.1", "cc:dd"));
    select(&mut g, "no bar", true);
    assert_eq!(g.summary(None).device_ip, "192.168.0.1");
    assert_eq!(WebGui::new(vec![]).summary(None).local_mac, "(unknown)");
}

#[test]
fn the_report_of_the_panel_is_shown() {
    let mut g = gui();
    g.esp_reported(37);
    assert_eq!(g.counter_line(), "Counter (from slint_tft): 37");
    g.esp_reported(1000);
    assert_eq!(g.counter_line(), "Counter (from slint_tft): 100");
    g.esp_reported(-1);
    assert_eq!(g.counter_line(), "Counter (from slint_tft): 0");
}

#[test]
fn the_panel_is_alive_for_25_seconds() {
    assert!(!mqtt_alive(None));
    assert!(mqtt_alive(Some(0)));
    assert!(mqtt_alive(Some(24_999_999_999)));
    assert!(!mqtt_alive(Some(25_000_000_000)));
}
