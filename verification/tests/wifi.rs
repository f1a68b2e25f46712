use speed::wifi::{
    choose_ssid, find_target, list_strongest, wifi_connect_task, AccessPoint, WifiAction,
    WifiConnState, WifiEvent, WifiPhase, WifiUiState, MAX_LISTED, WIFI_MAX_ATTEMPTS, WIFI_PASSWORD,
    WIFI_SSIDS, WIFI_TICKS,
};

fn ap(ssid: &str, rssi: i8) -> AccessPoint {
    AccessPoint { ssid: ssid.to_string(), rssi }
}

fn ui(state: WifiConnState, attempt: u8, blink_on: bool, ssid_idx: u8) -> WifiUiState {
    WifiUiState { state, attempt, blink_on, ssid_idx }
}

/// Runs the task to its end; `connects` and `connected` answer for the radio.
fn run(
    scan: fn() -> Option<Vec<AccessPoint>>,
    configures: fn(usize) -> bool,
    connects: fn(usize) -> bool,
    connected: fn(usize) -> bool,
) -> (Vec<WifiUiState>, Vec<WifiAction>) {
    let (mut phase, mut step) = WifiPhase::start();
    let mut shown = Vec::new();
    let mut actions = Vec::new();
    let (mut n_conf, mut n_conn, mut n_check) = (0, 0, 0);
    loop {
        shown.extend(step.show);
        actions.push(step.action);
        assert!(actions.len() <= 379);
        let event = match step.action {
            WifiAction::Stop => return (shown, actions),
            WifiAction::Configure { .. } => {
                n_conf += 1;
                WifiEvent::Done(configures(n_conf))
            }
            WifiAction::Start | WifiAction::Disconnect => WifiEvent::Done(true),
            WifiAction::Scan => WifiEvent::Scanned(scan()),
            WifiAction::Connect => {
                n_conn += 1;
                WifiEvent::Done(connects(n_conn))
            }
            WifiAction::CheckStation => {
                n_check += 1;
                WifiEvent::Station(connected(n_check))
            }
            WifiAction::AwaitTick | WifiAction::Rest => WifiEvent::Elapsed,
        };
        assert!(phase.accepts(&event));
        let (next, s) = wifi_connect_task(phase, &event);
        phase = next;
        step = s;
    }
}

fn count(actions: &[WifiAction], a: WifiAction) -> usize {
    actions.iter().filter(|x| **x == a).count()
}

#[test]
fn settings() {
    assert_eq!(WIFI_SSIDS, ["COMMUNITIES.WIN", "324GUEST"]);
    assert_eq!(WIFI_PASSWORD, "72427040");
    assert_eq!(WIFI_MAX_ATTEMPTS, 3);
    assert_eq!(WIFI_TICKS, 60);
}

#[test]
fn disconnected_is_all_off() {
    assert_eq!(WifiUiState::disconnected(), ui(WifiConnState::Disconnected, 0, false, 0));
    assert_eq!(WifiConnState::Disconnected.code(), 0);
    assert_eq!(WifiConnState::Connecting.code(), 1);
    assert_eq!(WifiConnState::Connected.code(), 2);
}

#[test]
fn the_stronger_network_is_chosen() {
    assert_eq!(choose_ssid(&vec![]), 0);
    assert_eq!(choose_ssid(&vec![ap("other", -10)]), 0);
    assert_eq!(choose_ssid(&vec![ap("324GUEST", -90)]), 1);
    assert_eq!(choose_ssid(&vec![ap("324GUEST", -50), ap("COMMUNITIES.WIN", -60)]), 1);
    assert_eq!(choose_ssid(&vec![ap("324GUEST", -60), ap("COMMUNITIES.WIN", -60)]), 0);
    assert_eq!(
        choose_ssid(&vec![
            ap("COMMUNITIES.WIN", -80),
            ap("324GUEST", -60),
            ap("COMMUNITIES.WIN", -50),
            ap("324GUEST", -70),
        ]),
        0
    );
}

#[test]
fn the_strongest_are_listed_first() {
    let aps = vec![ap("a", -50), ap("b", -40), ap("c", -50), ap("d", -30), ap("e", -60)];
    assert_eq!(list_strongest(&aps), vec![3, 1, 0, 2, 4]);
    assert_eq!(list_strongest(&vec![]), Vec::<usize>::new());
    let many: Vec<AccessPoint> = (0..40).map(|i| ap("x", i as i8 - 90)).collect();
    let listed = list_strongest(&many);
    assert_eq!(listed.len(), MAX_LISTED);
    assert_eq!(listed, (0..15).map(|k| 39 - k).collect::<Vec<usize>>());
}

#[test]
fn targets_are_found_in_a_scan() {
    let aps = vec![ap("a", -50), ap("b", -40), ap("a", -30), ap("a", -30)];
    assert_eq!(find_target(&aps, "a"), Some(2));
    assert_eq!(find_target(&aps, "b"), Some(1));
    assert_eq!(find_target(&aps, "c"), None);
}

#[test]
fn joining_succeeds_at_once() {
    let (shown, actions) = run(|| Some(vec![ap("324GUEST", -40)]), |_| true, |_| true, |n| n == 3);
    assert_eq!(
        shown,
        vec![
            ui(WifiConnState::Disconnected, 0, false, 0),
            ui(WifiConnState::Disconnected, 0, false, 1),
            ui(WifiConnState::Connecting, 1, true, 1),
            ui(WifiConnState::Connecting, 1, false, 1),
            ui(WifiConnState::Connected, 1, false, 1),
        ]
    );
    assert_eq!(
        actions,
        vec![
            WifiAction::Configure { ssid_idx: 0 },
            WifiAction::Start,
            WifiAction::Scan,
            WifiAction::Scan,
            WifiAction::Configure { ssid_idx: 1 },
            WifiAction::Disconnect,
            WifiAction::Connect,
            WifiAction::CheckStation,
            WifiAction::AwaitTick,
            WifiAction::CheckStation,
            WifiAction::AwaitTick,
            WifiAction::CheckStation,
            WifiAction::Stop,
        ]
    );
}

#[test]
fn joining_gives_up_after_three_attempts() {
    let (shown, actions) = run(|| None, |_| true, |_| true, |_| false);
    assert_eq!(count(&actions, WifiAction::Connect), 3);
    assert_eq!(count(&actions, WifiAction::CheckStation), 180);
    assert_eq!(count(&actions, WifiAction::Rest), 3);
    assert_eq!(shown.last(), Some(&ui(WifiConnState::Disconnected, 0, false, 0)));
    assert!(shown.iter().all(|s| s.state != WifiConnState::Connected));
    assert_eq!(actions.len(), 379);
}

#[test]
fn a_refused_configuration_is_an_attempt() {
    let (shown, actions) = run(|| None, |n| n == 1, |_| true, |_| true);
    assert_eq!(count(&actions, WifiAction::Connect), 0);
    assert_eq!(count(&actions, WifiAction::Rest), 3);
    assert_eq!(
        shown,
        vec![
            ui(WifiConnState::Disconnected, 0, false, 0),
            ui(WifiConnState::Disconnected, 0, false, 0),
            ui(WifiConnState::Disconnected, 0, false, 0),
            ui(WifiConnState::Disconnected, 0, false, 0),
            ui(WifiConnState::Disconnected, 0, false, 0),
        ]
    );
}

#[test]
fn a_refused_connection_is_shown() {
    let (shown, actions) = run(|| None, |_| true, |n| n == 2, |_| true);
    assert_eq!(count(&actions, WifiAction::Connect), 2);
    assert_eq!(
        shown,
        vec![
            ui(WifiConnState::Disconnected, 0, false, 0),
            ui(WifiConnState::Disconnected, 0, false, 0),
            ui(WifiConnState::Disconnected, 1, false, 0),
            ui(WifiConnState::Disconnected, 0, false, 0),
            ui(WifiConnState::Connected, 2, false, 0),
        ]
    );
}

#[test]
fn a_radio_that_does_not_start_ends_the_task() {
    let (phase, _) = WifiPhase::start();
    let (phase, step) = wifi_connect_task(phase, &WifiEvent::Done(false));
    assert_eq!((phase, step.action), (WifiPhase::Finished, WifiAction::Stop));
    let (phase, step) = wifi_connect_task(WifiPhase::Starting, &WifiEvent::Done(false));
    assert_eq!((phase, step.action), (WifiPhase::Finished, WifiAction::Stop));
    assert!(!phase.accepts(&WifiEvent::Done(true)));
    assert!(!WifiPhase::Starting.accepts(&WifiEvent::Elapsed));
}
