use speed::addr::Ipv4;
use speed::events::{
    EventNumbers, Housekeeping, Reaction, UiEvent, UiEventItem, UiEventPrio, UiEventQueue,
};
use speed::ui::{
    button_pressed, drain_ui_events, handle_wake, next_wait, CounterWindow, FramePacer,
    FrameSwitch, LoopWait, NetInfo, PacerEvent, PacerWait, Pending, Wake,
};
use speed::wifi::{WifiConnState, WifiUiState};

fn nothing() -> Pending {
    Pending { counter: None, heartbeat: None, wifi: None, ipv4: None, mac: None }
}

fn joining(ssid_idx: u8) -> WifiUiState {
    WifiUiState { state: WifiConnState::Connecting, attempt: 2, blink_on: true, ssid_idx }
}

#[test]
fn the_window_starts_empty() {
    let ui = CounterWindow::new();
    assert_eq!((ui.counter, ui.heartbeat, ui.wifi_state, ui.wifi_attempt), (0, 0, 0, 0));
    assert_eq!(ui.wifi_ssid, "COMMUNITIES.WIN");
    assert!(!ui.wifi_blink);
    assert_eq!((ui.wifi_ip.as_str(), ui.wifi_mac.as_str()), ("", ""));
}

#[test]
fn the_state_of_the_network_is_shown() {
    let mut ui = CounterWindow::new();
    ui.set_wifi(joining(1));
    assert_eq!(ui.wifi_ssid, "324GUEST");
    assert_eq!((ui.wifi_state, ui.wifi_attempt, ui.wifi_blink), (1, 2, true));
    ui.set_wifi(joining(200));
    assert_eq!(ui.wifi_ssid, "324GUEST");
    ui.set_wifi(WifiUiState::disconnected());
    assert_eq!(ui.wifi_ssid, "COMMUNITIES.WIN");
}

#[test]
fn draining_shows_what_has_changed() {
    let mut queue = UiEventQueue::new();
    let mut counts = Housekeeping::new();
    let mut ui = CounterWindow::new();
    assert!(!drain_ui_events(&mut queue, nothing(), &mut ui, &mut counts));

    let all = Pending {
        counter: Some(7),
        heartbeat: Some(-3),
        wifi: Some(joining(1)),
        ipv4: Some(Some(Ipv4 { a: 10, b: 0, c: 0, d: 7 })),
        mac: Some(Some([0xde, 0xad, 0xbe, 0xef, 0, 1])),
    };
    assert!(drain_ui_events(&mut queue, all, &mut ui, &mut counts));
    assert_eq!((ui.counter, ui.heartbeat, ui.wifi_state), (7, -3, 1));
    assert_eq!(ui.wifi_ip, "10.0.0.7");
    assert_eq!(ui.wifi_mac, "de:ad:be:ef:00:01");

    let gone = Pending { ipv4: Some(None), mac: Some(None), ..nothing() };
    assert!(drain_ui_events(&mut queue, gone, &mut ui, &mut counts));
    assert_eq!((ui.wifi_ip.as_str(), ui.wifi_mac.as_str()), ("", ""));
    assert_eq!(ui.counter, 7);
}

#[test]
fn the_newest_value_is_shown() {
    let mut queue = UiEventQueue::new();
    let mut counts = Housekeeping::new();
    let mut ui = CounterWindow::new();
    drain_ui_events(&mut queue, Pending { counter: Some(1), heartbeat: Some(5), ..nothing() }, &mut ui, &mut counts);
    drain_ui_events(&mut queue, Pending { counter: Some(2), ..nothing() }, &mut ui, &mut counts);
    assert_eq!((ui.counter, ui.heartbeat), (2, 5));
}

#[test]
fn draining_asks_to_draw_for_queued_events() {
    let mut queue = UiEventQueue::new();
    let mut numbers = EventNumbers::new();
    let mut counts = Housekeeping::new();
    let mut ui = CounterWindow::new();
    counts.tick(&mut queue, &mut numbers);
    assert!(!drain_ui_events(&mut queue, nothing(), &mut ui, &mut counts));
    assert_eq!(counts.handled, 1);
    queue.try_send(button_pressed(&mut numbers));
    assert!(drain_ui_events(&mut queue, nothing(), &mut ui, &mut counts));
}

#[test]
fn waking_is_acted_on() {
    let mut ui = CounterWindow::new();
    let mut counts = Housekeeping { sent: 0, dropped: 0, handled: 127 };
    let yes = Reaction { redraw: true, report: false };
    assert_eq!(handle_wake(Wake::Counter(42), false, &mut ui, &mut counts), yes);
    assert_eq!(ui.counter, 42);
    assert_eq!(handle_wake(Wake::Heartbeat(9), false, &mut ui, &mut counts), yes);
    assert_eq!(ui.heartbeat, 9);
    assert_eq!(handle_wake(Wake::Wifi(joining(1)), false, &mut ui, &mut counts), yes);
    assert_eq!(ui.wifi_attempt, 2);
    assert_eq!(handle_wake(Wake::Explicit, false, &mut ui, &mut counts), yes);
    assert_eq!(handle_wake(Wake::Timeout, true, &mut ui, &mut counts), yes);
    assert!(!handle_wake(Wake::Timeout, false, &mut ui, &mut counts).redraw);
    let event = UiEventItem { prio: UiEventPrio::Low, seq: 0, event: UiEvent::Housekeeping };
    assert_eq!(
        handle_wake(Wake::Event(event), true, &mut ui, &mut counts),
        Reaction { redraw: false, report: true }
    );
    let event = UiEventItem { event: UiEvent::Frame, ..event };
    assert_eq!(handle_wake(Wake::Event(event), false, &mut ui, &mut counts), yes);
    assert_eq!(counts.handled, 128);
}

#[test]
fn the_loop_waits_for_timers() {
    assert_eq!(next_wait(true, Some(3)), LoopWait::AtMost(250_000));
    assert_eq!(next_wait(true, None), LoopWait::AtMost(250_000));
    assert_eq!(next_wait(false, Some(3)), LoopWait::AtMost(3));
    assert_eq!(next_wait(false, None), LoopWait::Forever);
}

#[test]
fn the_pacer_is_told_of_changes() {
    let mut switch = FrameSwitch::new();
    assert_eq!(switch.animate(false), None);
    assert_eq!(switch.animate(true), Some(true));
    assert_eq!(switch.animate(true), None);
    assert_eq!(switch.animate(false), Some(false));
}

#[test]
fn the_pacer_runs_while_switched_on() {
    let mut numbers = EventNumbers::new();
    let mut pacer = FramePacer::new(None);
    assert_eq!(pacer.waits_for(), PacerWait::Switch);
    assert_eq!(pacer.step(PacerEvent::Switched(false), &mut numbers), None);
    assert_eq!(pacer.waits_for(), PacerWait::Switch);
    assert_eq!(pacer.step(PacerEvent::Clock, &mut numbers), None);
    assert_eq!(pacer.step(PacerEvent::Switched(true), &mut numbers), None);
    assert_eq!(pacer.waits_for(), PacerWait::ClockOrSwitch);
    for seq in 0..3 {
        assert_eq!(
            pacer.step(PacerEvent::Clock, &mut numbers),
            Some(UiEventItem { prio: UiEventPrio::Low, seq, event: UiEvent::Frame })
        );
    }
    assert_eq!(pacer.step(PacerEvent::Switched(false), &mut numbers), None);
    assert_eq!(pacer.waits_for(), PacerWait::Switch);
    assert_eq!(pacer.step(PacerEvent::Clock, &mut numbers), None);
    assert_eq!(numbers.next, 3);
    assert_eq!(FramePacer::new(Some(true)).waits_for(), PacerWait::ClockOrSwitch);
    assert_eq!(FramePacer::new(Some(false)).waits_for(), PacerWait::Switch);
    let pressed = button_pressed(&mut numbers);
    assert_eq!((pressed.prio, pressed.seq, pressed.event), (UiEventPrio::High, 3, UiEvent::Redraw));
}

#[test]
fn the_pacer_follows_the_animation() {
    let mut numbers = EventNumbers::new();
    let mut switch = FrameSwitch::new();
    let mut pacer = FramePacer::new(Some(false));
    for animating in [false, true, true, false, false, true, false] {
        if let Some(on) = switch.animate(animating) {
            pacer.step(PacerEvent::Switched(on), &mut numbers);
        }
        assert_eq!(pacer.enabled, animating);
        assert_eq!(pacer.step(PacerEvent::Clock, &mut numbers).is_some(), animating);
    }
    assert_eq!(numbers.next, 3);
}

#[test]
fn an_address_is_told_once() {
    let (one, two) = (Ipv4 { a: 1, b: 2, c: 3, d: 4 }, Ipv4 { a: 1, b: 2, c: 3, d: 5 });
    let mut net = NetInfo::new();
    assert_eq!(net.configured(None), None);
    assert_eq!(net.configured(Some(one)), Some(one));
    assert_eq!(net.configured(Some(one)), None);
    assert_eq!(net.configured(None), None);
    assert_eq!(net.configured(Some(one)), None);
    assert_eq!(net.configured(Some(two)), Some(two));
}
