use speed::addr::Ipv4;
use speed::mqtt::{MqttAction, MqttEvent, MqttLink};

const BROKER: Ipv4 = Ipv4 { a: 192, b: 168, c: 1, d: 5 };

fn up() -> MqttEvent {
    MqttEvent::NetworkUp { broker: Some(BROKER), port: None }
}

fn step(link: &mut MqttLink, event: MqttEvent) -> MqttAction {
    assert!(link.accepts(event), "{:?} {:?}", link, event);
    link.step(event)
}

fn serving() -> MqttLink {
    let (mut link, action) = MqttLink::new();
    assert_eq!(action, MqttAction::AwaitNetwork);
    assert_eq!(step(&mut link, up()), MqttAction::Dial { addr: BROKER, port: 1883 });
    assert_eq!(step(&mut link, MqttEvent::Succeeded), MqttAction::Greet);
    assert_eq!(step(&mut link, MqttEvent::Succeeded), MqttAction::Subscribe);
    assert_eq!(step(&mut link, MqttEvent::Succeeded), MqttAction::Serve { set_counter: None });
    link
}

#[test]
fn the_link_connects_and_serves() {
    let mut link = serving();
    assert_eq!(step(&mut link, MqttEvent::PublishDue(Some(130))), MqttAction::Publish(100));
    assert_eq!(step(&mut link, MqttEvent::Succeeded), MqttAction::Serve { set_counter: None });
    assert_eq!(step(&mut link, MqttEvent::PublishDue(None)), MqttAction::Publish(0));
    assert_eq!(step(&mut link, MqttEvent::Succeeded), MqttAction::Serve { set_counter: None });
    assert_eq!(step(&mut link, MqttEvent::Received(None)), MqttAction::Serve { set_counter: None });
    assert_eq!(
        step(&mut link, MqttEvent::Received(Some(8))),
        MqttAction::Serve { set_counter: Some(8) }
    );
}

#[test]
fn without_a_broker_the_link_pauses() {
    let (mut link, _) = MqttLink::new();
    let event = MqttEvent::NetworkUp { broker: None, port: Some(1884) };
    for _ in 0..5 {
        assert_eq!(step(&mut link, event), MqttAction::Pause { abort: false, secs: 2 });
        assert_eq!(step(&mut link, MqttEvent::Rested), MqttAction::AwaitNetwork);
    }
    let event = MqttEvent::NetworkUp { broker: Some(BROKER), port: Some(1884) };
    assert_eq!(step(&mut link, event), MqttAction::Dial { addr: BROKER, port: 1884 });
}

#[test]
fn failures_in_a_row_bring_longer_pauses() {
    let (mut link, _) = MqttLink::new();
    for secs in [2, 4, 8, 16, 30, 30, 30] {
        step(&mut link, up());
        assert_eq!(step(&mut link, MqttEvent::Failed), MqttAction::Pause { abort: false, secs });
        step(&mut link, MqttEvent::Rested);
    }
    step(&mut link, up());
    step(&mut link, MqttEvent::Succeeded);
    assert_eq!(step(&mut link, MqttEvent::Failed), MqttAction::Pause { abort: true, secs: 30 });
    step(&mut link, MqttEvent::Rested);
    step(&mut link, up());
    step(&mut link, MqttEvent::Succeeded);
    step(&mut link, MqttEvent::Succeeded);
    assert_eq!(step(&mut link, MqttEvent::Failed), MqttAction::Pause { abort: true, secs: 30 });
    step(&mut link, MqttEvent::Rested);
    step(&mut link, up());
    for _ in 0..3 {
        step(&mut link, MqttEvent::Succeeded);
    }
    assert_eq!(step(&mut link, MqttEvent::ReceiveFailed), MqttAction::Pause { abort: true, secs: 2 });
    assert_eq!(link.backoff, 4);
}

#[test]
fn failures_of_every_kind_count() {
    let (mut link, _) = MqttLink::new();
    for (successes, secs) in [(1, 2), (0, 4), (2, 8), (1, 16), (2, 30), (0, 30)] {
        let nobody = MqttEvent::NetworkUp { broker: None, port: None };
        assert_eq!(step(&mut link, nobody), MqttAction::Pause { abort: false, secs: 2 });
        step(&mut link, MqttEvent::Rested);
        step(&mut link, up());
        for _ in 0..successes {
            step(&mut link, MqttEvent::Succeeded);
        }
        let abort = successes > 0;
        assert_eq!(step(&mut link, MqttEvent::Failed), MqttAction::Pause { abort, secs });
        step(&mut link, MqttEvent::Rested);
    }
}

#[test]
fn a_failed_publication_breaks_the_link() {
    let mut link = serving();
    step(&mut link, MqttEvent::PublishDue(Some(1)));
    assert_eq!(step(&mut link, MqttEvent::Failed), MqttAction::Pause { abort: true, secs: 2 });
    assert_eq!(step(&mut link, MqttEvent::Rested), MqttAction::AwaitNetwork);
}

#[test]
fn a_requested_reconnection_is_quick() {
    let mut link = serving();
    assert_eq!(
        step(&mut link, MqttEvent::ReconnectRequested),
        MqttAction::Pause { abort: true, secs: 1 }
    );
    assert_eq!(link.backoff, 2);
}

#[test]
fn events_out_of_place_are_not_accepted() {
    let (link, _) = MqttLink::new();
    assert!(!link.accepts(MqttEvent::Succeeded));
    assert!(!link.accepts(MqttEvent::Rested));
    let link = serving();
    assert!(!link.accepts(up()));
    assert!(!link.accepts(MqttEvent::Failed));
}
