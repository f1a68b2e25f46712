use speed::broker::{broker_step, BrokerAction, BrokerEvent};
use speed::counter::{
    clamp_counter, counter_payload, esp_report, next_heartbeat, read_payload, set_request, Counter,
    TOPIC_ESP_COUNTER, TOPIC_SET_COUNTER,
};

#[test]
fn the_counter_runs_up_and_down() {
    let mut c = Counter::new();
    for n in 1..=1000i32 {
        let m = n % 200;
        let expected = if m <= 100 { m } else { 200 - m };
        assert_eq!(c.tick(), expected);
    }
}

#[test]
fn a_set_counter_goes_on_from_its_new_value() {
    let mut c = Counter::new();
    c.tick();
    assert_eq!(c.set(40), 40);
    assert_eq!(c.tick(), 41);
    assert_eq!(c.set(100), 100);
    assert_eq!(c.tick(), 100);
    assert_eq!(c.tick(), 99);
    assert_eq!(c.set(40), 40);
    assert_eq!(c.tick(), 39);
    assert_eq!(c.set(-5), 0);
    assert_eq!(c.tick(), 0);
    assert_eq!(c.tick(), 1);
    assert_eq!(c.set(1000), 100);
}

#[test]
fn values_are_brought_into_range() {
    assert_eq!(clamp_counter(i32::MIN), 0);
    assert_eq!(clamp_counter(-1), 0);
    assert_eq!(clamp_counter(0), 0);
    assert_eq!(clamp_counter(57), 57);
    assert_eq!(clamp_counter(100), 100);
    assert_eq!(clamp_counter(101), 100);
    assert_eq!(clamp_counter(i32::MAX), 100);
}

#[test]
fn the_heartbeat_wraps() {
    assert_eq!(next_heartbeat(0), 1);
    assert_eq!(next_heartbeat(-1), 0);
    assert_eq!(next_heartbeat(i32::MAX), i32::MIN);
}

#[test]
fn payloads_are_read() {
    assert_eq!(read_payload(b"42"), Some(42));
    assert_eq!(read_payload(b" 42\r\n"), Some(42));
    assert_eq!(read_payload(b"-3"), Some(0));
    assert_eq!(read_payload(b"+250"), Some(100));
    assert_eq!(read_payload(b""), None);
    assert_eq!(read_payload(b"4 2"), None);
    assert_eq!(read_payload(b"42.0"), None);
    assert_eq!(read_payload(b"99999999999"), None);
    assert_eq!(read_payload(&[0x34, 0xff]), None);
}

#[test]
fn a_submitted_value_arrives() {
    for v in [-7, 0, 1, 9, 10, 55, 99, 100, 101, i32::MAX] {
        let payload = counter_payload(v);
        let arrived = set_request(TOPIC_SET_COUNTER, payload.as_bytes());
        assert_eq!(arrived, Some(v.clamp(0, 100)));
        let reported = esp_report(TOPIC_ESP_COUNTER.as_bytes(), counter_payload(arrived.unwrap()).as_bytes());
        assert_eq!(reported, arrived);
    }
    assert_eq!(counter_payload(7), "7");
    assert_eq!(counter_payload(400), "100");
}

#[test]
fn other_topics_are_passed_over() {
    assert_eq!(set_request("speed/counter/esp", b"5"), None);
    assert_eq!(set_request("", b"5"), None);
    assert_eq!(esp_report(b"speed/counter/set", b"5"), None);
    assert_eq!(esp_report(&[0xff], b"5"), None);
    assert_eq!(esp_report(b"speed/counter/esp", b"five"), None);
}

#[test]
fn the_broker_loop_answers_each_event() {
    match broker_step(&BrokerEvent::Submitted(Some(120))) {
        BrokerAction::Publish(s) => assert_eq!(s, "100"),
        other => panic!("{:?}", other),
    }
    assert!(matches!(broker_step(&BrokerEvent::Submitted(None)), BrokerAction::Stop));
    let report = BrokerEvent::Forwarded(b"speed/counter/esp".to_vec(), b"33".to_vec());
    assert!(matches!(broker_step(&report), BrokerAction::Report(33)));
    let other = BrokerEvent::Forwarded(b"speed/counter/set".to_vec(), b"33".to_vec());
    assert!(matches!(broker_step(&other), BrokerAction::Continue));
    let bad = BrokerEvent::Forwarded(b"speed/counter/esp".to_vec(), b"x".to_vec());
    assert!(matches!(broker_step(&bad), BrokerAction::Continue));
    assert!(matches!(broker_step(&BrokerEvent::Notified), BrokerAction::Log));
    assert!(matches!(broker_step(&BrokerEvent::Idle), BrokerAction::Continue));
    assert!(matches!(broker_step(&BrokerEvent::LinkFailed), BrokerAction::Rest));
}
