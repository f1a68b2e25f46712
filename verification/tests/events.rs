use speed::events::{
    EventNumbers, Housekeeping, Reaction, UiEvent, UiEventItem, UiEventPrio, UiEventQueue,
};

fn item(prio: UiEventPrio, seq: u32, event: UiEvent) -> UiEventItem {
    UiEventItem { prio, seq, event }
}

#[test]
fn events_are_numbered_in_their_order() {
    let mut numbers = EventNumbers::new();
    for n in 0..5u32 {
        let i = UiEventItem::new(UiEventPrio::Normal, UiEvent::Frame, &mut numbers);
        assert_eq!(i, item(UiEventPrio::Normal, n, UiEvent::Frame));
    }
    let mut numbers = EventNumbers { next: u32::MAX };
    assert_eq!(UiEventItem::new(UiEventPrio::Low, UiEvent::Redraw, &mut numbers).seq, u32::MAX);
    assert_eq!(UiEventItem::new(UiEventPrio::Low, UiEvent::Redraw, &mut numbers).seq, 0);
}

#[test]
fn the_queue_gives_the_highest_priority_first() {
    let mut queue = UiEventQueue::new();
    let low = item(UiEventPrio::Low, 9, UiEvent::Frame);
    let older = item(UiEventPrio::High, 1, UiEvent::Redraw);
    let newer = item(UiEventPrio::High, 2, UiEvent::Redraw);
    let normal = item(UiEventPrio::Normal, 7, UiEvent::Housekeeping);
    assert!(queue.try_send(older));
    assert!(queue.try_send(low));
    assert!(queue.try_send(newer));
    assert!(queue.try_send(normal));
    assert_eq!(queue.try_receive(), Some(newer));
    assert_eq!(queue.try_receive(), Some(older));
    assert_eq!(queue.try_receive(), Some(normal));
    assert_eq!(queue.try_receive(), Some(low));
    assert_eq!(queue.try_receive(), None);
}

#[test]
fn the_full_queue_drops() {
    let mut queue = UiEventQueue::new();
    for seq in 0..4 {
        assert!(queue.try_send(item(UiEventPrio::Low, seq, UiEvent::Frame)));
    }
    assert!(!queue.try_send(item(UiEventPrio::High, 9, UiEvent::Redraw)));
    for seq in [3, 2, 1, 0] {
        assert_eq!(queue.try_receive().map(|i| i.seq), Some(seq));
    }
}

#[test]
fn housekeeping_is_counted() {
    let mut queue = UiEventQueue::new();
    let mut numbers = EventNumbers::new();
    let mut counts = Housekeeping::new();
    for n in 0..6 {
        assert_eq!(counts.tick(&mut queue, &mut numbers), n < 4);
    }
    assert_eq!(counts, Housekeeping { sent: 6, dropped: 2, handled: 0 });
    assert_eq!(
        queue.try_receive(),
        Some(item(UiEventPrio::Low, 3, UiEvent::Housekeeping))
    );
    let r = counts.apply_event(item(UiEventPrio::Low, 3, UiEvent::Housekeeping));
    assert_eq!(r, Reaction { redraw: false, report: false });
    assert!(!counts.drain(&mut queue));
    assert_eq!(counts, Housekeeping { sent: 6, dropped: 2, handled: 4 });
    assert_eq!(queue.try_receive(), None);
}

#[test]
fn every_128th_housekeeping_event_is_reported() {
    let mut counts = Housekeeping::new();
    for n in 1..=300u32 {
        let r = counts.apply_event(item(UiEventPrio::Low, n, UiEvent::Housekeeping));
        assert_eq!(r.report, n == 128 || n == 256);
    }
    let mut counts = Housekeeping { sent: 0, dropped: 0, handled: u32::MAX };
    let r = counts.apply_event(item(UiEventPrio::Low, 0, UiEvent::Housekeeping));
    assert_eq!((r.report, counts.handled), (true, 0));
}

#[test]
fn draining_tells_of_redraws() {
    let mut queue = UiEventQueue::new();
    let mut counts = Housekeeping::new();
    assert!(!counts.drain(&mut queue));
    queue.try_send(item(UiEventPrio::Low, 0, UiEvent::Housekeeping));
    queue.try_send(item(UiEventPrio::Low, 1, UiEvent::Frame));
    assert!(counts.drain(&mut queue));
    assert_eq!(counts.handled, 1);
    queue.try_send(item(UiEventPrio::High, 2, UiEvent::Redraw));
    assert!(counts.drain(&mut queue));
    assert_eq!(counts.handled, 1);
}
