//! The events of the display loop, and the queue in which they wait.

use embassy_sync::blocking_mutex::raw::NoopRawMutex;
use embassy_sync::priority_channel::{Max, PriorityChannel};
use vstd::multiset::Multiset;
use vstd::prelude::*;

verus! {

#[derive(Clone, Copy, Debug, PartialEq, Eq, Structural)]
pub enum UiEvent {
    Redraw,
    Frame,
    Housekeeping,
}

#[derive(Clone, Copy, Debug, PartialEq, Eq, Structural)]
pub enum UiEventPrio {
    Low,
    Normal,
    High,
}

/// An event in the queue. Of two events that of the higher priority comes
/// first; of the same priority, the later one.
#[derive(Clone, Copy, Debug, PartialEq, Eq, Structural)]
pub struct UiEventItem {
    pub prio: UiEventPrio,
    pub seq: u32,
    pub event: UiEvent,
}

/// The numbers that events are given, in the order in which they arise. After
/// the largest comes zero again.
pub struct EventNumbers {
    pub next: u32,
}

impl EventNumbers {
    pub fn new() -> (n: EventNumbers)
        ensures
            n.next == 0,
    {
        EventNumbers { next: 0 }
    }
}

/// `n` later than `count`.
pub open spec fn count_on(count: u32, n: nat) -> u32 {
    ((count + n) % 0x1_0000_0000) as u32
}

/// An event as the queue holds it: priority, number and event, in the order of
/// their weight.
pub type Key = (u8, u32, u8);

impl UiEvent {
    pub open spec fn number(self) -> u8 {
        match self {
            UiEvent::Redraw => 0,
            UiEvent::Frame => 1,
            UiEvent::Housekeeping => 2,
        }
    }
}

impl UiEventPrio {
    pub open spec fn number(self) -> u8 {
        match self {
            UiEventPrio::Low => 0,
            UiEventPrio::Normal => 1,
            UiEventPrio::High => 2,
        }
    }
}

impl UiEventItem {
    pub open spec fn key(self) -> Key {
        (self.prio.number(), self.seq, self.event.number())
    }

    /// An event that arises, with the next number.
    pub fn new(prio: UiEventPrio, event: UiEvent, numbers: &mut EventNumbers) -> (item: UiEventItem)
        ensures
            item == (UiEventItem { prio, seq: old(numbers).next, event }),
            final(numbers).next == count_on(old(numbers).next, 1),
    {
        let seq = numbers.next;
        numbers.next = seq.wrapping_add(1);
        UiEventItem { prio, seq, event }
    }

    fn to_key(&self) -> (key: Key)
        ensures
            key == self.key(),
    {
        let prio: u8 = match self.prio {
            UiEventPrio::Low => 0,
            UiEventPrio::Normal => 1,
            UiEventPrio::High => 2,
        };
        let event: u8 = match self.event {
            UiEvent::Redraw => 0,
            UiEvent::Frame => 1,
            UiEvent::Housekeeping => 2,
        };
        (prio, self.seq, event)
    }

    fn from_key(key: Key) -> (item: UiEventItem)
        requires
            is_key(key),
        ensures
            item.key() == key,
    {
        let prio = if key.0 == 0 {
            UiEventPrio::Low
        } else if key.0 == 1 {
            UiEventPrio::Normal
        } else {
            UiEventPrio::High
        };
        let event = if key.2 == 0 {
            UiEvent::Redraw
        } else if key.2 == 1 {
            UiEvent::Frame
        } else {
            UiEvent::Housekeeping
        };
        UiEventItem { prio, seq: key.1, event }
    }
}

/// The key of some event.
pub open spec fn is_key(key: Key) -> bool {
    key.0 <= 2 && key.2 <= 2
}

/// The order of keys: by the first component in which they differ.
pub open spec fn key_le(a: Key, b: Key) -> bool {
    a.0 < b.0 || (a.0 == b.0 && (a.1 < b.1 || (a.1 == b.1 && a.2 <= b.2)))
}

/// `key` is the greatest of `keys`.
pub open spec fn is_greatest(keys: Multiset<Key>, key: Key) -> bool {
    &&& keys.count(key) > 0
    &&& forall|k: Key| #[trigger] keys.count(k) > 0 ==> key_le(k, key)
}

// ---------------------------------------------------------------------------
// The channel
// ---------------------------------------------------------------------------

/// `PriorityChannel` of `embassy-sync`, for four keys, the greatest first. It
/// has one owner, so its mutex has nothing to guard.
#[verifier::external_body]
pub struct Channel {
    inner: PriorityChannel<NoopRawMutex, Key, Max, 4>,
}

/// The keys in a channel.
pub uninterp spec fn channel_keys(channel: Channel) -> Multiset<Key>;

/// `PriorityChannel::new`: an empty channel.
#[verifier::external_body]
fn new_channel() -> (channel: Channel)
    ensures
        channel_keys(channel) == Multiset::<Key>::empty(),
{
    Channel { inner: PriorityChannel::new() }
}

/// `PriorityChannel::try_send`: takes the key where the channel holds fewer
/// than four, and else refuses it and leaves the channel as it is.
#[verifier::external_body]
fn try_send(channel: &mut Channel, key: Key) -> (sent: bool)
    ensures
        sent == (channel_keys(*old(channel)).len() < 4),
        channel_keys(*final(channel)) == (if sent {
            channel_keys(*old(channel)).insert(key)
        } else {
            channel_keys(*old(channel))
        }),
{
    channel.inner.try_send(key).is_ok()
}

/// `PriorityChannel::try_receive`: takes the greatest key out of the channel,
/// by the order of tuples; gives nothing where the channel is empty.
#[verifier::external_body]
fn try_receive(channel: &mut Channel) -> (received: Option<Key>)
    ensures
        match received {
            Some(key) => {
                &&& is_greatest(channel_keys(*old(channel)), key)
                &&& channel_keys(*final(channel)) == channel_keys(*old(channel)).remove(key)
            },
            None => channel_keys(*old(channel)).len() == 0 && channel_keys(*final(channel))
                == channel_keys(*old(channel)),
        },
{
    channel.inner.try_receive().ok()
}

/// The queue of the display loop. It holds four events.
pub struct UiEventQueue {
    channel: Channel,
}

impl View for UiEventQueue {
    type V = Multiset<Key>;

    closed spec fn view(&self) -> Multiset<Key> {
        channel_keys(self.channel)
    }
}

impl UiEventQueue {
    pub open spec fn wf(self) -> bool {
        &&& self@.len() <= 4
        &&& forall|k: Key| #[trigger] self@.count(k) > 0 ==> is_key(k)
    }

    pub fn new() -> (q: UiEventQueue)
        ensures
            q.wf(),
            q@ == Multiset::<Key>::empty(),
    {
        UiEventQueue { channel: new_channel() }
    }

    /// Puts an event into the queue; one that finds it full is dropped.
    pub fn try_send(&mut self, item: UiEventItem) -> (sent: bool)
        requires
            old(self).wf(),
        ensures
            final(self).wf(),
            sent == (old(self)@.len() < 4),
            final(self)@ == (if sent {
                old(self)@.insert(item.key())
            } else {
                old(self)@
            }),
    {
        broadcast use vstd::multiset::group_multiset_axioms;

        try_send(&mut self.channel, item.to_key())
    }

    /// Takes the event that comes first out of the queue.
    pub fn try_receive(&mut self) -> (item: Option<UiEventItem>)
        requires
            old(self).wf(),
        ensures
            final(self).wf(),
            match item {
                Some(i) => {
                    &&& is_greatest(old(self)@, i.key())
                    &&& final(self)@ == old(self)@.remove(i.key())
                },
                None => old(self)@.len() == 0 && final(self)@ == old(self)@,
            },
    {
        broadcast use vstd::multiset::group_multiset_axioms;

        match try_receive(&mut self.channel) {
            Some(key) => Some(UiEventItem::from_key(key)),
            None => None,
        }
    }
}

// ---------------------------------------------------------------------------
// Housekeeping
// ---------------------------------------------------------------------------

/// How many housekeeping events have arisen, been dropped and been handled.
/// Each count starts again from zero after its largest value.
#[derive(Clone, Copy, Debug, PartialEq, Eq, Structural)]
pub struct Housekeeping {
    pub sent: u32,
    pub dropped: u32,
    pub handled: u32,
}

/// What the display loop does about an event.
#[derive(Clone, Copy, Debug, PartialEq, Eq, Structural)]
pub struct Reaction {
    pub redraw: bool,
    /// The counts are due for the log.
    pub report: bool,
}

/// The housekeeping events among the keys.
pub open spec fn housekeeping_keys(keys: Multiset<Key>) -> Multiset<Key> {
    keys.filter(|k: Key| k.2 == 2)
}

/// One of the keys asks for the display to be drawn.
pub open spec fn asks_redraw(keys: Multiset<Key>) -> bool {
    exists|k: Key| #[trigger] keys.count(k) > 0 && k.2 != 2
}

/// Every housekeeping event has been dropped, has been handled, or waits in
/// the queue.
pub open spec fn balanced(counts: Housekeeping, keys: Multiset<Key>) -> bool {
    (counts.sent - counts.dropped - counts.handled - housekeeping_keys(keys).len())
        % 0x1_0000_0000 == 0
}

proof fn lemma_put(keys: Multiset<Key>, key: Key)
    ensures
        keys.insert(key).len() == keys.len() + 1,
        housekeeping_keys(keys.insert(key)).len() == housekeeping_keys(keys).len() + (if key.2 == 2 {
            1int
        } else {
            0
        }),
        asks_redraw(keys.insert(key)) == (asks_redraw(keys) || key.2 != 2),
{
    broadcast use vstd::multiset::group_multiset_axioms;

    let more = keys.insert(key);
    if key.2 == 2 {
        assert(housekeeping_keys(more) == housekeeping_keys(keys).insert(key));
    } else {
        assert(housekeeping_keys(more) == housekeeping_keys(keys));
        assert(more.count(key) > 0);
    }
    if asks_redraw(keys) {
        let k = choose|k: Key| #[trigger] keys.count(k) > 0 && k.2 != 2;
        assert(more.count(k) > 0);
    }
    if asks_redraw(more) {
        let k = choose|k: Key| #[trigger] more.count(k) > 0 && k.2 != 2;
        assert(k == key || keys.count(k) > 0);
    }
}

proof fn lemma_take(keys: Multiset<Key>, key: Key)
    requires
        keys.count(key) > 0,
    ensures
        keys.remove(key).insert(key) == keys,
        keys.len() == keys.remove(key).len() + 1,
        housekeeping_keys(keys).len() == housekeeping_keys(keys.remove(key)).len() + (if key.2
            == 2 {
            1int
        } else {
            0
        }),
        asks_redraw(keys) == (asks_redraw(keys.remove(key)) || key.2 != 2),
{
    broadcast use vstd::multiset::group_multiset_axioms;

    assert(keys.remove(key).insert(key) == keys);
    lemma_put(keys.remove(key), key);
}

impl Housekeeping {
    pub fn new() -> (h: Housekeeping)
        ensures
            h == (Housekeeping { sent: 0, dropped: 0, handled: 0 }),
    {
        Housekeeping { sent: 0, dropped: 0, handled: 0 }
    }

    /// The clock of the housekeeping task: an event of low priority arises.
    pub fn tick(&mut self, queue: &mut UiEventQueue, numbers: &mut EventNumbers) -> (sent: bool)
        requires
            old(queue).wf(),
        ensures
            final(queue).wf(),
            sent == (old(queue)@.len() < 4),
            final(queue)@ == (if sent {
                old(queue)@.insert((0, old(numbers).next, 2))
            } else {
                old(queue)@
            }),
            final(numbers).next == count_on(old(numbers).next, 1),
            *final(self) == (Housekeeping {
                sent: count_on(old(self).sent, 1),
                dropped: count_on(
                    old(self).dropped,
                    if sent {
                        0
                    } else {
                        1
                    },
                ),
                handled: old(self).handled,
            }),
    {
        self.sent = self.sent.wrapping_add(1);
        let item = UiEventItem::new(UiEventPrio::Low, UiEvent::Housekeeping, numbers);
        assert(item.key() == (0u8, old(numbers).next, 2u8));
        let sent = queue.try_send(item);
        if !sent {
            self.dropped = self.dropped.wrapping_add(1);
        }
        sent
    }

    /// Reacts to one event. Every 128th housekeeping event is reported.
    pub fn apply_event(&mut self, item: UiEventItem) -> (r: Reaction)
        ensures
            match item.event {
                UiEvent::Redraw | UiEvent::Frame => {
                    &&& r == (Reaction { redraw: true, report: false })
                    &&& *final(self) == *old(self)
                },
                UiEvent::Housekeeping => {
                    &&& *final(self) == (Housekeeping {
                        handled: count_on(old(self).handled, 1),
                        ..*old(self)
                    })
                    &&& r == (Reaction {
                        redraw: false,
                        report: final(self).handled % 128 == 0,
                    })
                },
            },
    {
        match item.event {
            UiEvent::Redraw | UiEvent::Frame => Reaction { redraw: true, report: false },
            UiEvent::Housekeeping => {
                self.handled = self.handled.wrapping_add(1);
                Reaction { redraw: false, report: self.handled % 128 == 0 }
            },
        }
    }

    /// Takes every event out of the queue; whether one asks for the display to
    /// be drawn.
    pub fn drain(&mut self, queue: &mut UiEventQueue) -> (redraw: bool)
        requires
            old(queue).wf(),
        ensures
            final(queue).wf(),
            final(queue)@ == Multiset::<Key>::empty(),
            redraw == asks_redraw(old(queue)@),
            *final(self) == (Housekeeping {
                handled: count_on(old(self).handled, housekeeping_keys(old(queue)@).len()),
                ..*old(self)
            }),
    {
        broadcast use vstd::multiset::group_multiset_axioms;

        let mut redraw = false;
        let ghost all = queue@;
        let ghost start = *self;
        loop
            invariant
                queue.wf(),
                all == old(queue)@,
                start == *old(self),
                redraw || asks_redraw(queue@) <==> asks_redraw(all),
                self.sent == start.sent,
                self.dropped == start.dropped,
                count_on(self.handled, housekeeping_keys(queue@).len()) == count_on(
                    start.handled,
                    housekeeping_keys(all).len(),
                ),
            decreases queue@.len(),
        {
            let ghost keys = queue@;
            match queue.try_receive() {
                Some(item) => {
                    proof {
                        lemma_take(keys, item.key());
                    }
                    let _ = self.apply_event(item);
                    if !matches!(item.event, UiEvent::Housekeeping) {
                        redraw = true;
                    }
                },
                None => {
                    proof {
                        assert(queue@ == Multiset::<Key>::empty());
                        assert(housekeeping_keys(queue@) == Multiset::<Key>::empty());
                    }
                    return redraw;
                },
            }
        }
    }
}

// ---------------------------------------------------------------------------
// Laws
// ---------------------------------------------------------------------------

/// Events come out of the queue in their order: with nothing sent between, the
/// one received next is not greater.
pub proof fn law_received_in_order(keys: Multiset<Key>, first: Key, second: Key)
    requires
        is_greatest(keys, first),
        is_greatest(keys.remove(first), second),
    ensures
        key_le(second, first),
{
    broadcast use vstd::multiset::group_multiset_axioms;

    assert(keys.count(second) > 0);
}

/// An event of a higher priority is received before any of a lower one, and of
/// two of the same priority the later is.
pub proof fn law_priority(keys: Multiset<Key>, first: UiEventItem, other: UiEventItem)
    requires
        is_greatest(keys, first.key()),
        keys.count(other.key()) > 0,
    ensures
        other.prio.number() <= first.prio.number(),
        other.prio == first.prio ==> other.seq <= first.seq,
{
}

/// Events are numbered in the order in which they arise: a later one has the
/// larger number, until the numbers start again.
pub proof fn law_numbered_in_order(first: u32, n: nat)
    requires
        0 < n,
        first + n <= u32::MAX,
    ensures
        first < count_on(first, n),
{
}

/// No housekeeping event is lost from the counts: the balance of a tick, of
/// handling one event that was received, and of draining the queue.
pub proof fn law_balanced(counts: Housekeeping, keys: Multiset<Key>, key: Key)
    requires
        balanced(counts, keys),
        key.2 == 2,
    ensures
        balanced(
            Housekeeping { sent: count_on(counts.sent, 1), ..counts },
            keys.insert(key),
        ),
        balanced(
            (Housekeeping {
                sent: count_on(counts.sent, 1),
                dropped: count_on(counts.dropped, 1),
                handled: counts.handled,
            }),
            keys,
        ),
        keys.count(key) > 0 ==> balanced(
            (Housekeeping { handled: count_on(counts.handled, 1), ..counts }),
            keys.remove(key),
        ),
        balanced(
            (Housekeeping {
                handled: count_on(counts.handled, housekeeping_keys(keys).len()),
                ..counts
            }),
            Multiset::empty(),
        ),
{
    broadcast use vstd::multiset::group_multiset_axioms;

    lemma_put(keys, key);
    if keys.count(key) > 0 {
        lemma_take(keys, key);
    }
    assert(housekeeping_keys(Multiset::empty()) == Multiset::<Key>::empty());
}

/// Of the events in the queue one of high priority is received before any
/// other, one of low priority only where there are none but such, and of those
/// alike in priority the one that arose last.
pub proof fn law_high_before_low(keys: Multiset<Key>, first: UiEventItem, other: UiEventItem)
    requires
        is_greatest(keys, first.key()),
        keys.count(other.key()) > 0,
    ensures
        other.prio is High ==> first.prio is High,
        other.prio is Normal ==> !(first.prio is Low),
        other.prio == first.prio ==> other.seq <= first.seq,
        keys.count(first.key()) > 0,
{
}

/// Events that differ in anything are told apart in the queue.
pub proof fn law_events_told_apart(first: UiEventItem, second: UiEventItem)
    ensures
        first.key() == second.key() <==> first == second,
        is_key(first.key()),
        first.key().1 == first.seq,
{
}

/// Counts go up by what is counted, and start again from zero after their
/// largest value; counting on is counting both.
pub proof fn law_counts(count: u32, m: nat, n: nat)
    ensures
        count + n <= 0xffff_ffff ==> count_on(count, n) == count + n,
        count == 0xffff_ffff ==> count_on(count, 1) == 0,
        count_on(count, 0) == count,
        count_on(count_on(count, m), n) == count_on(count, m + n),
{
}

/// An event in the queue asks for the display to be drawn unless it is one of
/// housekeeping, and counts as housekeeping exactly where it is; an empty queue
/// asks for nothing and counts for nothing.
pub proof fn law_waiting_events(keys: Multiset<Key>, item: UiEventItem)
    ensures
        asks_redraw(keys.insert(item.key())) == (asks_redraw(keys) || item.event is Redraw
            || item.event is Frame),
        housekeeping_keys(keys.insert(item.key())).len() == housekeeping_keys(keys).len() + (
        if item.event is Housekeeping {
            1int
        } else {
            0
        }),
        !asks_redraw(Multiset::empty()),
        housekeeping_keys(Multiset::empty()).len() == 0,
{
    broadcast use vstd::multiset::group_multiset_axioms;

    lemma_put(keys, item.key());
    assert(housekeeping_keys(Multiset::empty()) == Multiset::<Key>::empty());
}

} // verus!
