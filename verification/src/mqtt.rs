//! The panel's connection to the broker on the desktop.

use crate::addr::Ipv4;
use vstd::arithmetic::power2::{lemma2_to64, lemma_pow2_unfold, pow2};
use vstd::prelude::*;

verus! {

/// The port of the broker where none has been announced.
pub const MQTT_PORT: u16 = 1883;

/// The first pause after a failure, in seconds.
pub const BACKOFF_MIN: u64 = 2;

/// The longest pause after a failure, in seconds.
pub const BACKOFF_MAX: u64 = 30;

/// How far the connection has come: what is being waited for.
#[derive(Clone, Copy, Debug, PartialEq, Eq, Structural)]
pub enum MqttPhase {
    /// The network.
    AwaitingNetwork,
    /// The TCP connection.
    Dialing,
    /// The broker's answer to the client.
    Greeting,
    /// The broker's answer to the subscription.
    Subscribing,
    /// Anything: the connection stands.
    Serving,
    /// A message to go out.
    Publishing,
    /// The end of a pause.
    Pausing,
}

/// What has happened.
#[derive(Clone, Copy, Debug, PartialEq, Eq, Structural)]
pub enum MqttEvent {
    /// The network is up; the broker as far as it has been discovered.
    NetworkUp { broker: Option<Ipv4>, port: Option<u16> },
    /// What was being waited for has come about.
    Succeeded,
    /// It has failed, or taken too long.
    Failed,
    /// The counter is due; its value, if there is one yet.
    PublishDue(Option<i32>),
    /// A message has come, and the value that it sets the counter to, if it does.
    Received(Option<i32>),
    /// Receiving has failed.
    ReceiveFailed,
    /// Another task asks for a new connection.
    ReconnectRequested,
    /// The pause is over.
    Rested,
}

/// What to do next.
#[derive(Clone, Copy, Debug, PartialEq, Eq, Structural)]
pub enum MqttAction {
    /// Wait until the network is up.
    AwaitNetwork,
    /// Dial the broker.
    Dial { addr: Ipv4, port: u16 },
    /// Greet the broker.
    Greet,
    /// Subscribe to the topic that sets the counter.
    Subscribe,
    /// Wait for the clock, a message or a request; first set the counter, if
    /// there is a value.
    Serve { set_counter: Option<i32> },
    /// Publish this value.
    Publish(i32),
    /// Sleep for so many seconds, after breaking off the connection where there
    /// is one.
    Pause { abort: bool, secs: u64 },
}

/// The connection and the pause that the next failure will bring, in seconds.
#[derive(Clone, Copy, Debug, PartialEq, Eq, Structural)]
pub struct MqttLink {
    pub phase: MqttPhase,
    pub backoff: u64,
}

/// The pause after the next.
pub open spec fn doubled(backoff: u64) -> u64 {
    if 2 * backoff <= BACKOFF_MAX {
        (2 * backoff) as u64
    } else {
        BACKOFF_MAX
    }
}

impl MqttLink {
    pub open spec fn wf(self) -> bool {
        &&& BACKOFF_MIN <= self.backoff <= BACKOFF_MAX
        &&& self.phase is Serving || self.phase is Publishing ==> self.backoff == BACKOFF_MIN
    }

    /// The event can happen in this phase.
    pub open spec fn expects(self, event: MqttEvent) -> bool {
        match self.phase {
            MqttPhase::AwaitingNetwork => event is NetworkUp,
            MqttPhase::Dialing | MqttPhase::Greeting | MqttPhase::Subscribing
            | MqttPhase::Publishing => event is Succeeded || event is Failed,
            MqttPhase::Serving => event is PublishDue || event is Received || event is ReceiveFailed
                || event is ReconnectRequested,
            MqttPhase::Pausing => event is Rested,
        }
    }

    /// After a failure: a pause, and twice as long a pause after the next.
    pub open spec fn backed_off(self, abort: bool) -> (MqttLink, MqttAction) {
        (
            MqttLink { phase: MqttPhase::Pausing, backoff: doubled(self.backoff) },
            MqttAction::Pause { abort, secs: self.backoff },
        )
    }

    /// The link after the event, and what to do.
    pub open spec fn next(self, event: MqttEvent) -> (MqttLink, MqttAction) {
        let failed = event is Failed;
        match self.phase {
            MqttPhase::AwaitingNetwork => match event->broker {
                Some(addr) => (
                    MqttLink { phase: MqttPhase::Dialing, ..self },
                    MqttAction::Dial {
                        addr,
                        port: match event->port {
                            Some(port) => port,
                            None => MQTT_PORT,
                        },
                    },
                ),
                None => (
                    MqttLink { phase: MqttPhase::Pausing, ..self },
                    MqttAction::Pause { abort: false, secs: 2 },
                ),
            },
            MqttPhase::Dialing => if failed {
                self.backed_off(false)
            } else {
                (MqttLink { phase: MqttPhase::Greeting, ..self }, MqttAction::Greet)
            },
            MqttPhase::Greeting => if failed {
                self.backed_off(true)
            } else {
                (MqttLink { phase: MqttPhase::Subscribing, ..self }, MqttAction::Subscribe)
            },
            MqttPhase::Subscribing => if failed {
                self.backed_off(true)
            } else {
                (
                    MqttLink { phase: MqttPhase::Serving, backoff: BACKOFF_MIN },
                    MqttAction::Serve { set_counter: None },
                )
            },
            MqttPhase::Serving => match event {
                MqttEvent::PublishDue(counter) => (
                    MqttLink { phase: MqttPhase::Publishing, ..self },
                    MqttAction::Publish(
                        match counter {
                            Some(v) => crate::counter::clamped(v as int) as i32,
                            None => 0,
                        },
                    ),
                ),
                MqttEvent::Received(value) => (self, MqttAction::Serve { set_counter: value }),
                MqttEvent::ReconnectRequested => (
                    MqttLink { phase: MqttPhase::Pausing, backoff: BACKOFF_MIN },
                    MqttAction::Pause { abort: true, secs: 1 },
                ),
                _ => self.backed_off(true),
            },
            MqttPhase::Publishing => if failed {
                self.backed_off(true)
            } else {
                (
                    MqttLink { phase: MqttPhase::Serving, ..self },
                    MqttAction::Serve { set_counter: None },
                )
            },
            MqttPhase::Pausing => (
                MqttLink { phase: MqttPhase::AwaitingNetwork, ..self },
                MqttAction::AwaitNetwork,
            ),
        }
    }

    /// The link at start: it waits for the network.
    pub fn new() -> (r: (MqttLink, MqttAction))
        ensures
            r.0.wf(),
            r.0 == MqttLink::at_start(),
            r.1 == MqttAction::AwaitNetwork,
    {
        (
            MqttLink { phase: MqttPhase::AwaitingNetwork, backoff: BACKOFF_MIN },
            MqttAction::AwaitNetwork,
        )
    }

    /// Whether the event can happen in this phase.
    pub fn accepts(&self, event: MqttEvent) -> (b: bool)
        ensures
            b == self.expects(event),
    {
        match self.phase {
            MqttPhase::AwaitingNetwork => matches!(event, MqttEvent::NetworkUp { .. }),
            MqttPhase::Dialing | MqttPhase::Greeting | MqttPhase::Subscribing
            | MqttPhase::Publishing => matches!(event, MqttEvent::Succeeded | MqttEvent::Failed),
            MqttPhase::Serving => matches!(
                event,
                MqttEvent::PublishDue(_) | MqttEvent::Received(_) | MqttEvent::ReceiveFailed
                | MqttEvent::ReconnectRequested
            ),
            MqttPhase::Pausing => matches!(event, MqttEvent::Rested),
        }
    }

    fn back_off(&mut self, abort: bool) -> (action: MqttAction)
        requires
            old(self).backoff <= BACKOFF_MAX,
        ensures
            (*final(self), action) == old(self).backed_off(abort),
    {
        let secs = self.backoff;
        self.phase = MqttPhase::Pausing;
        self.backoff = if 2 * secs <= BACKOFF_MAX {
            2 * secs
        } else {
            BACKOFF_MAX
        };
        MqttAction::Pause { abort, secs }
    }

    /// Goes on with what has happened.
    pub fn step(&mut self, event: MqttEvent) -> (action: MqttAction)
        requires
            old(self).wf(),
            old(self).expects(event),
        ensures
            final(self).wf(),
            (*final(self), action) == old(self).next(event),
    {
        let failed = matches!(event, MqttEvent::Failed);
        match self.phase {
            MqttPhase::AwaitingNetwork => {
                if let MqttEvent::NetworkUp { broker: Some(addr), port } = event {
                    self.phase = MqttPhase::Dialing;
                    let port = match port {
                        Some(port) => port,
                        None => MQTT_PORT,
                    };
                    MqttAction::Dial { addr, port }
                } else {
                    self.phase = MqttPhase::Pausing;
                    MqttAction::Pause { abort: false, secs: 2 }
                }
            },
            MqttPhase::Dialing => if failed {
                self.back_off(false)
            } else {
                self.phase = MqttPhase::Greeting;
                MqttAction::Greet
            },
            MqttPhase::Greeting => if failed {
                self.back_off(true)
            } else {
                self.phase = MqttPhase::Subscribing;
                MqttAction::Subscribe
            },
            MqttPhase::Subscribing => if failed {
                self.back_off(true)
            } else {
                self.phase = MqttPhase::Serving;
                self.backoff = BACKOFF_MIN;
                MqttAction::Serve { set_counter: None }
            },
            MqttPhase::Serving => match event {
                MqttEvent::PublishDue(counter) => {
                    self.phase = MqttPhase::Publishing;
                    MqttAction::Publish(
                        match counter {
                            Some(v) => crate::counter::clamp_counter(v),
                            None => 0,
                        },
                    )
                },
                MqttEvent::Received(value) => MqttAction::Serve { set_counter: value },
                MqttEvent::ReconnectRequested => {
                    self.phase = MqttPhase::Pausing;
                    self.backoff = BACKOFF_MIN;
                    MqttAction::Pause { abort: true, secs: 1 }
                },
                _ => self.back_off(true),
            },
            MqttPhase::Publishing => if failed {
                self.back_off(true)
            } else {
                self.phase = MqttPhase::Serving;
                MqttAction::Serve { set_counter: None }
            },
            MqttPhase::Pausing => {
                self.phase = MqttPhase::AwaitingNetwork;
                MqttAction::AwaitNetwork
            },
        }
    }
}

// ---------------------------------------------------------------------------
// Laws
// ---------------------------------------------------------------------------

/// No pause after a failure is shorter than `BACKOFF_MIN` or longer than
/// `BACKOFF_MAX`, and none between two failures in a row is shorter than the
/// one before.
pub proof fn law_backoff(link: MqttLink, abort: bool)
    requires
        link.wf(),
    ensures
        ({
            let (after, action) = link.backed_off(abort);
            &&& action matches MqttAction::Pause { secs, .. } && BACKOFF_MIN <= secs <= BACKOFF_MAX
                && secs <= after.backoff
            &&& after.wf()
            &&& after.backoff == 2 * link.backoff || after.backoff == BACKOFF_MAX
        }),
{
}

impl MqttEvent {
    /// Something has failed.
    pub open spec fn is_failure(self) -> bool {
        self is Failed || self is ReceiveFailed
    }
}

impl MqttLink {
    /// The link at start.
    pub open spec fn at_start() -> MqttLink {
        MqttLink { phase: MqttPhase::AwaitingNetwork, backoff: BACKOFF_MIN }
    }

    /// The link after the events, one after the other.
    pub open spec fn after(self, events: Seq<MqttEvent>) -> MqttLink
        decreases events.len(),
    {
        if events.len() == 0 {
            self
        } else {
            self.after(events.drop_last()).next(events.last()).0
        }
    }

    /// Each of the events can happen when it comes.
    pub open spec fn runs(self, events: Seq<MqttEvent>) -> bool
        decreases events.len(),
    {
        events.len() == 0 || (self.runs(events.drop_last()) && self.after(
            events.drop_last(),
        ).expects(events.last()))
    }

    /// The event forgets the failures before it: the subscription has been made,
    /// or a new connection is asked for.
    pub open spec fn forgets(self, event: MqttEvent) -> bool {
        (self.phase is Subscribing && event is Succeeded) || event is ReconnectRequested
    }

    /// The failures among the events, since the last that forgets those before
    /// it.
    pub open spec fn failures(self, events: Seq<MqttEvent>) -> nat
        decreases events.len(),
    {
        if events.len() == 0 {
            0
        } else {
            let before = events.drop_last();
            if self.after(before).forgets(events.last()) {
                0
            } else if events.last().is_failure() {
                self.failures(before) + 1
            } else {
                self.failures(before)
            }
        }
    }
}

/// The pause after so many failures in a row, in seconds.
pub open spec fn pause_after(failures: nat) -> nat {
    if pow2(failures) < BACKOFF_MAX {
        pow2(failures)
    } else {
        BACKOFF_MAX as nat
    }
}

/// Failures in a row, of whatever kind and whatever else happens between them,
/// bring pauses of 2, 4, 8, 16 and then always 30 seconds. They are counted
/// from the start, the last subscription or the last request for a new
/// connection.
pub proof fn law_pauses(events: Seq<MqttEvent>)
    requires
        MqttLink::at_start().runs(events),
    ensures
        ({
            let start = MqttLink::at_start();
            let failures = start.failures(events);
            &&& start.after(events).wf()
            &&& start.after(events).backoff == pause_after(failures + 1)
            &&& events.len() > 0 && events.last().is_failure() ==> {
                let (_, action) = start.after(events.drop_last()).next(events.last());
                action matches MqttAction::Pause { secs, .. } && secs == pause_after(failures)
            }
        }),
    decreases events.len(),
{
    lemma2_to64();
    if events.len() > 0 {
        let before = events.drop_last();
        law_pauses(before);
        let n = MqttLink::at_start().failures(before);
        lemma_pow2_unfold(n + 2);
    }
}

/// Every step keeps the link in order, and it serves only once it has dialed,
/// greeted and subscribed.
pub proof fn law_order_of_phases(link: MqttLink, event: MqttEvent)
    requires
        link.wf(),
        link.expects(event),
    ensures
        ({
            let (after, action) = link.next(event);
            &&& after.wf()
            &&& action is Serve ==> link.phase is Subscribing || link.phase is Serving
                || link.phase is Publishing
            &&& action is Subscribe ==> link.phase is Greeting
            &&& action is Greet ==> link.phase is Dialing
            &&& action is Dial ==> link.phase is AwaitingNetwork
            &&& after.phase is Serving <==> action is Serve
        }),
{
}

/// A connection that has been made forgets the failures before it, and one that
/// is given up on request brings the short pause and none of a failure.
pub proof fn law_backoff_reset(link: MqttLink)
    requires
        link.wf(),
    ensures
        link.phase is Subscribing ==> link.next(MqttEvent::Succeeded).0.backoff == BACKOFF_MIN,
        link.phase is Serving ==> link.next(MqttEvent::ReconnectRequested) == (
            MqttLink { phase: MqttPhase::Pausing, backoff: BACKOFF_MIN },
            MqttAction::Pause { abort: true, secs: 1 },
        ),
{
}

/// What is published is the counter: a value in its range as it is, one outside
/// as the nearer end of the range, and zero where there is none yet. The
/// connection stands meanwhile.
pub proof fn law_published_value(link: MqttLink, v: i32)
    requires
        link.wf(),
        link.phase is Serving,
    ensures
        ({
            let (after, action) = link.next(MqttEvent::PublishDue(Some(v)));
            &&& 0 <= v <= 100 ==> action == MqttAction::Publish(v)
            &&& v < 0 ==> action == MqttAction::Publish(0)
            &&& v > 100 ==> action == MqttAction::Publish(100)
            &&& after == (MqttLink { phase: MqttPhase::Publishing, backoff: link.backoff })
        }),
        link.next(MqttEvent::PublishDue(None)) == (
            MqttLink { phase: MqttPhase::Publishing, backoff: link.backoff },
            MqttAction::Publish(0),
        ),
{
}

/// A value that a message brings is taken as it is, and one that brings none
/// changes nothing; the connection stands, and goes on standing after a
/// publication.
pub proof fn law_serves_on(link: MqttLink, value: Option<i32>)
    requires
        link.wf(),
    ensures
        link.phase is Serving ==> link.next(MqttEvent::Received(value)) == (
            link,
            MqttAction::Serve { set_counter: value },
        ),
        link.phase is Publishing ==> link.next(MqttEvent::Succeeded) == (
            MqttLink { phase: MqttPhase::Serving, backoff: link.backoff },
            MqttAction::Serve { set_counter: None },
        ),
{
}

/// The broker that has been discovered is dialed, at its port or else at 1883;
/// without one the link waits two seconds and looks again.
pub proof fn law_dials_the_broker(link: MqttLink, addr: Ipv4, port: Option<u16>)
    requires
        link.wf(),
        link.phase is AwaitingNetwork,
    ensures
        link.next(MqttEvent::NetworkUp { broker: Some(addr), port }) == (
            MqttLink { phase: MqttPhase::Dialing, backoff: link.backoff },
            MqttAction::Dial {
                addr,
                port: match port {
                    Some(p) => p,
                    None => 1883,
                },
            },
        ),
        link.next(MqttEvent::NetworkUp { broker: None, port }) == (
            MqttLink { phase: MqttPhase::Pausing, backoff: link.backoff },
            MqttAction::Pause { abort: false, secs: 2 },
        ),
{
}

/// A broker that has been reached is greeted, then subscribed to, then served;
/// the subscription sets the next pause back to two seconds. After a pause the
/// link waits for the network again.
pub proof fn law_connects(link: MqttLink)
    requires
        link.wf(),
    ensures
        link.phase is Dialing ==> link.next(MqttEvent::Succeeded) == (
            MqttLink { phase: MqttPhase::Greeting, backoff: link.backoff },
            MqttAction::Greet,
        ),
        link.phase is Greeting ==> link.next(MqttEvent::Succeeded) == (
            MqttLink { phase: MqttPhase::Subscribing, backoff: link.backoff },
            MqttAction::Subscribe,
        ),
        link.phase is Subscribing ==> link.next(MqttEvent::Succeeded) == (
            MqttLink { phase: MqttPhase::Serving, backoff: 2 },
            MqttAction::Serve { set_counter: None },
        ),
        link.phase is Serving ==> link.next(MqttEvent::ReconnectRequested) == (
            MqttLink { phase: MqttPhase::Pausing, backoff: 2 },
            MqttAction::Pause { abort: true, secs: 1 },
        ),
        link.phase is Pausing ==> link.next(MqttEvent::Rested) == (
            MqttLink { phase: MqttPhase::AwaitingNetwork, backoff: link.backoff },
            MqttAction::AwaitNetwork,
        ),
{
}

/// Any failure brings the pause that is due, and the next will be twice as long,
/// or thirty seconds. The connection is broken off wherever there is one, that
/// is, once the broker has been reached.
pub proof fn law_failure(link: MqttLink, event: MqttEvent)
    requires
        link.wf(),
        link.expects(event),
        event is Failed || event is ReceiveFailed,
    ensures
        ({
            let (after, action) = link.next(event);
            &&& action == MqttAction::Pause { abort: !(link.phase is Dialing), secs: link.backoff }
            &&& after.phase is Pausing
            &&& link.backoff <= 15 ==> after.backoff == 2 * link.backoff
            &&& link.backoff > 15 ==> after.backoff == 30
        }),
{
}

/// What can happen when: the network comes up while it is waited for, a request
/// to the broker goes through or fails, anything may come while the connection
/// stands, and a pause ends.
pub proof fn law_what_can_happen(link: MqttLink, event: MqttEvent)
    ensures
        link.expects(event) == match event {
            MqttEvent::NetworkUp { .. } => link.phase is AwaitingNetwork,
            MqttEvent::Succeeded | MqttEvent::Failed => link.phase is Dialing
                || link.phase is Greeting || link.phase is Subscribing || link.phase is Publishing,
            MqttEvent::PublishDue(_)
            | MqttEvent::Received(_)
            | MqttEvent::ReceiveFailed
            | MqttEvent::ReconnectRequested => link.phase is Serving,
            MqttEvent::Rested => link.phase is Pausing,
        },
        2 <= link.backoff <= 30 && !(link.phase is Serving) && !(link.phase is Publishing)
            ==> link.wf(),
        link.backoff == 2 ==> link.wf(),
{
}

} // verus!
