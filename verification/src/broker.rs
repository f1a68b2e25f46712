//! The desktop's side of its broker: it subscribes to the panel's counter and
//! publishes the values that the user submits.

use crate::counter;
use crate::text;
use vstd::prelude::*;
use vstd::utf8::*;

verus! {

/// What has happened on the link to the broker.
#[derive(Debug)]
pub enum BrokerEvent {
    /// The user has submitted a value; none, where the program is closing.
    Submitted(Option<i32>),
    /// A message of this topic and payload has been forwarded.
    Forwarded(Vec<u8>, Vec<u8>),
    /// Anything else has been notified.
    Notified,
    /// The broker has nothing at present.
    Idle,
    /// The link is out of order.
    LinkFailed,
}

/// What to do about it.
#[derive(Debug)]
pub enum BrokerAction {
    /// Publish this payload under the topic that sets the counter.
    Publish(String),
    /// Show this as the panel's counter, and that it is alive.
    Report(i32),
    /// Write the notification to the log.
    Log,
    /// Sleep for a fifth of a second.
    Rest,
    /// Nothing.
    Continue,
    /// End the loop.
    Stop,
}

/// The message reports the panel's counter.
pub open spec fn reports(topic: Seq<u8>, payload: Seq<u8>) -> bool {
    text::utf8_text(topic) == Some(counter::TOPIC_ESP_COUNTER@) && counter::payload_counter(
        payload,
    ) is Some
}

/// The action is the one for the event.
pub open spec fn answers(event: BrokerEvent, action: BrokerAction) -> bool {
    match event {
        BrokerEvent::Submitted(Some(v)) => action matches BrokerAction::Publish(s) && s@
            == counter::counter_text(v as int),
        BrokerEvent::Submitted(None) => action is Stop,
        BrokerEvent::Forwarded(topic, payload) => if reports(topic@, payload@) {
            action matches BrokerAction::Report(v) && counter::payload_counter(payload@) == Some(
                v as int,
            )
        } else {
            action is Continue
        },
        BrokerEvent::Notified => action is Log,
        BrokerEvent::Idle => action is Continue,
        BrokerEvent::LinkFailed => action is Rest,
    }
}

/// One turn of the loop on the link to the broker.
pub fn broker_step(event: &BrokerEvent) -> (action: BrokerAction)
    ensures
        answers(*event, action),
{
    match event {
        BrokerEvent::Submitted(Some(v)) => BrokerAction::Publish(counter::counter_payload(*v)),
        BrokerEvent::Submitted(None) => BrokerAction::Stop,
        BrokerEvent::Forwarded(topic, payload) => match counter::esp_report(
            topic.as_slice(),
            payload.as_slice(),
        ) {
            Some(v) => BrokerAction::Report(v),
            None => BrokerAction::Continue,
        },
        BrokerEvent::Notified => BrokerAction::Log,
        BrokerEvent::Idle => BrokerAction::Continue,
        BrokerEvent::LinkFailed => BrokerAction::Rest,
    }
}

// ---------------------------------------------------------------------------
// Laws
// ---------------------------------------------------------------------------

/// What the user submits is published as it is, brought into the counter's
/// range: the panel reads that value from the payload.
pub proof fn law_submission_reaches_panel(v: i32, action: BrokerAction)
    requires
        answers(BrokerEvent::Submitted(Some(v)), action),
    ensures
        action matches BrokerAction::Publish(s) && counter::payload_counter(encode_utf8(s@))
            == Some(counter::clamped(v as int)),
{
    counter::law_payload_round_trip(v as int);
}

/// What the panel publishes of its counter is what the desktop shows.
pub proof fn law_panel_value_reported(
    v: int,
    topic: Vec<u8>,
    payload: Vec<u8>,
    action: BrokerAction,
)
    requires
        topic@ == encode_utf8(counter::TOPIC_ESP_COUNTER@),
        payload@ == encode_utf8(counter::counter_text(v)),
        answers(BrokerEvent::Forwarded(topic, payload), action),
    ensures
        action matches BrokerAction::Report(w) && w == counter::clamped(v),
{
    counter::law_payload_round_trip(v);
    encode_utf8_valid_utf8(counter::TOPIC_ESP_COUNTER@);
    encode_utf8_decode_utf8(counter::TOPIC_ESP_COUNTER@);
}

/// The desktop's own messages do not come back to it as reports of the panel.
pub proof fn law_own_messages_passed_over(
    topic: Vec<u8>,
    payload: Vec<u8>,
    action: BrokerAction,
)
    requires
        topic@ == encode_utf8(counter::TOPIC_SET_COUNTER@),
        answers(BrokerEvent::Forwarded(topic, payload), action),
    ensures
        action is Continue,
{
    encode_utf8_valid_utf8(counter::TOPIC_SET_COUNTER@);
    encode_utf8_decode_utf8(counter::TOPIC_SET_COUNTER@);
    reveal_strlit("speed/counter/esp");
    reveal_strlit("speed/counter/set");
    assert(counter::TOPIC_SET_COUNTER@[14] == 's');
    assert(counter::TOPIC_ESP_COUNTER@[14] == 'e');
}

/// Whatever payload the panel sends under its topic, the value in it is shown;
/// where it holds none, or under any other topic, nothing happens.
pub proof fn law_forwarded_messages(
    topic: Vec<u8>,
    payload: Vec<u8>,
    action: BrokerAction,
)
    requires
        answers(BrokerEvent::Forwarded(topic, payload), action),
    ensures
        topic@ == encode_utf8("speed/counter/esp"@) ==> match counter::payload_counter(payload@) {
            Some(v) => action matches BrokerAction::Report(w) && w == v,
            None => action is Continue,
        },
        topic@ != encode_utf8("speed/counter/esp"@) ==> action is Continue,
{
    encode_utf8_valid_utf8("speed/counter/esp"@);
    encode_utf8_decode_utf8("speed/counter/esp"@);
    if valid_utf8(topic@) {
        decode_utf8_encode_utf8(topic@);
    }
}

/// A value is published under decimal digits; the loop ends when the program
/// does and not before, writes a notification to the log, and rests only after
/// a fault of the link.
pub proof fn law_other_events(v: i32, action: BrokerAction)
    ensures
        answers(BrokerEvent::Submitted(Some(v)), action) ==> (action matches BrokerAction::Publish(s)
            && s@ == text::decimal(
            (if v < 0 {
                0
            } else if v > 100 {
                100
            } else {
                v as int
            }) as nat,
        )),
        answers(BrokerEvent::Submitted(None), action) ==> action is Stop,
        answers(BrokerEvent::Notified, action) ==> action is Log,
        answers(BrokerEvent::Idle, action) ==> action is Continue,
        answers(BrokerEvent::LinkFailed, action) ==> action is Rest,
{
    counter::law_payload_written(v as int);
}

} // verus!
