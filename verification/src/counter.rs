//! The counter: how it runs on the panel, and the messages that carry it.

use crate::text;
use vstd::prelude::*;
use vstd::string::*;
use vstd::utf8::*;

verus! {

/// The largest value of the counter; the smallest is zero.
pub const COUNTER_MAX: i32 = 100;

/// The panel publishes its counter under this topic.
pub const TOPIC_ESP_COUNTER: &'static str = "speed/counter/esp";

/// The panel takes a new counter value under this topic.
pub const TOPIC_SET_COUNTER: &'static str = "speed/counter/set";

/// The value of the counter's range that is nearest to `v`.
pub open spec fn clamped(v: int) -> int {
    if v < 0 {
        0
    } else if v > 100 {
        100
    } else {
        v
    }
}

pub fn clamp_counter(v: i32) -> (r: i32)
    ensures
        r == clamped(v as int),
{
    if v < 0 {
        0
    } else if v > COUNTER_MAX {
        COUNTER_MAX
    } else {
        v
    }
}

/// The running counter: its value and which way it goes.
#[derive(Clone, Copy, Debug, PartialEq, Eq, Structural)]
pub struct Counter {
    pub value: i32,
    pub dir: i32,
}

impl Counter {
    pub open spec fn wf(self) -> bool {
        0 <= self.value <= 100 && (self.dir == 1 || self.dir == -1)
    }

    /// One step in the counter's direction, which turns round at either end of
    /// the range.
    pub open spec fn stepped(self) -> Counter {
        let moved = self.value + self.dir;
        if moved >= 100 {
            Counter { value: 100, dir: -1i32 }
        } else if moved <= 0 {
            Counter { value: 0, dir: 1 }
        } else {
            Counter { value: moved as i32, dir: self.dir }
        }
    }

    /// The counter after `n` steps.
    pub open spec fn after(self, n: nat) -> Counter
        decreases n,
    {
        if n == 0 {
            self
        } else {
            self.after((n - 1) as nat).stepped()
        }
    }

    /// The counter at start: zero, going up.
    pub fn new() -> (c: Counter)
        ensures
            c.wf(),
            c == (Counter { value: 0, dir: 1 }),
    {
        Counter { value: 0, dir: 1 }
    }

    /// One tick of the clock; gives the value to show.
    pub fn tick(&mut self) -> (v: i32)
        requires
            old(self).wf(),
        ensures
            final(self).wf(),
            *final(self) == old(self).stepped(),
            v == final(self).value,
    {
        self.value = self.value + self.dir;
        if self.value >= COUNTER_MAX {
            self.value = COUNTER_MAX;
            self.dir = -1;
        } else if self.value <= 0 {
            self.value = 0;
            self.dir = 1;
        }
        self.value
    }

    /// Puts the counter to a value from outside; its direction stays. Gives
    /// the value to show.
    pub fn set(&mut self, new_value: i32) -> (v: i32)
        requires
            old(self).wf(),
        ensures
            final(self).wf(),
            final(self).value == clamped(new_value as int),
            final(self).dir == old(self).dir,
            v == final(self).value,
    {
        self.value = clamp_counter(new_value);
        self.value
    }
}

/// The next heartbeat; after the largest value comes the smallest.
pub fn next_heartbeat(value: i32) -> (r: i32)
    ensures
        r == (if value == i32::MAX {
            i32::MIN as int
        } else {
            value + 1
        }),
{
    value.wrapping_add(1)
}

// ---------------------------------------------------------------------------
// Messages
// ---------------------------------------------------------------------------

/// The counter value that a payload carries: a decimal number, with white
/// space round it or not, brought into the counter's range.
pub open spec fn payload_counter(payload: Seq<u8>) -> Option<int> {
    match text::utf8_text(payload) {
        Some(t) => match text::parse_signed(text::trimmed(t)) {
            Some(v) => Some(clamped(v)),
            None => None,
        },
        None => None,
    }
}

/// The text that carries a counter value.
pub open spec fn counter_text(v: int) -> Seq<char> {
    text::decimal_signed(clamped(v))
}

/// Reads the counter value that a payload carries.
pub fn read_payload(payload: &[u8]) -> (r: Option<i32>)
    ensures
        match r {
            Some(v) => payload_counter(payload@) == Some(v as int),
            None => payload_counter(payload@) is None,
        },
{
    match text::decode_str(payload) {
        Some(t) => match text::read_i32(&text::trim(&text::chars_of(t))) {
            Some(v) => Some(clamp_counter(v)),
            None => None,
        },
        None => None,
    }
}

/// The payload that carries a counter value.
pub fn counter_payload(v: i32) -> (s: String)
    ensures
        s@ == counter_text(v as int),
{
    text::decimal_string(clamp_counter(v) as i64)
}

/// A message that the panel has received: the value that it sets the counter to.
pub fn set_request(topic: &str, payload: &[u8]) -> (r: Option<i32>)
    ensures
        match r {
            Some(v) => topic@ == TOPIC_SET_COUNTER@ && payload_counter(payload@) == Some(v as int),
            None => topic@ != TOPIC_SET_COUNTER@ || payload_counter(payload@) is None,
        },
{
    if text::str_eq(topic, TOPIC_SET_COUNTER) {
        read_payload(payload)
    } else {
        None
    }
}

/// A message that the broker has forwarded to the desktop: the panel's counter
/// value, where it is one.
pub fn esp_report(topic: &[u8], payload: &[u8]) -> (r: Option<i32>)
    ensures
        match r {
            Some(v) => text::utf8_text(topic@) == Some(TOPIC_ESP_COUNTER@) && payload_counter(
                payload@,
            ) == Some(v as int),
            None => text::utf8_text(topic@) != Some(TOPIC_ESP_COUNTER@) || payload_counter(
                payload@,
            ) is None,
        },
{
    match text::decode_str(topic) {
        Some(t) => if text::str_eq(t, TOPIC_ESP_COUNTER) {
            read_payload(payload)
        } else {
            None
        },
        None => None,
    }
}

// ---------------------------------------------------------------------------
// Laws
// ---------------------------------------------------------------------------

/// Whatever value a counter is sent with, reading the payload gives that value
/// brought into the counter's range.
pub proof fn law_payload_round_trip(v: int)
    ensures
        payload_counter(encode_utf8(counter_text(v))) == Some(clamped(v)),
{
    let s = counter_text(v);
    encode_utf8_valid_utf8(s);
    encode_utf8_decode_utf8(s);
    text::lemma_decimal(clamped(v) as nat);
    text::lemma_decimal_round_trip(clamped(v));
    assert(text::is_digit(s[0]));
    assert(text::is_digit(s.last()));
    assert(text::trimmed(s) == s);
}

/// What the desktop submits reaches the counter: the panel reads from the
/// payload the value that it then takes, and the same again when that value
/// is reported back.
pub proof fn law_submitted_value_arrives(v: int)
    ensures
        payload_counter(encode_utf8(counter_text(v))) matches Some(w) && w == clamped(v) && clamped(
            w,
        ) == w && payload_counter(encode_utf8(counter_text(w))) == Some(w),
{
    law_payload_round_trip(v);
    law_payload_round_trip(clamped(v));
}

/// A payload never sets the counter outside its range.
pub proof fn law_payload_in_range(payload: Seq<u8>)
    ensures
        payload_counter(payload) matches Some(v) ==> 0 <= v <= 100,
{
}

/// Every step leaves the counter in its range, and moves it by one at most.
pub proof fn law_step(c: Counter)
    requires
        c.wf(),
    ensures
        c.stepped().wf(),
        -1 <= c.stepped().value - c.value <= 1,
        0 < c.value + c.dir < 100 ==> c.stepped().value == c.value + c.dir && c.stepped().dir
            == c.dir,
{
}

/// From its start the counter runs from zero to a hundred and back, over and over.
pub proof fn law_up_and_down(n: nat)
    ensures
        ({
            let c = Counter { value: 0, dir: 1 }.after(n);
            let m = n % 200;
            &&& c.value == (if m <= 100 {
                m as int
            } else {
                200 - m
            })
            &&& c.dir == (if m < 100 {
                1int
            } else {
                -1
            })
        }),
    decreases n,
{
    if n > 0 {
        law_up_and_down((n - 1) as nat);
    }
}

/// A value in the range stays as it is; one outside goes to the nearer end.
pub proof fn law_clamped(v: int)
    ensures
        0 <= v <= 100 ==> clamped(v) == v,
        v < 0 ==> clamped(v) == 0,
        v > 100 ==> clamped(v) == 100,
{
}

/// The counter turns round where it reaches an end of its range, and nowhere
/// else: wherever it has been put, it goes on one by one from there.
pub proof fn law_turns_at_the_ends(c: Counter)
    requires
        0 <= c.value <= 100,
        c.dir == 1 || c.dir == -1,
    ensures
        c.wf(),
        c.dir == 1 && c.value < 99 ==> c.stepped() == (Counter {
            value: (c.value + 1) as i32,
            dir: 1,
        }),
        c.dir == 1 && c.value >= 99 ==> c.stepped() == (Counter { value: 100, dir: -1i32 }),
        c.dir == -1 && c.value > 1 ==> c.stepped() == (Counter {
            value: (c.value - 1) as i32,
            dir: -1i32,
        }),
        c.dir == -1 && c.value <= 1 ==> c.stepped() == (Counter { value: 0, dir: 1 }),
{
}

/// A payload carries the number that stands in it, with white space round it or
/// not; a number outside the counter's range carries the nearer end of it. A
/// text that is no number carries nothing, and bytes that are no text neither.
pub proof fn law_payload_read(a: Seq<char>, t: Seq<char>, b: Seq<char>)
    requires
        text::all_white_space(a),
        text::is_trim(t),
        text::all_white_space(b),
    ensures
        match text::parse_signed(t) {
            Some(v) => payload_counter(encode_utf8(a + t + b)) == Some(
                if v < 0 {
                    0
                } else if v > 100 {
                    100
                } else {
                    v
                },
            ),
            None => payload_counter(encode_utf8(a + t + b)) is None,
        },
        forall|bytes: Seq<u8>| !valid_utf8(bytes) ==> #[trigger] payload_counter(bytes) is None,
{
    encode_utf8_valid_utf8(a + t + b);
    encode_utf8_decode_utf8(a + t + b);
    text::law_trim(a, t, b);
}

/// A value is sent in decimal, without anything round it; one outside the
/// counter's range is sent as the nearer end of it.
pub proof fn law_payload_written(v: int)
    ensures
        0 <= v <= 100 ==> counter_text(v) == text::decimal(v as nat),
        v < 0 ==> counter_text(v) == text::decimal(0),
        v > 100 ==> counter_text(v) == text::decimal(100),
{
}

} // verus!
