//! The desktop program: its state, what its controls do and what it shows.

use crate::addr;
use crate::addr::{IpAddr, Ipv4};
use crate::arp;
use crate::arp::{ArpNeighbor, Neighbor};
use crate::counter;
use crate::text;
use vstd::prelude::*;
use vstd::string::*;

verus! {

/// The panel counts as alive for this long after its last report, in
/// nanoseconds.
pub const ALIVE_NANOS: u64 = 25_000_000_000;

/// What came of a scan for neighbours.
#[derive(Debug)]
pub enum ArpScanResult {
    Found(Vec<ArpNeighbor>),
    Failed(String),
}

/// What the user or the clock has done.
#[derive(Debug)]
pub enum Message {
    /// The text of the input field.
    InputChanged(String),
    SliderChanged(i32),
    Submit,
    /// A neighbour, by its key, has been selected or is so no longer.
    SelectArp(String, bool),
    RefreshArp,
    /// A quarter of a second has passed; the scans that have ended in it.
    Tick(Vec<ArpScanResult>),
}

/// What the program is to do about a message.
#[derive(Clone, Copy, Debug, PartialEq, Eq, Structural)]
pub enum Effect {
    Nothing,
    /// Send this value to the panel.
    Submit(i32),
    /// Tell this panel to connect.
    Announce(IpAddr),
    /// Scan for neighbours, after a word to the panel where it is known.
    Scan(Option<IpAddr>),
}

/// What becomes of the animation of the refresh button.
#[derive(Clone, Copy, Debug, PartialEq, Eq, Structural)]
pub enum Animation {
    Hold,
    Advance,
    Restart,
}

/// The state of the program.
pub struct WebGui {
    /// The panel's counter, as it was last reported.
    pub esp_counter: i32,
    /// Where the panel was last found.
    pub last_esp_ip: Option<IpAddr>,
    pub edit_text: String,
    pub edit_value: i32,
    pub local_macs: Vec<String>,
    pub arp_neighbors: Vec<ArpNeighbor>,
    pub selected_arp_key: Option<String>,
    pub arp_in_flight: bool,
}

/// The state by its values and texts.
#[verifier::ext_equal]
pub struct GuiState {
    pub esp_counter: int,
    pub last_esp_ip: Option<IpAddr>,
    pub edit_text: Seq<char>,
    pub edit_value: int,
    pub local_macs: Seq<String>,
    pub neighbors: Seq<Neighbor>,
    pub selected: Option<Seq<char>>,
    pub in_flight: bool,
}

impl View for WebGui {
    type V = GuiState;

    open spec fn view(&self) -> GuiState {
        GuiState {
            esp_counter: self.esp_counter as int,
            last_esp_ip: self.last_esp_ip,
            edit_text: self.edit_text@,
            edit_value: self.edit_value as int,
            local_macs: self.local_macs@,
            neighbors: arp::neighbors_of(self.arp_neighbors@),
            selected: arp::text_of(self.selected_arp_key),
            in_flight: self.arp_in_flight,
        }
    }
}

// ---------------------------------------------------------------------------
// What the controls do
// ---------------------------------------------------------------------------

/// The digits of a text, in their order.
pub open spec fn digits_of(raw: Seq<char>) -> Seq<char> {
    raw.filter(|c: char| text::is_digit(c))
}

/// The number that typed digits stand for; too many stand for zero.
pub open spec fn typed_value(digits: Seq<char>) -> int {
    match text::parse_signed(digits) {
        Some(v) => counter::clamped(v),
        None => 0,
    }
}

/// The error entry of the list.
pub open spec fn error_entry(e: Seq<char>) -> Neighbor {
    Neighbor { ip: "(error)"@, mac: e, kind: Seq::empty(), label: None }
}

/// One of the neighbours has this key.
pub open spec fn has_key(neighbors: Seq<Neighbor>, key: Seq<char>) -> bool {
    exists|i: int| 0 <= i < neighbors.len() && arp::key_text(#[trigger] neighbors[i]) == key
}

impl GuiState {
    /// The value is in the counter's range, and the text shows it or is empty
    /// where it is zero.
    pub open spec fn wf(self) -> bool {
        &&& 0 <= self.esp_counter <= 100
        &&& 0 <= self.edit_value <= 100
        &&& self.edit_text == text::decimal_signed(self.edit_value) || (self.edit_text.len() == 0
            && self.edit_value == 0)
    }

    /// A text has been typed: only its digits count.
    pub open spec fn typed(self, raw: Seq<char>) -> GuiState {
        let digits = digits_of(raw);
        if digits.len() == 0 {
            GuiState { edit_value: 0, edit_text: Seq::empty(), ..self }
        } else {
            self.slid(typed_value(digits))
        }
    }

    /// The slider has been moved.
    pub open spec fn slid(self, v: int) -> GuiState {
        GuiState {
            edit_value: counter::clamped(v),
            edit_text: text::decimal_signed(counter::clamped(v)),
            ..self
        }
    }

    /// A neighbour has been selected, whose address is `ip` where its key has
    /// one; or is selected no longer.
    pub open spec fn chosen(self, key: Seq<char>, selected: bool, ip: Option<IpAddr>) -> GuiState {
        if selected {
            GuiState {
                selected: Some(key),
                last_esp_ip: match ip {
                    Some(ip) => Some(ip),
                    None => self.last_esp_ip,
                },
                ..self
            }
        } else if self.selected == Some(key) {
            GuiState { selected: None, ..self }
        } else {
            self
        }
    }

    /// A scan has ended. A selection that it does not confirm is dropped; a
    /// failed one shows its error and leaves the selection.
    pub open spec fn scanned(self, result: ArpScanResult) -> GuiState {
        match result {
            ArpScanResult::Found(list) => {
                let neighbors = arp::neighbors_of(list@);
                GuiState {
                    in_flight: false,
                    neighbors,
                    selected: match self.selected {
                        Some(key) => if has_key(neighbors, key) {
                            Some(key)
                        } else {
                            None
                        },
                        None => None,
                    },
                    ..self
                }
            },
            ArpScanResult::Failed(e) => GuiState {
                in_flight: false,
                neighbors: seq![error_entry(e@)],
                ..self
            },
        }
    }

    /// Scans have ended, one after the other.
    pub open spec fn scanned_all(self, results: Seq<ArpScanResult>) -> GuiState
        decreases results.len(),
    {
        if results.len() == 0 {
            self
        } else {
            self.scanned_all(results.drop_last()).scanned(results.last())
        }
    }
}

fn keep_digits(raw: &str) -> (r: Vec<char>)
    ensures
        r@ == digits_of(raw@),
{
    let chars = text::chars_of(raw);
    let mut r: Vec<char> = Vec::new();
    let mut i: usize = 0;
    assert(digits_of(chars@.take(0)) == Seq::<char>::empty()) by {
        reveal(Seq::filter);
    }
    while i < chars.len()
        invariant
            i <= chars.len(),
            r@ == digits_of(chars@.take(i as int)),
        decreases chars.len() - i,
    {
        assert(chars@.take(i + 1).drop_last() == chars@.take(i as int));
        assert(digits_of(chars@.take(i + 1)) == if text::is_digit(chars@[i as int]) {
            digits_of(chars@.take(i as int)).push(chars@[i as int])
        } else {
            digits_of(chars@.take(i as int))
        }) by {
            reveal(Seq::filter);
        }
        if text::digit(chars[i]) {
            r.push(chars[i]);
        }
        i += 1;
    }
    assert(chars@.take(i as int) == chars@);
    r
}

fn list_has_key(list: &Vec<ArpNeighbor>, key: &String) -> (b: bool)
    ensures
        b == has_key(arp::neighbors_of(list@), key@),
{
    let ghost neighbors = arp::neighbors_of(list@);
    let mut i: usize = 0;
    while i < list.len()
        invariant
            i <= list.len(),
            neighbors == arp::neighbors_of(list@),
            forall|j: int| 0 <= j < i ==> arp::key_text(#[trigger] neighbors[j]) != key@,
        decreases list.len() - i,
    {
        assert(neighbors[i as int] == list@[i as int]@);
        if arp::arp_key(&list[i]) == *key {
            return true;
        }
        i += 1;
    }
    false
}

impl WebGui {
    pub open spec fn wf(self) -> bool {
        self@.wf()
    }

    /// The program at start: a scan is under way.
    pub fn new(local_macs: Vec<String>) -> (g: WebGui)
        ensures
            g.wf(),
            g@ == (GuiState {
                esp_counter: 0,
                last_esp_ip: None,
                edit_text: "0"@,
                edit_value: 0,
                local_macs: local_macs@,
                neighbors: Seq::empty(),
                selected: None,
                in_flight: true,
            }),
    {
        proof {
            reveal_strlit("0");
            assert("0"@ == text::decimal_signed(0));
        }
        let g = WebGui {
            esp_counter: 0,
            last_esp_ip: None,
            edit_text: "0".to_owned(),
            edit_value: 0,
            local_macs,
            arp_neighbors: Vec::new(),
            selected_arp_key: None,
            arp_in_flight: true,
        };
        assert(arp::neighbors_of(g.arp_neighbors@) == Seq::<Neighbor>::empty());
        g
    }

    fn set_edit(&mut self, v: i32)
        requires
            old(self).wf(),
        ensures
            final(self).wf(),
            final(self)@ == old(self)@.slid(v as int),
    {
        self.edit_value = counter::clamp_counter(v);
        self.edit_text = text::decimal_string(self.edit_value as i64);
    }

    fn type_text(&mut self, raw: &str)
        requires
            old(self).wf(),
        ensures
            final(self).wf(),
            final(self)@ == old(self)@.typed(raw@),
    {
        let digits = keep_digits(raw);
        if digits.len() == 0 {
            self.edit_value = 0;
            self.edit_text = String::new();
        } else {
            let v = match text::read_i32(&digits) {
                Some(v) => v,
                None => 0,
            };
            self.set_edit(v);
        }
    }

    /// Selects a neighbour whose key gives `ip`, or lets go of it. Gives the
    /// panel to tell.
    pub fn select_arp(&mut self, key: String, selected: bool, ip: Option<IpAddr>) -> (tell: Option<
        IpAddr,
    >)
        requires
            old(self).wf(),
        ensures
            final(self).wf(),
            final(self)@ == old(self)@.chosen(key@, selected, ip),
            tell == (if selected {
                ip
            } else {
                None
            }),
    {
        if selected {
            self.selected_arp_key = Some(key);
            if let Some(ip) = ip {
                self.last_esp_ip = Some(ip);
            }
            ip
        } else {
            let same = match &self.selected_arp_key {
                Some(k) => *k == key,
                None => false,
            };
            if same {
                self.selected_arp_key = None;
            }
            None
        }
    }

    /// Takes what came of a scan.
    pub fn scan_ended(&mut self, result: ArpScanResult)
        requires
            old(self).wf(),
        ensures
            final(self).wf(),
            final(self)@ == old(self)@.scanned(result),
    {
        self.arp_in_flight = false;
        match result {
            ArpScanResult::Found(list) => {
                let gone = match &self.selected_arp_key {
                    Some(key) => !list_has_key(&list, key),
                    None => false,
                };
                self.arp_neighbors = list;
                if gone {
                    self.selected_arp_key = None;
                }
            },
            ArpScanResult::Failed(e) => {
                let entry = ArpNeighbor {
                    ip: "(error)".to_owned(),
                    mac: e,
                    kind: String::new(),
                    label: None,
                };
                assert(entry@ == error_entry(e@));
                self.arp_neighbors = vec![entry];
                assert(arp::neighbors_of(self.arp_neighbors@) == seq![error_entry(e@)]);
            },
        }
        assert(self@ == old(self)@.scanned(result));
    }
}

/// The state after a message, and what is to be done about it. `ip` is the
/// address of the key of a `SelectArp` message.
pub open spec fn updated(state: GuiState, message: Message, ip: Option<IpAddr>) -> (
    GuiState,
    Effect,
    Animation,
) {
    match message {
        Message::InputChanged(raw) => (state.typed(raw@), Effect::Nothing, Animation::Hold),
        Message::SliderChanged(v) => (state.slid(v as int), Effect::Nothing, Animation::Hold),
        Message::Submit => (state, Effect::Submit(state.edit_value as i32), Animation::Hold),
        Message::SelectArp(key, selected) => (
            state.chosen(key@, selected, ip),
            match ip {
                Some(ip) => if selected {
                    Effect::Announce(ip)
                } else {
                    Effect::Nothing
                },
                None => Effect::Nothing,
            },
            Animation::Hold,
        ),
        Message::RefreshArp => if state.in_flight {
            (state, Effect::Nothing, Animation::Hold)
        } else {
            (
                GuiState { in_flight: true, ..state },
                Effect::Scan(state.last_esp_ip),
                Animation::Restart,
            )
        },
        Message::Tick(results) => (
            state.scanned_all(results@),
            Effect::Nothing,
            if results@.len() > 0 {
                Animation::Restart
            } else if state.in_flight {
                Animation::Advance
            } else {
                Animation::Hold
            },
        ),
    }
}

/// The address that a message refers to.
pub open spec fn message_ip(message: Message) -> Option<IpAddr> {
    match message {
        Message::SelectArp(key, _) => arp::key_ip(key@),
        _ => None,
    }
}

fn take_results(state: &mut WebGui, results: Vec<ArpScanResult>)
    requires
        old(state).wf(),
    ensures
        final(state).wf(),
        final(state)@ == old(state)@.scanned_all(results@),
{
    let mut left = results;
    let ghost all = results@;
    let ghost n: int = 0;
    assert(all.skip(0) == all);
    assert(old(state)@.scanned_all(all.take(0)) == old(state)@);
    while left.len() > 0
        invariant
            state.wf(),
            0 <= n <= all.len(),
            left@ == all.skip(n),
            state@ == old(state)@.scanned_all(all.take(n)),
        decreases left.len(),
    {
        let result = left.remove(0);
        proof {
            assert(result == all[n]);
            assert(left@ == all.skip(n + 1));
            assert(all.take(n + 1).drop_last() == all.take(n));
            assert(all.take(n + 1).last() == result);
        }
        state.scan_ended(result);
        proof {
            n = n + 1;
        }
    }
    assert(all.take(n) == all);
}

/// Acts on a message.
pub fn update(state: &mut WebGui, message: Message) -> (r: (Effect, Animation))
    requires
        old(state).wf(),
    ensures
        final(state).wf(),
        (final(state)@, r.0, r.1) == updated(old(state)@, message, message_ip(message)),
{
    match message {
        Message::InputChanged(raw) => {
            state.type_text(raw.as_str());
            (Effect::Nothing, Animation::Hold)
        },
        Message::SliderChanged(v) => {
            state.set_edit(v);
            (Effect::Nothing, Animation::Hold)
        },
        Message::Submit => (Effect::Submit(state.edit_value), Animation::Hold),
        Message::SelectArp(key, selected) => {
            let ip = arp::parse_arp_key_to_ip(key.as_str());
            match state.select_arp(key, selected, ip) {
                Some(ip) => (Effect::Announce(ip), Animation::Hold),
                None => (Effect::Nothing, Animation::Hold),
            }
        },
        Message::RefreshArp => {
            if state.arp_in_flight {
                (Effect::Nothing, Animation::Hold)
            } else {
                state.arp_in_flight = true;
                (Effect::Scan(state.last_esp_ip), Animation::Restart)
            }
        },
        Message::Tick(results) => {
            let animation = if results.len() > 0 {
                Animation::Restart
            } else if state.arp_in_flight {
                Animation::Advance
            } else {
                Animation::Hold
            };
            take_results(state, results);
            (Effect::Nothing, animation)
        },
    }
}

impl WebGui {
    /// The panel has reported its counter.
    pub fn esp_reported(&mut self, v: i32)
        requires
            old(self).wf(),
        ensures
            final(self).wf(),
            final(self)@ == (GuiState { esp_counter: counter::clamped(v as int), ..old(self)@ }),
    {
        self.esp_counter = counter::clamp_counter(v);
    }

    /// The panel has announced itself from this address.
    pub fn panel_found(&mut self, ip: IpAddr)
        requires
            old(self).wf(),
        ensures
            final(self).wf(),
            final(self)@ == (GuiState { last_esp_ip: Some(ip), ..old(self)@ }),
    {
        self.last_esp_ip = Some(ip);
    }
}

// ---------------------------------------------------------------------------
// What is shown
// ---------------------------------------------------------------------------

/// A row of the table of neighbours.
#[derive(Debug)]
pub struct ArpRow {
    pub id: usize,
    pub ip_text: String,
    pub mac: String,
    pub kind: String,
    pub key: String,
    /// The neighbour is the selected one.
    pub checked: bool,
}

/// The summary: the desktop and the panel that it talks to.
#[derive(Debug)]
pub struct NetSummaryRow {
    pub local_ip: String,
    pub local_mac: String,
    pub device_ip: String,
    pub device_mac: String,
}

/// The address of a neighbour as the table shows it, with its label.
pub open spec fn labelled(n: Neighbor) -> Seq<char> {
    match n.label {
        Some(label) => n.ip + " ("@ + label + seq![')'],
        None => n.ip,
    }
}

/// The row of the neighbour at `i`.
pub open spec fn is_row(row: ArpRow, state: GuiState, i: int) -> bool {
    let n = state.neighbors[i];
    &&& row.id == i + 1
    &&& row.ip_text@ == labelled(n)
    &&& row.mac@ == n.mac
    &&& row.kind@ == n.kind
    &&& row.key@ == arp::key_text(n)
    &&& row.checked == (state.selected == Some(arp::key_text(n)))
}

/// The hardware address of the first neighbour at `ip`.
pub open spec fn mac_at(neighbors: Seq<Neighbor>, ip: Seq<char>) -> Seq<char>
    decreases neighbors.len(),
{
    if neighbors.len() == 0 {
        "(unknown)"@
    } else if neighbors[0].ip == ip {
        neighbors[0].mac
    } else {
        mac_at(neighbors.drop_first(), ip)
    }
}

/// The panel of the summary: the selected neighbour, or else the panel that was
/// last found, whose address reads `found`.
pub open spec fn summary_device(state: GuiState, found: Option<Seq<char>>) -> (
    Seq<char>,
    Seq<char>,
) {
    let picked = match state.selected {
        Some(key) => text::split_once(key, '|'),
        None => None,
    };
    match picked {
        Some(both) => both,
        None => match found {
            Some(ip) => (ip, mac_at(state.neighbors, ip)),
            None => ("(none)"@, "(none)"@),
        },
    }
}

fn find_mac(list: &Vec<ArpNeighbor>, ip: &String) -> (mac: String)
    ensures
        mac@ == mac_at(arp::neighbors_of(list@), ip@),
{
    let ghost all = arp::neighbors_of(list@);
    let mut i: usize = 0;
    assert(all.skip(0) == all);
    while i < list.len()
        invariant
            i <= list.len(),
            all == arp::neighbors_of(list@),
            mac_at(all, ip@) == mac_at(all.skip(i as int), ip@),
        decreases list.len() - i,
    {
        assert(all.skip(i as int)[0] == list@[i as int]@);
        assert(all.skip(i as int).drop_first() == all.skip(i + 1));
        if list[i].ip == *ip {
            return list[i].mac.clone();
        }
        i += 1;
    }
    "(unknown)".to_owned()
}

impl WebGui {
    /// The line that shows the panel's counter.
    pub fn counter_line(&self) -> (s: String)
        ensures
            s@ == "Counter (from slint_tft): "@ + text::decimal_signed(self@.esp_counter),
    {
        let mut s = "Counter (from slint_tft): ".to_owned();
        s.append(text::decimal_string(self.esp_counter as i64).as_str());
        s
    }

    /// The rows of the table of neighbours.
    pub fn arp_rows(&self) -> (rows: Vec<ArpRow>)
        ensures
            rows@.len() == self@.neighbors.len(),
            forall|i: int| 0 <= i < rows@.len() ==> is_row(#[trigger] rows@[i], self@, i),
    {
        let mut rows: Vec<ArpRow> = Vec::new();
        let mut i: usize = 0;
        while i < self.arp_neighbors.len()
            invariant
                i <= self.arp_neighbors.len(),
                rows@.len() == i,
                forall|j: int| 0 <= j < i ==> is_row(#[trigger] rows@[j], self@, j),
            decreases self.arp_neighbors.len() - i,
        {
            let n = &self.arp_neighbors[i];
            assert(self@.neighbors[i as int] == n@);
            let mut ip_text = n.ip.clone();
            if let Some(label) = &n.label {
                ip_text.append(" (");
                ip_text.append(label.as_str());
                ip_text.push(')');
                assert(ip_text@ == labelled(n@));
            }
            let key = arp::arp_key(n);
            let checked = match &self.selected_arp_key {
                Some(k) => *k == key,
                None => false,
            };
            rows.push(
                ArpRow {
                    id: i + 1,
                    ip_text,
                    mac: n.mac.clone(),
                    kind: n.kind.clone(),
                    key,
                    checked,
                },
            );
            i += 1;
        }
        rows
    }

    /// The summary, where the panel that was last found has the address that
    /// reads `found`.
    pub fn summary_with(&self, local_ip: Option<Ipv4>, found: Option<String>) -> (row: NetSummaryRow)
        ensures
            row.local_ip@ == (match local_ip {
                Some(ip) => addr::ipv4_text(ip),
                None => "(unknown)"@,
            }),
            row.local_mac@ == (if self@.local_macs.len() > 0 {
                self@.local_macs[0]@
            } else {
                "(unknown)"@
            }),
            (row.device_ip@, row.device_mac@) == summary_device(self@, arp::text_of(found)),
    {
        let local_ip = match local_ip {
            Some(ip) => addr::ipv4_string(ip),
            None => "(unknown)".to_owned(),
        };
        let local_mac = if self.local_macs.len() > 0 {
            self.local_macs[0].clone()
        } else {
            "(unknown)".to_owned()
        };
        let picked = match &self.selected_arp_key {
            Some(key) => arp::parse_arp_key(key.as_str()),
            None => None,
        };
        let (device_ip, device_mac) = match picked {
            Some((ip, mac)) => (ip.to_owned(), mac.to_owned()),
            None => match found {
                Some(ip) => {
                    let mac = find_mac(&self.arp_neighbors, &ip);
                    (ip, mac)
                },
                None => ("(none)".to_owned(), "(none)".to_owned()),
            },
        };
        NetSummaryRow { local_ip, local_mac, device_ip, device_mac }
    }

    /// The summary.
    pub fn summary(&self, local_ip: Option<Ipv4>) -> (row: NetSummaryRow)
        ensures
            row.local_ip@ == (match local_ip {
                Some(ip) => addr::ipv4_text(ip),
                None => "(unknown)"@,
            }),
            row.local_mac@ == (if self@.local_macs.len() > 0 {
                self@.local_macs[0]@
            } else {
                "(unknown)"@
            }),
            (row.device_ip@, row.device_mac@) == summary_device(
                self@,
                match self@.last_esp_ip {
                    Some(ip) => Some(addr::ip_text(ip)),
                    None => None,
                },
            ),
    {
        let found = match self.last_esp_ip {
            Some(ip) => Some(addr::ip_string(ip)),
            None => None,
        };
        self.summary_with(local_ip, found)
    }

    /// The refresh button: its text, and whether it can be pressed.
    pub fn refresh_button(&self) -> (b: (&'static str, bool))
        ensures
            b.0@ == (if self@.in_flight {
                "Refreshing..."@
            } else {
                "Refresh"@
            }),
            b.1 == !self@.in_flight,
    {
        if self.arp_in_flight {
            ("Refreshing...", false)
        } else {
            ("Refresh", true)
        }
    }
}

/// Whether the panel is alive: its last report, if any, was so many nanoseconds
/// ago.
pub fn mqtt_alive(elapsed: Option<u64>) -> (alive: bool)
    ensures
        alive == (elapsed matches Some(t) && t < ALIVE_NANOS),
{
    match elapsed {
        Some(t) => t < ALIVE_NANOS,
        None => false,
    }
}

// ---------------------------------------------------------------------------
// Laws
// ---------------------------------------------------------------------------

/// Only a value in the counter's range is ever submitted, and it is the one
/// that the input field shows, or zero where that is empty.
pub proof fn law_submitted_value(state: GuiState)
    requires
        state.wf(),
    ensures
        ({
            let (after, effect, _) = updated(state, Message::Submit, None);
            &&& after == state
            &&& effect matches Effect::Submit(v) && 0 <= v <= 100 && (text::parse_signed(
                state.edit_text,
            ) == Some(v as int) || (state.edit_text.len() == 0 && v == 0))
        }),
{
    text::lemma_decimal_round_trip(state.edit_value);
}

/// Every message leaves the state in order.
pub proof fn law_updates_keep_order(state: GuiState, message: Message, ip: Option<IpAddr>)
    requires
        state.wf(),
    ensures
        updated(state, message, ip).0.wf(),
{
    if let Message::Tick(results) = message {
        lemma_scans_keep(state, results@);
    }
}

proof fn lemma_scans_keep(state: GuiState, results: Seq<ArpScanResult>)
    ensures
        state.scanned_all(results) == (GuiState {
            neighbors: state.scanned_all(results).neighbors,
            selected: state.scanned_all(results).selected,
            in_flight: state.in_flight && results.len() == 0,
            ..state
        }),
    decreases results.len(),
{
    if results.len() > 0 {
        lemma_scans_keep(state, results.drop_last());
    }
}

/// One scan at a time: a refresh while one is under way does nothing, and a
/// refresh starts one whenever none is.
pub proof fn law_one_scan(state: GuiState)
    ensures
        state.in_flight ==> updated(state, Message::RefreshArp, None) == (
            state,
            Effect::Nothing,
            Animation::Hold,
        ),
        !state.in_flight ==> updated(state, Message::RefreshArp, None).1 == Effect::Scan(
            state.last_esp_ip,
        ) && updated(state, Message::RefreshArp, None).0.in_flight,
{
}

/// After a scan that has found neighbours the selection, if there is one, is
/// among them.
pub proof fn law_selection_present(state: GuiState, result: ArpScanResult)
    requires
        result is Found,
    ensures
        state.scanned(result).selected matches Some(key) ==> has_key(
            state.scanned(result).neighbors,
            key,
        ) && state.selected == Some(key),
        state.selected matches Some(key) ==> (has_key(state.scanned(result).neighbors, key)
            ==> state.scanned(result).selected == Some(key)),
{
}

/// Letting go of what was just selected leaves nothing selected.
pub proof fn law_select_and_let_go(state: GuiState, key: Seq<char>, ip: Option<IpAddr>)
    ensures
        state.chosen(key, true, ip).selected == Some(key),
        state.chosen(key, true, ip).chosen(key, false, ip).selected is None,
{
}

/// The value of the slider and the text of the input field agree: typing the
/// text that a slide has set changes nothing.
pub proof fn law_input_and_slider_agree(state: GuiState, v: int)
    ensures
        state.slid(v).typed(state.slid(v).edit_text) == state.slid(v),
{
    let s = text::decimal_signed(counter::clamped(v));
    text::lemma_decimal(counter::clamped(v) as nat);
    text::lemma_decimal_round_trip(counter::clamped(v));
    lemma_all_digits_kept(s);
}

proof fn lemma_all_digits_kept(s: Seq<char>)
    requires
        text::all_digits(s),
    ensures
        digits_of(s) == s,
    decreases s.len(),
{
    reveal(Seq::filter);
    if s.len() > 0 {
        let t = s.drop_last();
        assert forall|i: int| 0 <= i < t.len() implies text::is_digit(#[trigger] t[i]) by {
            assert(t[i] == s[i]);
        }
        lemma_all_digits_kept(t);
        assert(text::is_digit(s[s.len() - 1]));
        assert(t.push(s.last()) == s);
    }
}

/// Selecting a neighbour tells the panel at its address to connect, wherever a
/// panel was found before, and takes that for the panel's address. A key
/// without an address tells nobody and leaves the panel's address. Everything
/// but the selection and that address stays as it is.
pub proof fn law_selected_panel_told(
    state: GuiState,
    key: String,
    first: Seq<char>,
    second: Seq<char>,
)
    requires
        key@ == first + seq!['|'] + second,
        !first.contains('|'),
    ensures
        ({
            let message = Message::SelectArp(key, true);
            let (after, effect, animation) = updated(state, message, message_ip(message));
            &&& addr::parse_ip(first) matches Some(ip) ==> effect == Effect::Announce(ip)
                && after.last_esp_ip == Some(ip)
            &&& addr::parse_ip(first) is None ==> effect == Effect::Nothing && after.last_esp_ip
                == state.last_esp_ip
            &&& after == (GuiState {
                selected: Some(key@),
                last_esp_ip: after.last_esp_ip,
                ..state
            })
            &&& animation == Animation::Hold
        }),
{
    arp::law_address_of_key(
        Neighbor { ip: first, mac: second, kind: first, label: None },
        first,
        second,
    );
}

/// A key without a bar is selected all the same, but nobody is told.
pub proof fn law_odd_key_selected(state: GuiState, key: String)
    requires
        !key@.contains('|'),
    ensures
        ({
            let message = Message::SelectArp(key, true);
            updated(state, message, message_ip(message)) == (
                GuiState { selected: Some(key@), ..state },
                Effect::Nothing,
                Animation::Hold,
            )
        }),
{
    text::law_split_once(key@, '|', key@);
}

/// Letting go of a neighbour tells nobody and leaves the panel's address; only
/// the one that is selected can be let go of.
pub proof fn law_let_go(state: GuiState, key: String)
    ensures
        ({
            let message = Message::SelectArp(key, false);
            let after = if state.selected == Some(key@) {
                GuiState { selected: None, ..state }
            } else {
                state
            };
            updated(state, message, message_ip(message)) == (after, Effect::Nothing, Animation::Hold)
        }),
{
}

/// The slider sets the value and its text, brought into the counter's range,
/// and nothing else.
pub proof fn law_slider(state: GuiState, v: i32, ip: Option<IpAddr>)
    ensures
        ({
            let value: int = if v < 0 {
                0
            } else if v > 100 {
                100
            } else {
                v as int
            };
            updated(state, Message::SliderChanged(v), ip) == (
                GuiState {
                    edit_value: value,
                    edit_text: text::decimal(value as nat),
                    ..state
                },
                Effect::Nothing,
                Animation::Hold,
            )
        }),
{
    counter::law_clamped(v as int);
}

/// Only the digits of what is typed count: any other character might as well
/// be missing, and digits are kept in their order.
pub proof fn law_only_digits_count(a: Seq<char>, c: char, b: Seq<char>)
    ensures
        !('0' <= c <= '9') ==> digits_of(a + seq![c] + b) == digits_of(a + b),
        '0' <= c <= '9' ==> digits_of(a.push(c)) == digits_of(a).push(c),
        digits_of(Seq::empty()) == Seq::<char>::empty(),
    decreases b.len(),
{
    reveal(Seq::filter);
    assert(a.push(c).drop_last() == a);
    if b.len() == 0 {
        assert(a + seq![c] + b == a.push(c));
        assert(a + b == a);
    } else {
        let t = b.drop_last();
        law_only_digits_count(a, c, t);
        assert((a + seq![c] + b).drop_last() == a + seq![c] + t);
        assert((a + seq![c] + b).last() == b.last());
        assert((a + b).drop_last() == a + t);
        assert((a + b).last() == b.last());
    }
}

/// What is typed sets the value that its digits denote, brought into the
/// counter's range, and zero where they denote more than any `i32`; the text
/// shows that value. Without digits the text is empty and the value zero.
pub proof fn law_typed(state: GuiState, raw: String, ip: Option<IpAddr>)
    ensures
        ({
            let digits = digits_of(raw@);
            let n = text::digits_value(digits);
            let value: nat = if n > 2147483647 {
                0
            } else if n > 100 {
                100
            } else {
                n
            };
            updated(state, Message::InputChanged(raw), ip) == (
                GuiState {
                    edit_value: if digits.len() == 0 {
                        0
                    } else {
                        value as int
                    },
                    edit_text: if digits.len() == 0 {
                        Seq::empty()
                    } else {
                        text::decimal(value)
                    },
                    ..state
                },
                Effect::Nothing,
                Animation::Hold,
            )
        }),
{
    let digits = digits_of(raw@);
    if digits.len() > 0 {
        lemma_digits_alone(raw@);
        text::law_numbers_read(digits, 0);
        counter::law_clamped(text::digits_value(digits) as int);
        counter::law_clamped(typed_value(digits));
    }
}

proof fn lemma_digits_alone(raw: Seq<char>)
    ensures
        forall|i: int|
            0 <= i < digits_of(raw).len() ==> '0' <= #[trigger] digits_of(raw)[i] <= '9',
    decreases raw.len(),
{
    reveal(Seq::filter);
    if raw.len() > 0 {
        lemma_digits_alone(raw.drop_last());
    }
}

/// The value that was set last is submitted, whatever it is, and stays.
pub proof fn law_submits_the_value(state: GuiState, ip: Option<IpAddr>)
    requires
        state.wf(),
    ensures
        ({
            let (after, effect, animation) = updated(state, Message::Submit, ip);
            &&& after == state
            &&& effect matches Effect::Submit(v) && v == state.edit_value
            &&& animation == Animation::Hold
        }),
        0 <= state.edit_value <= 100,
{
}

/// A refresh asks for a scan with the panel's address where it is known, and
/// changes nothing but that a scan is under way.
pub proof fn law_refresh(state: GuiState, ip: Option<IpAddr>)
    requires
        !state.in_flight,
    ensures
        updated(state, Message::RefreshArp, ip) == (
            GuiState { in_flight: true, ..state },
            Effect::Scan(state.last_esp_ip),
            Animation::Restart,
        ),
{
}

/// A scan that has found neighbours puts them in place of those before; a
/// selection that is among them stays and any other goes. One that has failed
/// shows its error in their place and leaves the selection. Either way it is
/// under way no longer, and nothing else changes.
pub proof fn law_scan_taken(state: GuiState, list: Vec<ArpNeighbor>, e: String)
    ensures
        ({
            let after = state.scanned(ArpScanResult::Found(list));
            &&& after.neighbors == arp::neighbors_of(list@)
            &&& after == (GuiState {
                neighbors: after.neighbors,
                selected: after.selected,
                in_flight: false,
                ..state
            })
            &&& after.selected is Some ==> after.selected == state.selected
            &&& state.selected matches Some(key) ==> (after.selected == Some(key) <==> exists|i: int|
                0 <= i < list@.len() && list@[i].ip@ + seq!['|'] + (#[trigger] list@[i]).mac@
                    == key)
        }),
        state.scanned(ArpScanResult::Failed(e)) == (GuiState {
            neighbors: seq![
                Neighbor { ip: "(error)"@, mac: e@, kind: Seq::empty(), label: None },
            ],
            in_flight: false,
            ..state
        }),
{
    let neighbors = arp::neighbors_of(list@);
    if let Some(key) = state.selected {
        if has_key(neighbors, key) {
            let i = choose|i: int|
                0 <= i < neighbors.len() && arp::key_text(#[trigger] neighbors[i]) == key;
            assert(list@[i]@ == neighbors[i]);
            assert(list@[i].ip@ + seq!['|'] + list@[i].mac@ == key);
        }
        if exists|i: int|
            0 <= i < list@.len() && list@[i].ip@ + seq!['|'] + (#[trigger] list@[i]).mac@ == key {
            let i = choose|i: int|
                0 <= i < list@.len() && list@[i].ip@ + seq!['|'] + (#[trigger] list@[i]).mac@
                    == key;
            assert(neighbors[i] == list@[i]@);
            assert(arp::key_text(neighbors[i]) == key);
        }
    }
}

/// The scans that have ended are taken one after the other. The bar starts
/// afresh when any has, moves on while one is under way, and else stands.
pub proof fn law_tick(
    state: GuiState,
    results: Vec<ArpScanResult>,
    before: Seq<ArpScanResult>,
    result: ArpScanResult,
    ip: Option<IpAddr>,
)
    ensures
        ({
            let (after, effect, animation) = updated(state, Message::Tick(results), ip);
            &&& after == state.scanned_all(results@)
            &&& effect == Effect::Nothing
            &&& results@.len() > 0 ==> animation == Animation::Restart && !after.in_flight
            &&& results@.len() == 0 && state.in_flight ==> animation == Animation::Advance
            &&& results@.len() == 0 && !state.in_flight ==> animation == Animation::Hold
        }),
        state.scanned_all(Seq::empty()) == state,
        state.scanned_all(before.push(result)) == state.scanned_all(before).scanned(result),
{
    lemma_scans_keep(state, results@);
    assert(before.push(result).drop_last() == before);
}

/// A row shows the neighbour at its place: its number, its address with the
/// label in brackets where it has one, its hardware address and its kind; it is
/// checked where its key is the selected one.
pub proof fn law_row(row: ArpRow, state: GuiState, i: int)
    requires
        0 <= i < state.neighbors.len(),
        is_row(row, state, i),
    ensures
        row.id == i + 1,
        state.neighbors[i].label is None ==> row.ip_text@ == state.neighbors[i].ip,
        state.neighbors[i].label matches Some(label) ==> row.ip_text@ == state.neighbors[i].ip
            + " ("@ + label + seq![')'],
        row.mac@ == state.neighbors[i].mac,
        row.kind@ == state.neighbors[i].kind,
        row.key@ == state.neighbors[i].ip + seq!['|'] + state.neighbors[i].mac,
        row.checked <==> state.selected == Some(row.key@),
{
}

/// The hardware address at an address is that of the first neighbour there, and
/// not known where there is none.
pub proof fn law_mac_at(neighbors: Seq<Neighbor>, ip: Seq<char>, i: int)
    ensures
        0 <= i < neighbors.len() && neighbors[i].ip == ip && (forall|j: int|
            0 <= j < i ==> (#[trigger] neighbors[j]).ip != ip) ==> mac_at(neighbors, ip)
            == neighbors[i].mac,
        (forall|j: int| 0 <= j < neighbors.len() ==> (#[trigger] neighbors[j]).ip != ip) ==> mac_at(
            neighbors,
            ip,
        ) == "(unknown)"@,
    decreases neighbors.len(),
{
    if neighbors.len() > 0 && neighbors[0].ip != ip {
        let rest = neighbors.drop_first();
        law_mac_at(rest, ip, i - 1);
        assert(forall|j: int| 0 <= j < rest.len() ==> #[trigger] rest[j] == neighbors[j + 1]);
        if forall|j: int| 0 <= j < neighbors.len() ==> (#[trigger] neighbors[j]).ip != ip {
            assert forall|j: int| 0 <= j < rest.len() implies (#[trigger] rest[j]).ip != ip by {
                assert(neighbors[j + 1].ip != ip);
            }
        }
        if 0 <= i < neighbors.len() && neighbors[i].ip == ip && (forall|j: int|
            0 <= j < i ==> (#[trigger] neighbors[j]).ip != ip) {
            assert(rest[i - 1] == neighbors[i]);
            assert forall|j: int| 0 <= j < i - 1 implies (#[trigger] rest[j]).ip != ip by {
                assert(neighbors[j + 1].ip != ip);
            }
        }
    }
}

/// The summary names the selected neighbour by the two parts of its key; where
/// none is selected, or its key has no bar, the panel that was found, with the
/// hardware address of the neighbour there; and nobody where none was found.
pub proof fn law_summary(
    state: GuiState,
    found: Option<Seq<char>>,
    ip: Seq<char>,
    mac: Seq<char>,
)
    requires
        !ip.contains('|'),
    ensures
        state.selected == Some(ip + seq!['|'] + mac) ==> summary_device(state, found) == (ip, mac),
        state.selected is None || state.selected == Some(ip) ==> match found {
            Some(f) => summary_device(state, found) == (f, mac_at(state.neighbors, f)),
            None => summary_device(state, found) == ("(none)"@, "(none)"@),
        },
{
    text::law_split_once(ip, '|', mac);
}

/// The state is seen by its values, each for each.
pub proof fn law_state_seen(gui: WebGui)
    ensures
        gui@.esp_counter == gui.esp_counter,
        gui@.last_esp_ip == gui.last_esp_ip,
        gui@.edit_text == gui.edit_text@,
        gui@.edit_value == gui.edit_value,
        gui@.local_macs == gui.local_macs@,
        gui@.neighbors == arp::neighbors_of(gui.arp_neighbors@),
        gui.selected_arp_key matches Some(key) ==> gui@.selected == Some(key@),
        gui.selected_arp_key is None ==> gui@.selected is None,
        gui@.in_flight == gui.arp_in_flight,
{
}

/// Any value in the counter's range may stand in the input field, shown by its
/// digits, and the field may be empty where the value is zero.
pub proof fn law_states_in_order(state: GuiState)
    requires
        0 <= state.esp_counter <= 100,
        0 <= state.edit_value <= 100,
        state.edit_text == text::decimal(state.edit_value as nat) || (state.edit_text.len() == 0
            && state.edit_value == 0),
    ensures
        state.wf(),
{
}

} // verus!
