//! Joining a wireless network: which one, how often, and what the panel shows
//! meanwhile.

use crate::text;
use vstd::prelude::*;

verus! {

/// The networks to join, in order of preference.
pub const WIFI_SSIDS: [&'static str; 2] = ["COMMUNITIES.WIN", "324GUEST"];

pub const WIFI_PASSWORD: &'static str = "72427040";

/// So many attempts are made to join a network.
pub const WIFI_MAX_ATTEMPTS: u8 = 3;

/// The state of the station is looked at so often in one attempt, every half
/// second.
pub const WIFI_TICKS: u8 = 60;

/// So many of the networks that a scan finds are listed.
pub const MAX_LISTED: usize = 15;

#[derive(Clone, Copy, Debug, PartialEq, Eq, Structural)]
pub enum WifiConnState {
    Disconnected,
    Connecting,
    Connected,
}

impl WifiConnState {
    /// The number by which the display knows the state.
    pub open spec fn number(self) -> int {
        match self {
            WifiConnState::Disconnected => 0,
            WifiConnState::Connecting => 1,
            WifiConnState::Connected => 2,
        }
    }

    pub fn code(self) -> (n: i32)
        ensures
            n == self.number(),
    {
        match self {
            WifiConnState::Disconnected => 0,
            WifiConnState::Connecting => 1,
            WifiConnState::Connected => 2,
        }
    }
}

/// What the panel shows of the wireless network.
#[derive(Clone, Copy, Debug, PartialEq, Eq, Structural)]
pub struct WifiUiState {
    pub state: WifiConnState,
    /// Zero when not attempting; otherwise 1 to `WIFI_MAX_ATTEMPTS`.
    pub attempt: u8,
    pub blink_on: bool,
    /// Index into `WIFI_SSIDS`.
    pub ssid_idx: u8,
}

impl WifiUiState {
    pub open spec fn wf(self) -> bool {
        &&& self.attempt <= WIFI_MAX_ATTEMPTS
        &&& self.ssid_idx < 2
        &&& self.state != WifiConnState::Disconnected ==> self.attempt > 0
        &&& self.blink_on ==> self.state == WifiConnState::Connecting
    }

    /// Not connected, and not attempting to be.
    pub fn disconnected() -> (r: WifiUiState)
        ensures
            r.wf(),
            r == (WifiUiState {
                state: WifiConnState::Disconnected,
                attempt: 0,
                blink_on: false,
                ssid_idx: 0,
            }),
    {
        WifiUiState {
            state: WifiConnState::Disconnected,
            attempt: 0,
            blink_on: false,
            ssid_idx: 0,
        }
    }
}

// ---------------------------------------------------------------------------
// Scans
// ---------------------------------------------------------------------------

/// A network that a scan has found.
#[derive(Debug)]
pub struct AccessPoint {
    pub ssid: String,
    pub rssi: i8,
}

/// The strongest signal of a network by that name.
pub open spec fn best_rssi(aps: Seq<AccessPoint>, name: Seq<char>) -> Option<i8>
    decreases aps.len(),
{
    if aps.len() == 0 {
        None
    } else {
        let ap = aps.last();
        let rest = best_rssi(aps.drop_last(), name);
        if ap.ssid@ == name && (rest matches Some(r) ==> r < ap.rssi) {
            Some(ap.rssi)
        } else {
            rest
        }
    }
}

/// The network to join: of those in sight the one with the stronger signal,
/// the first where they are alike or none is in sight.
pub open spec fn best_ssid(aps: Seq<AccessPoint>) -> u8 {
    match (best_rssi(aps, WIFI_SSIDS@[0]@), best_rssi(aps, WIFI_SSIDS@[1]@)) {
        (Some(first), Some(second)) => if second > first {
            1
        } else {
            0
        },
        (None, Some(_)) => 1,
        (_, None) => 0,
    }
}

fn strongest(aps: &Vec<AccessPoint>, name: &str) -> (r: Option<i8>)
    ensures
        r == best_rssi(aps@, name@),
{
    let mut best: Option<i8> = None;
    let mut i: usize = 0;
    while i < aps.len()
        invariant
            i <= aps.len(),
            best == best_rssi(aps@.take(i as int), name@),
        decreases aps.len() - i,
    {
        assert(aps@.take(i + 1).drop_last() == aps@.take(i as int));
        if text::str_eq(aps[i].ssid.as_str(), name) {
            let rssi = aps[i].rssi;
            best = match best {
                Some(r) => if r < rssi {
                    Some(rssi)
                } else {
                    Some(r)
                },
                None => Some(rssi),
            };
        }
        i += 1;
    }
    assert(aps@.take(i as int) == aps@);
    best
}

/// Chooses the network to join: an index into `WIFI_SSIDS`.
pub fn choose_ssid(aps: &Vec<AccessPoint>) -> (idx: u8)
    ensures
        idx == best_ssid(aps@),
        idx < 2,
{
    let first = strongest(aps, WIFI_SSIDS[0]);
    let second = strongest(aps, WIFI_SSIDS[1]);
    match (first, second) {
        (Some(a), Some(b)) => if b > a {
            1
        } else {
            0
        },
        (None, Some(_)) => 1,
        (_, None) => 0,
    }
}

/// The order of a listing: the stronger first, and those alike as they came.
pub open spec fn listed_before(aps: Seq<AccessPoint>, i: int, j: int) -> bool {
    aps[i].rssi > aps[j].rssi || (aps[i].rssi == aps[j].rssi && i < j)
}

/// `list` holds the first `list.len()` networks in that order.
pub open spec fn is_listing(aps: Seq<AccessPoint>, list: Seq<usize>) -> bool {
    &&& forall|k: int| 0 <= k < list.len() ==> #[trigger] list[k] < aps.len()
    &&& forall|k: int, l: int|
        0 <= k < l < list.len() ==> listed_before(aps, #[trigger] list[k] as int, #[trigger] list[l] as int)
    &&& forall|i: usize, k: int|
        i < aps.len() && 0 <= k < list.len() && !list.contains(i) ==> #[trigger] listed_before(
            aps,
            list[k] as int,
            i as int,
        )
}

fn before(aps: &Vec<AccessPoint>, i: usize, j: usize) -> (b: bool)
    requires
        i < aps.len(),
        j < aps.len(),
    ensures
        b == listed_before(aps@, i as int, j as int),
{
    aps[i].rssi > aps[j].rssi || (aps[i].rssi == aps[j].rssi && i < j)
}

/// The network that comes next in a listing.
fn next_listed(aps: &Vec<AccessPoint>, list: &Vec<usize>) -> (next: Option<usize>)
    requires
        is_listing(aps@, list@),
    ensures
        match next {
            Some(c) => {
                &&& c < aps@.len()
                &&& !list@.contains(c)
                &&& forall|i: usize|
                    i < aps@.len() && i != c && !list@.contains(i) ==> #[trigger] listed_before(
                        aps@,
                        c as int,
                        i as int,
                    )
            },
            None => forall|i: usize| i < aps@.len() ==> #[trigger] list@.contains(i),
        },
{
    let mut next: Option<usize> = None;
    let mut j: usize = 0;
    while j < aps.len()
        invariant
            j <= aps.len(),
            is_listing(aps@, list@),
            match next {
                Some(c) => {
                    &&& c < j
                    &&& !list@.contains(c)
                    &&& forall|i: usize|
                        i < j && i != c && !list@.contains(i) ==> #[trigger] listed_before(
                            aps@,
                            c as int,
                            i as int,
                        )
                },
                None => forall|i: usize| i < j ==> #[trigger] list@.contains(i),
            },
        decreases aps.len() - j,
    {
        let open = list.len() == 0 || before(aps, list[list.len() - 1], j);
        proof {
            if list@.contains(j) {
                let k = choose|k: int| 0 <= k < list@.len() && list@[k] == j;
                let last = list@.len() - 1;
                if k < last {
                    assert(listed_before(aps@, list@[k] as int, list@[last] as int));
                }
            } else if list@.len() > 0 {
                assert(listed_before(aps@, list@[list@.len() - 1] as int, j as int));
            }
            assert(open == !list@.contains(j));
        }
        if open {
            next = match next {
                Some(c) => if before(aps, j, c) {
                    assert forall|i: usize|
                        i < j && !list@.contains(i) implies #[trigger] listed_before(
                        aps@,
                        j as int,
                        i as int,
                    ) by {
                        assert(i == c || listed_before(aps@, c as int, i as int));
                    }
                    Some(j)
                } else {
                    Some(c)
                },
                None => Some(j),
            };
        }
        j += 1;
    }
    next
}

/// The strongest networks that a scan has found, by their indices, the
/// strongest first: all of them, or `MAX_LISTED`.
pub fn list_strongest(aps: &Vec<AccessPoint>) -> (list: Vec<usize>)
    ensures
        is_listing(aps@, list@),
        list@.len() <= MAX_LISTED,
        list@.len() < MAX_LISTED ==> forall|i: usize|
            i < aps@.len() ==> #[trigger] list@.contains(i),
{
    let mut list: Vec<usize> = Vec::new();
    while list.len() < MAX_LISTED
        invariant
            list@.len() <= MAX_LISTED,
            is_listing(aps@, list@),
        decreases MAX_LISTED - list.len(),
    {
        match next_listed(aps, &list) {
            Some(c) => {
                let ghost shorter = list@;
                list.push(c);
                proof {
                    assert(forall|k: int|
                        0 <= k < shorter.len() ==> #[trigger] list@[k] == shorter[k]);
                    assert forall|k: int, l: int| 0 <= k < l < list@.len() implies listed_before(
                        aps@,
                        #[trigger] list@[k] as int,
                        #[trigger] list@[l] as int,
                    ) by {
                        if l < shorter.len() {
                            assert(listed_before(aps@, shorter[k] as int, shorter[l] as int));
                        } else {
                            assert(listed_before(aps@, shorter[k] as int, c as int));
                        }
                    }
                    assert forall|i: usize, k: int|
                        i < aps@.len() && 0 <= k < list@.len() && !list@.contains(
                            i,
                        ) implies #[trigger] listed_before(aps@, list@[k] as int, i as int) by {
                        assert(list@[shorter.len() as int] == c);
                        if shorter.contains(i) {
                            let m = choose|m: int| 0 <= m < shorter.len() && shorter[m] == i;
                            assert(list@[m] == i);
                        }
                        assert(i != c);
                        if k < shorter.len() {
                            assert(listed_before(aps@, shorter[k] as int, i as int));
                        } else {
                            assert(listed_before(aps@, c as int, i as int));
                        }
                    }
                }
            },
            None => {
                return list;
            },
        }
    }
    list
}

/// The network by that name that comes first in a listing.
pub open spec fn is_first_named(aps: Seq<AccessPoint>, name: Seq<char>, r: Option<usize>) -> bool {
    match r {
        Some(c) => {
            &&& c < aps.len()
            &&& aps[c as int].ssid@ == name
            &&& forall|i: int|
                0 <= i < aps.len() && i != c && (#[trigger] aps[i]).ssid@ == name ==> listed_before(
                    aps,
                    c as int,
                    i,
                )
        },
        None => forall|i: int| 0 <= i < aps.len() ==> (#[trigger] aps[i]).ssid@ != name,
    }
}

/// Where one of the networks to join is in sight: the strongest by that name.
pub fn find_target(aps: &Vec<AccessPoint>, name: &str) -> (r: Option<usize>)
    ensures
        is_first_named(aps@, name@, r),
{
    let mut found: Option<usize> = None;
    let mut j: usize = 0;
    while j < aps.len()
        invariant
            j <= aps.len(),
            found matches Some(c) ==> c < j && aps@[c as int].ssid@ == name@,
            forall|i: int|
                0 <= i < j && (#[trigger] aps@[i]).ssid@ == name@ ==> (found matches Some(c) && (i
                    == c || listed_before(aps@, c as int, i))),
        decreases aps.len() - j,
    {
        if text::str_eq(aps[j].ssid.as_str(), name) {
            found = match found {
                Some(c) => if before(aps, j, c) {
                    Some(j)
                } else {
                    Some(c)
                },
                None => Some(j),
            };
        }
        j += 1;
    }
    found
}

// ---------------------------------------------------------------------------
// Joining
// ---------------------------------------------------------------------------

/// How far joining a network has come: what has last been asked of the radio.
#[derive(Clone, Copy, Debug, PartialEq, Eq, Structural)]
pub enum WifiPhase {
    /// To take its first configuration.
    Configuring,
    /// To start.
    Starting,
    /// To scan, for the log.
    Surveying,
    /// To scan, for this attempt.
    Selecting { attempt: u8 },
    /// To take the configuration of this attempt.
    Reconfiguring { attempt: u8, ssid_idx: u8 },
    /// To leave whatever network it may be in.
    Leaving { attempt: u8, ssid_idx: u8 },
    /// To join the network.
    Joining { attempt: u8, ssid_idx: u8 },
    /// For the state of the station, which has been looked at `ticks` times.
    Checking { attempt: u8, ssid_idx: u8, ticks: u8, blink: bool },
    /// Nothing: the half second runs.
    Ticking { attempt: u8, ssid_idx: u8, ticks: u8, blink: bool },
    /// Nothing: the pause after an attempt runs.
    Resting { attempt: u8 },
    /// Nothing more.
    Finished,
}

/// What the radio or the clock has answered.
#[derive(Debug)]
pub enum WifiEvent {
    /// Whether the request went through.
    Done(bool),
    /// What the scan has found; nothing where it failed.
    Scanned(Option<Vec<AccessPoint>>),
    /// Whether the station is connected.
    Station(bool),
    /// The time is over.
    Elapsed,
}

/// What to do next.
#[derive(Clone, Copy, Debug, PartialEq, Eq, Structural)]
pub enum WifiAction {
    /// Configure the radio for the network of this index.
    Configure { ssid_idx: u8 },
    Start,
    Scan,
    Disconnect,
    Connect,
    /// Ask for the state of the station.
    CheckStation,
    /// Wait for the next half second.
    AwaitTick,
    /// Sleep for a second.
    Rest,
    Stop,
}

/// One step: the state to show first, where it changes, and what to do then.
#[derive(Clone, Copy, Debug, PartialEq, Eq, Structural)]
pub struct WifiStep {
    pub show: Option<WifiUiState>,
    pub action: WifiAction,
}

impl WifiPhase {
    pub open spec fn wf(self) -> bool {
        match self {
            WifiPhase::Configuring | WifiPhase::Starting | WifiPhase::Surveying
            | WifiPhase::Finished => true,
            WifiPhase::Selecting { attempt } | WifiPhase::Resting { attempt } => 1 <= attempt
                <= WIFI_MAX_ATTEMPTS,
            WifiPhase::Reconfiguring { attempt, ssid_idx }
            | WifiPhase::Leaving { attempt, ssid_idx }
            | WifiPhase::Joining { attempt, ssid_idx } => 1 <= attempt <= WIFI_MAX_ATTEMPTS
                && ssid_idx < 2,
            WifiPhase::Checking { attempt, ssid_idx, ticks, blink }
            | WifiPhase::Ticking { attempt, ssid_idx, ticks, blink } => 1 <= attempt
                <= WIFI_MAX_ATTEMPTS && ssid_idx < 2 && ticks < WIFI_TICKS,
        }
    }

    /// The event answers what was asked.
    pub open spec fn expects(self, event: WifiEvent) -> bool {
        match self {
            WifiPhase::Configuring | WifiPhase::Starting | WifiPhase::Reconfiguring { .. }
            | WifiPhase::Leaving { .. } | WifiPhase::Joining { .. } => event is Done,
            WifiPhase::Surveying | WifiPhase::Selecting { .. } => event is Scanned,
            WifiPhase::Checking { .. } => event is Station,
            WifiPhase::Ticking { .. } | WifiPhase::Resting { .. } => event is Elapsed,
            WifiPhase::Finished => false,
        }
    }

    /// The phase that follows, and the step that leads to it.
    pub open spec fn next(self, event: WifiEvent) -> (WifiPhase, WifiStep) {
        match self {
            WifiPhase::Configuring => if event->Done_0 {
                (WifiPhase::Starting, silent(WifiAction::Start))
            } else {
                (WifiPhase::Finished, silent(WifiAction::Stop))
            },
            WifiPhase::Starting => if event->Done_0 {
                (WifiPhase::Surveying, silent(WifiAction::Scan))
            } else {
                (WifiPhase::Finished, silent(WifiAction::Stop))
            },
            WifiPhase::Surveying => (
                WifiPhase::Selecting { attempt: 1 },
                silent(WifiAction::Scan),
            ),
            WifiPhase::Selecting { attempt } => {
                let ssid_idx = match event->Scanned_0 {
                    Some(aps) => best_ssid(aps@),
                    None => 0,
                };
                (
                    WifiPhase::Reconfiguring { attempt, ssid_idx },
                    shown(
                        WifiConnState::Disconnected,
                        0,
                        false,
                        ssid_idx,
                        WifiAction::Configure { ssid_idx },
                    ),
                )
            },
            WifiPhase::Reconfiguring { attempt, ssid_idx } => if event->Done_0 {
                (WifiPhase::Leaving { attempt, ssid_idx }, silent(WifiAction::Disconnect))
            } else {
                (WifiPhase::Resting { attempt }, silent(WifiAction::Rest))
            },
            WifiPhase::Leaving { attempt, ssid_idx } => (
                WifiPhase::Joining { attempt, ssid_idx },
                silent(WifiAction::Connect),
            ),
            WifiPhase::Joining { attempt, ssid_idx } => if event->Done_0 {
                (
                    WifiPhase::Checking { attempt, ssid_idx, ticks: 0, blink: false },
                    silent(WifiAction::CheckStation),
                )
            } else {
                (
                    WifiPhase::Resting { attempt },
                    shown(
                        WifiConnState::Disconnected,
                        attempt,
                        false,
                        ssid_idx,
                        WifiAction::Rest,
                    ),
                )
            },
            WifiPhase::Checking { attempt, ssid_idx, ticks, blink } => if event->Station_0 {
                (
                    WifiPhase::Finished,
                    shown(
                        WifiConnState::Connected,
                        attempt,
                        false,
                        ssid_idx,
                        WifiAction::Stop,
                    ),
                )
            } else {
                (
                    WifiPhase::Ticking { attempt, ssid_idx, ticks, blink: !blink },
                    shown(
                        WifiConnState::Connecting,
                        attempt,
                        !blink,
                        ssid_idx,
                        WifiAction::AwaitTick,
                    ),
                )
            },
            WifiPhase::Ticking { attempt, ssid_idx, ticks, blink } => if ticks + 1 < WIFI_TICKS {
                (
                    WifiPhase::Checking { attempt, ssid_idx, ticks: (ticks + 1) as u8, blink },
                    silent(WifiAction::CheckStation),
                )
            } else {
                (
                    WifiPhase::Resting { attempt },
                    shown(
                        WifiConnState::Disconnected,
                        attempt,
                        false,
                        ssid_idx,
                        WifiAction::Rest,
                    ),
                )
            },
            WifiPhase::Resting { attempt } => if attempt < WIFI_MAX_ATTEMPTS {
                (
                    WifiPhase::Selecting { attempt: (attempt + 1) as u8 },
                    silent(WifiAction::Scan),
                )
            } else {
                (
                    WifiPhase::Finished,
                    shown(WifiConnState::Disconnected, 0, false, 0, WifiAction::Stop),
                )
            },
            WifiPhase::Finished => (WifiPhase::Finished, silent(WifiAction::Stop)),
        }
    }

    /// The largest number of steps that can still follow.
    pub open spec fn steps_left(self) -> nat {
        match self {
            WifiPhase::Configuring => 378,
            WifiPhase::Starting => 377,
            WifiPhase::Surveying => 376,
            WifiPhase::Selecting { attempt } => steps_of_attempts(attempt) + 125,
            WifiPhase::Reconfiguring { attempt, .. } => steps_of_attempts(attempt) + 124,
            WifiPhase::Leaving { attempt, .. } => steps_of_attempts(attempt) + 123,
            WifiPhase::Joining { attempt, .. } => steps_of_attempts(attempt) + 122,
            WifiPhase::Checking { attempt, ticks, .. } => (steps_of_attempts(attempt) + 121 - 2
                * ticks) as nat,
            WifiPhase::Ticking { attempt, ticks, .. } => (steps_of_attempts(attempt) + 120 - 2
                * ticks) as nat,
            WifiPhase::Resting { attempt } => steps_of_attempts(attempt) + 1,
            WifiPhase::Finished => 0,
        }
    }

    /// Which attempt this is; zero before the first.
    pub open spec fn attempt(self) -> int {
        match self {
            WifiPhase::Configuring | WifiPhase::Starting | WifiPhase::Surveying => 0,
            WifiPhase::Selecting { attempt } | WifiPhase::Resting { attempt } => attempt as int,
            WifiPhase::Reconfiguring { attempt, .. } | WifiPhase::Leaving { attempt, .. }
            | WifiPhase::Joining { attempt, .. } | WifiPhase::Checking { attempt, .. }
            | WifiPhase::Ticking { attempt, .. } => attempt as int,
            WifiPhase::Finished => WIFI_MAX_ATTEMPTS as int,
        }
    }
}

/// The steps of the attempts that come after this one.
pub open spec fn steps_of_attempts(attempt: u8) -> nat {
    if attempt < WIFI_MAX_ATTEMPTS {
        (WIFI_MAX_ATTEMPTS - attempt) as nat * 125
    } else {
        0
    }
}

/// A step that changes nothing on the display.
pub open spec fn silent(action: WifiAction) -> WifiStep {
    WifiStep { show: None, action }
}

/// A step that shows a state.
pub open spec fn shown(
    state: WifiConnState,
    attempt: u8,
    blink_on: bool,
    ssid_idx: u8,
    action: WifiAction,
) -> WifiStep {
    WifiStep { show: Some(WifiUiState { state, attempt, blink_on, ssid_idx }), action }
}

fn show(
    state: WifiConnState,
    attempt: u8,
    blink_on: bool,
    ssid_idx: u8,
    action: WifiAction,
) -> (r: WifiStep)
    ensures
        r == shown(state, attempt, blink_on, ssid_idx, action),
{
    WifiStep { show: Some(WifiUiState { state, attempt, blink_on, ssid_idx }), action }
}

fn quiet(action: WifiAction) -> (r: WifiStep)
    ensures
        r == silent(action),
{
    WifiStep { show: None, action }
}

impl WifiPhase {
    /// The first step: show that nothing is connected, and configure the radio
    /// for the first network.
    pub fn start() -> (r: (WifiPhase, WifiStep))
        ensures
            r.0.wf(),
            r.0 == WifiPhase::Configuring,
            r.1 == shown(
                WifiConnState::Disconnected,
                0,
                false,
                0,
                WifiAction::Configure { ssid_idx: 0 },
            ),
    {
        (
            WifiPhase::Configuring,
            WifiStep {
                show: Some(WifiUiState::disconnected()),
                action: WifiAction::Configure { ssid_idx: 0 },
            },
        )
    }

    /// Whether the event answers what was asked.
    pub fn accepts(&self, event: &WifiEvent) -> (b: bool)
        ensures
            b == self.expects(*event),
    {
        match self {
            WifiPhase::Configuring | WifiPhase::Starting | WifiPhase::Reconfiguring { .. }
            | WifiPhase::Leaving { .. } | WifiPhase::Joining { .. } => matches!(event, WifiEvent::Done(_)),
            WifiPhase::Surveying | WifiPhase::Selecting { .. } => matches!(event, WifiEvent::Scanned(_)),
            WifiPhase::Checking { .. } => matches!(event, WifiEvent::Station(_)),
            WifiPhase::Ticking { .. } | WifiPhase::Resting { .. } => matches!(event, WifiEvent::Elapsed),
            WifiPhase::Finished => false,
        }
    }
}

/// One step of the task that joins a network. Its caller does what each step
/// asks for and comes back with what came of it.
pub fn wifi_connect_task(phase: WifiPhase, event: &WifiEvent) -> (r: (WifiPhase, WifiStep))
    requires
        phase.wf(),
        phase.expects(*event),
    ensures
        r.0.wf(),
        r == phase.next(*event),
{
    let ok = match event {
        WifiEvent::Done(ok) => *ok,
        WifiEvent::Station(connected) => *connected,
        _ => false,
    };
    match phase {
        WifiPhase::Configuring => if ok {
            (WifiPhase::Starting, quiet(WifiAction::Start))
        } else {
            (WifiPhase::Finished, quiet(WifiAction::Stop))
        },
        WifiPhase::Starting => if ok {
            (WifiPhase::Surveying, quiet(WifiAction::Scan))
        } else {
            (WifiPhase::Finished, quiet(WifiAction::Stop))
        },
        WifiPhase::Surveying => (
            WifiPhase::Selecting { attempt: 1 },
            quiet(WifiAction::Scan),
        ),
        WifiPhase::Selecting { attempt } => {
            let ssid_idx: u8 = match event {
                WifiEvent::Scanned(Some(aps)) => choose_ssid(aps),
                _ => 0,
            };
            (
                WifiPhase::Reconfiguring { attempt, ssid_idx },
                show(
                    WifiConnState::Disconnected,
                    0,
                    false,
                    ssid_idx,
                    WifiAction::Configure { ssid_idx },
                ),
            )
        },
        WifiPhase::Reconfiguring { attempt, ssid_idx } => if ok {
            (WifiPhase::Leaving { attempt, ssid_idx }, quiet(WifiAction::Disconnect))
        } else {
            (WifiPhase::Resting { attempt }, quiet(WifiAction::Rest))
        },
        WifiPhase::Leaving { attempt, ssid_idx } => (
            WifiPhase::Joining { attempt, ssid_idx },
            quiet(WifiAction::Connect),
        ),
        WifiPhase::Joining { attempt, ssid_idx } => if ok {
            (
                WifiPhase::Checking { attempt, ssid_idx, ticks: 0, blink: false },
                quiet(WifiAction::CheckStation),
            )
        } else {
            (
                WifiPhase::Resting { attempt },
                show(WifiConnState::Disconnected, attempt, false, ssid_idx, WifiAction::Rest),
            )
        },
        WifiPhase::Checking { attempt, ssid_idx, ticks, blink } => if ok {
            (
                WifiPhase::Finished,
                show(WifiConnState::Connected, attempt, false, ssid_idx, WifiAction::Stop),
            )
        } else {
            (
                WifiPhase::Ticking { attempt, ssid_idx, ticks, blink: !blink },
                show(
                    WifiConnState::Connecting,
                    attempt,
                    !blink,
                    ssid_idx,
                    WifiAction::AwaitTick,
                ),
            )
        },
        WifiPhase::Ticking { attempt, ssid_idx, ticks, blink } => if ticks + 1 < WIFI_TICKS {
            (
                WifiPhase::Checking { attempt, ssid_idx, ticks: ticks + 1, blink },
                quiet(WifiAction::CheckStation),
            )
        } else {
            (
                WifiPhase::Resting { attempt },
                show(WifiConnState::Disconnected, attempt, false, ssid_idx, WifiAction::Rest),
            )
        },
        WifiPhase::Resting { attempt } => if attempt < WIFI_MAX_ATTEMPTS {
            (WifiPhase::Selecting { attempt: attempt + 1 }, quiet(WifiAction::Scan))
        } else {
            (
                WifiPhase::Finished,
                show(WifiConnState::Disconnected, 0, false, 0, WifiAction::Stop),
            )
        },
        WifiPhase::Finished => (WifiPhase::Finished, quiet(WifiAction::Stop)),
    }
}

// ---------------------------------------------------------------------------
// Laws
// ---------------------------------------------------------------------------

/// Joining comes to an end: every step leaves fewer steps to come.
pub proof fn law_joining_ends(phase: WifiPhase, event: WifiEvent)
    requires
        phase.wf(),
        phase.expects(event),
    ensures
        phase.next(event).0.wf(),
        phase.next(event).0.steps_left() < phase.steps_left(),
        phase.next(event).1.action == WifiAction::Stop <==> phase.next(event).0
            == WifiPhase::Finished,
{
}

impl WifiPhase {
    /// The events come one after the other, each as an answer to the step before.
    pub open spec fn runs(self, events: Seq<WifiEvent>) -> bool
        decreases events.len(),
    {
        events.len() == 0 || (self.expects(events[0]) && self.next(events[0]).0.runs(
            events.drop_first(),
        ))
    }

    /// How often the radio is told to connect in the course of the events.
    pub open spec fn connects(self, events: Seq<WifiEvent>) -> nat
        decreases events.len(),
    {
        if events.len() == 0 {
            0
        } else {
            let (after, step) = self.next(events[0]);
            after.connects(events.drop_first()) + (if step.action == WifiAction::Connect {
                1nat
            } else {
                0
            })
        }
    }

    /// How often the radio can still be told to connect.
    pub open spec fn connects_left(self) -> nat {
        match self {
            WifiPhase::Configuring | WifiPhase::Starting | WifiPhase::Surveying =>
                WIFI_MAX_ATTEMPTS as nat,
            WifiPhase::Selecting { attempt } | WifiPhase::Reconfiguring { attempt, .. }
            | WifiPhase::Leaving { attempt, .. } => (WIFI_MAX_ATTEMPTS - attempt + 1) as nat,
            WifiPhase::Joining { attempt, .. } | WifiPhase::Checking { attempt, .. }
            | WifiPhase::Ticking { attempt, .. } | WifiPhase::Resting { attempt } => (
            WIFI_MAX_ATTEMPTS - attempt) as nat,
            WifiPhase::Finished => 0,
        }
    }
}

/// However the radio answers, the task ends within `steps_left` steps and tells
/// the radio to connect `WIFI_MAX_ATTEMPTS` times at most.
pub proof fn law_every_run_ends(phase: WifiPhase, events: Seq<WifiEvent>)
    requires
        phase.wf(),
        phase.runs(events),
    ensures
        events.len() <= phase.steps_left(),
        phase.connects(events) <= phase.connects_left() <= WIFI_MAX_ATTEMPTS,
    decreases events.len(),
{
    if events.len() > 0 {
        law_joining_ends(phase, events[0]);
        law_every_run_ends(phase.next(events[0]).0, events.drop_first());
    }
}

/// There are `WIFI_MAX_ATTEMPTS` attempts at most: they are counted up one by
/// one, and after the last none begins.
pub proof fn law_attempts_bounded(phase: WifiPhase, event: WifiEvent)
    requires
        phase.wf(),
        phase.expects(event),
    ensures
        ({
            let next = phase.next(event).0;
            &&& phase.attempt() <= next.attempt() <= WIFI_MAX_ATTEMPTS
            &&& next != WifiPhase::Finished ==> next.attempt() <= phase.attempt() + 1
            &&& next is Selecting <==> next != WifiPhase::Finished && next.attempt()
                == phase.attempt() + 1
        }),
{
}

/// What is shown is always in order, and it is shown as connected when the
/// station is, in this attempt, and never else; the task then stops. Before an
/// attempt gets under way and once the task has given up, none is shown.
pub proof fn law_shown_state(phase: WifiPhase, event: WifiEvent)
    requires
        phase.wf(),
        phase.expects(event),
    ensures
        phase.next(event).1.show matches Some(ui) ==> {
            &&& ui.wf()
            &&& ui.state == WifiConnState::Connected <==> phase is Checking && event
                == WifiEvent::Station(true)
            &&& ui.state == WifiConnState::Connected ==> phase.next(event).0
                == WifiPhase::Finished && ui.attempt == phase.attempt()
            &&& phase is Resting || phase is Selecting ==> ui.attempt == 0
        },
{
}

/// After the pause that ends an attempt the next begins, or, where this was the
/// last, the task gives up and shows that nothing is attempted any more.
pub proof fn law_next_or_give_up(attempt: u8)
    requires
        1 <= attempt <= WIFI_MAX_ATTEMPTS,
    ensures
        (WifiPhase::Resting { attempt }).next(WifiEvent::Elapsed) == (if attempt
            < WIFI_MAX_ATTEMPTS {
            (WifiPhase::Selecting { attempt: (attempt + 1) as u8 }, silent(WifiAction::Scan))
        } else {
            (
                WifiPhase::Finished,
                shown(WifiConnState::Disconnected, 0, false, 0, WifiAction::Stop),
            )
        }),
{
}

/// While it waits for the station the display blinks: two looks at it that
/// find it unconnected show the opposite of each other.
pub proof fn law_blinks(phase: WifiPhase)
    requires
        phase.wf(),
        phase is Checking,
        phase->Checking_ticks + 1 < WIFI_TICKS,
    ensures
        ({
            let (ticking, first) = phase.next(WifiEvent::Station(false));
            let (checking, _) = ticking.next(WifiEvent::Elapsed);
            let (_, second) = checking.next(WifiEvent::Station(false));
            &&& first.show matches Some(a)
            &&& second.show matches Some(b)
            &&& a.blink_on == !b.blink_on
        }),
{
}

/// The network that is joined is in sight where any of them is, and no other
/// in sight is stronger.
pub proof fn law_strongest_chosen(aps: Seq<AccessPoint>, i: int)
    requires
        0 <= i < aps.len(),
        aps[i].ssid@ == WIFI_SSIDS@[0]@ || aps[i].ssid@ == WIFI_SSIDS@[1]@,
    ensures
        best_ssid(aps) < 2,
        best_rssi(aps, WIFI_SSIDS@[best_ssid(aps) as int]@) matches Some(r) && r >= aps[i].rssi,
{
    lemma_best_rssi(aps, aps[i].ssid@, i);
}

proof fn lemma_best_rssi(aps: Seq<AccessPoint>, name: Seq<char>, i: int)
    requires
        0 <= i < aps.len(),
        aps[i].ssid@ == name,
    ensures
        best_rssi(aps, name) matches Some(r) && r >= aps[i].rssi,
    decreases aps.len(),
{
    if i < aps.len() - 1 {
        lemma_best_rssi(aps.drop_last(), name, i);
    }
}

/// Whenever the station is found connected, however often it was looked at
/// before, this is shown with the network and the attempt, and the task ends.
pub proof fn law_connection_noticed(attempt: u8, ssid_idx: u8, ticks: u8, blink: bool)
    requires
        1 <= attempt <= 3,
        ssid_idx < 2,
        ticks < 60,
    ensures
        ({
            let phase = WifiPhase::Checking { attempt, ssid_idx, ticks, blink };
            let (after, step) = phase.next(WifiEvent::Station(true));
            &&& phase.wf()
            &&& after == WifiPhase::Finished
            &&& step.action == WifiAction::Stop
            &&& step.show == Some(
                WifiUiState {
                    state: WifiConnState::Connected,
                    attempt,
                    blink_on: false,
                    ssid_idx,
                },
            )
        }),
{
}

/// While the station is not connected, that it is being joined is shown, each
/// time the other way, and half a second goes by before the next look; after
/// the sixtieth look the attempt is over, which is shown, and the task rests.
pub proof fn law_waits_for_station(attempt: u8, ssid_idx: u8, ticks: u8, blink: bool)
    requires
        1 <= attempt <= 3,
        ssid_idx < 2,
        ticks < 60,
    ensures
        ({
            let (ticking, step) = (WifiPhase::Checking { attempt, ssid_idx, ticks, blink }).next(
                WifiEvent::Station(false),
            );
            &&& ticking == WifiPhase::Ticking { attempt, ssid_idx, ticks, blink: !blink }
            &&& step.action == WifiAction::AwaitTick
            &&& step.show == Some(
                WifiUiState {
                    state: WifiConnState::Connecting,
                    attempt,
                    blink_on: !blink,
                    ssid_idx,
                },
            )
        }),
        ({
            let (after, step) = (WifiPhase::Ticking { attempt, ssid_idx, ticks, blink }).next(
                WifiEvent::Elapsed,
            );
            &&& ticks < 59 ==> after == WifiPhase::Checking {
                attempt,
                ssid_idx,
                ticks: (ticks + 1) as u8,
                blink,
            } && step == (WifiStep { show: None, action: WifiAction::CheckStation })
            &&& ticks == 59 ==> after == WifiPhase::Resting { attempt } && step == (WifiStep {
                show: Some(
                    WifiUiState {
                        state: WifiConnState::Disconnected,
                        attempt,
                        blink_on: false,
                        ssid_idx,
                    },
                ),
                action: WifiAction::Rest,
            })
        }),
{
}

/// The radio is configured for the first network and started, and the task ends
/// where either fails. What the first scan gives decides nothing.
pub proof fn law_radio_started(ok: bool, found: Option<Vec<AccessPoint>>)
    ensures
        WifiPhase::Configuring.next(WifiEvent::Done(ok)) == (if ok {
            (WifiPhase::Starting, WifiStep { show: None, action: WifiAction::Start })
        } else {
            (WifiPhase::Finished, WifiStep { show: None, action: WifiAction::Stop })
        }),
        WifiPhase::Starting.next(WifiEvent::Done(ok)) == (if ok {
            (WifiPhase::Surveying, WifiStep { show: None, action: WifiAction::Scan })
        } else {
            (WifiPhase::Finished, WifiStep { show: None, action: WifiAction::Stop })
        }),
        WifiPhase::Surveying.next(WifiEvent::Scanned(found)) == (
            WifiPhase::Selecting { attempt: 1 },
            WifiStep { show: None, action: WifiAction::Scan },
        ),
{
}

/// An attempt is made at the network that its scan speaks for, and at the first
/// where the scan has failed: the radio is configured for it, which is shown,
/// then told to leave whatever network it is in, whether it can or not, and
/// then to connect. A refusal ends the attempt; that of the connection is shown.
pub proof fn law_attempt_made(attempt: u8, ssid_idx: u8, aps: Vec<AccessPoint>, ok: bool)
    requires
        1 <= attempt <= 3,
        ssid_idx < 2,
    ensures
        ({
            let selecting = WifiPhase::Selecting { attempt };
            let idx = best_ssid(aps@);
            &&& selecting.next(WifiEvent::Scanned(Some(aps))) == (
                WifiPhase::Reconfiguring { attempt, ssid_idx: idx },
                WifiStep {
                    show: Some(
                        WifiUiState {
                            state: WifiConnState::Disconnected,
                            attempt: 0,
                            blink_on: false,
                            ssid_idx: idx,
                        },
                    ),
                    action: WifiAction::Configure { ssid_idx: idx },
                },
            )
            &&& selecting.next(WifiEvent::Scanned(None)) == (
                WifiPhase::Reconfiguring { attempt, ssid_idx: 0 },
                WifiStep {
                    show: Some(
                        WifiUiState {
                            state: WifiConnState::Disconnected,
                            attempt: 0,
                            blink_on: false,
                            ssid_idx: 0,
                        },
                    ),
                    action: WifiAction::Configure { ssid_idx: 0 },
                },
            )
        }),
        (WifiPhase::Reconfiguring { attempt, ssid_idx }).next(WifiEvent::Done(ok)) == (if ok {
            (
                WifiPhase::Leaving { attempt, ssid_idx },
                WifiStep { show: None, action: WifiAction::Disconnect },
            )
        } else {
            (
                WifiPhase::Resting { attempt },
                WifiStep { show: None, action: WifiAction::Rest },
            )
        }),
        (WifiPhase::Leaving { attempt, ssid_idx }).next(WifiEvent::Done(ok)) == (
            WifiPhase::Joining { attempt, ssid_idx },
            WifiStep { show: None, action: WifiAction::Connect },
        ),
        (WifiPhase::Joining { attempt, ssid_idx }).next(WifiEvent::Done(ok)) == (if ok {
            (
                WifiPhase::Checking { attempt, ssid_idx, ticks: 0, blink: false },
                WifiStep { show: None, action: WifiAction::CheckStation },
            )
        } else {
            (
                WifiPhase::Resting { attempt },
                WifiStep {
                    show: Some(
                        WifiUiState {
                            state: WifiConnState::Disconnected,
                            attempt,
                            blink_on: false,
                            ssid_idx,
                        },
                    ),
                    action: WifiAction::Rest,
                },
            )
        }),
{
}

/// A rested task scans for the next attempt; after the third it shows that
/// nothing is connected or attempted, and ends.
pub proof fn law_three_attempts(attempt: u8)
    requires
        1 <= attempt <= 3,
    ensures
        attempt < 3 ==> (WifiPhase::Resting { attempt }).next(WifiEvent::Elapsed) == (
            WifiPhase::Selecting { attempt: (attempt + 1) as u8 },
            WifiStep { show: None, action: WifiAction::Scan },
        ),
        attempt == 3 ==> (WifiPhase::Resting { attempt }).next(WifiEvent::Elapsed) == (
            WifiPhase::Finished,
            WifiStep {
                show: Some(
                    WifiUiState {
                        state: WifiConnState::Disconnected,
                        attempt: 0,
                        blink_on: false,
                        ssid_idx: 0,
                    },
                ),
                action: WifiAction::Stop,
            },
        ),
{
}

/// What is asked of the radio or the clock is what is answered: a request goes
/// through or not, a scan finds networks or fails, a look at the station finds
/// it connected or not, and time goes by. After the end nothing is.
pub proof fn law_answers_expected(phase: WifiPhase, event: WifiEvent)
    ensures
        phase.expects(event) == match event {
            WifiEvent::Done(_) => phase is Configuring || phase is Starting
                || phase is Reconfiguring || phase is Leaving || phase is Joining,
            WifiEvent::Scanned(_) => phase is Surveying || phase is Selecting,
            WifiEvent::Station(_) => phase is Checking,
            WifiEvent::Elapsed => phase is Ticking || phase is Resting,
        },
{
}

impl WifiPhase {
    /// The phase after the events, one after the other.
    pub open spec fn after(self, events: Seq<WifiEvent>) -> WifiPhase
        decreases events.len(),
    {
        if events.len() == 0 {
            self
        } else {
            self.next(events[0]).0.after(events.drop_first())
        }
    }
}

/// An attempt waits for the station for thirty seconds: as long as it is not
/// connected, looks and half seconds follow each other, and after so many of
/// both as are left of sixty, and not before, the attempt is given up.
pub proof fn law_thirty_seconds(attempt: u8, ssid_idx: u8, ticks: u8, blink: bool, n: nat)
    requires
        1 <= attempt <= 3,
        ssid_idx < 2,
        ticks < 60,
        n <= 60 - ticks,
    ensures
        ({
            let looks = Seq::new(
                2 * n,
                |i: int|
                    if i % 2 == 0 {
                        WifiEvent::Station(false)
                    } else {
                        WifiEvent::Elapsed
                    },
            );
            let phase = WifiPhase::Checking { attempt, ssid_idx, ticks, blink };
            &&& phase.runs(looks)
            &&& n < 60 - ticks ==> phase.after(looks) is Checking && phase.after(looks).attempt()
                == attempt
            &&& n == 60 - ticks ==> phase.after(looks) == WifiPhase::Resting { attempt }
        }),
    decreases n,
{
    let look = |i: int|
        if i % 2 == 0 {
            WifiEvent::Station(false)
        } else {
            WifiEvent::Elapsed
        };
    let looks = Seq::new(2 * n, look);
    let phase = WifiPhase::Checking { attempt, ssid_idx, ticks, blink };
    reveal_with_fuel(WifiPhase::runs, 3);
    reveal_with_fuel(WifiPhase::after, 3);
    if n > 0 {
        let rest = looks.drop_first().drop_first();
        assert(looks[0] == WifiEvent::Station(false));
        assert(looks.drop_first()[0] == looks[1]);
        assert(looks[1] == WifiEvent::Elapsed);
        let shorter = Seq::new((2 * (n - 1)) as nat, look);
        assert(rest == shorter) by {
            assert forall|i: int| 0 <= i < rest.len() implies rest[i] == shorter[i] by {
                assert(rest[i] == looks[i + 2]);
                assert((i + 2) % 2 == i % 2);
            }
        }
        if ticks < 59 {
            law_thirty_seconds(attempt, ssid_idx, (ticks + 1) as u8, !blink, (n - 1) as nat);
        } else {
            assert(rest.len() == 0);
        }
    }
}

/// The strongest signal of a name is one that a network by that name has, and no
/// network by that name has a stronger one; there is none where no network has
/// that name.
pub proof fn law_best_rssi(aps: Seq<AccessPoint>, name: Seq<char>)
    ensures
        match best_rssi(aps, name) {
            Some(r) => {
                &&& exists|i: int|
                    0 <= i < aps.len() && (#[trigger] aps[i]).ssid@ == name && aps[i].rssi == r
                &&& forall|i: int|
                    0 <= i < aps.len() && (#[trigger] aps[i]).ssid@ == name ==> aps[i].rssi <= r
            },
            None => forall|i: int| 0 <= i < aps.len() ==> (#[trigger] aps[i]).ssid@ != name,
        },
    decreases aps.len(),
{
    if aps.len() > 0 {
        let rest = aps.drop_last();
        law_best_rssi(rest, name);
        let last = aps.len() - 1;
        assert(aps.last() == aps[last]);
        assert forall|i: int| 0 <= i < aps.len() && (#[trigger] aps[i]).ssid@ == name implies (
        best_rssi(aps, name) matches Some(r) && aps[i].rssi <= r) by {
            if i < last {
                assert(rest[i] == aps[i]);
            }
        }
        if let Some(r) = best_rssi(rest, name) {
            let i = choose|i: int|
                0 <= i < rest.len() && (#[trigger] rest[i]).ssid@ == name && rest[i].rssi == r;
            assert(aps[i].ssid@ == name && aps[i].rssi == r);
        }
    }
}

/// The second network is chosen where it is in sight and the first is not, or
/// where its signal is the stronger; the first in every other case.
pub proof fn law_network_chosen(aps: Seq<AccessPoint>)
    ensures
        ({
            let first = best_rssi(aps, "COMMUNITIES.WIN"@);
            let second = best_rssi(aps, "324GUEST"@);
            &&& best_ssid(aps) == 1 <==> second is Some && (first is None || second->0 > first->0)
            &&& best_ssid(aps) == 0 || best_ssid(aps) == 1
        }),
{
}

/// A listing holds each network once at most, the stronger before the weaker
/// and those alike as they came, and leaves none out that would come before one
/// that it holds.
pub proof fn law_listing(aps: Seq<AccessPoint>, list: Seq<usize>, k: int, l: int, i: usize)
    requires
        is_listing(aps, list),
        0 <= k < list.len(),
    ensures
        list[k] < aps.len(),
        k < l < list.len() ==> aps[list[k] as int].rssi > aps[list[l] as int].rssi || (
        aps[list[k] as int].rssi == aps[list[l] as int].rssi && list[k] < list[l]),
        i < aps.len() && !list.contains(i) ==> aps[list[k] as int].rssi > aps[i as int].rssi || (
        aps[list[k] as int].rssi == aps[i as int].rssi && list[k] < i),
{
    assert(list[k] < aps.len());
    if k < l < list.len() {
        assert(listed_before(aps, list[k] as int, list[l] as int));
    }
    if i < aps.len() && !list.contains(i) {
        assert(listed_before(aps, list[k] as int, i as int));
    }
}

/// The network that is found for a name has that name, and no other by that
/// name is stronger, or as strong and before it; none is found only where none
/// has that name.
pub proof fn law_target_found(
    aps: Seq<AccessPoint>,
    name: Seq<char>,
    found: Option<usize>,
    i: int,
)
    requires
        is_first_named(aps, name, found),
        0 <= i < aps.len(),
        aps[i].ssid@ == name,
    ensures
        found matches Some(c) && c < aps.len() && aps[c as int].ssid@ == name && (aps[c as int].rssi
            > aps[i].rssi || (aps[c as int].rssi == aps[i].rssi && c <= i)),
{
}

/// A step shows the state that it is to show, if any, and asks for what it is to
/// ask for.
pub proof fn law_steps(ui: WifiUiState, action: WifiAction)
    ensures
        shown(ui.state, ui.attempt, ui.blink_on, ui.ssid_idx, action) == (WifiStep {
            show: Some(ui),
            action,
        }),
        silent(action) == (WifiStep { show: None, action }),
{
}

/// Every phase of every attempt can be gone on from, at either network and after
/// any number of looks below sixty.
pub proof fn law_phases_in_order(attempt: u8, ssid_idx: u8, ticks: u8, blink: bool)
    requires
        1 <= attempt <= 3,
        ssid_idx < 2,
        ticks < 60,
    ensures
        WifiPhase::Configuring.wf(),
        WifiPhase::Starting.wf(),
        WifiPhase::Surveying.wf(),
        (WifiPhase::Selecting { attempt }).wf(),
        (WifiPhase::Reconfiguring { attempt, ssid_idx }).wf(),
        (WifiPhase::Leaving { attempt, ssid_idx }).wf(),
        (WifiPhase::Joining { attempt, ssid_idx }).wf(),
        (WifiPhase::Checking { attempt, ssid_idx, ticks, blink }).wf(),
        (WifiPhase::Ticking { attempt, ssid_idx, ticks, blink }).wf(),
        (WifiPhase::Resting { attempt }).wf(),
        WifiPhase::Finished.wf(),
{
}

} // verus!
