//! What the panel shows, and the loop that keeps it up to date.

use crate::addr;
use crate::addr::Ipv4;
use crate::events;
use crate::events::{EventNumbers, Housekeeping, Reaction, UiEvent, UiEventItem, UiEventPrio, UiEventQueue};
use crate::wifi::{WifiConnState, WifiUiState, WIFI_SSIDS};
use vstd::prelude::*;

verus! {

/// The properties of the panel's window.
pub struct CounterWindow {
    pub counter: i32,
    pub heartbeat: i32,
    pub wifi_ssid: &'static str,
    pub wifi_state: i32,
    pub wifi_attempt: i32,
    pub wifi_blink: bool,
    pub wifi_ip: String,
    pub wifi_mac: String,
}

/// The window by its values and texts.
#[verifier::ext_equal]
pub struct Shown {
    pub counter: int,
    pub heartbeat: int,
    pub wifi_ssid: Seq<char>,
    pub wifi_state: int,
    pub wifi_attempt: int,
    pub wifi_blink: bool,
    pub wifi_ip: Seq<char>,
    pub wifi_mac: Seq<char>,
}

impl View for CounterWindow {
    type V = Shown;

    open spec fn view(&self) -> Shown {
        Shown {
            counter: self.counter as int,
            heartbeat: self.heartbeat as int,
            wifi_ssid: self.wifi_ssid@,
            wifi_state: self.wifi_state as int,
            wifi_attempt: self.wifi_attempt as int,
            wifi_blink: self.wifi_blink,
            wifi_ip: self.wifi_ip@,
            wifi_mac: self.wifi_mac@,
        }
    }
}

/// What has changed since the window was last brought up to date.
pub struct Pending {
    pub counter: Option<i32>,
    pub heartbeat: Option<i32>,
    pub wifi: Option<WifiUiState>,
    /// The panel's address, or that it has none.
    pub ipv4: Option<Option<Ipv4>>,
    /// The panel's hardware address, or that it is not known.
    pub mac: Option<Option<[u8; 6]>>,
}

/// The name of a network; an index past the last stands for the last.
pub open spec fn ssid_of(idx: u8) -> Seq<char> {
    if idx == 0 {
        WIFI_SSIDS@[0]@
    } else {
        WIFI_SSIDS@[1]@
    }
}

/// The text of an address that may be missing.
pub open spec fn ipv4_or_none(ip: Option<Ipv4>) -> Seq<char> {
    match ip {
        Some(ip) => addr::ipv4_text(ip),
        None => Seq::empty(),
    }
}

pub open spec fn mac_or_none(mac: Option<[u8; 6]>) -> Seq<char> {
    match mac {
        Some(mac) => addr::mac_text(mac@, false),
        None => Seq::empty(),
    }
}

impl Shown {
    pub open spec fn with_wifi(self, wifi: WifiUiState) -> Shown {
        Shown {
            wifi_ssid: ssid_of(wifi.ssid_idx),
            wifi_state: wifi.state.number(),
            wifi_attempt: wifi.attempt as int,
            wifi_blink: wifi.blink_on,
            ..self
        }
    }

    /// The window after everything that has changed.
    pub open spec fn updated(self, pending: Pending) -> Shown {
        let now = match pending.wifi {
            Some(wifi) => self.with_wifi(wifi),
            None => self,
        };
        Shown {
            counter: match pending.counter {
                Some(v) => v as int,
                None => self.counter,
            },
            heartbeat: match pending.heartbeat {
                Some(v) => v as int,
                None => self.heartbeat,
            },
            wifi_ip: match pending.ipv4 {
                Some(ip) => ipv4_or_none(ip),
                None => self.wifi_ip,
            },
            wifi_mac: match pending.mac {
                Some(mac) => mac_or_none(mac),
                None => self.wifi_mac,
            },
            ..now
        }
    }
}

impl Pending {
    /// Anything has changed.
    pub open spec fn any(self) -> bool {
        self.counter is Some || self.heartbeat is Some || self.wifi is Some || self.ipv4 is Some
            || self.mac is Some
    }
}

/// Why the display loop has woken.
#[derive(Clone, Copy, Debug, PartialEq, Eq, Structural)]
pub enum Wake {
    Event(UiEventItem),
    Counter(i32),
    Heartbeat(i32),
    Wifi(WifiUiState),
    /// Another task asked for it.
    Explicit,
    /// The time it was to wait is over.
    Timeout,
}

/// How long the display loop waits.
#[derive(Clone, Copy, Debug, PartialEq, Eq, Structural)]
pub enum LoopWait {
    /// For something to happen, but no longer than this many microseconds.
    AtMost(u64),
    /// Until something happens.
    Forever,
}

impl CounterWindow {
    /// The window at start.
    pub fn new() -> (w: CounterWindow)
        ensures
            w@ == (Shown {
                counter: 0,
                heartbeat: 0,
                wifi_ssid: WIFI_SSIDS@[0]@,
                wifi_state: 0,
                wifi_attempt: 0,
                wifi_blink: false,
                wifi_ip: Seq::empty(),
                wifi_mac: Seq::empty(),
            }),
    {
        CounterWindow {
            counter: 0,
            heartbeat: 0,
            wifi_ssid: WIFI_SSIDS[0],
            wifi_state: 0,
            wifi_attempt: 0,
            wifi_blink: false,
            wifi_ip: String::new(),
            wifi_mac: String::new(),
        }
    }

    /// Shows the state of the wireless network.
    pub fn set_wifi(&mut self, wifi: WifiUiState)
        ensures
            final(self)@ == old(self)@.with_wifi(wifi),
    {
        self.wifi_ssid = if wifi.ssid_idx == 0 {
            WIFI_SSIDS[0]
        } else {
            WIFI_SSIDS[1]
        };
        self.wifi_state = wifi.state.code();
        self.wifi_attempt = wifi.attempt as i32;
        self.wifi_blink = wifi.blink_on;
    }

    /// Shows everything that has changed.
    fn update(&mut self, pending: Pending) -> (changed: bool)
        ensures
            final(self)@ == old(self)@.updated(pending),
            changed == pending.any(),
    {
        let mut changed = false;
        if let Some(value) = pending.counter {
            self.counter = value;
            changed = true;
        }
        if let Some(value) = pending.heartbeat {
            self.heartbeat = value;
            changed = true;
        }
        if let Some(wifi) = pending.wifi {
            self.set_wifi(wifi);
            changed = true;
        }
        if let Some(ip) = pending.ipv4 {
            self.wifi_ip = match ip {
                Some(ip) => addr::ipv4_string(ip),
                None => String::new(),
            };
            changed = true;
        }
        if let Some(mac) = pending.mac {
            self.wifi_mac = match mac {
                Some(mac) => addr::mac_string(mac),
                None => String::new(),
            };
            changed = true;
        }
        changed
    }
}

/// Brings the window up to date with everything that waits: takes all events
/// out of the queue and shows what has changed. Gives whether the window is to
/// be drawn.
pub fn drain_ui_events(
    queue: &mut UiEventQueue,
    pending: Pending,
    ui: &mut CounterWindow,
    counts: &mut Housekeeping,
) -> (redraw: bool)
    requires
        old(queue).wf(),
    ensures
        final(queue).wf(),
        final(queue)@.len() == 0,
        final(ui)@ == old(ui)@.updated(pending),
        *final(counts) == (Housekeeping {
            handled: events::count_on(
                old(counts).handled,
                events::housekeeping_keys(old(queue)@).len(),
            ),
            ..*old(counts)
        }),
        redraw == (events::asks_redraw(old(queue)@) || pending.any()),
{
    broadcast use vstd::multiset::group_multiset_axioms;

    let asked = counts.drain(queue);
    let changed = ui.update(pending);
    asked || changed
}

/// Acts on what has woken the display loop. `animating` tells whether an
/// animation runs: then the window is drawn when the time is over, too.
pub fn handle_wake(
    wake: Wake,
    animating: bool,
    ui: &mut CounterWindow,
    counts: &mut Housekeeping,
) -> (r: Reaction)
    ensures
        !(wake is Event) ==> *final(counts) == *old(counts) && !r.report,
        match wake {
            Wake::Event(item) => {
                &&& final(ui)@ == old(ui)@
                &&& r.redraw == (item.event != UiEvent::Housekeeping)
                &&& *final(counts) == (if item.event == UiEvent::Housekeeping {
                    Housekeeping {
                        handled: events::count_on(old(counts).handled, 1),
                        ..*old(counts)
                    }
                } else {
                    *old(counts)
                })
                &&& r.report == (item.event == UiEvent::Housekeeping && final(counts).handled % 128
                    == 0)
            },
            Wake::Counter(v) => r.redraw && final(ui)@ == (Shown {
                counter: v as int,
                ..old(ui)@
            }),
            Wake::Heartbeat(v) => r.redraw && final(ui)@ == (Shown {
                heartbeat: v as int,
                ..old(ui)@
            }),
            Wake::Wifi(wifi) => r.redraw && final(ui)@ == old(ui)@.with_wifi(wifi),
            Wake::Explicit => r.redraw && final(ui)@ == old(ui)@,
            Wake::Timeout => r.redraw == animating && final(ui)@ == old(ui)@,
        },
{
    match wake {
        Wake::Event(item) => counts.apply_event(item),
        Wake::Counter(value) => {
            ui.counter = value;
            Reaction { redraw: true, report: false }
        },
        Wake::Heartbeat(value) => {
            ui.heartbeat = value;
            Reaction { redraw: true, report: false }
        },
        Wake::Wifi(wifi) => {
            ui.set_wifi(wifi);
            Reaction { redraw: true, report: false }
        },
        Wake::Explicit => Reaction { redraw: true, report: false },
        Wake::Timeout => Reaction { redraw: animating, report: false },
    }
}

/// How long the loop waits: while an animation runs, a quarter of a second;
/// else until the next timer is due, in microseconds, if there is one.
pub fn next_wait(animating: bool, timer: Option<u64>) -> (w: LoopWait)
    ensures
        w == (if animating {
            LoopWait::AtMost(250_000)
        } else {
            match timer {
                Some(us) => LoopWait::AtMost(us),
                None => LoopWait::Forever,
            }
        }),
{
    if animating {
        LoopWait::AtMost(250_000)
    } else {
        match timer {
            Some(us) => LoopWait::AtMost(us),
            None => LoopWait::Forever,
        }
    }
}

/// What to tell the frame pacer where it was last told `last`.
pub open spec fn switch_news(last: bool, animating: bool) -> Option<bool> {
    if animating != last {
        Some(animating)
    } else {
        None
    }
}

/// Tells the frame pacer whether an animation runs, where that has changed.
pub struct FrameSwitch {
    pub last: bool,
}

impl FrameSwitch {
    pub fn new() -> (s: FrameSwitch)
        ensures
            !s.last,
    {
        FrameSwitch { last: false }
    }

    /// What to tell the pacer.
    pub fn animate(&mut self, animating: bool) -> (tell: Option<bool>)
        ensures
            final(self).last == animating,
            tell == switch_news(old(self).last, animating),
    {
        if animating != self.last {
            self.last = animating;
            Some(animating)
        } else {
            None
        }
    }
}

/// The frame pacer. While it is on, every tick of its clock brings a frame;
/// the switch turns it on and off.
pub struct FramePacer {
    pub enabled: bool,
}

/// What the frame pacer waits for.
#[derive(Clone, Copy, Debug, PartialEq, Eq, Structural)]
pub enum PacerWait {
    /// The clock or the switch, whichever comes first.
    ClockOrSwitch,
    Switch,
}

/// What has come to the frame pacer.
#[derive(Clone, Copy, Debug, PartialEq, Eq, Structural)]
pub enum PacerEvent {
    /// The clock has ticked.
    Clock,
    /// The switch has been moved.
    Switched(bool),
}

/// Whether the pacer is on after the event.
pub open spec fn pacer_after(enabled: bool, event: PacerEvent) -> bool {
    match event {
        PacerEvent::Clock => enabled,
        PacerEvent::Switched(on) => on,
    }
}

/// Whether the event brings a frame.
pub open spec fn brings_frame(enabled: bool, event: PacerEvent) -> bool {
    enabled && event is Clock
}

impl FramePacer {
    /// `switch` is where the switch stands at start, if it is known.
    pub fn new(switch: Option<bool>) -> (p: FramePacer)
        ensures
            p.enabled == (switch == Some(true)),
    {
        FramePacer {
            enabled: match switch {
                Some(on) => on,
                None => false,
            },
        }
    }

    pub fn waits_for(&self) -> (w: PacerWait)
        ensures
            w == (if self.enabled {
                PacerWait::ClockOrSwitch
            } else {
                PacerWait::Switch
            }),
    {
        if self.enabled {
            PacerWait::ClockOrSwitch
        } else {
            PacerWait::Switch
        }
    }

    /// Goes on with what has come; gives the frame, of low priority, where the
    /// event brings one.
    pub fn step(&mut self, event: PacerEvent, numbers: &mut EventNumbers) -> (item: Option<
        UiEventItem,
    >)
        ensures
            final(self).enabled == pacer_after(old(self).enabled, event),
            item == (if brings_frame(old(self).enabled, event) {
                Some(
                    UiEventItem {
                        prio: UiEventPrio::Low,
                        seq: old(numbers).next,
                        event: UiEvent::Frame,
                    },
                )
            } else {
                None
            }),
            final(numbers).next == (if item is Some {
                events::count_on(old(numbers).next, 1)
            } else {
                old(numbers).next
            }),
    {
        match event {
            PacerEvent::Clock => if self.enabled {
                Some(UiEventItem::new(UiEventPrio::Low, UiEvent::Frame, numbers))
            } else {
                None
            },
            PacerEvent::Switched(on) => {
                self.enabled = on;
                None
            },
        }
    }
}

/// The button has been pressed: the window is to be drawn, before all else.
pub fn button_pressed(numbers: &mut EventNumbers) -> (item: UiEventItem)
    ensures
        item == (UiEventItem {
            prio: UiEventPrio::High,
            seq: old(numbers).next,
            event: UiEvent::Redraw,
        }),
        final(numbers).next == events::count_on(old(numbers).next, 1),
{
    UiEventItem::new(UiEventPrio::High, UiEvent::Redraw, numbers)
}

/// The panel's own address, as it was last told.
pub struct NetInfo {
    pub last_ip: Option<Ipv4>,
}

impl NetInfo {
    pub fn new() -> (n: NetInfo)
        ensures
            n.last_ip is None,
    {
        NetInfo { last_ip: None }
    }

    /// Looks at the network's configuration; gives the address to tell, where
    /// there is one and it is not the one told last.
    pub fn configured(&mut self, ip: Option<Ipv4>) -> (tell: Option<Ipv4>)
        ensures
            match ip {
                Some(now) => final(self).last_ip == Some(now) && tell == (if old(self).last_ip
                    == Some(now) {
                    None
                } else {
                    Some(now)
                }),
                None => final(self).last_ip == old(self).last_ip && tell is None,
            },
    {
        match ip {
            Some(now) => {
                let known = match self.last_ip {
                    Some(last) => last == now,
                    None => false,
                };
                self.last_ip = Some(now);
                if known {
                    None
                } else {
                    Some(now)
                }
            },
            None => None,
        }
    }
}

// ---------------------------------------------------------------------------
// Laws
// ---------------------------------------------------------------------------

/// The window always shows the newest values: of two updates each value is that
/// of the later where it says anything of it, and else that of the earlier.
pub proof fn law_newest_shown(ui: Shown, first: Pending, second: Pending)
    ensures
        ui.updated(first).updated(second) == ui.updated(
            Pending {
                counter: newer(first.counter, second.counter),
                heartbeat: newer(first.heartbeat, second.heartbeat),
                wifi: newer(first.wifi, second.wifi),
                ipv4: newer(first.ipv4, second.ipv4),
                mac: newer(first.mac, second.mac),
            },
        ),
        !second.any() ==> ui.updated(first).updated(second) == ui.updated(first),
{
}

/// The later of two values, where there is one.
pub open spec fn newer<T>(first: Option<T>, second: Option<T>) -> Option<T> {
    match second {
        Some(_) => second,
        None => first,
    }
}

/// How many frames the events bring, one after the other.
pub open spec fn frames(enabled: bool, events: Seq<PacerEvent>) -> nat
    decreases events.len(),
{
    if events.len() == 0 {
        0
    } else {
        frames(pacer_after(enabled, events[0]), events.drop_first()) + (if brings_frame(
            enabled,
            events[0],
        ) {
            1nat
        } else {
            0
        })
    }
}

/// A pacer that has been switched off brings no frame until it is switched on
/// again.
pub proof fn law_no_frames_when_off(enabled: bool, events: Seq<PacerEvent>)
    requires
        !events.contains(PacerEvent::Switched(true)),
    ensures
        frames(pacer_after(enabled, PacerEvent::Switched(false)), events) == 0,
    decreases events.len(),
{
    if events.len() > 0 {
        let rest = events.drop_first();
        assert(events.contains(events[0]));
        assert forall|i: int| 0 <= i < rest.len() implies rest[i] != PacerEvent::Switched(true) by {
            assert(rest[i] == events[i + 1]);
            assert(events.contains(events[i + 1]));
        }
        law_no_frames_when_off(enabled, rest);
    }
}

/// A pacer that is on brings a frame at every tick of its clock.
pub proof fn law_frames_when_on(events: Seq<PacerEvent>)
    requires
        forall|i: int| 0 <= i < events.len() ==> #[trigger] events[i] == PacerEvent::Clock,
    ensures
        frames(true, events) == events.len(),
    decreases events.len(),
{
    if events.len() > 0 {
        let rest = events.drop_first();
        assert forall|i: int| 0 <= i < rest.len() implies #[trigger] rest[i]
            == PacerEvent::Clock by {
            assert(rest[i] == events[i + 1]);
        }
        law_frames_when_on(rest);
    }
}

/// The pacer is on exactly while an animation runs: one that stands as it was
/// last told does so again once it has got the news.
pub proof fn law_pacer_follows_animation(enabled: bool, animating: bool)
    ensures
        match switch_news(enabled, animating) {
            Some(on) => pacer_after(enabled, PacerEvent::Switched(on)) == animating,
            None => enabled == animating,
        },
{
}

/// Each value that has changed is shown, and the others stay: the counter and
/// the heartbeat as they are, the addresses by their texts, or empty where there
/// is none.
pub proof fn law_changes_shown(ui: Shown, pending: Pending)
    ensures
        ({
            let now = ui.updated(pending);
            &&& now.counter == (match pending.counter {
                Some(v) => v as int,
                None => ui.counter,
            })
            &&& now.heartbeat == (match pending.heartbeat {
                Some(v) => v as int,
                None => ui.heartbeat,
            })
            &&& now.wifi_ip == (match pending.ipv4 {
                Some(Some(ip)) => addr::ipv4_text(ip),
                Some(None) => Seq::empty(),
                None => ui.wifi_ip,
            })
            &&& now.wifi_mac == (match pending.mac {
                Some(Some(mac)) => addr::mac_text(mac@, false),
                Some(None) => Seq::empty(),
                None => ui.wifi_mac,
            })
            &&& pending.wifi is None ==> now.wifi_ssid == ui.wifi_ssid && now.wifi_state
                == ui.wifi_state && now.wifi_attempt == ui.wifi_attempt && now.wifi_blink
                == ui.wifi_blink
        }),
        pending.any() <==> pending.counter is Some || pending.heartbeat is Some
            || pending.wifi is Some || pending.ipv4 is Some || pending.mac is Some,
{
}

/// The state of the wireless network is shown by the network's name, the last
/// one standing for any index past it, by the number of the state, the attempt
/// and the blink; nothing else on the display changes with it.
pub proof fn law_wifi_shown(ui: Shown, wifi: WifiUiState, pending: Pending)
    requires
        pending.wifi == Some(wifi),
    ensures
        ({
            let now = ui.with_wifi(wifi);
            &&& now.wifi_ssid == (if wifi.ssid_idx == 0 {
                "COMMUNITIES.WIN"@
            } else {
                "324GUEST"@
            })
            &&& now.wifi_state == (match wifi.state {
                WifiConnState::Disconnected => 0int,
                WifiConnState::Connecting => 1,
                WifiConnState::Connected => 2,
            })
            &&& now.wifi_attempt == wifi.attempt
            &&& now.wifi_blink == wifi.blink_on
            &&& now.counter == ui.counter && now.heartbeat == ui.heartbeat && now.wifi_ip
                == ui.wifi_ip && now.wifi_mac == ui.wifi_mac
        }),
        ({
            let now = ui.with_wifi(wifi);
            let all = ui.updated(pending);
            all.wifi_ssid == now.wifi_ssid && all.wifi_state == now.wifi_state && all.wifi_attempt
                == now.wifi_attempt && all.wifi_blink == now.wifi_blink
        }),
{
}

/// The window is seen by its values, each for each.
pub proof fn law_window_seen(ui: CounterWindow)
    ensures
        ui@.counter == ui.counter,
        ui@.heartbeat == ui.heartbeat,
        ui@.wifi_ssid == ui.wifi_ssid@,
        ui@.wifi_state == ui.wifi_state,
        ui@.wifi_attempt == ui.wifi_attempt,
        ui@.wifi_blink == ui.wifi_blink,
        ui@.wifi_ip == ui.wifi_ip@,
        ui@.wifi_mac == ui.wifi_mac@,
{
}

/// The switch decides whether the pacer is on, and the clock leaves that as it
/// is; a frame comes at a tick of the clock while it is on, and at no other
/// time. The pacer is told of every change of the animation and of nothing
/// else.
pub proof fn law_pacer(enabled: bool, on: bool)
    ensures
        pacer_after(enabled, PacerEvent::Switched(on)) == on,
        pacer_after(enabled, PacerEvent::Clock) == enabled,
        brings_frame(enabled, PacerEvent::Clock) == enabled,
        !brings_frame(enabled, PacerEvent::Switched(on)),
        enabled == on ==> switch_news(enabled, on) is None,
        enabled != on ==> switch_news(enabled, on) == Some(on),
{
}

} // verus!
