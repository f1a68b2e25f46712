//! How the panel and the desktop find each other: each announces itself by
//! datagrams.

use crate::addr;
use crate::addr::{IpAddr, Ipv4};
use crate::mqtt::MQTT_PORT;
use crate::text;
use vstd::prelude::*;
use vstd::string::*;

verus! {

/// Announcements go to this port.
pub const DISCOVERY_PORT: u16 = 53530;

/// The desktop repeats its announcement to a panel that has been quiet for
/// longer than this, in nanoseconds.
pub const REFRESH_NANOS: u64 = 30_000_000_000;

/// What the panel announces of itself.
pub const ESP_ANNOUNCE: &'static str = "{\"service\":\"esp32tft\",\"http_port\":8080}";

/// The service by which the desktop announces itself.
pub const WEB_GUI_SERVICE: &'static str = "web_gui";

/// The service by which the panel announces itself.
pub const ESP_SERVICE: &'static str = "esp32tft";

/// An announcement, read from its JSON.
#[derive(Debug)]
pub struct DiscoveryMsg {
    pub service: Option<String>,
    pub reconnect: Option<bool>,
    pub ip: Option<String>,
    pub mqtt_port: Option<u16>,
}

/// Whether an announcement is of this service.
pub open spec fn is_service(service: Option<String>, name: Seq<char>) -> bool {
    service matches Some(s) && s@ == name
}

fn of_service(service: &Option<String>, name: &str) -> (b: bool)
    ensures
        b == is_service(*service, name@),
{
    match service {
        Some(s) => text::str_eq(s.as_str(), name),
        None => false,
    }
}

// ---------------------------------------------------------------------------
// On the panel
// ---------------------------------------------------------------------------

/// The broker that an announcement from `from` leads to: at the address that it
/// names, or else where it comes from; at the port that it names, or else the
/// usual one.
pub open spec fn announced_broker(msg: DiscoveryMsg, from: Ipv4) -> (Ipv4, u16) {
    let named = match msg.ip {
        Some(s) => addr::parse_ipv4(s@),
        None => None,
    };
    (
        match named {
            Some(ip) => ip,
            None => from,
        },
        match msg.mqtt_port {
            Some(port) => port,
            None => MQTT_PORT,
        },
    )
}

/// What the panel does about a datagram.
#[derive(Clone, Copy, Debug, PartialEq, Eq)]
pub struct BrokerNews {
    /// The broker to tell the other tasks of.
    pub broker: Option<(Ipv4, u16)>,
    /// A new connection to the broker is asked for.
    pub reconnect: bool,
}

/// The broker that the panel has told its tasks of.
pub struct PanelDiscovery {
    pub last_broker: Option<(Ipv4, u16)>,
}

impl PanelDiscovery {
    pub fn new() -> (d: PanelDiscovery)
        ensures
            d.last_broker is None,
    {
        PanelDiscovery { last_broker: None }
    }

    /// An announcement from `from`. One of the desktop names the broker, which
    /// is told where it is not the one told last; any other is passed over.
    pub fn received(&mut self, msg: &DiscoveryMsg, from: Ipv4) -> (news: BrokerNews)
        ensures
            if is_service(msg.service, WEB_GUI_SERVICE@) {
                let broker = announced_broker(*msg, from);
                &&& final(self).last_broker == Some(broker)
                &&& news.broker == (if old(self).last_broker == Some(broker) {
                    None
                } else {
                    Some(broker)
                })
                &&& news.reconnect == (msg.reconnect == Some(true))
            } else {
                &&& final(self).last_broker == old(self).last_broker
                &&& news == (BrokerNews { broker: None, reconnect: false })
            },
    {
        if !of_service(&msg.service, WEB_GUI_SERVICE) {
            return BrokerNews { broker: None, reconnect: false };
        }
        let named = match &msg.ip {
            Some(s) => addr::read_ipv4(s.as_str()),
            None => None,
        };
        let ip = match named {
            Some(ip) => ip,
            None => from,
        };
        let port = match msg.mqtt_port {
            Some(port) => port,
            None => MQTT_PORT,
        };
        let known = match self.last_broker {
            Some((last_ip, last_port)) => last_ip == ip && last_port == port,
            None => false,
        };
        self.last_broker = Some((ip, port));
        let reconnect = match msg.reconnect {
            Some(r) => r,
            None => false,
        };
        BrokerNews {
            broker: if known {
                None
            } else {
                Some((ip, port))
            },
            reconnect,
        }
    }
}

// ---------------------------------------------------------------------------
// On the desktop
// ---------------------------------------------------------------------------

/// What the desktop announces of itself: the port of its broker, its own
/// address, and whether it asks for a new connection.
pub open spec fn announce_text(local_ip: Seq<char>, reconnect: bool) -> Seq<char> {
    "{\"service\":\"web_gui\",\"mqtt_port\":1883,\"ip\":\""@ + local_ip + (if reconnect {
        "\",\"reconnect\":true}"@
    } else {
        "\"}"@
    })
}

/// The announcement of the desktop. An address that is not known is left empty.
pub fn announce(local_ip: Option<Ipv4>, reconnect: bool) -> (s: String)
    ensures
        s@ == announce_text(
            match local_ip {
                Some(ip) => addr::ipv4_text(ip),
                None => Seq::empty(),
            },
            reconnect,
        ),
{
    let local = match local_ip {
        Some(ip) => addr::ipv4_string(ip),
        None => String::new(),
    };
    let mut s = "{\"service\":\"web_gui\",\"mqtt_port\":1883,\"ip\":\"".to_owned();
    s.append(local.as_str());
    if reconnect {
        s.append("\",\"reconnect\":true}");
    } else {
        s.append("\"}");
    }
    s
}

/// Where the desktop announces itself to all: the address that is set for it,
/// where it is one, or else every host on the local network.
pub fn broadcast_ip(setting: Option<String>) -> (ip: Ipv4)
    ensures
        ip == (match setting {
            Some(s) => match addr::parse_ipv4(s@) {
                Some(ip) => ip,
                None => Ipv4 { a: 255, b: 255, c: 255, d: 255 },
            },
            None => Ipv4 { a: 255, b: 255, c: 255, d: 255 },
        }),
{
    let named = match setting {
        Some(s) => addr::read_ipv4(s.as_str()),
        None => None,
    };
    match named {
        Some(ip) => ip,
        None => Ipv4 { a: 255, b: 255, c: 255, d: 255 },
    }
}

/// The panel that is set to be told directly, where the setting is an address.
pub fn unicast_ip(setting: Option<String>) -> (ip: Option<IpAddr>)
    ensures
        ip == (match setting {
            Some(s) => addr::parse_ip(s@),
            None => None,
        }),
{
    match setting {
        Some(s) => addr::read_ip(s.as_str()),
        None => None,
    }
}

/// What the desktop does about a datagram.
#[derive(Clone, Copy, Debug, PartialEq, Eq, Structural)]
pub struct PanelNews {
    /// The panel's address.
    pub panel: Option<IpAddr>,
    /// It is to be told of the desktop at once.
    pub reply: bool,
}

/// What the desktop knows of panels. Times are in nanoseconds since some fixed
/// moment.
pub struct DesktopDiscovery {
    pub broadcast: Ipv4,
    pub unicast: Option<IpAddr>,
    /// The panel that was last found.
    pub last_logged: Option<IpAddr>,
    /// The panel that was last heard of or refreshed, and when.
    pub last_seen: Option<(IpAddr, u64)>,
}

impl DesktopDiscovery {
    /// The panel to refresh at `now`: the one seen last, where that was long ago.
    pub open spec fn stale(self, now: u64) -> Option<IpAddr> {
        match self.last_seen {
            Some((ip, when)) => if now - when > REFRESH_NANOS {
                Some(ip)
            } else {
                None
            },
            None => None,
        }
    }

    /// Where announcements go at `now`, in this order.
    pub open spec fn targets(self, now: u64) -> Seq<IpAddr> {
        let first = seq![IpAddr::V4(self.broadcast)];
        let second = match self.unicast {
            Some(ip) => first.push(ip),
            None => first,
        };
        match self.stale(now) {
            Some(ip) => second.push(ip),
            None => second,
        }
    }

    /// What the desktop knows after announcing itself at `now`: a panel that
    /// was refreshed counts as seen.
    pub open spec fn ticked(self, now: u64) -> DesktopDiscovery {
        DesktopDiscovery {
            last_seen: match self.stale(now) {
                Some(ip) => Some((ip, now)),
                None => self.last_seen,
            },
            ..self
        }
    }

    pub fn new(broadcast: Ipv4, unicast: Option<IpAddr>) -> (d: DesktopDiscovery)
        ensures
            d == (DesktopDiscovery { broadcast, unicast, last_logged: None, last_seen: None }),
    {
        DesktopDiscovery { broadcast, unicast, last_logged: None, last_seen: None }
    }

    /// The clock has ticked: where to send the announcement.
    pub fn tick(&mut self, now: u64) -> (targets: Vec<IpAddr>)
        ensures
            targets@ == old(self).targets(now),
            *final(self) == old(self).ticked(now),
    {
        let mut targets: Vec<IpAddr> = Vec::new();
        targets.push(IpAddr::V4(self.broadcast));
        if let Some(ip) = self.unicast {
            targets.push(ip);
        }
        if let Some((ip, when)) = self.last_seen {
            if now > when && now - when > REFRESH_NANOS {
                targets.push(ip);
                self.last_seen = Some((ip, now));
            }
        }
        assert(targets@ == old(self).targets(now));
        targets
    }

    /// A datagram from `from`, with the service that it announces. That of a
    /// panel is noted, and a panel other than the last is answered; any other
    /// is passed over.
    pub fn received(&mut self, service: &Option<String>, from: IpAddr, now: u64) -> (news:
        PanelNews)
        ensures
            if is_service(*service, ESP_SERVICE@) {
                &&& news == (PanelNews {
                    panel: Some(from),
                    reply: old(self).last_logged != Some(from),
                })
                &&& *final(self) == (DesktopDiscovery {
                    last_logged: Some(from),
                    last_seen: Some((from, now)),
                    ..*old(self)
                })
            } else {
                &&& news == (PanelNews { panel: None, reply: false })
                &&& *final(self) == *old(self)
            },
    {
        if !of_service(service, ESP_SERVICE) {
            return PanelNews { panel: None, reply: false };
        }
        let known = match self.last_logged {
            Some(ip) => ip == from,
            None => false,
        };
        self.last_logged = Some(from);
        self.last_seen = Some((from, now));
        PanelNews { panel: Some(from), reply: !known }
    }
}

// ---------------------------------------------------------------------------
// Laws
// ---------------------------------------------------------------------------

/// The panel finds the broker of the desktop that announces its own address,
/// from wherever the datagram seems to come; and the one that knows none, where
/// its datagram comes from.
pub proof fn law_announced_address_wins(msg: DiscoveryMsg, own: Ipv4, from: Ipv4)
    ensures
        msg.ip matches Some(s) && s@ == addr::ipv4_text(own) ==> announced_broker(msg, from).0
            == own,
        msg.ip matches Some(s) && s@ == Seq::<char>::empty() ==> announced_broker(msg, from).0
            == from,
        msg.ip is None ==> announced_broker(msg, from).0 == from,
{
    addr::law_ipv4_round_trip(own);
    let empty = Seq::<char>::empty();
    empty.index_of_first_ensures('.');
    assert(addr::split_on(empty, '.') == seq![empty]);
}

/// An announcement is of the service that it names, and of none where it names
/// none.
pub proof fn law_service_named(s: String, name: Seq<char>)
    ensures
        is_service(Some(s), name) <==> s@ == name,
        !is_service(None, name),
{
}

/// The broker is at the port that is announced, or at 1883 where none is; an
/// address that is no text of version 4 counts for nothing.
pub proof fn law_announced_port(msg: DiscoveryMsg, from: Ipv4)
    ensures
        msg.mqtt_port matches Some(port) ==> announced_broker(msg, from).1 == port,
        msg.mqtt_port is None ==> announced_broker(msg, from).1 == 1883,
        msg.ip matches Some(s) ==> ((forall|ip: Ipv4| s@ != #[trigger] addr::ipv4_text(ip))
            ==> announced_broker(msg, from).0 == from),
{
    if let Some(s) = msg.ip {
        if let Some(ip) = addr::parse_ipv4(s@) {
            addr::law_ipv4_texts_alone(s@, ip);
        }
    }
}

/// The announcement names the service, the port of the broker and the address,
/// whatever it is, and asks for a new connection only where one is wanted.
pub proof fn law_announcement(local_ip: Seq<char>)
    ensures
        announce_text(local_ip, false) == "{\"service\":\"web_gui\",\"mqtt_port\":1883,\"ip\":\""@
            + local_ip + "\"}"@,
        announce_text(local_ip, true) == "{\"service\":\"web_gui\",\"mqtt_port\":1883,\"ip\":\""@
            + local_ip + "\",\"reconnect\":true}"@,
{
}

/// A panel that has been quiet for more than thirty seconds is announced to
/// directly, whatever else is set, and counts as seen from then on; one that
/// has not been quiet for so long is not, and nothing changes.
pub proof fn law_quiet_panel_refreshed(d: DesktopDiscovery, ip: IpAddr, when: u64, now: u64)
    requires
        d.last_seen == Some((ip, when)),
    ensures
        now - when > 30_000_000_000 ==> d.targets(now).last() == ip && d.ticked(now).last_seen
            == Some((ip, now)) && d.ticked(now).broadcast == d.broadcast && d.ticked(now).unicast
            == d.unicast && d.ticked(now).last_logged == d.last_logged,
        now - when <= 30_000_000_000 ==> d.ticked(now) == d,
{
}

/// Announcements go to everyone, to the panel that is set, and to one that has
/// been quiet, in this order, and to nobody else.
pub proof fn law_announced_to(d: DesktopDiscovery, now: u64)
    ensures
        ({
            let set_panel = match d.unicast {
                Some(ip) => seq![ip],
                None => Seq::empty(),
            };
            let quiet = match d.last_seen {
                Some((ip, when)) => if now - when > 30_000_000_000 {
                    seq![ip]
                } else {
                    Seq::empty()
                },
                None => Seq::empty(),
            };
            d.targets(now) == seq![IpAddr::V4(d.broadcast)] + set_panel + quiet
        }),
        d.last_seen is None ==> d.ticked(now) == d,
{
}

/// A panel is announced to again when it has been quiet for thirty seconds
/// since the last time, and not before: of two ticks within thirty seconds one
/// at most refreshes it.
pub proof fn law_refreshed_sparingly(d: DesktopDiscovery, first: u64, second: u64)
    requires
        d.last_seen matches Some((_, when)) && first - when > 30_000_000_000,
        first <= second <= first + 30_000_000_000,
    ensures
        d.targets(first).len() == d.ticked(first).targets(second).len() + 1,
{
}

} // verus!
