//! The neighbours on the local network, as the system's ARP table lists them.

use crate::addr;
use crate::addr::IpAddr;
use crate::text;
use vstd::prelude::*;
use vstd::string::*;
use vstd::utf8::*;

verus! {

/// A neighbour.
#[derive(Debug)]
pub struct ArpNeighbor {
    pub ip: String,
    pub mac: String,
    pub kind: String,
    pub label: Option<String>,
}

/// A neighbour by its texts.
#[verifier::ext_equal]
pub struct Neighbor {
    pub ip: Seq<char>,
    pub mac: Seq<char>,
    pub kind: Seq<char>,
    pub label: Option<Seq<char>>,
}

/// A text that may be missing.
pub open spec fn text_of(s: Option<String>) -> Option<Seq<char>> {
    match s {
        Some(s) => Some(s@),
        None => None,
    }
}

impl View for ArpNeighbor {
    type V = Neighbor;

    open spec fn view(&self) -> Neighbor {
        Neighbor {
            ip: self.ip@,
            mac: self.mac@,
            kind: self.kind@,
            label: text_of(self.label),
        }
    }
}

/// The neighbours of a list.
pub open spec fn neighbors_of(list: Seq<ArpNeighbor>) -> Seq<Neighbor> {
    Seq::new(list.len(), |i: int| list[i]@)
}

// ---------------------------------------------------------------------------
// Reading the table
// ---------------------------------------------------------------------------

/// A character of a hardware address as it is shown: colons for hyphens, small
/// letters for capitals.
pub open spec fn mac_char(c: char) -> char {
    if c == '-' {
        ':'
    } else if 'A' <= c <= 'Z' {
        (c as u32 + 32) as char
    } else {
        c
    }
}

/// The neighbour that a line of the table names. Such a line starts with a
/// digit and has three words or more: the address, the hardware address, which
/// holds a hyphen or a colon, and the kind of the entry. The panel, known by
/// the text of its address, gets a label.
pub open spec fn line_neighbor(line: Seq<char>, esp: Option<Seq<char>>) -> Option<Neighbor> {
    let shown = text::trimmed(line);
    let parts = text::words(shown);
    if shown.len() > 0 && text::is_digit(shown[0]) && parts.len() >= 3 && (parts[1].contains('-')
        || parts[1].contains(':')) {
        Some(
            Neighbor {
                ip: parts[0],
                mac: parts[1].map_values(|c: char| mac_char(c)),
                kind: parts[2],
                label: if esp == Some(parts[0]) {
                    Some("esp32tft"@)
                } else {
                    None
                },
            },
        )
    } else {
        None
    }
}

/// The neighbours that the lines of the table name, in their order.
pub open spec fn table_neighbors(lines: Seq<Seq<char>>, esp: Option<Seq<char>>) -> Seq<Neighbor>
    decreases lines.len(),
{
    if lines.len() == 0 {
        Seq::empty()
    } else {
        let rest = table_neighbors(lines.drop_last(), esp);
        match line_neighbor(lines.last(), esp) {
            Some(n) => rest.push(n),
            None => rest,
        }
    }
}

fn has_char(s: &Vec<char>, c: char) -> (b: bool)
    ensures
        b == s@.contains(c),
{
    assert(s@.skip(0) == s@);
    proof {
        s@.index_of_first_ensures(c);
    }
    text::find_char(s, 0, c).is_some()
}

fn shown_mac(s: &Vec<char>) -> (r: Vec<char>)
    ensures
        r@ == s@.map_values(|c: char| mac_char(c)),
{
    let mut r: Vec<char> = Vec::new();
    let mut i: usize = 0;
    while i < s.len()
        invariant
            i <= s.len(),
            r@ == s@.take(i as int).map_values(|c: char| mac_char(c)),
        decreases s.len() - i,
    {
        let c = s[i];
        r.push(
            if c == '-' {
                ':'
            } else if 'A' <= c && c <= 'Z' {
                (c as u8 + 32) as char
            } else {
                c
            },
        );
        i += 1;
        assert(r@ == s@.take(i as int).map_values(|c: char| mac_char(c)));
    }
    assert(s@.take(i as int) == s@);
    r
}

fn read_line(line: &Vec<char>, esp: &Option<String>) -> (r: Option<ArpNeighbor>)
    ensures
        match r {
            Some(n) => line_neighbor(line@, text_of(*esp)) == Some(n@),
            None => line_neighbor(line@, text_of(*esp)) is None,
        },
{
    let shown = text::trim(line);
    if shown.len() == 0 || !text::digit(shown[0]) {
        return None;
    }
    let parts = text::split_words(&shown);
    let ghost words = text::words(shown@);
    assert(text::views(parts@) == words);
    if parts.len() < 3 {
        return None;
    }
    assert(words[0] == parts@[0]@ && words[1] == parts@[1]@ && words[2] == parts@[2]@);
    if !has_char(&parts[1], '-') && !has_char(&parts[1], ':') {
        return None;
    }
    let ip = text::string_of(&parts[0]);
    let label = match esp {
        Some(e) => if text::str_eq(e.as_str(), ip.as_str()) {
            Some("esp32tft".to_owned())
        } else {
            None
        },
        None => None,
    };
    let n = ArpNeighbor {
        ip,
        mac: text::string_of(&shown_mac(&parts[1])),
        kind: text::string_of(&parts[2]),
        label,
    };
    assert(n@.label == line_neighbor(line@, text_of(*esp))->0.label);
    Some(n)
}

/// Reads the neighbours from the text of the table; `esp` is the text of the
/// panel's address, where it is known.
pub fn parse_arp_table(table: &str, esp: &Option<String>) -> (list: Vec<ArpNeighbor>)
    ensures
        neighbors_of(list@) == table_neighbors(text::lines(table@), text_of(*esp)),
{
    let rows = text::split_lines(&text::chars_of(table));
    let ghost all = text::lines(table@);
    let ghost esp_text = text_of(*esp);
    let mut list: Vec<ArpNeighbor> = Vec::new();
    let mut i: usize = 0;
    assert(neighbors_of(list@) == table_neighbors(all.take(0), esp_text));
    while i < rows.len()
        invariant
            i <= rows.len(),
            text::views(rows@) == all,
            esp_text == text_of(*esp),
            neighbors_of(list@) == table_neighbors(all.take(i as int), esp_text),
        decreases rows.len() - i,
    {
        assert(all.take(i + 1).drop_last() == all.take(i as int));
        assert(all.take(i + 1).last() == rows@[i as int]@);
        let ghost before = neighbors_of(list@);
        if let Some(n) = read_line(&rows[i], esp) {
            list.push(n);
            assert(neighbors_of(list@) == before.push(n@));
        }
        i += 1;
    }
    assert(all.take(i as int) == all);
    list
}

/// What `String::from_utf8_lossy` makes of bytes.
pub uninterp spec fn lossy_text(bytes: Seq<u8>) -> Seq<char>;

/// `String::from_utf8_lossy`: the text that the bytes encode where they are
/// UTF-8. Of other bytes nothing is claimed but that they decide the text.
#[verifier::external_body]
fn text_from_utf8_lossy(bytes: &[u8]) -> (s: String)
    ensures
        s@ == lossy_text(bytes@),
        valid_utf8(bytes@) ==> s@ == decode_utf8(bytes@),
{
    String::from_utf8_lossy(bytes).into_owned()
}

/// What came of running the system's `arp -a`.
#[derive(Debug)]
pub struct ArpRun {
    pub success: bool,
    /// The text of its exit status.
    pub status: String,
    pub stdout: Vec<u8>,
}

/// The message where `arp -a` could not be run.
pub open spec fn run_error(e: Seq<char>) -> Seq<char> {
    "failed to run arp -a: "@ + e
}

/// The message where `arp -a` failed.
pub open spec fn exit_error(status: Seq<char>) -> Seq<char> {
    "arp -a exited with status "@ + status
}

/// The message where there is no such table to read.
pub const ARP_UNSUPPORTED: &'static str = "ARP scan is currently implemented for Windows only";

/// The neighbours on the local network: `run` is what came of running
/// `arp -a`, or the text of the error that kept it from running. What it
/// printed is read as UTF-8.
pub fn scan_arp_neighbors_windows(run: Result<ArpRun, String>, esp_ip: Option<IpAddr>) -> (r:
    Result<Vec<ArpNeighbor>, String>)
    ensures
        match r {
            Ok(list) => {
                &&& run matches Ok(out) && out.success && neighbors_of(list@) == table_neighbors(
                    text::lines(lossy_text(out.stdout@)),
                    match esp_ip {
                        Some(ip) => Some(addr::ip_text(ip)),
                        None => None,
                    },
                )
            },
            Err(message) => match run {
                Ok(out) => !out.success && message@ == exit_error(out.status@),
                Err(e) => message@ == run_error(e@),
            },
        },
        run matches Ok(out) ==> (out.success && valid_utf8(out.stdout@) ==> (r matches Ok(list)
            && neighbors_of(list@) == table_neighbors(
            text::lines(decode_utf8(out.stdout@)),
            match esp_ip {
                Some(ip) => Some(addr::ip_text(ip)),
                None => None,
            },
        ))),
{
    match run {
        Ok(out) => {
            if !out.success {
                let mut message = "arp -a exited with status ".to_owned();
                message.append(out.status.as_str());
                return Err(message);
            }
            let table = text_from_utf8_lossy(out.stdout.as_slice());
            let esp = match esp_ip {
                Some(ip) => Some(addr::ip_string(ip)),
                None => None,
            };
            Ok(parse_arp_table(table.as_str(), &esp))
        },
        Err(e) => {
            let mut message = "failed to run arp -a: ".to_owned();
            message.append(e.as_str());
            Err(message)
        },
    }
}

// ---------------------------------------------------------------------------
// Keys
// ---------------------------------------------------------------------------

/// The key of a neighbour: its two addresses with a bar between them.
pub open spec fn key_text(n: Neighbor) -> Seq<char> {
    n.ip + seq!['|'] + n.mac
}

pub fn arp_key(n: &ArpNeighbor) -> (s: String)
    ensures
        s@ == key_text(n@),
{
    let mut s = n.ip.clone();
    s.push('|');
    s.append(n.mac.as_str());
    assert(s@ == key_text(n@));
    s
}

/// The addresses of a key: what stands before its first bar and after it.
pub fn parse_arp_key(key: &str) -> (r: Option<(&str, &str)>)
    ensures
        match r {
            Some((ip, mac)) => text::split_once(key@, '|') == Some((ip@, mac@)),
            None => text::split_once(key@, '|') is None,
        },
{
    let chars = text::chars_of(key);
    assert(chars@.skip(0) == chars@);
    match text::find_char(&chars, 0, '|') {
        Some(i) => {
            let ip = key.substring_char(0, i);
            let mac = key.substring_char(i + 1, chars.len());
            assert(ip@ == key@.take(i as int));
            assert(mac@ == key@.skip(i + 1));
            Some((ip, mac))
        },
        None => None,
    }
}

/// The address of the neighbour with this key.
pub open spec fn key_ip(key: Seq<char>) -> Option<IpAddr> {
    match text::split_once(key, '|') {
        Some((ip, _)) => addr::parse_ip(ip),
        None => None,
    }
}

pub fn parse_arp_key_to_ip(key: &str) -> (r: Option<IpAddr>)
    ensures
        r == key_ip(key@),
{
    match parse_arp_key(key) {
        Some((ip, _)) => addr::read_ip(ip),
        None => None,
    }
}

// ---------------------------------------------------------------------------
// Laws
// ---------------------------------------------------------------------------

/// A key gives back the addresses that it was made of, and where the first is
/// the text of an address of version 4, that address.
pub proof fn law_key_round_trip(n: Neighbor)
    requires
        !n.ip.contains('|'),
    ensures
        text::split_once(key_text(n), '|') == Some((n.ip, n.mac)),
        forall|ip: addr::Ipv4|
            n.ip == #[trigger] addr::ipv4_text(ip) ==> key_ip(key_text(n)) == Some(IpAddr::V4(ip)),
{
    let key = key_text(n);
    assert forall|j: int| 0 <= j < n.ip.len() implies key[j] != '|' by {
        assert(key[j] == n.ip[j]);
        assert(n.ip.contains(n.ip[j]));
    }
    text::lemma_first_index(key, '|', n.ip.len() as int);
    assert(key.take(n.ip.len() as int) == n.ip);
    assert(key.skip(n.ip.len() as int + 1) == n.mac);
    assert forall|ip: addr::Ipv4| n.ip == #[trigger] addr::ipv4_text(ip) implies key_ip(key)
        == Some(IpAddr::V4(ip)) by {
        addr::law_ipv4_round_trip(ip);
    }
}

/// The table is read line by line: what two parts of it name is what they name
/// together.
pub proof fn law_table_by_lines(
    first: Seq<Seq<char>>,
    second: Seq<Seq<char>>,
    esp: Option<Seq<char>>,
)
    ensures
        table_neighbors(first + second, esp) == table_neighbors(first, esp) + table_neighbors(
            second,
            esp,
        ),
    decreases second.len(),
{
    if second.len() == 0 {
        assert(first + second == first);
    } else {
        law_table_by_lines(first, second.drop_last(), esp);
        assert((first + second).drop_last() == first + second.drop_last());
        assert((first + second).last() == second.last());
    }
}

/// A line names a neighbour where it starts with a digit and holds three words,
/// the second with a hyphen or a colon in it; the words are its addresses and
/// its kind, and the hardware address is shown in small letters with colons.
/// Only the panel gets the label.
pub proof fn law_line_of_table(line: Seq<char>, esp: Option<Seq<char>>)
    ensures
        ({
            let w = text::words(text::trimmed(line));
            let named = text::trimmed(line).len() > 0 && '0' <= text::trimmed(line)[0] <= '9'
                && w.len() >= 3 && (w[1].contains('-') || w[1].contains(':'));
            match line_neighbor(line, esp) {
                Some(n) => {
                    &&& named
                    &&& n.ip == w[0]
                    &&& n.kind == w[2]
                    &&& n.mac.len() == w[1].len()
                    &&& forall|i: int|
                        0 <= i < n.mac.len() ==> (#[trigger] n.mac[i]) as int == (if w[1][i] == '-' {
                            ':' as int
                        } else if 'A' <= w[1][i] <= 'Z' {
                            w[1][i] as int + 32
                        } else {
                            w[1][i] as int
                        })
                    &&& esp == Some(n.ip) ==> n.label == Some("esp32tft"@)
                    &&& esp != Some(n.ip) ==> n.label is None
                },
                None => !named,
            }
        }),
{
}

/// The table names the neighbours that its lines name, in their order, and no
/// others.
pub proof fn law_lines_of_table(lines: Seq<Seq<char>>, line: Seq<char>, esp: Option<Seq<char>>)
    ensures
        table_neighbors(Seq::empty(), esp) == Seq::<Neighbor>::empty(),
        line_neighbor(line, esp) matches Some(n) ==> table_neighbors(lines.push(line), esp)
            == table_neighbors(lines, esp).push(n),
        line_neighbor(line, esp) is None ==> table_neighbors(lines.push(line), esp)
            == table_neighbors(lines, esp),
{
    assert(lines.push(line).drop_last() == lines);
}

/// A key is the two addresses with a bar between them. What stands before its
/// first bar is read as the neighbour's address; without a bar there is none.
pub proof fn law_address_of_key(n: Neighbor, ip: Seq<char>, mac: Seq<char>)
    requires
        !ip.contains('|'),
    ensures
        key_text(n) == n.ip + seq!['|'] + n.mac,
        key_ip(ip + seq!['|'] + mac) == addr::parse_ip(ip),
        key_ip(ip) is None,
{
    text::law_split_once(ip, '|', mac);
}

/// What is said where `arp -a` could not be run or failed.
pub proof fn law_scan_errors(why: Seq<char>)
    ensures
        run_error(why) == "failed to run arp -a: "@ + why,
        exit_error(why) == "arp -a exited with status "@ + why,
{
}

/// A list of neighbours is seen as their texts, each for each.
pub proof fn law_neighbors_seen(list: Seq<ArpNeighbor>, i: int)
    requires
        0 <= i < list.len(),
    ensures
        neighbors_of(list).len() == list.len(),
        neighbors_of(list)[i].ip == list[i].ip@,
        neighbors_of(list)[i].mac == list[i].mac@,
        neighbors_of(list)[i].kind == list[i].kind@,
        list[i].label matches Some(s) ==> neighbors_of(list)[i].label == Some(s@),
        list[i].label is None ==> neighbors_of(list)[i].label is None,
{
}

} // verus!
