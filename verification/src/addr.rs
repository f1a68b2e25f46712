//! Network addresses and their texts.

use crate::text;
use embassy_net::{Ipv4Address, Ipv4Cidr};
use mac_address::MacAddress;
use vstd::arithmetic::div_mod::{lemma_fundamental_div_mod, lemma_fundamental_div_mod_converse};
use vstd::arithmetic::power2::{lemma_pow2_pos, pow2};
use vstd::prelude::*;
use vstd::string::*;

verus! {

/// An IPv4 address, by its four octets.
#[derive(Clone, Copy, Debug, PartialEq, Eq, Structural)]
pub struct Ipv4 {
    pub a: u8,
    pub b: u8,
    pub c: u8,
    pub d: u8,
}

/// An address of either version; that of version 6 by its 128 bits.
#[derive(Clone, Copy, Debug, PartialEq, Eq, Structural)]
pub enum IpAddr {
    V4(Ipv4),
    V6(u128),
}

// ---------------------------------------------------------------------------
// Texts of version 4
// ---------------------------------------------------------------------------

/// The parts of `s` between the occurrences of `c`.
pub open spec fn split_on(s: Seq<char>, c: char) -> Seq<Seq<char>>
    decreases s.len(),
{
    proof {
        s.index_of_first_ensures(c);
    }
    match text::first_index(s, c) {
        Some(i) => seq![s.take(i)] + split_on(s.skip(i + 1), c),
        None => seq![s],
    }
}

/// An octet in decimal, without leading zeros.
pub open spec fn parse_octet(s: Seq<char>) -> Option<nat> {
    if s.len() > 1 && s[0] == '0' {
        None
    } else {
        text::parse_digits(s, 255)
    }
}

/// Four octets with dots between them.
pub open spec fn parse_ipv4(s: Seq<char>) -> Option<Ipv4> {
    let parts = split_on(s, '.');
    if parts.len() != 4 {
        None
    } else {
        match (
            parse_octet(parts[0]),
            parse_octet(parts[1]),
            parse_octet(parts[2]),
            parse_octet(parts[3]),
        ) {
            (Some(a), Some(b), Some(c), Some(d)) => Some(
                Ipv4 { a: a as u8, b: b as u8, c: c as u8, d: d as u8 },
            ),
            _ => None,
        }
    }
}

/// The text of an address: its octets in decimal, with dots between them.
pub open spec fn ipv4_text(ip: Ipv4) -> Seq<char> {
    text::decimal(ip.a as nat) + seq!['.'] + text::decimal(ip.b as nat) + seq!['.'] + text::decimal(
        ip.c as nat,
    ) + seq!['.'] + text::decimal(ip.d as nat)
}

fn split_at_dots(s: &Vec<char>) -> (r: Vec<Vec<char>>)
    ensures
        text::views(r@) == split_on(s@, '.'),
{
    let mut r: Vec<Vec<char>> = Vec::new();
    let mut from: usize = 0;
    assert(s@.skip(0) == s@);
    assert(text::views(r@) + split_on(s@, '.') == split_on(s@, '.'));
    loop
        invariant
            from <= s.len(),
            split_on(s@, '.') == text::views(r@) + split_on(s@.skip(from as int), '.'),
        decreases s.len() - from,
    {
        let ghost rest = s@.skip(from as int);
        let ghost before = text::views(r@);
        match text::find_char(s, from, '.') {
            Some(i) => {
                let part = text::sub_text(s, from, i);
                proof {
                    assert(part@ == rest.take(i - from));
                    assert(rest.skip(i - from + 1) == s@.skip(i + 1));
                }
                r.push(part);
                proof {
                    assert(text::views(r@) == before.push(part@));
                    assert(text::views(r@) + split_on(s@.skip(i + 1), '.') == before + (seq![part@]
                        + split_on(s@.skip(i + 1), '.')));
                }
                from = i + 1;
            },
            None => {
                let part = text::sub_text(s, from, s.len());
                proof {
                    assert(part@ == rest);
                }
                r.push(part);
                proof {
                    assert(text::views(r@) == before.push(part@));
                    assert(text::views(r@) == before + split_on(rest, '.'));
                }
                return r;
            },
        }
    }
}

fn read_octet(s: &Vec<char>) -> (r: Option<u8>)
    ensures
        match r {
            Some(n) => parse_octet(s@) == Some(n as nat),
            None => parse_octet(s@) is None,
        },
{
    if s.len() > 1 && s[0] == '0' {
        return None;
    }
    assert(s@.skip(0) == s@);
    match text::read_digits(s, 0, 255) {
        Some(n) => Some(n as u8),
        None => None,
    }
}

/// Reads an address of version 4.
pub fn read_ipv4(s: &str) -> (r: Option<Ipv4>)
    ensures
        r == parse_ipv4(s@),
{
    let parts = split_at_dots(&text::chars_of(s));
    let ghost all = split_on(s@, '.');
    assert(text::views(parts@) == all);
    if parts.len() != 4 {
        return None;
    }
    assert(all[0] == parts@[0]@ && all[1] == parts@[1]@ && all[2] == parts@[2]@ && all[3]
        == parts@[3]@);
    match (read_octet(&parts[0]), read_octet(&parts[1]), read_octet(&parts[2]), read_octet(&parts[3])) {
        (Some(a), Some(b), Some(c), Some(d)) => Some(Ipv4 { a, b, c, d }),
        _ => None,
    }
}

/// Writes an address of version 4.
pub fn ipv4_string(ip: Ipv4) -> (s: String)
    ensures
        s@ == ipv4_text(ip),
{
    let mut s = text::string_of(&text::decimal_chars(ip.a as u64));
    s.push('.');
    s.append(text::string_of(&text::decimal_chars(ip.b as u64)).as_str());
    s.push('.');
    s.append(text::string_of(&text::decimal_chars(ip.c as u64)).as_str());
    s.push('.');
    s.append(text::string_of(&text::decimal_chars(ip.d as u64)).as_str());
    assert(s@ == ipv4_text(ip));
    s
}

// ---------------------------------------------------------------------------
// Texts of version 6
// ---------------------------------------------------------------------------

/// What `core::net::Ipv6Addr` reads from a text.
pub uninterp spec fn parsed_ipv6(s: Seq<char>) -> Option<u128>;

/// How `core::net::Ipv6Addr` writes an address.
pub uninterp spec fn ipv6_text(bits: u128) -> Seq<char>;

/// `str::parse` of `core::net::Ipv6Addr`. Nothing is claimed of the address
/// but that the text decides it.
#[verifier::external_body]
fn read_ipv6(s: &str) -> (r: Option<u128>)
    ensures
        r == parsed_ipv6(s@),
{
    s.parse::<core::net::Ipv6Addr>().ok().map(u128::from)
}

/// `to_string` of `core::net::Ipv6Addr`. Nothing is claimed of the text but
/// that the address decides it.
#[verifier::external_body]
fn ipv6_string(bits: u128) -> (s: String)
    ensures
        s@ == ipv6_text(bits),
{
    core::net::Ipv6Addr::from(bits).to_string()
}

/// An address of either version; a text of version 4 comes first.
pub open spec fn parse_ip(s: Seq<char>) -> Option<IpAddr> {
    ip_of(parse_ipv4(s), parsed_ipv6(s))
}

/// The address of a text that reads as `v4` under version 4, as `v6` under
/// version 6.
pub open spec fn ip_of(v4: Option<Ipv4>, v6: Option<u128>) -> Option<IpAddr> {
    match v4 {
        Some(ip) => Some(IpAddr::V4(ip)),
        None => match v6 {
            Some(bits) => Some(IpAddr::V6(bits)),
            None => None,
        },
    }
}

/// The text of an address.
pub open spec fn ip_text(ip: IpAddr) -> Seq<char> {
    match ip {
        IpAddr::V4(v4) => ipv4_text(v4),
        IpAddr::V6(bits) => ipv6_text(bits),
    }
}

/// The address of a text, from what each version makes of it.
pub fn ip_from(v4: Option<Ipv4>, v6: Option<u128>) -> (r: Option<IpAddr>)
    ensures
        r == ip_of(v4, v6),
{
    match v4 {
        Some(ip) => Some(IpAddr::V4(ip)),
        None => match v6 {
            Some(bits) => Some(IpAddr::V6(bits)),
            None => None,
        },
    }
}

/// Reads an address.
pub fn read_ip(s: &str) -> (r: Option<IpAddr>)
    ensures
        r == parse_ip(s@),
{
    ip_from(read_ipv4(s), read_ipv6(s))
}

/// Writes an address.
pub fn ip_string(ip: IpAddr) -> (s: String)
    ensures
        s@ == ip_text(ip),
{
    match ip {
        IpAddr::V4(v4) => ipv4_string(v4),
        IpAddr::V6(bits) => ipv6_string(bits),
    }
}

// ---------------------------------------------------------------------------
// Broadcast addresses
// ---------------------------------------------------------------------------

/// The address as a number.
pub open spec fn ipv4_bits(ip: Ipv4) -> nat {
    (ip.a * 0x100_0000 + ip.b * 0x1_0000 + ip.c * 0x100 + ip.d) as nat
}

/// The last address of the block of `2^(32 - prefix)` addresses that holds
/// `ip`; blocks of one or two addresses have no broadcast address.
pub open spec fn is_block_broadcast(ip: Ipv4, prefix: u8, r: Option<Ipv4>) -> bool {
    let size = pow2((32 - prefix) as nat);
    match r {
        Some(last) => prefix < 31 && ipv4_bits(last) == ipv4_bits(ip) - ipv4_bits(ip) % size + size
            - 1,
        None => prefix >= 31,
    }
}

/// `Ipv4Cidr::broadcast` of `embassy-net`, on the block that `Ipv4Cidr::new`
/// makes of an address and a prefix length: the last address of the block, and
/// none where the prefix is 31 or 32 bits long. `Ipv4Cidr::new` panics on a
/// longer prefix.
#[verifier::external_body]
fn cidr_broadcast(ip: Ipv4, prefix: u8) -> (r: Option<Ipv4>)
    requires
        prefix <= 32,
    ensures
        is_block_broadcast(ip, prefix, r),
{
    let block = Ipv4Cidr::new(Ipv4Address::new(ip.a, ip.b, ip.c, ip.d), prefix);
    match block.broadcast() {
        Some(last) => {
            let [a, b, c, d] = last.octets();
            Some(Ipv4 { a, b, c, d })
        },
        None => None,
    }
}

/// Where the panel announces itself: the broadcast address of its network, or
/// that of every network where it has none. `config` is the panel's address
/// and the length of its prefix.
pub fn announce_target(config: Option<(Ipv4, u8)>) -> (target: Ipv4)
    requires
        config matches Some((_, prefix)) ==> prefix <= 32,
    ensures
        match config {
            Some((ip, prefix)) => if prefix < 31 {
                is_block_broadcast(ip, prefix, Some(target))
            } else {
                target == (Ipv4 { a: 255, b: 255, c: 255, d: 255 })
            },
            None => target == (Ipv4 { a: 255, b: 255, c: 255, d: 255 }),
        },
{
    let broadcast = match config {
        Some((ip, prefix)) => cidr_broadcast(ip, prefix),
        None => None,
    };
    match broadcast {
        Some(ip) => ip,
        None => Ipv4 { a: 255, b: 255, c: 255, d: 255 },
    }
}

// ---------------------------------------------------------------------------
// Hardware addresses
// ---------------------------------------------------------------------------

/// The hexadecimal digit of value `n`, with letters in capitals or not.
pub open spec fn hex_digit(n: nat, capitals: bool) -> char {
    if n < 10 {
        ('0' as nat + n) as char
    } else if capitals {
        ('A' as nat + n - 10) as char
    } else {
        ('a' as nat + n - 10) as char
    }
}

/// A byte as two hexadecimal digits.
pub open spec fn hex_byte(b: u8, capitals: bool) -> Seq<char> {
    seq![hex_digit(b as nat / 16, capitals), hex_digit(b as nat % 16, capitals)]
}

/// The text of a hardware address: its bytes in hexadecimal, with colons
/// between them.
pub open spec fn mac_text(mac: Seq<u8>, capitals: bool) -> Seq<char> {
    hex_byte(mac[0], capitals) + seq![':'] + hex_byte(mac[1], capitals) + seq![':'] + hex_byte(
        mac[2],
        capitals,
    ) + seq![':'] + hex_byte(mac[3], capitals) + seq![':'] + hex_byte(mac[4], capitals) + seq![':']
        + hex_byte(mac[5], capitals)
}

fn push_hex(s: &mut String, b: u8)
    ensures
        final(s)@ == old(s)@ + hex_byte(b, false),
{
    let ghost before = s@;
    let high = b / 16;
    let low = b % 16;
    s.push(
        if high < 10 {
            ('0' as u8 + high) as char
        } else {
            ('a' as u8 + (high - 10)) as char
        },
    );
    s.push(
        if low < 10 {
            ('0' as u8 + low) as char
        } else {
            ('a' as u8 + (low - 10)) as char
        },
    );
    assert(s@ == before + hex_byte(b, false));
}

/// The panel's hardware address as it shows it, in small letters.
pub fn mac_string(mac: [u8; 6]) -> (s: String)
    ensures
        s@ == mac_text(mac@, false),
{
    let mut s = String::new();
    push_hex(&mut s, mac[0]);
    s.push(':');
    push_hex(&mut s, mac[1]);
    s.push(':');
    push_hex(&mut s, mac[2]);
    s.push(':');
    push_hex(&mut s, mac[3]);
    s.push(':');
    push_hex(&mut s, mac[4]);
    s.push(':');
    push_hex(&mut s, mac[5]);
    assert(s@ == mac_text(mac@, false));
    s
}

/// `to_string` of the `mac_address` crate's `MacAddress`: the bytes as pairs
/// of hexadecimal digits, letters in capitals, with colons between them.
#[verifier::external_body]
fn host_mac_string(mac: [u8; 6]) -> (s: String)
    ensures
        s@ == mac_text(mac@, true),
{
    MacAddress::new(mac).to_string()
}

/// The hardware addresses that the desktop shows as its own. `found` is what
/// the search for one gave: an address, none, or the text of an error.
pub fn local_mac_list(found: Result<Option<[u8; 6]>, String>) -> (list: Vec<String>)
    ensures
        list@.len() == 1,
        match found {
            Ok(Some(mac)) => list@[0]@ == mac_text(mac@, true),
            Ok(None) => list@[0]@ == "(unknown)"@,
            Err(e) => list@[0]@ == "(error: "@ + e@ + ")"@,
        },
{
    let shown = match found {
        Ok(Some(mac)) => host_mac_string(mac),
        Ok(None) => "(unknown)".to_owned(),
        Err(e) => {
            let mut s = "(error: ".to_owned();
            s.append(e.as_str());
            s.append(")");
            s
        },
    };
    vec![shown]
}

// ---------------------------------------------------------------------------
// Laws
// ---------------------------------------------------------------------------

/// `split_on` undoes joining: what has no `c` in it stays whole before one.
proof fn lemma_split_joined(head: Seq<char>, c: char, tail: Seq<char>)
    requires
        !head.contains(c),
    ensures
        split_on(head + seq![c] + tail, c) == seq![head] + split_on(tail, c),
{
    let s = head + seq![c] + tail;
    assert forall|j: int| 0 <= j < head.len() implies s[j] != c by {
        assert(s[j] == head[j]);
        assert(head.contains(head[j]));
    }
    text::lemma_first_index(s, c, head.len() as int);
    assert(s.take(head.len() as int) == head);
    assert(s.skip(head.len() as int + 1) == tail);
}

proof fn lemma_octet(n: u8)
    ensures
        parse_octet(text::decimal(n as nat)) == Some(n as nat),
        !text::decimal(n as nat).contains('.'),
{
    text::lemma_decimal(n as nat);
    let s = text::decimal(n as nat);
    assert forall|i: int| 0 <= i < s.len() implies s[i] != '.' by {
        assert(text::is_digit(s[i]));
    }
    reveal_with_fuel(text::decimal, 3);
}

/// Reading back an address of version 4 gives that address.
pub proof fn law_ipv4_round_trip(ip: Ipv4)
    ensures
        parse_ipv4(ipv4_text(ip)) == Some(ip),
        parse_ip(ip_text(IpAddr::V4(ip))) == Some(IpAddr::V4(ip)),
{
    let (a, b, c, d) = (
        text::decimal(ip.a as nat),
        text::decimal(ip.b as nat),
        text::decimal(ip.c as nat),
        text::decimal(ip.d as nat),
    );
    lemma_octet(ip.a);
    lemma_octet(ip.b);
    lemma_octet(ip.c);
    lemma_octet(ip.d);
    let s = ipv4_text(ip);
    assert(s == a + seq!['.'] + (b + seq!['.'] + (c + seq!['.'] + d)));
    lemma_split_joined(a, '.', b + seq!['.'] + (c + seq!['.'] + d));
    lemma_split_joined(b, '.', c + seq!['.'] + d);
    lemma_split_joined(c, '.', d);
    d.index_of_first_ensures('.');
    assert(split_on(d, '.') == seq![d]);
    assert(split_on(s, '.') == seq![a, b, c, d]);
}

/// An address is written as its four octets in decimal, in their order, with
/// dots between them.
pub proof fn law_ipv4_written(ip: Ipv4)
    ensures
        ipv4_text(ip) == text::decimal(ip.a as nat) + seq!['.'] + text::decimal(ip.b as nat)
            + seq!['.'] + text::decimal(ip.c as nat) + seq!['.'] + text::decimal(ip.d as nat),
        ip_text(IpAddr::V4(ip)) == ipv4_text(ip),
        forall|bits: u128| #[trigger] ip_text(IpAddr::V6(bits)) == ipv6_text(bits),
{
}

proof fn lemma_split_parts(s: Seq<char>, c: char)
    ensures
        split_on(s, c).len() >= 1,
        split_on(s, c).len() == 1 ==> split_on(s, c)[0] == s,
        split_on(s, c).len() > 1 ==> ({
            let rest = s.skip(split_on(s, c)[0].len() as int + 1);
            &&& s == split_on(s, c)[0] + seq![c] + rest
            &&& split_on(s, c) == seq![split_on(s, c)[0]] + split_on(rest, c)
        }),
    decreases s.len(),
{
    s.index_of_first_ensures(c);
    if let Some(i) = text::first_index(s, c) {
        lemma_split_parts(s.skip(i + 1), c);
        assert(split_on(s, c)[0] == s.take(i));
        assert(s == s.take(i) + seq![c] + s.skip(i + 1));
    }
}

/// Nothing but the text of an address of version 4 is read as one.
pub proof fn law_ipv4_texts_alone(s: Seq<char>, ip: Ipv4)
    ensures
        parse_ipv4(s) == Some(ip) <==> s == ipv4_text(ip),
{
    law_ipv4_round_trip(ip);
    if parse_ipv4(s) == Some(ip) {
        let parts = split_on(s, '.');
        let r0 = s.skip(parts[0].len() as int + 1);
        lemma_split_parts(s, '.');
        assert(split_on(r0, '.') == parts.drop_first());
        lemma_split_parts(r0, '.');
        let r1 = r0.skip(parts[1].len() as int + 1);
        assert(split_on(r1, '.') == parts.drop_first().drop_first());
        lemma_split_parts(r1, '.');
        let r2 = r1.skip(parts[2].len() as int + 1);
        assert(split_on(r2, '.') == parts.drop_first().drop_first().drop_first());
        lemma_split_parts(r2, '.');
        assert(s == parts[0] + seq!['.'] + (parts[1] + seq!['.'] + (parts[2] + seq!['.'] + parts[3])));
        lemma_octet_text(parts[0]);
        lemma_octet_text(parts[1]);
        lemma_octet_text(parts[2]);
        lemma_octet_text(parts[3]);
        assert(s == ipv4_text(ip));
    }
}

proof fn lemma_octet_text(s: Seq<char>)
    requires
        parse_octet(s) is Some,
    ensures
        parse_octet(s)->0 <= 255,
        text::decimal(parse_octet(s)->0) == s,
{
    assert forall|i: int| 0 <= i < s.len() implies '0' <= #[trigger] s[i] <= '9' by {
        assert(text::is_digit(s[i]));
    }
    text::law_decimal_unique(s);
}

/// A text is read as an address of version 4 where it is one, and else as what
/// it is under version 6.
pub proof fn law_ip_versions(s: Seq<char>, ip: Ipv4)
    ensures
        s == ipv4_text(ip) ==> parse_ip(s) == Some(IpAddr::V4(ip)),
        (forall|v4: Ipv4| s != #[trigger] ipv4_text(v4)) ==> match parsed_ipv6(s) {
            Some(bits) => parse_ip(s) == Some(IpAddr::V6(bits)),
            None => parse_ip(s) is None,
        },
        forall|v6: Option<u128>| #[trigger] ip_of(Some(ip), v6) == Some(IpAddr::V4(ip)),
        forall|bits: u128| #[trigger] ip_of(None, Some(bits)) == Some(IpAddr::V6(bits)),
        ip_of(None, None) is None,
{
    law_ipv4_round_trip(ip);
    if let Some(v4) = parse_ipv4(s) {
        law_ipv4_texts_alone(s, v4);
    }
}

/// The address that the panel announces itself to has the bits of its own
/// network before and ones behind.
pub proof fn law_broadcast(ip: Ipv4, prefix: u8, last: Ipv4)
    requires
        prefix < 31,
        is_block_broadcast(ip, prefix, Some(last)),
    ensures
        ({
            let size = pow2((32 - prefix) as nat) as int;
            let own = ip.a * 0x100_0000 + ip.b * 0x1_0000 + ip.c * 0x100 + ip.d;
            let to = last.a * 0x100_0000 + last.b * 0x1_0000 + last.c * 0x100 + last.d;
            &&& to / size == own / size
            &&& to % size == size - 1
        }),
        !is_block_broadcast(ip, prefix, None),
{
    let size = pow2((32 - prefix) as nat) as int;
    let own = ipv4_bits(ip) as int;
    lemma_pow2_pos((32 - prefix) as nat);
    lemma_fundamental_div_mod(own, size);
    let q = own / size;
    assert(size * q == q * size) by (nonlinear_arith);
    lemma_fundamental_div_mod_converse(ipv4_bits(last) as int, size, q, size - 1);
}

/// A hardware address is written as its six bytes in their order, two
/// hexadecimal digits each, the higher first, with colons between them.
pub proof fn law_mac_written(mac: Seq<u8>, capitals: bool, i: int)
    requires
        mac.len() == 6,
        0 <= i < 6,
    ensures
        mac_text(mac, capitals).len() == 17,
        i < 5 ==> mac_text(mac, capitals)[3 * i + 2] == ':',
        ({
            let high = mac[i] as int / 16;
            let low = mac[i] as int % 16;
            let letter: int = if capitals {
                'A' as int
            } else {
                'a' as int
            };
            &&& mac_text(mac, capitals)[3 * i] as int == (if high < 10 {
                '0' as int + high
            } else {
                letter + high - 10
            })
            &&& mac_text(mac, capitals)[3 * i + 1] as int == (if low < 10 {
                '0' as int + low
            } else {
                letter + low - 10
            })
        }),
{
    assert(i == 0 || i == 1 || i == 2 || i == 3 || i == 4 || i == 5);
}

} // verus!
