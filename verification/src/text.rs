//! Text as sequences of characters: white space, lines, words and decimal
//! numbers, with the meaning that the standard library gives to them.

use vstd::prelude::*;
use vstd::string::*;
use vstd::utf8::*;

verus! {

/// `String::push`: appends one character.
pub assume_specification[ String::push ](s: &mut String, c: char)
    ensures
        final(s)@ == old(s)@.push(c),
;

// ---------------------------------------------------------------------------
// Characters
// ---------------------------------------------------------------------------

/// The characters with the Unicode property `White_Space`.
pub open spec fn is_white_space(c: char) -> bool {
    ||| '\u{9}' <= c <= '\u{d}'
    ||| c == ' '
    ||| c == '\u{85}'
    ||| c == '\u{a0}'
    ||| c == '\u{1680}'
    ||| '\u{2000}' <= c <= '\u{200a}'
    ||| c == '\u{2028}'
    ||| c == '\u{2029}'
    ||| c == '\u{202f}'
    ||| c == '\u{205f}'
    ||| c == '\u{3000}'
}

/// The ASCII decimal digits.
pub open spec fn is_digit(c: char) -> bool {
    '0' <= c <= '9'
}

pub fn white_space(c: char) -> (b: bool)
    ensures
        b == is_white_space(c),
{
    ('\u{9}' <= c && c <= '\u{d}') || c == ' ' || c == '\u{85}' || c == '\u{a0}' || c == '\u{1680}'
        || ('\u{2000}' <= c && c <= '\u{200a}') || c == '\u{2028}' || c == '\u{2029}'
        || c == '\u{202f}' || c == '\u{205f}' || c == '\u{3000}'
}

pub fn digit(c: char) -> (b: bool)
    ensures
        b == is_digit(c),
{
    '0' <= c && c <= '9'
}

/// The characters of a string, in order.
pub fn chars_of(s: &str) -> (v: Vec<char>)
    ensures
        v@ == s@,
{
    let mut v: Vec<char> = Vec::new();
    for c in it: s.chars()
        invariant
            it.seq() == s@,
            v@ == s@.take(it.index() as int),
    {
        v.push(c);
    }
    v
}

/// The string of the given characters.
pub fn string_of(v: &Vec<char>) -> (s: String)
    ensures
        s@ == v@,
{
    let mut s = String::new();
    let mut i: usize = 0;
    while i < v.len()
        invariant
            i <= v.len(),
            s@ == v@.take(i as int),
        decreases v.len() - i,
    {
        s.push(v[i]);
        i += 1;
    }
    s
}

/// The views of a list of character vectors.
pub open spec fn views(list: Seq<Vec<char>>) -> Seq<Seq<char>> {
    Seq::new(list.len(), |i: int| list[i]@)
}

pub fn sub_text(s: &Vec<char>, from: usize, to: usize) -> (r: Vec<char>)
    requires
        from <= to <= s.len(),
    ensures
        r@ == s@.subrange(from as int, to as int),
{
    let mut r: Vec<char> = Vec::new();
    let mut i = from;
    while i < to
        invariant
            from <= i <= to <= s.len(),
            r@ == s@.subrange(from as int, i as int),
        decreases to - i,
    {
        r.push(s[i]);
        i += 1;
    }
    r
}

pub fn same_text(a: &Vec<char>, b: &Vec<char>) -> (eq: bool)
    ensures
        eq == (a@ == b@),
{
    if a.len() != b.len() {
        return false;
    }
    let mut i: usize = 0;
    while i < a.len()
        invariant
            i <= a.len(),
            a.len() == b.len(),
            a@.take(i as int) == b@.take(i as int),
        decreases a.len() - i,
    {
        if a[i] != b[i] {
            return false;
        }
        assert(a@.take(i + 1) == a@.take(i as int).push(a@[i as int]));
        assert(b@.take(i + 1) == b@.take(i as int).push(b@[i as int]));
        i += 1;
    }
    assert(a@.take(i as int) == a@);
    assert(b@.take(i as int) == b@);
    true
}

/// Whether two strings hold the same text.
pub fn str_eq(a: &str, b: &str) -> (eq: bool)
    ensures
        eq == (a@ == b@),
{
    a.to_owned() == b.to_owned()
}

// ---------------------------------------------------------------------------
// UTF-8
// ---------------------------------------------------------------------------

/// The text that `bytes` encode; nothing where they are no UTF-8.
pub open spec fn utf8_text(bytes: Seq<u8>) -> Option<Seq<char>> {
    if valid_utf8(bytes) {
        Some(decode_utf8(bytes))
    } else {
        None
    }
}

/// `core::str::from_utf8`: succeeds on UTF-8 alone, and the string it gives
/// has exactly the given bytes.
#[verifier::external_body]
fn str_from_utf8(bytes: &[u8]) -> (r: Option<&str>)
    ensures
        match r {
            Some(s) => valid_utf8(bytes@) && s.spec_bytes() == bytes@,
            None => !valid_utf8(bytes@),
        },
{
    core::str::from_utf8(bytes).ok()
}

/// The text that `bytes` encode.
pub fn decode_str(bytes: &[u8]) -> (r: Option<&str>)
    ensures
        match r {
            Some(s) => utf8_text(bytes@) == Some(s@),
            None => utf8_text(bytes@) is None,
        },
{
    match str_from_utf8(bytes) {
        Some(s) => {
            proof {
                encode_utf8_decode_utf8(s@);
            }
            Some(s)
        },
        None => None,
    }
}

// ---------------------------------------------------------------------------
// Trimming
// ---------------------------------------------------------------------------

/// `s` without its leading white space.
pub open spec fn trim_start(s: Seq<char>) -> Seq<char>
    decreases s.len(),
{
    if s.len() > 0 && is_white_space(s[0]) {
        trim_start(s.drop_first())
    } else {
        s
    }
}

/// `s` without its trailing white space.
pub open spec fn trim_end(s: Seq<char>) -> Seq<char>
    decreases s.len(),
{
    if s.len() > 0 && is_white_space(s.last()) {
        trim_end(s.drop_last())
    } else {
        s
    }
}

/// `s` without its leading and trailing white space.
pub open spec fn trimmed(s: Seq<char>) -> Seq<char> {
    trim_end(trim_start(s))
}

pub fn trim(s: &Vec<char>) -> (r: Vec<char>)
    ensures
        r@ == trimmed(s@),
{
    let n = s.len();
    let mut from: usize = 0;
    assert(s@.subrange(0, n as int) == s@);
    while from < n && white_space(s[from])
        invariant
            from <= n,
            n == s.len(),
            trim_start(s@) == trim_start(s@.subrange(from as int, n as int)),
        decreases n - from,
    {
        assert(s@.subrange(from as int, n as int).drop_first() == s@.subrange(from + 1, n as int));
        from += 1;
    }
    let mut to = n;
    while from < to && white_space(s[to - 1])
        invariant
            from <= to <= n,
            n == s.len(),
            trimmed(s@) == trim_end(s@.subrange(from as int, to as int)),
        decreases to,
    {
        assert(s@.subrange(from as int, to as int).drop_last() == s@.subrange(
            from as int,
            to - 1,
        ));
        to -= 1;
    }
    sub_text(s, from, to)
}

// ---------------------------------------------------------------------------
// Searching and splitting
// ---------------------------------------------------------------------------

/// Where `c` first occurs in `s`.
pub open spec fn first_index(s: Seq<char>, c: char) -> Option<int> {
    s.index_of_first(c)
}

/// The text before and after the first `c`; nothing where `c` does not occur.
pub open spec fn split_once(s: Seq<char>, c: char) -> Option<(Seq<char>, Seq<char>)> {
    match first_index(s, c) {
        Some(i) => Some((s.take(i), s.skip(i + 1))),
        None => None,
    }
}

/// What follows `prefix` in `s`; nothing where `s` does not start with it.
pub open spec fn strip_prefix(s: Seq<char>, prefix: Seq<char>) -> Option<Seq<char>> {
    if prefix.is_prefix_of(s) {
        Some(s.skip(prefix.len() as int))
    } else {
        None
    }
}

pub proof fn lemma_first_index(s: Seq<char>, c: char, i: int)
    requires
        0 <= i < s.len(),
        s[i] == c,
        forall|j: int| 0 <= j < i ==> s[j] != c,
    ensures
        first_index(s, c) == Some(i),
{
    assert(s.contains(c));
    s.index_of_first_ensures(c);
}

pub fn find_char(s: &Vec<char>, from: usize, c: char) -> (r: Option<usize>)
    requires
        from <= s.len(),
    ensures
        match r {
            Some(i) => from <= i < s.len() && first_index(s@.skip(from as int), c) == Some(
                i - from,
            ),
            None => first_index(s@.skip(from as int), c) is None,
        },
{
    let ghost rest = s@.skip(from as int);
    let mut i = from;
    while i < s.len()
        invariant
            from <= i <= s.len(),
            rest == s@.skip(from as int),
            forall|j: int| 0 <= j < i - from ==> rest[j] != c,
        decreases s.len() - i,
    {
        if s[i] == c {
            proof {
                lemma_first_index(rest, c, i - from);
            }
            return Some(i);
        }
        i += 1;
    }
    proof {
        rest.index_of_first_ensures(c);
    }
    None
}

/// Whether `s` starts with `prefix`, and what follows it.
pub fn without_prefix(s: &Vec<char>, prefix: &Vec<char>) -> (r: Option<Vec<char>>)
    ensures
        match r {
            Some(rest) => strip_prefix(s@, prefix@) == Some(rest@),
            None => strip_prefix(s@, prefix@) is None,
        },
{
    if s.len() < prefix.len() {
        return None;
    }
    let mut i: usize = 0;
    while i < prefix.len()
        invariant
            i <= prefix.len() <= s.len(),
            forall|j: int| 0 <= j < i ==> s[j] == prefix[j],
        decreases prefix.len() - i,
    {
        if s[i] != prefix[i] {
            assert(s@.subrange(0, prefix@.len() as int)[i as int] != prefix@[i as int]);
            return None;
        }
        i += 1;
    }
    assert(prefix@ == s@.subrange(0, prefix@.len() as int));
    let rest = sub_text(s, prefix.len(), s.len());
    assert(rest@ == s@.skip(prefix@.len() as int));
    Some(rest)
}

/// A line of text without the carriage return that ends it.
pub open spec fn without_cr(s: Seq<char>) -> Seq<char> {
    if s.len() > 0 && s.last() == '\r' {
        s.drop_last()
    } else {
        s
    }
}

/// The lines of `s`. A line ends in `\n` or `\r\n`, which is no part of it;
/// the ending of the last line is optional.
pub open spec fn lines(s: Seq<char>) -> Seq<Seq<char>>
    decreases s.len(),
{
    if s.len() == 0 {
        Seq::empty()
    } else {
        proof {
            s.index_of_first_ensures('\n');
        }
        match first_index(s, '\n') {
            Some(i) => seq![without_cr(s.take(i))] + lines(s.skip(i + 1)),
            None => seq![s],
        }
    }
}

pub fn split_lines(s: &Vec<char>) -> (r: Vec<Vec<char>>)
    ensures
        views(r@) == lines(s@),
{
    let mut r: Vec<Vec<char>> = Vec::new();
    let mut from: usize = 0;
    assert(s@.skip(0) == s@);
    assert(views(r@) + lines(s@) == lines(s@));
    while from < s.len()
        invariant
            from <= s.len(),
            lines(s@) == views(r@) + lines(s@.skip(from as int)),
        decreases s.len() - from,
    {
        let ghost rest = s@.skip(from as int);
        let ghost before = views(r@);
        match find_char(s, from, '\n') {
            Some(i) => {
                let mut to = i;
                if from < i && s[i - 1] == '\r' {
                    to = i - 1;
                }
                let line = sub_text(s, from, to);
                proof {
                    assert(rest.take(i - from) == s@.subrange(from as int, i as int));
                    assert(line@ == without_cr(rest.take(i - from)));
                    assert(rest.skip(i - from + 1) == s@.skip(i + 1));
                }
                r.push(line);
                proof {
                    assert(views(r@) == before.push(line@));
                    assert(views(r@) + lines(s@.skip(i + 1)) == before + (seq![line@] + lines(
                        s@.skip(i + 1),
                    )));
                }
                from = i + 1;
            },
            None => {
                let line = sub_text(s, from, s.len());
                proof {
                    assert(line@ == rest);
                }
                r.push(line);
                proof {
                    assert(views(r@) == before.push(line@));
                    assert(views(r@) == before + lines(rest));
                }
                return r;
            },
        }
    }
    assert(lines(s@.skip(from as int)) == Seq::<Seq<char>>::empty());
    assert(views(r@) + Seq::<Seq<char>>::empty() == views(r@));
    r
}

/// The longest beginning of `s` without white space.
pub open spec fn first_word(s: Seq<char>) -> Seq<char>
    decreases s.len(),
{
    if s.len() > 0 && !is_white_space(s[0]) {
        seq![s[0]] + first_word(s.drop_first())
    } else {
        Seq::empty()
    }
}

/// The words of `s`: its longest stretches without white space, in order.
pub open spec fn words(s: Seq<char>) -> Seq<Seq<char>>
    decreases s.len(),
{
    if s.len() == 0 {
        Seq::empty()
    } else if is_white_space(s[0]) {
        words(s.drop_first())
    } else {
        proof {
            lemma_first_word_len(s);
        }
        seq![first_word(s)] + words(s.skip(first_word(s).len() as int))
    }
}

pub proof fn lemma_first_word_len(s: Seq<char>)
    ensures
        first_word(s).len() <= s.len(),
    decreases s.len(),
{
    if s.len() > 0 {
        lemma_first_word_len(s.drop_first());
    }
}

pub proof fn lemma_first_word(s: Seq<char>, n: int)
    requires
        0 <= n <= s.len(),
        forall|j: int| 0 <= j < n ==> !is_white_space(#[trigger] s[j]),
        n < s.len() ==> is_white_space(s[n]),
    ensures
        first_word(s) == s.take(n),
    decreases n,
{
    if n > 0 {
        let t = s.drop_first();
        assert forall|j: int| 0 <= j < n - 1 implies !is_white_space(#[trigger] t[j]) by {
            assert(t[j] == s[j + 1]);
        }
        lemma_first_word(t, n - 1);
        assert(s.take(n) == seq![s[0]] + t.take(n - 1));
    } else {
        assert(s.take(0) == Seq::<char>::empty());
    }
}

pub fn split_words(s: &Vec<char>) -> (r: Vec<Vec<char>>)
    ensures
        views(r@) == words(s@),
{
    let mut r: Vec<Vec<char>> = Vec::new();
    let mut from: usize = 0;
    assert(s@.skip(0) == s@);
    assert(views(r@) + words(s@) == words(s@));
    while from < s.len()
        invariant
            from <= s.len(),
            words(s@) == views(r@) + words(s@.skip(from as int)),
        decreases s.len() - from,
    {
        let ghost rest = s@.skip(from as int);
        let ghost before = views(r@);
        if white_space(s[from]) {
            assert(rest.drop_first() == s@.skip(from + 1));
            from += 1;
        } else {
            let mut to = from;
            while to < s.len() && !white_space(s[to])
                invariant
                    from <= to <= s.len(),
                    from < s.len(),
                    rest == s@.skip(from as int),
                    forall|j: int| 0 <= j < to - from ==> !is_white_space(#[trigger] rest[j]),
                decreases s.len() - to,
            {
                assert(rest[to - from] == s[to as int]);
                to += 1;
            }
            let word = sub_text(s, from, to);
            proof {
                assert(rest[0] == s[from as int]);
                lemma_first_word(rest, to - from);
                assert(word@ == rest.take(to - from));
                assert(rest.skip(to - from) == s@.skip(to as int));
            }
            r.push(word);
            proof {
                assert(views(r@) == before.push(word@));
                assert(views(r@) + words(s@.skip(to as int)) == before + (seq![word@] + words(
                    s@.skip(to as int),
                )));
            }
            from = to;
        }
    }
    assert(words(s@.skip(from as int)) == Seq::<Seq<char>>::empty());
    assert(views(r@) + Seq::<Seq<char>>::empty() == views(r@));
    r
}

// ---------------------------------------------------------------------------
// Decimal numbers
// ---------------------------------------------------------------------------

/// Every character of `s` is a digit.
pub open spec fn all_digits(s: Seq<char>) -> bool {
    forall|i: int| 0 <= i < s.len() ==> is_digit(#[trigger] s[i])
}

/// The number that the digits of `s` denote.
pub open spec fn digits_value(s: Seq<char>) -> nat
    decreases s.len(),
{
    if s.len() == 0 {
        0
    } else {
        digits_value(s.drop_last()) * 10 + (s.last() as nat - '0' as nat) as nat
    }
}

/// One or more digits whose value is at most `max`.
pub open spec fn parse_digits(s: Seq<char>, max: nat) -> Option<nat> {
    if s.len() > 0 && all_digits(s) && digits_value(s) <= max {
        Some(digits_value(s))
    } else {
        None
    }
}

/// An unsigned decimal number of at most `max`: digits, after an optional `+`.
pub open spec fn parse_unsigned(s: Seq<char>, max: nat) -> Option<nat> {
    if s.len() > 0 && s[0] == '+' {
        parse_digits(s.skip(1), max)
    } else {
        parse_digits(s, max)
    }
}

/// A signed decimal number in the range of `i32`: digits, after an optional
/// `+` or `-`.
pub open spec fn parse_signed(s: Seq<char>) -> Option<int> {
    if s.len() > 0 && s[0] == '-' {
        match parse_digits(s.skip(1), 0x8000_0000) {
            Some(n) => Some(-(n as int)),
            None => None,
        }
    } else {
        match parse_unsigned(s, 0x7fff_ffff) {
            Some(n) => Some(n as int),
            None => None,
        }
    }
}

/// The decimal digits of `n`, without leading zeros.
pub open spec fn decimal(n: nat) -> Seq<char>
    decreases n,
{
    if n < 10 {
        seq![digit_char(n)]
    } else {
        decimal(n / 10).push(digit_char(n % 10))
    }
}

/// The digit of value `d`.
pub open spec fn digit_char(d: nat) -> char {
    ('0' as nat + d) as char
}

/// `i` in decimal, with a leading `-` where it is negative.
pub open spec fn decimal_signed(i: int) -> Seq<char> {
    if i < 0 {
        seq!['-'] + decimal((-i) as nat)
    } else {
        decimal(i as nat)
    }
}

/// A longer run of digits denotes no smaller a number.
proof fn lemma_digits_value_grows(s: Seq<char>, k: int)
    requires
        0 <= k <= s.len(),
        all_digits(s),
    ensures
        digits_value(s.take(k)) <= digits_value(s),
    decreases s.len() - k,
{
    if k < s.len() {
        lemma_digits_value_grows(s, k + 1);
        assert(s.take(k + 1).drop_last() == s.take(k));
    } else {
        assert(s.take(k) == s);
    }
}

/// `parse_digits` on what follows the first `from` characters.
pub fn read_digits(s: &Vec<char>, from: usize, max: u64) -> (r: Option<u64>)
    requires
        from <= s.len(),
    ensures
        match r {
            Some(n) => parse_digits(s@.skip(from as int), max as nat) == Some(n as nat),
            None => parse_digits(s@.skip(from as int), max as nat) is None,
        },
{
    let ghost body = s@.skip(from as int);
    if from == s.len() {
        return None;
    }
    let mut value: u64 = 0;
    let mut i = from;
    assert(body.take(0) == Seq::<char>::empty());
    while i < s.len()
        invariant
            from <= i <= s.len(),
            from < s.len(),
            body == s@.skip(from as int),
            value <= max,
            value == digits_value(body.take(i - from)),
            forall|j: int| 0 <= j < i - from ==> is_digit(#[trigger] body[j]),
        decreases s.len() - i,
    {
        let c = s[i];
        assert(body[i - from] == c);
        if !digit(c) {
            return None;
        }
        let sum: u128 = value as u128 * 10 + (c as u128 - '0' as u128);
        let ghost next = body.take(i - from + 1);
        assert(next.drop_last() == body.take(i - from));
        assert(digits_value(next) == sum);
        if sum > max as u128 {
            proof {
                if all_digits(body) {
                    lemma_digits_value_grows(body, i - from + 1);
                }
            }
            return None;
        }
        value = sum as u64;
        i += 1;
    }
    assert(body.take(i - from) == body);
    Some(value)
}

/// Reads an unsigned decimal number of at most `max`.
pub fn read_unsigned(s: &Vec<char>, max: u64) -> (r: Option<u64>)
    ensures
        match r {
            Some(n) => parse_unsigned(s@, max as nat) == Some(n as nat),
            None => parse_unsigned(s@, max as nat) is None,
        },
{
    assert(s@.skip(0) == s@);
    if s.len() > 0 && s[0] == '+' {
        read_digits(s, 1, max)
    } else {
        read_digits(s, 0, max)
    }
}

/// Reads a signed decimal number in the range of `i32`.
pub fn read_i32(s: &Vec<char>) -> (r: Option<i32>)
    ensures
        match r {
            Some(n) => parse_signed(s@) == Some(n as int),
            None => parse_signed(s@) is None,
        },
{
    if s.len() > 0 && s[0] == '-' {
        match read_digits(s, 1, 0x8000_0000) {
            Some(n) => Some((0 - n as i64) as i32),
            None => None,
        }
    } else {
        match read_unsigned(s, 0x7fff_ffff) {
            Some(n) => Some(n as i32),
            None => None,
        }
    }
}

/// The decimal digits of `n`.
pub fn decimal_chars(n: u64) -> (r: Vec<char>)
    ensures
        r@ == decimal(n as nat),
    decreases n,
{
    let d = ('0' as u8 + (n % 10) as u8) as char;
    if n < 10 {
        let r = vec![d];
        assert(r@ == decimal(n as nat));
        r
    } else {
        let mut r = decimal_chars(n / 10);
        r.push(d);
        r
    }
}

/// `i` in decimal.
pub fn decimal_string(i: i64) -> (s: String)
    ensures
        s@ == decimal_signed(i as int),
{
    if i < 0 {
        let digits = string_of(&decimal_chars((-(i as i128)) as u64));
        let mut s = String::new();
        s.push('-');
        s.append(digits.as_str());
        assert(s@ == decimal_signed(i as int));
        s
    } else {
        string_of(&decimal_chars(i as u64))
    }
}

/// The decimal digits of a number denote it.
pub proof fn lemma_decimal(n: nat)
    ensures
        decimal(n).len() > 0,
        all_digits(decimal(n)),
        digits_value(decimal(n)) == n,
    decreases n,
{
    if n < 10 {
        let s = decimal(n);
        assert(s.drop_last() == Seq::<char>::empty());
        assert(digits_value(s.drop_last()) == 0);
    } else {
        lemma_decimal(n / 10);
        let s = decimal(n);
        assert(s.drop_last() == decimal(n / 10));
    }
}

/// Reading back a number written in decimal gives that number.
pub proof fn lemma_decimal_round_trip(i: int)
    requires
        i32::MIN <= i <= i32::MAX,
    ensures
        parse_signed(decimal_signed(i)) == Some(i),
{
    let s = decimal_signed(i);
    if i < 0 {
        lemma_decimal((-i) as nat);
        assert(s.skip(1) == decimal((-i) as nat));
    } else {
        lemma_decimal(i as nat);
        assert(is_digit(s[0]));
    }
}

// ---------------------------------------------------------------------------
// Laws
// ---------------------------------------------------------------------------

/// Every character of `s` is white space.
pub open spec fn all_white_space(s: Seq<char>) -> bool {
    forall|i: int| 0 <= i < s.len() ==> is_white_space(#[trigger] s[i])
}

/// `s` neither starts nor ends with white space.
pub open spec fn is_trim(s: Seq<char>) -> bool {
    s.len() > 0 ==> !is_white_space(s[0]) && !is_white_space(s.last())
}

proof fn lemma_trim_start(a: Seq<char>, t: Seq<char>)
    requires
        all_white_space(a),
        t.len() > 0 ==> !is_white_space(t[0]),
    ensures
        trim_start(a + t) == t,
    decreases a.len(),
{
    if a.len() == 0 {
        assert(a + t == t);
    } else {
        assert(is_white_space(a[0]));
        assert((a + t)[0] == a[0]);
        assert((a + t).drop_first() == a.drop_first() + t);
        assert forall|i: int| 0 <= i < a.drop_first().len() implies is_white_space(
            #[trigger] a.drop_first()[i],
        ) by {
            assert(a.drop_first()[i] == a[i + 1]);
        }
        lemma_trim_start(a.drop_first(), t);
    }
}

proof fn lemma_trim_end(t: Seq<char>, b: Seq<char>)
    requires
        all_white_space(b),
        t.len() > 0 ==> !is_white_space(t.last()),
    ensures
        trim_end(t + b) == t,
    decreases b.len(),
{
    if b.len() == 0 {
        assert(t + b == t);
    } else {
        assert(is_white_space(b.last()));
        assert((t + b).last() == b.last());
        assert((t + b).drop_last() == t + b.drop_last());
        assert forall|i: int| 0 <= i < b.drop_last().len() implies is_white_space(
            #[trigger] b.drop_last()[i],
        ) by {
            assert(b.drop_last()[i] == b[i]);
        }
        lemma_trim_end(t, b.drop_last());
    }
}

/// White space round a text is trimmed off, all of it, and nothing else.
pub proof fn law_trim(a: Seq<char>, t: Seq<char>, b: Seq<char>)
    requires
        all_white_space(a),
        is_trim(t),
        all_white_space(b),
    ensures
        trimmed(a + t + b) == t,
{
    if t.len() == 0 {
        assert(a + t + b == (a + b) + t);
        assert forall|i: int| 0 <= i < (a + b).len() implies is_white_space(
            #[trigger] (a + b)[i],
        ) by {
            if i < a.len() {
                assert((a + b)[i] == a[i]);
            } else {
                assert((a + b)[i] == b[i - a.len()]);
            }
        }
        lemma_trim_start(a + b, t);
        assert(trim_end(t) == t);
    } else {
        assert(a + t + b == a + (t + b));
        assert((t + b)[0] == t[0]);
        lemma_trim_start(a, t + b);
        lemma_trim_end(t, b);
    }
}

/// A text is what is trimmed off its start, what is left, and what is trimmed
/// off its end.
pub proof fn law_trimmed_part(s: Seq<char>) -> (r: (Seq<char>, Seq<char>))
    ensures
        all_white_space(r.0),
        is_trim(trimmed(s)),
        all_white_space(r.1),
        s == r.0 + trimmed(s) + r.1,
    decreases s.len(),
{
    if s.len() == 0 {
        (s, s)
    } else if is_white_space(s[0]) {
        let (a, b) = law_trimmed_part(s.drop_first());
        let r = seq![s[0]] + a;
        assert forall|i: int| 0 <= i < r.len() implies is_white_space(#[trigger] r[i]) by {
            if i > 0 {
                assert(r[i] == a[i - 1]);
            }
        }
        assert(s == seq![s[0]] + s.drop_first());
        assert(s == r + trimmed(s) + b);
        (r, b)
    } else if is_white_space(s.last()) {
        let t = s.drop_last();
        assert(t[0] == s[0]);
        let (a, b) = law_trimmed_part(t);
        let r = b.push(s.last());
        assert forall|i: int| 0 <= i < r.len() implies is_white_space(#[trigger] r[i]) by {
            if i < b.len() {
                assert(r[i] == b[i]);
            }
        }
        assert(trimmed(s) == trimmed(t));
        assert(s == t.push(s.last()));
        assert(s == a + trimmed(s) + r);
        (a, r)
    } else {
        assert(s == Seq::<char>::empty() + s + Seq::<char>::empty());
        (Seq::empty(), Seq::empty())
    }
}

/// A text is split at the first occurrence of a character, which stands in
/// neither part; a text without it is not split.
pub proof fn law_split_once(a: Seq<char>, c: char, b: Seq<char>)
    requires
        !a.contains(c),
    ensures
        split_once(a + seq![c] + b, c) == Some((a, b)),
        split_once(a, c) is None,
{
    let s = a + seq![c] + b;
    assert forall|j: int| 0 <= j < a.len() implies s[j] != c by {
        assert(s[j] == a[j]);
        assert(a.contains(a[j]));
    }
    lemma_first_index(s, c, a.len() as int);
    assert(s.take(a.len() as int) == a);
    assert(s.skip(a.len() as int + 1) == b);
    a.index_of_first_ensures(c);
}

/// What follows a prefix is given exactly where the text is the prefix with
/// that behind it.
pub proof fn law_strip_prefix(s: Seq<char>, prefix: Seq<char>, rest: Seq<char>)
    ensures
        strip_prefix(s, prefix) == Some(rest) <==> s == prefix + rest,
{
    if prefix.is_prefix_of(s) {
        assert(s.subrange(0, prefix.len() as int) == prefix);
        assert(s == prefix + s.skip(prefix.len() as int));
        if s == prefix + rest {
            assert(s.skip(prefix.len() as int) == rest);
        }
    } else if s == prefix + rest {
        assert(s.subrange(0, prefix.len() as int) == prefix);
    }
}

/// A line goes to the next line feed, and a carriage return before that is no
/// part of it; what comes last is a line without a line feed, unless it is
/// empty.
pub proof fn law_lines(line: Seq<char>, rest: Seq<char>)
    requires
        !line.contains('\n'),
    ensures
        lines(line + seq!['\r', '\n'] + rest) == seq![line] + lines(rest),
        line.len() == 0 || line.last() != '\r' ==> lines(line + seq!['\n'] + rest) == seq![line]
            + lines(rest),
        lines(line) == (if line.len() == 0 {
            Seq::empty()
        } else {
            seq![line]
        }),
{
    let n = line.len() as int;
    let s = line + seq!['\r', '\n'] + rest;
    let t = line + seq!['\n'] + rest;
    assert forall|j: int| 0 <= j < n implies s[j] != '\n' && t[j] != '\n' by {
        assert(s[j] == line[j] && t[j] == line[j]);
        assert(line.contains(line[j]));
    }
    assert(s[n] == '\r' && s[n + 1] == '\n');
    lemma_first_index(s, '\n', n + 1);
    assert(s.take(n + 1) == line.push('\r'));
    assert(without_cr(s.take(n + 1)) == line) by {
        assert(line.push('\r').drop_last() == line);
    }
    assert(s.skip(n + 2) == rest);
    lemma_first_index(t, '\n', n);
    assert(t.take(n) == line);
    assert(t.skip(n + 1) == rest);
    line.index_of_first_ensures('\n');
}

/// Words are what white space parts: it belongs to none of them, and any of it
/// ends one.
pub proof fn law_words(word: Seq<char>, c: char, rest: Seq<char>)
    requires
        word.len() > 0,
        forall|i: int| 0 <= i < word.len() ==> !is_white_space(#[trigger] word[i]),
        is_white_space(c),
    ensures
        words(word + seq![c] + rest) == seq![word] + words(rest),
        words(word) == seq![word],
        words(seq![c] + rest) == words(rest),
        words(Seq::empty()) == Seq::<Seq<char>>::empty(),
{
    let n = word.len() as int;
    let s = word + seq![c] + rest;
    let tail = seq![c] + rest;
    assert(!is_white_space(word[0]));
    assert(tail[0] == c);
    assert(tail.drop_first() == rest);
    assert(words(tail) == words(rest));
    assert forall|j: int| 0 <= j < n implies !is_white_space(#[trigger] s[j]) by {
        assert(s[j] == word[j]);
    }
    assert(s[0] == word[0]);
    lemma_first_word(s, n);
    assert(s.take(n) == word);
    assert(s.skip(n) == tail);
    lemma_first_word(word, n);
    assert(word.take(n) == word);
    assert(word.skip(n) == Seq::<char>::empty());
    assert(words(Seq::<char>::empty()) == Seq::<Seq<char>>::empty());
    assert(words(word) == seq![word] + words(word.skip(n)));
    assert(seq![word] + Seq::<Seq<char>>::empty() == seq![word]);
}

/// Each digit counts ten times the one behind it.
pub proof fn law_digits_value(s: Seq<char>, c: char)
    requires
        '0' <= c <= '9',
    ensures
        digits_value(Seq::empty()) == 0,
        digits_value(s.push(c)) == 10 * digits_value(s) + (c as int - '0' as int),
{
    assert(s.push(c).drop_last() == s);
}

/// Digits, one at least, are read as the number that they denote, with a sign
/// before them or not; a number out of range is refused.
pub proof fn law_numbers_read(d: Seq<char>, max: nat)
    requires
        d.len() > 0,
        forall|i: int| 0 <= i < d.len() ==> '0' <= #[trigger] d[i] <= '9',
    ensures
        parse_digits(d, max) == parse_unsigned(d, max),
        parse_unsigned(d, max) == (if digits_value(d) <= max {
            Some(digits_value(d))
        } else {
            None
        }),
        parse_unsigned(seq!['+'] + d, max) == parse_unsigned(d, max),
        parse_signed(d) == (if digits_value(d) <= 2147483647 {
            Some(digits_value(d) as int)
        } else {
            None
        }),
        parse_signed(seq!['+'] + d) == parse_signed(d),
        parse_signed(seq!['-'] + d) == (if digits_value(d) <= 2147483648 {
            Some(-(digits_value(d) as int))
        } else {
            None
        }),
{
    assert('0' <= d[0] <= '9');
    assert((seq!['+'] + d).skip(1) == d);
    assert((seq!['-'] + d).skip(1) == d);
    assert(all_digits(d));
}

/// Nothing is read from a text that is empty, that is a sign alone, or that
/// holds anything but digits behind its first character.
pub proof fn law_other_texts_refused(s: Seq<char>, i: int, max: nat)
    requires
        0 <= i < s.len(),
        !('0' <= s[i] <= '9'),
        i > 0 || (s[0] != '+' && s[0] != '-') || s.len() == 1,
    ensures
        parse_unsigned(s, max) is None,
        parse_signed(s) is None,
        parse_digits(s, max) is None,
        parse_unsigned(Seq::empty(), max) is None,
        parse_signed(Seq::empty()) is None,
        parse_digits(Seq::empty(), max) is None,
{
    assert(!is_digit(s[i]));
    if i > 0 {
        assert(s.skip(1)[i - 1] == s[i]);
        assert(!is_digit(s.skip(1)[i - 1]));
    }
}

/// A negative number is not read where only unsigned ones are.
pub proof fn law_unsigned_has_no_minus(s: Seq<char>, max: nat)
    requires
        s.len() > 0,
        s[0] == '-',
    ensures
        parse_unsigned(s, max) is None,
{
    assert(!is_digit(s[0]));
}

/// A number is written with digits alone, the first of which is no zero but
/// for zero itself, and so that they denote it; a minus goes before a negative
/// one.
pub proof fn law_decimal_written(n: nat)
    ensures
        digits_value(decimal(n)) == n,
        decimal(n).len() > 0,
        forall|i: int| 0 <= i < decimal(n).len() ==> '0' <= #[trigger] decimal(n)[i] <= '9',
        n > 0 ==> decimal(n)[0] != '0',
        decimal(0) == seq!['0'],
        decimal_signed(n as int) == decimal(n),
        n > 0 ==> decimal_signed(-(n as int)) == seq!['-'] + decimal(n),
    decreases n,
{
    lemma_decimal(n);
    assert(all_digits(decimal(n)));
    if n >= 10 {
        law_decimal_written(n / 10);
        assert(decimal(n)[0] == decimal(n / 10)[0]);
    }
}

/// Digits without leading zeros are the way in which the number that they
/// denote is written.
pub proof fn law_decimal_unique(s: Seq<char>)
    requires
        s.len() > 0,
        forall|i: int| 0 <= i < s.len() ==> '0' <= #[trigger] s[i] <= '9',
        s.len() > 1 ==> s[0] != '0',
    ensures
        decimal(digits_value(s)) == s,
        s.len() > 1 ==> digits_value(s) >= 10,
        s[0] != '0' ==> digits_value(s) > 0,
    decreases s.len(),
{
    let t = s.drop_last();
    assert('0' <= s.last() <= '9');
    if s.len() == 1 {
        assert(digits_value(t) == 0);
        assert(s == seq![s[0]]);
    } else {
        assert(t[0] == s[0]);
        assert forall|i: int| 0 <= i < t.len() implies '0' <= #[trigger] t[i] <= '9' by {
            assert(t[i] == s[i]);
        }
        law_decimal_unique(t);
        assert(digits_value(s) / 10 == digits_value(t));
        assert(s == t.push(s.last()));
    }
}

/// Bytes are read as the text that they encode; bytes that encode none are not
/// read.
pub proof fn law_utf8_read(s: Seq<char>, bytes: Seq<u8>)
    ensures
        utf8_text(encode_utf8(s)) == Some(s),
        !valid_utf8(bytes) ==> utf8_text(bytes) is None,
        utf8_text(bytes) matches Some(t) ==> encode_utf8(t) == bytes,
{
    encode_utf8_valid_utf8(s);
    encode_utf8_decode_utf8(s);
    if valid_utf8(bytes) {
        decode_utf8_encode_utf8(bytes);
    }
}

/// A list of texts is seen as what each of them holds.
pub proof fn law_views(list: Seq<Vec<char>>, i: int)
    requires
        0 <= i < list.len(),
    ensures
        views(list).len() == list.len(),
        views(list)[i] == list[i]@,
        views(Seq::empty()) == Seq::<Seq<char>>::empty(),
{
}

} // verus!
