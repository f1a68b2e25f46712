//! The HTTP endpoint on the panel: `POST /esp_counter` sets the counter.

use crate::counter;
use crate::text;
use vstd::prelude::*;
use vstd::slice::slice_subrange;
use vstd::string::*;
use vstd::utf8::*;

verus! {

/// No request longer than this is read.
pub const MAX_REQUEST: usize = 4096;

// ---------------------------------------------------------------------------
// Finding the end of the headers
// ---------------------------------------------------------------------------

/// Where `needle` first occurs in `haystack`, at `from` or later. An empty
/// needle is never found.
pub open spec fn first_match(haystack: Seq<u8>, needle: Seq<u8>, from: int) -> Option<int>
    decreases haystack.len() - from,
{
    if needle.len() == 0 || from + needle.len() > haystack.len() {
        None
    } else if haystack.subrange(from, from + needle.len()) == needle {
        Some(from)
    } else {
        first_match(haystack, needle, from + 1)
    }
}

/// Where `needle` first occurs in `haystack`.
pub fn find_subslice(haystack: &[u8], needle: &[u8]) -> (r: Option<usize>)
    ensures
        match r {
            Some(i) => first_match(haystack@, needle@, 0) == Some(i as int) && i + needle@.len()
                <= haystack@.len(),
            None => first_match(haystack@, needle@, 0) is None,
        },
{
    if needle.len() == 0 || haystack.len() < needle.len() {
        return None;
    }
    let len = haystack.len();
    let last = len - needle.len();
    let mut i: usize = 0;
    while i <= last
        invariant
            0 < needle@.len() <= haystack@.len(),
            len == haystack@.len(),
            last == len - needle@.len(),
            i <= last + 1,
            first_match(haystack@, needle@, 0) == first_match(haystack@, needle@, i as int),
        decreases last + 1 - i,
    {
        let mut j: usize = 0;
        while j < needle.len() && haystack[i + j] == needle[j]
            invariant
                i <= last,
                len == haystack@.len(),
                last == len - needle@.len(),
                j <= needle@.len(),
                forall|k: int| 0 <= k < j ==> haystack@[i + k] == needle@[k],
            decreases needle@.len() - j,
        {
            j += 1;
        }
        let ghost window = haystack@.subrange(i as int, i + needle@.len());
        if j == needle.len() {
            assert(window == needle@);
            return Some(i);
        }
        assert(window[j as int] != needle@[j as int]);
        i += 1;
    }
    None
}

/// The bytes that end the headers of a request.
pub open spec fn blank_line() -> Seq<u8> {
    seq![13u8, 10u8, 13u8, 10u8]
}

/// Where the headers end: the first empty line.
pub open spec fn header_end(bytes: Seq<u8>) -> Option<int> {
    first_match(bytes, blank_line(), 0)
}

/// `first_match` finds a match, and none lies before it.
pub proof fn lemma_first_match(haystack: Seq<u8>, needle: Seq<u8>, from: int)
    requires
        0 <= from,
        needle.len() > 0,
    ensures
        match first_match(haystack, needle, from) {
            Some(i) => {
                &&& from <= i
                &&& i + needle.len() <= haystack.len()
                &&& haystack.subrange(i, i + needle.len()) == needle
                &&& forall|j: int|
                    from <= j < i ==> #[trigger] haystack.subrange(j, j + needle.len()) != needle
            },
            None => forall|j: int|
                from <= j && j + needle.len() <= haystack.len() ==> #[trigger] haystack.subrange(
                    j,
                    j + needle.len(),
                ) != needle,
        },
    decreases haystack.len() - from,
{
    if from + needle.len() <= haystack.len() && haystack.subrange(from, from + needle.len())
        != needle {
        lemma_first_match(haystack, needle, from + 1);
    }
}

/// A match stays the first one however the text goes on.
pub proof fn lemma_first_match_stable(
    haystack: Seq<u8>,
    more: Seq<u8>,
    needle: Seq<u8>,
    from: int,
)
    requires
        0 <= from,
        first_match(haystack, needle, from) is Some,
    ensures
        first_match(haystack + more, needle, from) == first_match(haystack, needle, from),
    decreases haystack.len() - from,
{
    assert((haystack + more).subrange(from, from + needle.len()) == haystack.subrange(
        from,
        from + needle.len(),
    ));
    if haystack.subrange(from, from + needle.len()) != needle {
        lemma_first_match_stable(haystack, more, needle, from + 1);
    }
}

// ---------------------------------------------------------------------------
// Content-Length
// ---------------------------------------------------------------------------

/// The number that follows `name` at the start of a line.
pub open spec fn field_number(line: Seq<char>, name: Seq<char>) -> Option<nat> {
    match text::strip_prefix(line, name) {
        Some(rest) => text::parse_unsigned(text::trimmed(rest), usize::MAX as nat),
        None => None,
    }
}

/// The body length that a header line gives. The field's name is written
/// either way and no other.
pub open spec fn line_length(line: Seq<char>) -> Option<nat> {
    match field_number(line, "Content-Length:"@) {
        Some(n) => Some(n),
        None => field_number(line, "content-length:"@),
    }
}

/// The first body length that the lines give, zero where none does.
pub open spec fn first_length(lines: Seq<Seq<char>>) -> nat
    decreases lines.len(),
{
    if lines.len() == 0 {
        0
    } else {
        match line_length(lines[0]) {
            Some(n) => n,
            None => first_length(lines.drop_first()),
        }
    }
}

fn read_field(line: &Vec<char>, name: &str) -> (r: Option<usize>)
    ensures
        match r {
            Some(n) => field_number(line@, name@) == Some(n as nat),
            None => field_number(line@, name@) is None,
        },
{
    match text::without_prefix(line, &text::chars_of(name)) {
        Some(rest) => match text::read_unsigned(&text::trim(&rest), usize::MAX as u64) {
            Some(n) => Some(n as usize),
            None => None,
        },
        None => None,
    }
}

/// The body length that the headers of a request give.
pub fn parse_content_length(headers: &str) -> (n: usize)
    ensures
        n == first_length(text::lines(headers@)),
{
    let rows = text::split_lines(&text::chars_of(headers));
    let ghost all = text::lines(headers@);
    let mut i: usize = 0;
    assert(all.skip(0) == all);
    while i < rows.len()
        invariant
            i <= rows.len(),
            all == text::lines(headers@),
            text::views(rows@) == all,
            first_length(all) == first_length(all.skip(i as int)),
        decreases rows.len() - i,
    {
        assert(all.skip(i as int)[0] == rows@[i as int]@);
        assert(all.skip(i as int).drop_first() == all.skip(i + 1));
        if let Some(n) = read_field(&rows[i], "Content-Length:") {
            return n;
        }
        if let Some(n) = read_field(&rows[i], "content-length:") {
            return n;
        }
        i += 1;
    }
    0
}

// ---------------------------------------------------------------------------
// Reading a request
// ---------------------------------------------------------------------------

/// The body length of a request whose headers end at `end`. Headers that are
/// no text give none.
pub open spec fn body_length(bytes: Seq<u8>, end: int) -> nat {
    match text::utf8_text(bytes.take(end)) {
        Some(t) => first_length(text::lines(t)),
        None => 0,
    }
}

/// The length of the whole request, where its headers are all there.
pub open spec fn request_length(bytes: Seq<u8>) -> Option<nat> {
    match header_end(bytes) {
        Some(end) => Some((end + 4 + body_length(bytes, end)) as nat),
        None => None,
    }
}

/// The length of the whole request, as far as it is known, is a `usize`.
pub open spec fn length_fits(bytes: Seq<u8>) -> bool {
    request_length(bytes) matches Some(n) ==> n <= usize::MAX
}

/// All of the request is there.
pub open spec fn is_complete(bytes: Seq<u8>) -> bool {
    request_length(bytes) matches Some(n) && bytes.len() >= n
}

/// Whether to read on.
#[derive(Clone, Copy, Debug, PartialEq, Eq, Structural)]
pub enum ReadStep {
    More,
    Stop,
}

/// The bytes of a request, as far as they have been read.
pub struct RequestReader {
    bytes: Vec<u8>,
    header_end: Option<usize>,
    body_len: usize,
}

impl View for RequestReader {
    type V = Seq<u8>;

    closed spec fn view(&self) -> Seq<u8> {
        self.bytes@
    }
}

/// The empty line that ends the headers.
fn blank_line_bytes() -> (v: Vec<u8>)
    ensures
        v@ == blank_line(),
{
    let v: Vec<u8> = vec![13u8, 10u8, 13u8, 10u8];
    assert(v@ == blank_line());
    v
}

/// Where the headers end, and the body length that they give.
fn measure(bytes: &[u8]) -> (r: Option<(usize, usize)>)
    ensures
        match r {
            Some((end, len)) => {
                &&& header_end(bytes@) == Some(end as int)
                &&& end + 4 <= bytes@.len()
                &&& len == body_length(bytes@, end as int)
            },
            None => header_end(bytes@) is None,
        },
{
    match find_subslice(bytes, blank_line_bytes().as_slice()) {
        Some(end) => {
            let head = slice_subrange(bytes, 0, end);
            assert(head@ == bytes@.take(end as int));
            match text::decode_str(head) {
                Some(headers) => Some((end, parse_content_length(headers))),
                None => Some((end, 0)),
            }
        },
        None => None,
    }
}

fn joined(a: &Vec<u8>, b: &[u8]) -> (r: Vec<u8>)
    ensures
        r@ == a@ + b@,
{
    let mut r = a.clone();
    r.extend_from_slice(b);
    assert(r@ == a@ + b@);
    r
}

impl RequestReader {
    pub closed spec fn wf(self) -> bool {
        &&& self@.len() <= MAX_REQUEST
        &&& length_fits(self@)
        &&& match self.header_end {
            Some(end) => header_end(self@) == Some(end as int) && end + 4 <= self@.len()
                && self.body_len == body_length(self@, end as int),
            None => header_end(self@) is None,
        }
    }

    pub fn new() -> (r: RequestReader)
        ensures
            r.wf(),
            r@ == Seq::<u8>::empty(),
    {
        RequestReader { bytes: Vec::new(), header_end: None, body_len: 0 }
    }

    /// Whether `push` may be called with `chunk`: not where the length that
    /// the request claims for itself is past all counting.
    pub fn chunk_fits(&self, chunk: &[u8]) -> (b: bool)
        requires
            self.wf(),
        ensures
            b == (self@.len() + chunk@.len() > MAX_REQUEST || length_fits(self@ + chunk@)),
    {
        if chunk.len() > MAX_REQUEST - self.bytes.len() {
            return true;
        }
        match measure(joined(&self.bytes, chunk).as_slice()) {
            Some((end, len)) => len <= usize::MAX - end - 4,
            None => true,
        }
    }

    /// Takes what one read gave. An empty chunk is the end of the stream; it
    /// and one that would make the request too long are not taken and end the
    /// reading, and so does the last byte of the request.
    pub fn push(&mut self, chunk: &[u8]) -> (step: ReadStep)
        requires
            old(self).wf(),
            old(self)@.len() + chunk@.len() > MAX_REQUEST || length_fits(old(self)@ + chunk@),
        ensures
            final(self).wf(),
            if chunk@.len() == 0 || old(self)@.len() + chunk@.len() > MAX_REQUEST {
                final(self)@ == old(self)@ && step == ReadStep::Stop
            } else {
                final(self)@ == old(self)@ + chunk@ && (step == ReadStep::Stop <==> is_complete(
                    final(self)@,
                ))
            },
    {
        if chunk.len() == 0 || chunk.len() > MAX_REQUEST - self.bytes.len() {
            return ReadStep::Stop;
        }
        let ghost before = self.bytes@;
        self.bytes = joined(&self.bytes, chunk);
        match self.header_end {
            Some(end) => {
                proof {
                    lemma_first_match_stable(before, chunk@, blank_line(), 0);
                    assert((before + chunk@).take(end as int) == before.take(end as int));
                }
            },
            None => {
                if let Some((end, len)) = measure(self.bytes.as_slice()) {
                    self.header_end = Some(end);
                    self.body_len = len;
                }
            },
        }
        match self.header_end {
            Some(end) => if self.bytes.len() >= end + 4 + self.body_len {
                ReadStep::Stop
            } else {
                ReadStep::More
            },
            None => ReadStep::More,
        }
    }
}

// ---------------------------------------------------------------------------
// Answering a request
// ---------------------------------------------------------------------------

/// What a request asks for.
#[derive(Debug)]
pub enum Route {
    /// No request line could be read.
    Malformed,
    /// Not `POST /esp_counter`.
    NotFound,
    /// `POST /esp_counter`, with the bytes of its body.
    SetCounter(Vec<u8>),
}

/// The words of the request line, where there is one.
pub open spec fn request_line(bytes: Seq<u8>) -> Option<Seq<Seq<char>>> {
    match header_end(bytes) {
        Some(end) => match text::utf8_text(bytes.take(end)) {
            Some(t) => if text::lines(t).len() > 0 {
                Some(text::words(text::lines(t)[0]))
            } else {
                None
            },
            None => None,
        },
        None => None,
    }
}

/// The request line asks to set the counter: its first word is the method
/// `POST`, its second the path `/esp_counter`.
pub open spec fn sets_counter(line: Seq<Seq<char>>) -> bool {
    line.len() >= 2 && line[0] == "POST"@ && line[1] == "/esp_counter"@
}

/// The body of a request whose headers end at `end`, as far as it has come.
pub open spec fn request_body(bytes: Seq<u8>, end: int) -> Seq<u8> {
    let stop = end + 4 + body_length(bytes, end);
    bytes.subrange(
        end + 4,
        if stop < bytes.len() {
            stop
        } else {
            bytes.len() as int
        },
    )
}

impl RequestReader {
    /// What the request asks for, once reading has ended.
    pub fn route(&self) -> (r: Route)
        requires
            self.wf(),
        ensures
            match r {
                Route::Malformed => request_line(self@) is None,
                Route::NotFound => request_line(self@) matches Some(line) && !sets_counter(line),
                Route::SetCounter(body) => {
                    &&& request_line(self@) matches Some(line) && sets_counter(line)
                    &&& body@ == request_body(self@, header_end(self@)->0)
                },
            },
    {
        let end = match self.header_end {
            Some(end) => end,
            None => {
                return Route::Malformed;
            },
        };
        let head = slice_subrange(self.bytes.as_slice(), 0, end);
        assert(head@ == self@.take(end as int));
        let headers = match text::decode_str(head) {
            Some(headers) => headers,
            None => {
                return Route::Malformed;
            },
        };
        let rows = text::split_lines(&text::chars_of(headers));
        assert(text::views(rows@) == text::lines(headers@));
        if rows.len() == 0 {
            return Route::Malformed;
        }
        let parts = text::split_words(&rows[0]);
        assert(text::views(parts@) == text::words(text::lines(headers@)[0]));
        if parts.len() < 2 {
            return Route::NotFound;
        }
        assert(text::views(parts@)[0] == parts@[0]@);
        assert(text::views(parts@)[1] == parts@[1]@);
        if !text::same_text(&parts[0], &text::chars_of("POST")) || !text::same_text(
            &parts[1],
            &text::chars_of("/esp_counter"),
        ) {
            return Route::NotFound;
        }
        let stop = end + 4 + self.body_len;
        let stop = if stop < self.bytes.len() {
            stop
        } else {
            self.bytes.len()
        };
        let body = slice_subrange(self.bytes.as_slice(), end + 4, stop);
        Route::SetCounter(vstd::slice::slice_to_vec(body))
    }
}

/// The body of a request to set the counter, read from its JSON.
#[derive(Clone, Copy, Debug, PartialEq, Eq, Structural)]
pub struct EspCounterBody {
    pub counter: Option<i32>,
    pub count: Option<i32>,
}

/// The answer to a request.
#[derive(Clone, Copy, Debug, PartialEq, Eq, Structural)]
pub enum Answer {
    /// The counter is to be set to this value.
    Accepted(i32),
    MissingCounter,
    InvalidJson,
    NotFound,
    BadRequest,
}

/// The value that a body gives: `counter`, or else `count`.
pub open spec fn body_value(body: EspCounterBody) -> Option<i32> {
    match body.counter {
        Some(v) => Some(v),
        None => body.count,
    }
}

/// The answer to a request: `json` is the body of a `SetCounter` request, or
/// nothing where it is no JSON of that shape.
pub open spec fn answer_to(route: Route, json: Option<EspCounterBody>) -> Answer {
    match route {
        Route::Malformed => Answer::BadRequest,
        Route::NotFound => Answer::NotFound,
        Route::SetCounter(_) => match json {
            Some(body) => match body_value(body) {
                Some(v) => Answer::Accepted(counter::clamped(v as int) as i32),
                None => Answer::MissingCounter,
            },
            None => Answer::InvalidJson,
        },
    }
}

impl Answer {
    /// The status line's code and reason.
    pub open spec fn status(self) -> Seq<char> {
        match self {
            Answer::Accepted(_) => "200 OK"@,
            Answer::MissingCounter | Answer::InvalidJson | Answer::BadRequest =>
                "400 Bad Request"@,
            Answer::NotFound => "404 Not Found"@,
        }
    }

    /// The body, a JSON object.
    pub open spec fn body(self) -> Seq<char> {
        match self {
            Answer::Accepted(_) => "{\"status\":\"ok\"}"@,
            Answer::MissingCounter => "{\"error\":\"missing_counter\"}"@,
            Answer::InvalidJson => "{\"error\":\"invalid_json\"}"@,
            Answer::NotFound => "{\"error\":\"not_found\"}"@,
            Answer::BadRequest => "{\"error\":\"bad_request\"}"@,
        }
    }

    /// The whole response; its `Content-Length` is the body's length in bytes.
    pub open spec fn response_text(self) -> Seq<char> {
        "HTTP/1.1 "@ + self.status()
            + "\r\nContent-Type: application/json\r\nContent-Length: "@ + text::decimal(
            encode_utf8(self.body()).len(),
        ) + "\r\nConnection: close\r\n\r\n"@ + self.body()
    }

    pub fn status_str(&self) -> (s: &'static str)
        ensures
            s@ == self.status(),
    {
        match self {
            Answer::Accepted(_) => "200 OK",
            Answer::MissingCounter | Answer::InvalidJson | Answer::BadRequest => "400 Bad Request",
            Answer::NotFound => "404 Not Found",
        }
    }

    pub fn body_str(&self) -> (s: &'static str)
        ensures
            s@ == self.body(),
    {
        match self {
            Answer::Accepted(_) => "{\"status\":\"ok\"}",
            Answer::MissingCounter => "{\"error\":\"missing_counter\"}",
            Answer::InvalidJson => "{\"error\":\"invalid_json\"}",
            Answer::NotFound => "{\"error\":\"not_found\"}",
            Answer::BadRequest => "{\"error\":\"bad_request\"}",
        }
    }

    /// The response to send.
    pub fn response(&self) -> (s: String)
        ensures
            s@ == self.response_text(),
    {
        let body = self.body_str();
        let length = text::string_of(&text::decimal_chars(body.as_bytes().len() as u64));
        let mut s = "HTTP/1.1 ".to_owned();
        s.append(self.status_str());
        s.append("\r\nContent-Type: application/json\r\nContent-Length: ");
        s.append(length.as_str());
        s.append("\r\nConnection: close\r\n\r\n");
        s.append(body);
        s
    }
}

/// Answers a request.
pub fn answer(route: &Route, json: Option<EspCounterBody>) -> (a: Answer)
    ensures
        a == answer_to(*route, json),
{
    match route {
        Route::Malformed => Answer::BadRequest,
        Route::NotFound => Answer::NotFound,
        Route::SetCounter(_) => match json {
            Some(body) => {
                let value = match body.counter {
                    Some(v) => Some(v),
                    None => body.count,
                };
                match value {
                    Some(v) => Answer::Accepted(counter::clamp_counter(v)),
                    None => Answer::MissingCounter,
                }
            },
            None => Answer::InvalidJson,
        },
    }
}

// ---------------------------------------------------------------------------
// Laws
// ---------------------------------------------------------------------------

/// A request is read alike however it comes in pieces: once its headers are
/// there, more bytes change neither its request line nor its length.
pub proof fn law_headers_settled(bytes: Seq<u8>, more: Seq<u8>)
    requires
        header_end(bytes) is Some,
    ensures
        header_end(bytes + more) == header_end(bytes),
        request_length(bytes + more) == request_length(bytes),
        request_line(bytes + more) == request_line(bytes),
{
    lemma_first_match_stable(bytes, more, blank_line(), 0);
    lemma_first_match(bytes, blank_line(), 0);
    let end = header_end(bytes)->0;
    assert((bytes + more).take(end) == bytes.take(end));
}

/// What comes after a complete request does not change its body.
pub proof fn law_body_settled(bytes: Seq<u8>, more: Seq<u8>)
    requires
        is_complete(bytes),
    ensures
        ({
            let end = header_end(bytes)->0;
            &&& request_body(bytes + more, end) == request_body(bytes, end)
            &&& request_body(bytes, end).len() == body_length(bytes, end)
        }),
{
    law_headers_settled(bytes, more);
    lemma_first_match(bytes, blank_line(), 0);
    let end = header_end(bytes)->0;
    assert((bytes + more).take(end) == bytes.take(end));
    assert(request_body(bytes + more, end) == request_body(bytes, end));
}

/// A request that is as long as it says is not taken for complete before its
/// last byte.
pub proof fn law_not_complete_early(bytes: Seq<u8>, k: int)
    requires
        request_length(bytes) == Some(bytes.len()),
        0 <= k < bytes.len(),
    ensures
        !is_complete(bytes.take(k)),
{
    if header_end(bytes.take(k)) is Some {
        law_headers_settled(bytes.take(k), bytes.skip(k));
        assert(bytes.take(k) + bytes.skip(k) == bytes);
    }
}

/// Only a `POST /esp_counter` with a value in its body sets the counter, and
/// within its range; it alone is answered that all is well. Any other request
/// is refused, and the counter stays.
pub proof fn law_refused_or_set(route: Route, json: Option<EspCounterBody>)
    ensures
        ({
            let answer = answer_to(route, json);
            let given = match json {
                Some(body) => body_value(body),
                None => None,
            };
            &&& answer is Accepted <==> route is SetCounter && given is Some
            &&& answer matches Answer::Accepted(v) ==> v == counter::clamped(given->0 as int) && 0
                <= v <= 100
            &&& answer is NotFound <==> route is NotFound
            &&& answer is BadRequest <==> route is Malformed
            &&& answer is Accepted <==> answer.status() == "200 OK"@
        }),
{
    reveal_strlit("200 OK");
    reveal_strlit("400 Bad Request");
    reveal_strlit("404 Not Found");
    assert("200 OK"@[0] == '2');
    assert("400 Bad Request"@[0] == '4');
    assert("404 Not Found"@[0] == '4');
}

/// The headers of a plain request to set the counter, with a body of `n` bytes.
pub open spec fn counter_headers(n: nat) -> Seq<char> {
    "POST /esp_counter HTTP/1.1"@ + "\r\n"@ + "Content-Length: "@ + text::decimal(n)
}

/// A plain request to set the counter.
pub open spec fn counter_request(body: Seq<u8>) -> Seq<u8> {
    encode_utf8(counter_headers(body.len()) + "\r\n\r\n"@) + body
}

proof fn lemma_counter_headers(n: nat)
    ensures
        ({
            let h = counter_headers(n);
            let d = text::decimal(n);
            &&& h.len() == 44 + d.len()
            &&& is_ascii_chars(h)
            &&& forall|i: int| 0 <= i < h.len() ==> ((#[trigger] h[i]) == '\n' <==> i == 27)
            &&& h[26] == '\r'
            &&& h.take(26) == "POST /esp_counter HTTP/1.1"@
            &&& h.skip(28) == "Content-Length: "@ + d
        }),
{
    let h = counter_headers(n);
    let d = text::decimal(n);
    reveal_strlit("POST /esp_counter HTTP/1.1");
    reveal_strlit("\r\n");
    reveal_strlit("Content-Length: ");
    text::lemma_decimal(n);
    assert forall|i: int| 44 <= i < h.len() implies text::is_digit(#[trigger] h[i]) by {
        assert(h[i] == d[i - 44]);
        assert(text::is_digit(d[i - 44]));
    }
    assert(h.take(26) == "POST /esp_counter HTTP/1.1"@);
    assert(h.skip(28) == "Content-Length: "@ + d);
}

/// The two lines of the headers.
proof fn lemma_counter_lines(n: nat)
    ensures
        text::lines(counter_headers(n)) == seq![
            "POST /esp_counter HTTP/1.1"@,
            "Content-Length: "@ + text::decimal(n),
        ],
{
    let h = counter_headers(n);
    let first = "POST /esp_counter HTTP/1.1"@;
    let second = "Content-Length: "@ + text::decimal(n);
    lemma_counter_headers(n);
    text::lemma_first_index(h, '\n', 27);
    assert(h.take(27).drop_last() == h.take(26));
    assert(text::without_cr(h.take(27)) == first);
    second.index_of_first_ensures('\n');
    assert forall|i: int| 0 <= i < second.len() implies second[i] != '\n' by {
        assert(second[i] == h[i + 28]);
    }
    assert(text::lines(second) == seq![second]);
}

/// The words of the request line.
proof fn lemma_counter_words()
    ensures
        sets_counter(text::words("POST /esp_counter HTTP/1.1"@)),
{
    let line = "POST /esp_counter HTTP/1.1"@;
    reveal_strlit("POST /esp_counter HTTP/1.1");
    reveal_strlit("POST");
    reveal_strlit("/esp_counter");
    text::lemma_first_word(line, 4);
    assert(line.take(4) == "POST"@);
    let rest = line.skip(4);
    assert(text::words(line) == seq!["POST"@] + text::words(rest));
    let tail = rest.drop_first();
    assert(text::is_white_space(rest[0]));
    assert(text::words(rest) == text::words(tail));
    assert forall|j: int| 0 <= j < 12 implies !text::is_white_space(#[trigger] tail[j]) by {
        assert(tail[j] == line[j + 5]);
    }
    text::lemma_first_word(tail, 12);
    assert(tail.take(12) == "/esp_counter"@);
}

/// The length that the second header gives.
proof fn lemma_counter_length(n: nat)
    requires
        n <= usize::MAX,
    ensures
        first_length(text::lines(counter_headers(n))) == n,
{
    let d = text::decimal(n);
    let first = "POST /esp_counter HTTP/1.1"@;
    let second = "Content-Length: "@ + d;
    let all = text::lines(counter_headers(n));
    lemma_counter_lines(n);
    text::lemma_decimal(n);
    reveal_strlit("POST /esp_counter HTTP/1.1");
    reveal_strlit("Content-Length: ");
    reveal_strlit("Content-Length:");
    reveal_strlit("content-length:");
    assert(first.subrange(0, 15)[0] != "Content-Length:"@[0]);
    assert(first.subrange(0, 15)[0] != "content-length:"@[0]);
    assert(line_length(first) is None);
    assert(second.subrange(0, 15) == "Content-Length:"@);
    let rest = second.skip(15);
    assert(rest[0] == ' ');
    assert(rest.drop_first() == d);
    assert(text::is_digit(d[0]) && text::is_digit(d.last()));
    assert(text::trim_start(rest) == text::trim_start(d));
    assert(text::trimmed(rest) == d);
    assert(line_length(second) == Some(n));
    assert(all.drop_first() == seq![second]);
    assert(first_length(seq![second]) == n);
}

/// A plain request to set the counter is as long as it says, is taken for what
/// it is, and its body is the one that was sent.
pub proof fn law_counter_request(body: Seq<u8>)
    requires
        body.len() <= usize::MAX,
    ensures
        ({
            let bytes = counter_request(body);
            &&& request_length(bytes) == Some(bytes.len())
            &&& is_complete(bytes)
            &&& request_line(bytes) matches Some(line) && sets_counter(line)
            &&& request_body(bytes, header_end(bytes)->0) == body
        }),
{
    let h = counter_headers(body.len());
    let head = h + "\r\n\r\n"@;
    let bytes = counter_request(body);
    let end = h.len() as int;
    lemma_counter_headers(body.len());
    reveal_strlit("\r\n\r\n");
    assert(is_ascii_chars(head));
    is_ascii_chars_encode_utf8(head);
    is_ascii_chars_encode_utf8(h);
    assert forall|i: int| 0 <= i < head.len() implies bytes[i] == #[trigger] head[i] as u8 by {
        assert(bytes[i] == encode_utf8(head)[i]);
    }
    assert(bytes.take(end) == encode_utf8(h)) by {
        assert forall|i: int| 0 <= i < end implies bytes[i] == encode_utf8(h)[i] by {
            assert(head[i] == h[i]);
        }
    }
    encode_utf8_valid_utf8(h);
    encode_utf8_decode_utf8(h);
    assert(text::utf8_text(bytes.take(end)) == Some(h));
    assert(bytes.subrange(end, end + 4) == blank_line()) by {
        assert(head[end] == '\r' && head[end + 1] == '\n' && head[end + 2] == '\r' && head[end + 3]
            == '\n');
    }
    assert forall|j: int| 0 <= j < end implies #[trigger] bytes.subrange(j, j + 4)
        != blank_line() by {
        let w = bytes.subrange(j, j + 4);
        if w == blank_line() {
            assert(w[1] == 10 && w[3] == 10);
            assert(head[j + 1] == '\n' && head[j + 3] == '\n') by {
                assert(bytes[j + 1] == head[j + 1] as u8);
                assert(bytes[j + 3] == head[j + 3] as u8);
            }
            assert(j + 1 < end ==> head[j + 1] == h[j + 1]);
            assert(j + 3 < end ==> head[j + 3] == h[j + 3]);
        }
    }
    lemma_first_match(bytes, blank_line(), 0);
    assert(header_end(bytes) == Some(end));
    lemma_counter_lines(body.len());
    lemma_counter_words();
    lemma_counter_length(body.len());
    assert(request_body(bytes, end) == body);
}

/// The body length is that of the first line that gives one, wherever it
/// stands and whatever the lines before it are.
pub proof fn law_first_length(lines: Seq<Seq<char>>, i: int)
    requires
        0 <= i < lines.len(),
        line_length(lines[i]) is Some,
        forall|j: int| 0 <= j < i ==> line_length(#[trigger] lines[j]) is None,
    ensures
        first_length(lines) == line_length(lines[i])->0,
    decreases i,
{
    if i > 0 {
        assert(line_length(lines[0]) is None);
        let rest = lines.drop_first();
        assert(rest[i - 1] == lines[i]);
        assert forall|j: int| 0 <= j < i - 1 implies line_length(#[trigger] rest[j]) is None by {
            assert(rest[j] == lines[j + 1]);
        }
        law_first_length(rest, i - 1);
    }
}

/// Where no line gives a body length, there is no body.
pub proof fn law_no_length(lines: Seq<Seq<char>>)
    requires
        forall|j: int| 0 <= j < lines.len() ==> line_length(#[trigger] lines[j]) is None,
    ensures
        first_length(lines) == 0,
    decreases lines.len(),
{
    if lines.len() > 0 {
        assert(line_length(lines[0]) is None);
        let rest = lines.drop_first();
        assert forall|j: int| 0 <= j < rest.len() implies line_length(#[trigger] rest[j]) is None by {
            assert(rest[j] == lines[j + 1]);
        }
        law_no_length(rest);
    }
}

/// A line gives a body length where the field's name, in either writing, starts
/// it and a number follows, with white space round it or not; no other line
/// does.
pub proof fn law_length_field(line: Seq<char>, rest: Seq<char>)
    ensures
        line == "Content-Length:"@ + rest || line == "content-length:"@ + rest ==> line_length(line)
            == text::parse_unsigned(text::trimmed(rest), usize::MAX as nat),
        (forall|r: Seq<char>|
            #![trigger "Content-Length:"@ + r]
            line != "Content-Length:"@ + r) && (forall|r: Seq<char>|
            #![trigger "content-length:"@ + r]
            line != "content-length:"@ + r) ==> line_length(line) is None,
{
    reveal_strlit("Content-Length:");
    reveal_strlit("content-length:");
    let upper = "Content-Length:"@;
    let lower = "content-length:"@;
    assert(upper[0] != lower[0]);
    text::law_strip_prefix(line, upper, rest);
    text::law_strip_prefix(line, lower, rest);
    if let Some(r) = text::strip_prefix(line, upper) {
        text::law_strip_prefix(line, upper, r);
        assert(line[0] == upper[0]);
        if line == lower + rest {
            assert(line[0] == lower[0]);
        }
    }
    if let Some(r) = text::strip_prefix(line, lower) {
        text::law_strip_prefix(line, lower, r);
        assert(line[0] == lower[0]);
        if line == upper + rest {
            assert(line[0] == upper[0]);
        }
    }
}

/// However a request is headed: its first line tells what it asks for, the body
/// length that its lines give is that of its body, and the body is so many of
/// the bytes behind the empty line, or all of them where they are fewer.
pub proof fn law_any_request(headers: Seq<char>, more: Seq<u8>)
    requires
        header_end(encode_utf8(headers) + blank_line() + more) == Some(
            encode_utf8(headers).len() as int,
        ),
    ensures
        ({
            let bytes = encode_utf8(headers) + blank_line() + more;
            let end = encode_utf8(headers).len() as int;
            let n = first_length(text::lines(headers));
            &&& request_length(bytes) == Some((end + 4 + n) as nat)
            &&& is_complete(bytes) <==> more.len() >= n
            &&& length_fits(bytes) <==> end + 4 + n <= usize::MAX
            &&& request_line(bytes) == (if text::lines(headers).len() > 0 {
                Some(text::words(text::lines(headers)[0]))
            } else {
                None
            })
            &&& more.len() >= n ==> request_body(bytes, end) == more.take(n as int)
            &&& more.len() < n ==> request_body(bytes, end) == more
        }),
{
    let head = encode_utf8(headers);
    let end = head.len() as int;
    let n = first_length(text::lines(headers));
    let bytes = head + blank_line() + more;
    assert(bytes.take(end) == head);
    encode_utf8_valid_utf8(headers);
    encode_utf8_decode_utf8(headers);
    assert(request_length(bytes) == Some((end + 4 + n) as nat));
    assert(request_body(bytes, end) == if more.len() >= n {
        more.take(n as int)
    } else {
        more
    });
}

/// Headers that are no text have no request line and give no body length, and
/// without an empty line there are no headers yet, however much has come.
pub proof fn law_unreadable_headers(bytes: Seq<u8>)
    ensures
        header_end(bytes) matches Some(end) ==> (!valid_utf8(bytes.take(end)) ==> request_line(
            bytes,
        ) is None && request_length(bytes) == Some((end + 4) as nat)),
        header_end(bytes) is None ==> request_line(bytes) is None && request_length(bytes) is None
            && !is_complete(bytes) && length_fits(bytes),
        blank_line() == seq![13u8, 10u8, 13u8, 10u8],
{
}

/// A request sets the counter where its method is `POST` and its path
/// `/esp_counter`, whatever else its first line holds, and no other does.
pub proof fn law_which_requests_set(line: Seq<Seq<char>>)
    ensures
        sets_counter(line) <==> line.len() >= 2 && line[0] == "POST"@ && line[1]
            == "/esp_counter"@,
{
}

/// The value of the body is `counter`, or where that is missing `count`; it is
/// taken brought into the counter's range. A body without either, one that is
/// no such JSON, another path and an unreadable request are refused, each in
/// its own way.
pub proof fn law_answers(body: Vec<u8>, v: i32, other: Option<i32>)
    ensures
        ({
            let route = Route::SetCounter(body);
            let value: i32 = if v < 0 {
                0
            } else if v > 100 {
                100
            } else {
                v
            };
            &&& answer_to(route, Some(EspCounterBody { counter: Some(v), count: other }))
                == Answer::Accepted(value)
            &&& answer_to(route, Some(EspCounterBody { counter: None, count: Some(v) }))
                == Answer::Accepted(value)
            &&& answer_to(route, Some(EspCounterBody { counter: None, count: None }))
                == Answer::MissingCounter
            &&& answer_to(route, None) == Answer::InvalidJson
        }),
        forall|json: Option<EspCounterBody>|
            #[trigger] answer_to(Route::NotFound, json) == Answer::NotFound,
        forall|json: Option<EspCounterBody>|
            #[trigger] answer_to(Route::Malformed, json) == Answer::BadRequest,
{
    counter::law_clamped(v as int);
}

/// Every answer is sent with its status, as JSON, with the length of its body,
/// and as the last on its connection. The value that was taken does not show in
/// it.
pub proof fn law_responses(v: i32)
    ensures
        ({
            let plain = |status: Seq<char>, body: Seq<char>|
                "HTTP/1.1 "@ + status + "\r\nContent-Type: application/json\r\nContent-Length: "@
                    + text::decimal(encode_utf8(body).len()) + "\r\nConnection: close\r\n\r\n"@
                    + body;
            &&& Answer::Accepted(v).response_text() == plain("200 OK"@, "{\"status\":\"ok\"}"@)
            &&& Answer::MissingCounter.response_text() == plain(
                "400 Bad Request"@,
                "{\"error\":\"missing_counter\"}"@,
            )
            &&& Answer::InvalidJson.response_text() == plain(
                "400 Bad Request"@,
                "{\"error\":\"invalid_json\"}"@,
            )
            &&& Answer::BadRequest.response_text() == plain(
                "400 Bad Request"@,
                "{\"error\":\"bad_request\"}"@,
            )
            &&& Answer::NotFound.response_text() == plain(
                "404 Not Found"@,
                "{\"error\":\"not_found\"}"@,
            )
        }),
        Answer::Accepted(v).status() == "200 OK"@,
        Answer::Accepted(v).body() == "{\"status\":\"ok\"}"@,
{
}

/// A needle is found where it first occurs, and only there; an empty one is
/// never found.
pub proof fn law_found_first(haystack: Seq<u8>, needle: Seq<u8>)
    ensures
        needle.len() == 0 ==> first_match(haystack, needle, 0) is None,
        needle.len() > 0 ==> match first_match(haystack, needle, 0) {
            Some(i) => {
                &&& 0 <= i && i + needle.len() <= haystack.len()
                &&& haystack.subrange(i, i + needle.len()) == needle
                &&& forall|j: int|
                    0 <= j < i ==> #[trigger] haystack.subrange(j, j + needle.len()) != needle
            },
            None => forall|j: int|
                0 <= j && j + needle.len() <= haystack.len() ==> #[trigger] haystack.subrange(
                    j,
                    j + needle.len(),
                ) != needle,
        },
{
    if needle.len() > 0 {
        lemma_first_match(haystack, needle, 0);
    }
}

/// The headers end at the first empty line, and a request is complete when so
/// many bytes have come as its headers and the length that they give call for.
pub proof fn law_complete(bytes: Seq<u8>)
    ensures
        header_end(bytes) == first_match(bytes, seq![13u8, 10u8, 13u8, 10u8], 0),
        header_end(bytes) matches Some(end) ==> {
            let n: nat = match text::utf8_text(bytes.take(end)) {
                Some(headers) => first_length(text::lines(headers)),
                None => 0,
            };
            &&& is_complete(bytes) <==> bytes.len() >= end + 4 + n
            &&& length_fits(bytes) <==> end + 4 + n <= usize::MAX
        },
{
    if header_end(bytes) is Some {
        lemma_first_match(bytes, blank_line(), 0);
    }
}

} // verus!
