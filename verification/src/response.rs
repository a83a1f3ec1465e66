//! The response: reassembling a structured status, header map, and
//! body from the raw bytes a transport collected.

use vstd::prelude::*;

use crate::constants::ResponseCode;
use crate::constants::TransferEncoding;
use crate::headers::spec_find;
use crate::headers::spec_insert;
use crate::headers::spec_insert_all;
use crate::headers::HeaderMap;
use crate::text::lower_matches;
use crate::text::spec_contains_lower;
use crate::text::spec_parse_u32;
use crate::text::spec_second_field;
use crate::transports::copy_bytes;
use crate::transports::spec_find_sub;
use crate::transports::spec_terminal_bytes;
use crate::transports::sub_bytes;
use vstd::utf8::decode_utf8;
use vstd::utf8::valid_utf8;

verus! {

/// One trailing carriage return is dropped from a line that ends in
/// one: line terminators on the wire are CRLF.
pub open spec fn spec_strip_cr(line: Seq<char>) -> Seq<char> {
    if line.len() > 0 && line.last() == '\r' {
        line.drop_last()
    } else {
        line
    }
}

/// The first newline at or after `i`.
pub open spec fn spec_find_nl(s: Seq<char>, i: int) -> Option<int>
    recommends
        0 <= i <= s.len(),
    decreases s.len() - i,
{
    if i < 0 || i >= s.len() {
        None
    } else if s[i] == '\n' {
        Some(i)
    } else {
        spec_find_nl(s, i + 1)
    }
}

/// A found newline lies within the text.
proof fn lemma_find_nl_bounds(s: Seq<char>, i: int)
    requires
        0 <= i,
    ensures
        spec_find_nl(s, i) matches Some(j) ==> i <= j < s.len() && s[j] == '\n',
    decreases s.len() - i,
{
    if i < s.len() && s[i] != '\n' {
        lemma_find_nl_bounds(s, i + 1);
    }
}

/// The text split into lines: a line ends at a newline (dropping one
/// carriage return before it), and a last line without a newline is
/// kept as it stands.
pub open spec fn spec_lines(s: Seq<char>) -> Seq<Seq<char>>
    decreases s.len(),
    via spec_lines_decreases
{
    if s.len() == 0 {
        Seq::<Seq<char>>::empty()
    } else {
        match spec_find_nl(s, 0) {
            Some(i) => seq![spec_strip_cr(s.subrange(0, i))] + spec_lines(
                s.subrange(i + 1, s.len() as int),
            ),
            None => seq![s],
        }
    }
}

#[via_fn]
proof fn spec_lines_decreases(s: Seq<char>) {
    if s.len() != 0 {
        lemma_find_nl_bounds(s, 0);
    }
}

/// The first `": "` separator at or after `i`.
pub open spec fn spec_find_sep(line: Seq<char>, i: int) -> Option<int>
    recommends
        0 <= i,
    decreases line.len() - i,
{
    if i < 0 || i + 2 > line.len() {
        None
    } else if line[i] == ':' && line[i + 1] == ' ' {
        Some(i)
    } else {
        spec_find_sep(line, i + 1)
    }
}

/// What a header line contributes: the name before the first `": "`
/// and the value after it.  A line without the separator contributes
/// nothing.
pub open spec fn spec_header_entry(line: Seq<char>) -> Option<(Seq<char>, Seq<char>)> {
    match spec_find_sep(line, 0) {
        Some(j) => Some((line.subrange(0, j), line.subrange(j + 2, line.len() as int))),
        None => None,
    }
}

/// The entries of all well-formed header lines, in order; malformed
/// lines are skipped.
pub open spec fn spec_entries(lines: Seq<Seq<char>>) -> Seq<(Seq<char>, Seq<char>)>
    decreases lines.len(),
{
    if lines.len() == 0 {
        Seq::<(Seq<char>, Seq<char>)>::empty()
    } else {
        match spec_header_entry(lines.first()) {
            Some(e) => seq![e] + spec_entries(lines.drop_first()),
            None => spec_entries(lines.drop_first()),
        }
    }
}

/// A line that declares chunked transfer encoding: its name reads
/// `transfer-encoding` in any case, and its value contains `chunked`.
pub open spec fn spec_te_line(line: Seq<char>) -> bool {
    match spec_header_entry(line) {
        Some(e) => lower_matches(e.0, "transfer-encoding"@) && spec_contains_lower(
            e.1,
            "chunked"@,
        ),
        None => false,
    }
}

/// The transfer encoding the header lines declare.
pub open spec fn spec_te(lines: Seq<Seq<char>>) -> TransferEncoding {
    if exists|k: int| 0 <= k < lines.len() && #[trigger] spec_te_line(lines[k]) {
        TransferEncoding::Chunked
    } else {
        TransferEncoding::Normal
    }
}

/// The numeric status: the second whitespace-delimited field of the
/// status line, read as a decimal number.
pub open spec fn spec_status_val(line: Seq<char>) -> Option<u32> {
    match spec_second_field(line) {
        None => None,
        Some((a, b)) => spec_parse_u32(line.subrange(a, b)),
    }
}

/// How a decoded header text parses: the text must open with
/// `HTTP/1.1`; the status comes from the first line; every further
/// line may contribute a header entry; chunked transfer is declared
/// by a `transfer-encoding` entry.
pub open spec fn spec_parse_headers(s: Seq<char>) -> Result<
    (ResponseCode, Seq<(Seq<char>, Seq<char>)>, TransferEncoding),
    Seq<char>,
> {
    if !(s.len() >= 8 && s.subrange(0, 8) == "HTTP/1.1"@) {
        Err("Invalid http response!"@)
    } else {
        let lines = spec_lines(s);
        match spec_status_val(lines[0]) {
            None => Err("Unable to parse response code"@),
            Some(c) => Ok(
                (
                    ResponseCode::spec_from_int(c),
                    spec_entries(lines.drop_first()),
                    spec_te(lines.drop_first()),
                ),
            ),
        }
    }
}

/// Why a chunked body failed to decode.
pub enum ChunkError {
    /// No CRLF delimiter within the size search window.
    NoDelimiter,
    /// The size token is not a hexadecimal number.
    BadSize,
    /// The buffer ends before the declared chunk does.
    Truncated,
}

/// A hexadecimal digit, in either letter case.
pub open spec fn is_hex_digit(b: u8) -> bool {
    (48 <= b <= 57) || (97 <= b <= 102) || (65 <= b <= 70)
}

/// The value of a hexadecimal digit.
pub open spec fn hex_digit_val(b: u8) -> nat
    recommends
        is_hex_digit(b),
{
    if 48 <= b <= 57 {
        (b - 48) as nat
    } else if 97 <= b <= 102 {
        (b - 87) as nat
    } else {
        (b - 55) as nat
    }
}

/// True when `s` is nothing but hexadecimal digits.
pub open spec fn all_hex_digits(s: Seq<u8>) -> bool {
    forall|i: int| 0 <= i < s.len() ==> is_hex_digit(s[i])
}

/// The number that a hexadecimal token denotes.
pub open spec fn hex_val(s: Seq<u8>) -> nat
    decreases s.len(),
{
    if s.len() == 0 {
        0
    } else {
        hex_val(s.drop_last()) * 16 + hex_digit_val(s.last())
    }
}

/// The number denoted by a prefix never exceeds the number denoted by
/// the whole token.
proof fn lemma_hex_val_prefix(s: Seq<u8>, n: int)
    requires
        0 <= n <= s.len(),
    ensures
        hex_val(s.subrange(0, n)) <= hex_val(s),
    decreases s.len() - n,
{
    if n < s.len() {
        lemma_hex_val_prefix(s, n + 1);
        let t = s.subrange(0, n + 1);
        assert(t.drop_last() =~= s.subrange(0, n));
        assert(hex_val(s.subrange(0, n)) <= hex_val(t));
    } else {
        assert(s.subrange(0, n) =~= s);
    }
}

/// How a chunk size token is read: an optional leading `+`, then
/// hexadecimal digits.
pub open spec fn spec_parse_hex(s: Seq<u8>) -> Option<usize> {
    let t = if s.len() > 0 && s[0] == 43 {
        s.subrange(1, s.len() as int)
    } else {
        s
    };
    if t.len() > 0 && all_hex_digits(t) && hex_val(t) <= usize::MAX {
        Some(hex_val(t) as usize)
    } else {
        None
    }
}

/// What decoding a chunked body yields: the payload bytes recovered
/// before the terminal marker or the first fault, and the fault when
/// one arises.  Each step reads a hexadecimal size from a window of at
/// most eight bytes, takes that many payload bytes, and skips the
/// trailing CRLF.
pub open spec fn spec_decode_chunked(data: Seq<u8>) -> (Seq<u8>, Option<ChunkError>)
    decreases data.len(),
{
    if data == spec_terminal_bytes() {
        (Seq::<u8>::empty(), None)
    } else {
        let w = if data.len() < 8 {
            data.len() as int
        } else {
            8
        };
        match spec_find_sub(data.subrange(0, w), seq![13u8, 10u8]) {
            None => (Seq::<u8>::empty(), Some(ChunkError::NoDelimiter)),
            Some(off) => match spec_parse_hex(data.subrange(0, off - 2)) {
                None => (Seq::<u8>::empty(), Some(ChunkError::BadSize)),
                Some(n) => if !(2 <= off && off + n + 2 <= data.len()) {
                    (Seq::<u8>::empty(), Some(ChunkError::Truncated))
                } else {
                    let rest = spec_decode_chunked(data.subrange(off + n + 2, data.len() as int));
                    (data.subrange(off, off + n) + rest.0, rest.1)
                },
            },
        }
    }
}

/// The position of the last byte of the first `\r\n\r\n`, scanning
/// from `i`.
pub open spec fn spec_body_start_from(data: Seq<u8>, i: int) -> Option<int>
    recommends
        3 <= i,
    decreases data.len() - i,
{
    if i < 3 || i >= data.len() {
        None
    } else if data[i - 3] == 13 && data[i - 2] == 10 && data[i - 1] == 13 && data[i] == 10 {
        Some(i)
    } else {
        spec_body_start_from(data, i + 1)
    }
}

/// Where the body of a received message starts: the index of the final
/// newline of the first `\r\n\r\n`, when there is one.
pub open spec fn spec_body_start(data: Seq<u8>) -> Option<int> {
    spec_body_start_from(data, 3)
}

/// The marker `\r\n\r\n` ends at position `i`.
pub open spec fn spec_marker_ends_at(data: Seq<u8>, i: int) -> bool {
    3 <= i < data.len() && data[i - 3] == 13 && data[i - 2] == 10 && data[i - 1] == 13 && data[i]
        == 10
}

/// What `spec_body_start` reports is the end of the first header
/// boundary: a hit marks the earliest `\r\n\r\n`, and a miss means the
/// buffer holds none.
pub proof fn lemma_body_start_first(data: Seq<u8>, i: int)
    requires
        3 <= i,
    ensures
        spec_body_start_from(data, i) matches Some(j) ==> spec_marker_ends_at(data, j) && forall|
            k: int,
        | i <= k < j ==> !spec_marker_ends_at(data, k),
        spec_body_start_from(data, i) is None ==> forall|k: int|
            i <= k < data.len() ==> !spec_marker_ends_at(data, k),
    decreases data.len() - i,
{
    if i < data.len() && !(data[i - 3] == 13 && data[i - 2] == 10 && data[i - 1] == 13 && data[i]
        == 10) {
        lemma_body_start_first(data, i + 1);
    }
}

/// What one more line adds to the collected entries.
pub proof fn lemma_entries_push(ls: Seq<Seq<char>>, x: Seq<char>)
    ensures
        spec_entries(ls.push(x)) == spec_entries(ls) + (match spec_header_entry(x) {
            Some(e) => seq![e],
            None => Seq::<(Seq<char>, Seq<char>)>::empty(),
        }),
    decreases ls.len(),
{
    let tail = (match spec_header_entry(x) {
        Some(e) => seq![e],
        None => Seq::<(Seq<char>, Seq<char>)>::empty(),
    });
    if ls.len() == 0 {
        assert(ls.push(x).first() == x);
        assert(ls.push(x).drop_first() =~~= Seq::<Seq<char>>::empty());
        assert(spec_entries(ls.push(x).drop_first()) =~= Seq::<(Seq<char>, Seq<char>)>::empty());
        assert(spec_entries(ls) =~= Seq::<(Seq<char>, Seq<char>)>::empty());
        assert(spec_entries(ls.push(x)) =~= tail);
        assert(spec_entries(ls) + tail =~= tail);
    } else {
        assert(ls.push(x).first() == ls.first());
        assert(ls.push(x).drop_first() =~~= ls.drop_first().push(x));
        lemma_entries_push(ls.drop_first(), x);
        match spec_header_entry(ls.first()) {
            Some(e) => {
                assert(spec_entries(ls.push(x)) =~= seq![e] + (spec_entries(ls.drop_first())
                    + tail));
                assert(spec_entries(ls) + tail =~= seq![e] + (spec_entries(ls.drop_first())
                    + tail));
            },
            None => {
                assert(spec_entries(ls.push(x)) == spec_entries(ls.drop_first()) + tail);
                assert(spec_entries(ls) + tail == spec_entries(ls.drop_first()) + tail);
            },
        }
    }
}

/// Folding one more pair into a map is one more insertion.
pub proof fn lemma_insert_all_push(
    e: Seq<(Seq<char>, Seq<char>)>,
    ps: Seq<(Seq<char>, Seq<char>)>,
    p: (Seq<char>, Seq<char>),
)
    ensures
        spec_insert_all(e, ps.push(p)) == spec_insert(spec_insert_all(e, ps), p.0, p.1),
    decreases ps.len(),
{
    if ps.len() == 0 {
        assert(ps.push(p).first() == p);
        assert(ps.push(p).drop_first() =~~= Seq::<(Seq<char>, Seq<char>)>::empty());
        assert(spec_insert_all(e, ps.push(p)) == spec_insert_all(spec_insert(e, p.0, p.1), Seq::<
            (Seq<char>, Seq<char>),
        >::empty()));
    } else {
        assert(ps.push(p).first() == ps.first());
        assert(ps.push(p).drop_first() =~~= ps.drop_first().push(p));
        lemma_insert_all_push(spec_insert(e, ps.first().0, ps.first().1), ps.drop_first(), p);
    }
}

/// A found separator leaves room for the two separator characters.
proof fn lemma_find_sep_bounds(line: Seq<char>, i: int)
    requires
        0 <= i,
    ensures
        spec_find_sep(line, i) matches Some(j) ==> i <= j && j + 2 <= line.len(),
    decreases line.len() - i,
{
    if i + 2 <= line.len() && !(line[i] == ':' && line[i + 1] == ' ') {
        lemma_find_sep_bounds(line, i + 1);
    }
}

/// Whether the text opens with the `HTTP/1.1` protocol tag.
fn starts_with_http11(chars: &Vec<char>) -> (r: bool)
    ensures
        r == (chars@.len() >= 8 && chars@.subrange(0, 8) == "HTTP/1.1"@),
{
    proof {
        reveal_strlit("HTTP/1.1");
    }
    if chars.len() < 8 {
        return false;
    }
    let ok = chars[0] == 'H' && chars[1] == 'T' && chars[2] == 'T' && chars[3] == 'P' && chars[4]
        == '/' && chars[5] == '1' && chars[6] == '.' && chars[7] == '1';
    proof {
        assert(forall|k: int| 0 <= k < 8 ==> chars@.subrange(0, 8)[k] == chars@[k]);
        if ok {
            assert(chars@.subrange(0, 8) =~= "HTTP/1.1"@);
        }
    }
    ok
}

/// Splits the text into its lines, as `spec_lines` describes them.
#[verifier::loop_isolation(false)]
fn split_lines(chars: &Vec<char>) -> (r: Vec<Vec<char>>)
    ensures
        r@.len() == spec_lines(chars@).len(),
        forall|i: int| 0 <= i < r@.len() ==> r@[i]@ == spec_lines(chars@)[i],
{
    let n = chars.len();
    let mut r: Vec<Vec<char>> = Vec::new();
    let ghost mut done: Seq<Seq<char>> = Seq::empty();
    let mut start: usize = 0;
    proof {
        assert(chars@.subrange(0, n as int) =~= chars@);
        assert(done + spec_lines(chars@) =~~= spec_lines(chars@));
    }
    while start < n
        invariant
            0 <= start <= n,
            done.len() == r@.len(),
            forall|i: int| 0 <= i < done.len() ==> r@[i]@ == done[i],
            done + spec_lines(chars@.subrange(start as int, n as int)) == spec_lines(chars@),
        decreases n - start,
    {
        let ghost suffix = chars@.subrange(start as int, n as int);
        let mut j: usize = start;
        while j < n && chars[j] != '\n'
            invariant
                start <= j <= n,
                spec_find_nl(suffix, 0) == spec_find_nl(suffix, (j - start) as int),
            decreases n - j,
        {
            proof {
                assert(suffix[(j - start) as int] == chars@[j as int]);
            }
            j = j + 1;
        }
        if j == n {
            proof {
                assert(spec_lines(suffix) =~~= seq![suffix]);
            }
            let line = crate::text::sub_chars(chars, start, n);
            r.push(line);
            proof {
                done = done.push(suffix);
                assert(chars@.subrange(n as int, n as int) =~= Seq::<char>::empty());
                assert(done + spec_lines(chars@.subrange(n as int, n as int)) =~~= spec_lines(
                    chars@,
                ));
            }
            start = n;
        } else {
            proof {
                assert(suffix[(j - start) as int] == chars@[j as int]);
            }
            let line_end = if j > start && chars[j - 1] == '\r' {
                j - 1
            } else {
                j
            };
            let line = crate::text::sub_chars(chars, start, line_end);
            proof {
                let jr = (j - start) as int;
                let raw = suffix.subrange(0, jr);
                assert(raw =~= chars@.subrange(start as int, j as int));
                if j > start && chars@[j as int - 1] == '\r' {
                    assert(raw.last() == chars@[j as int - 1]);
                    assert(spec_strip_cr(raw) =~= chars@.subrange(start as int, j as int - 1));
                } else {
                    if raw.len() > 0 {
                        assert(raw.last() == chars@[j as int - 1]);
                    }
                    assert(spec_strip_cr(raw) =~= chars@.subrange(start as int, j as int));
                }
                assert(line@ == spec_strip_cr(raw));
                assert(spec_find_nl(suffix, 0) == Some(jr));
                assert(suffix.subrange(jr + 1, suffix.len() as int) =~= chars@.subrange(
                    (j + 1) as int,
                    n as int,
                ));
                assert(spec_lines(suffix) == seq![spec_strip_cr(raw)] + spec_lines(
                    chars@.subrange((j + 1) as int, n as int),
                ));
            }
            r.push(line);
            proof {
                done = done.push(line@);
                assert(done + spec_lines(chars@.subrange((j + 1) as int, n as int)) =~~= spec_lines(
                    chars@,
                ));
            }
            start = j + 1;
        }
    }
    proof {
        assert(chars@.subrange(n as int, n as int) =~= Seq::<char>::empty());
        assert(done =~~= spec_lines(chars@));
    }
    r
}

/// Finds the first `": "` separator of a header line.
#[verifier::loop_isolation(false)]
fn find_sep(line: &Vec<char>) -> (r: Option<usize>)
    ensures
        match spec_find_sep(line@, 0) {
            None => r is None,
            Some(j) => r matches Some(u) && u == j,
        },
{
    if line.len() < 2 {
        return None;
    }
    let m = line.len() - 2;
    let mut i: usize = 0;
    while i <= m
        invariant
            0 <= i <= m + 1,
            m + 2 == line.len(),
            spec_find_sep(line@, 0) == spec_find_sep(line@, i as int),
        decreases m + 1 - i,
    {
        if line[i] == ':' && line[i + 1] == ' ' {
            return Some(i);
        }
        i = i + 1;
    }
    None
}

/// Reads a chunk size from the bytes of `s[from..to]`, as
/// `spec_parse_hex` describes.
#[verifier::loop_isolation(false)]
fn parse_hex(s: &Vec<u8>, from: usize, to: usize) -> (r: Option<usize>)
    requires
        from <= to <= s.len(),
    ensures
        r == spec_parse_hex(s@.subrange(from as int, to as int)),
{
    let ghost whole = s@.subrange(from as int, to as int);
    let mut i: usize = from;
    if i < to && s[i] == 43 {
        i = i + 1;
    }
    let ghost tok = s@.subrange(i as int, to as int);
    proof {
        if whole.len() > 0 && whole[0] == 43 {
            assert(whole.subrange(1, whole.len() as int) =~= tok);
        } else {
            assert(whole =~= tok);
        }
    }
    if i == to {
        return None;
    }
    let mut v: usize = 0;
    let mut j: usize = i;
    while j < to
        invariant
            i <= j <= to,
            all_hex_digits(s@.subrange(i as int, j as int)),
            v == hex_val(s@.subrange(i as int, j as int)),
            v <= usize::MAX,
        decreases to - j,
    {
        let b = s[j];
        let d: usize;
        if 48 <= b && b <= 57 {
            d = (b - 48) as usize;
        } else if 97 <= b && b <= 102 {
            d = (b - 87) as usize;
        } else if 65 <= b && b <= 70 {
            d = (b - 55) as usize;
        } else {
            proof {
                assert(tok[j - i] == s@[j as int]);
                assert(!is_hex_digit(tok[j - i]));
                assert(!all_hex_digits(tok));
            }
            return None;
        }
        proof {
            assert(s@.subrange(i as int, (j + 1) as int).drop_last() =~= s@.subrange(
                i as int,
                j as int,
            ));
            assert(s@.subrange(i as int, (j + 1) as int).last() == s@[j as int]);
        }
        if v > (usize::MAX - d) / 16 {
            proof {
                let p = s@.subrange(i as int, (j + 1) as int);
                assert(p.last() == s@[j as int]);
                assert(hex_digit_val(p.last()) == d);
                assert(hex_val(p) == v * 16 + d);
                assert(v * 16 + d > usize::MAX) by {
                    assert(v >= (usize::MAX - d) / 16 + 1);
                    assert(((usize::MAX - d) / 16 + 1) * 16 == ((usize::MAX - d) / 16) * 16 + 16);
                    assert(((usize::MAX - d) / 16) * 16 + 16 > usize::MAX - d);
                };
                lemma_hex_val_prefix(tok, j + 1 - i);
                assert(tok.subrange(0, j + 1 - i) =~= p);
                assert(hex_val(tok) > usize::MAX);
            }
            return None;
        }
        v = v * 16 + d;
        j = j + 1;
    }
    proof {
        assert(s@.subrange(i as int, to as int) =~= tok);
    }
    Some(v)
}

/// Whether the remaining bytes are exactly the terminal chunk marker.
fn is_terminal_chunk(v: &Vec<u8>) -> (r: bool)
    ensures
        r == (v@ == spec_terminal_bytes()),
{
    if v.len() != 5 {
        return false;
    }
    let r = v[0] == 48 && v[1] == 13 && v[2] == 10 && v[3] == 13 && v[4] == 10;
    proof {
        if r {
            assert(v@ =~= spec_terminal_bytes());
        }
    }
    r
}

/// A parsed response: status, headers, and the decoded body.
pub struct Response {
    response_code: ResponseCode,
    headers: HeaderMap,
    body: Vec<u8>,
}

impl Response {
    /// The status code.
    pub closed spec fn spec_code(self) -> ResponseCode {
        self.response_code
    }

    /// The header map, in insertion order.
    pub closed spec fn spec_headers(self) -> Seq<(Seq<char>, Seq<char>)> {
        self.headers@
    }

    /// The body bytes.
    pub closed spec fn spec_body(self) -> Seq<u8> {
        self.body@
    }

    /// Returns a default (empty) response, with the Undefined status
    /// sentinel
    pub fn new() -> (r: Response)
        ensures
            r.spec_code() == ResponseCode::Undefined,
            r.spec_headers() == Seq::<(Seq<char>, Seq<char>)>::empty(),
            r.spec_body() == Seq::<u8>::empty(),
    {
        Response {
            response_code: ResponseCode::Undefined,
            headers: HeaderMap::new(),
            body: Vec::new(),
        }
    }

    /// Sets the response code
    pub fn set_response_code(&mut self, response_code: ResponseCode)
        ensures
            final(self).spec_code() == response_code,
            final(self).spec_headers() == old(self).spec_headers(),
            final(self).spec_body() == old(self).spec_body(),
    {
        self.response_code = response_code;
    }

    /// Returns the response code
    pub fn response_code(&self) -> (r: ResponseCode)
        ensures
            r == self.spec_code(),
    {
        self.response_code
    }

    /// Adds a header to the response
    pub fn add_header(&mut self, name: String, value: String)
        ensures
            final(self).spec_headers() == spec_insert(old(self).spec_headers(), name@, value@),
            final(self).spec_code() == old(self).spec_code(),
            final(self).spec_body() == old(self).spec_body(),
    {
        self.headers.insert(name, value);
    }

    /// Returns a copy of the header map
    pub fn headers(&self) -> (r: HeaderMap)
        ensures
            r@ == self.spec_headers(),
    {
        self.headers.copied()
    }

    /// Returns an option of a specific header
    pub fn get_header(&mut self, name: String) -> (r: Option<String>)
        ensures
            *final(self) == *old(self),
            match spec_find(old(self).spec_headers(), name@) {
                None => r is None,
                Some(v) => r matches Some(s) && s@ == v,
            },
    {
        self.headers.get(&name)
    }

    /// Sets the body payload
    pub fn set_body(&mut self, data: &[u8])
        ensures
            final(self).spec_body() == data@,
            final(self).spec_code() == old(self).spec_code(),
            final(self).spec_headers() == old(self).spec_headers(),
    {
        self.body = vstd::slice::slice_to_vec(data);
    }

    /// Returns a copy of the body in the response
    pub fn body(&self) -> (r: Vec<u8>)
        ensures
            r@ == self.spec_body(),
    {
        copy_bytes(&self.body)
    }

    /// Reads the status line and the header lines out of the received
    /// header block, recording the status code and every well-formed
    /// header, and reporting the transfer encoding the headers declare.
    #[verifier::loop_isolation(false)]
    pub fn parse_headers(&mut self, data: &[u8]) -> (r: Result<TransferEncoding, String>)
        ensures
            !valid_utf8(data@) ==> r is Err && *final(self) == *old(self),
            valid_utf8(data@) ==> match spec_parse_headers(decode_utf8(data@)) {
                Err(m) => r matches Err(e) && e@ == m && *final(self) == *old(self),
                Ok((code, entries, te)) => r matches Ok(t) && t == te && final(self).spec_code()
                    == code && final(self).spec_headers() == spec_insert_all(
                    old(self).spec_headers(),
                    entries,
                ) && final(self).spec_body() == old(self).spec_body(),
            },
    {
        let v = vstd::slice::slice_to_vec(data);
        let text = match crate::text::string_from_utf8(v) {
            Ok(t) => t,
            Err(e) => {
                return Err(e.to_string());
            },
        };
        proof {
            vstd::utf8::encode_utf8_decode_utf8(text@);
        }
        let ghost s = decode_utf8(data@);
        let chars = crate::text::chars_of(text.as_str());
        if !starts_with_http11(&chars) {
            return Err("Invalid http response!".to_owned());
        }
        let lines = split_lines(&chars);
        let ghost lv = Seq::new(lines@.len(), |k: int| lines@[k]@);
        proof {
            assert(s.len() >= 8);
            assert(spec_lines(s).len() >= 1);
            assert(lv[0] == spec_lines(s)[0]);
        }
        let line0 = &lines[0];
        proof {
            assert(line0@.subrange(0, line0@.len() as int) =~= line0@);
        }
        let code_opt = match crate::text::second_field(line0, 0, line0.len()) {
            None => None,
            Some((a, b)) => crate::text::parse_u32_chars(line0, a, b),
        };
        proof {
            assert(code_opt == spec_status_val(spec_lines(s)[0]));
        }
        let code = match code_opt {
            None => {
                return Err("Unable to parse response code".to_owned());
            },
            Some(c) => c,
        };
        self.response_code = ResponseCode::from_int(code);
        let tename = crate::text::chars_of("transfer-encoding");
        let chunkname = crate::text::chars_of("chunked");
        let mut te_chunked = false;
        let ghost h0 = old(self).spec_headers();
        let mut i: usize = 1;
        while i < lines.len()
            invariant
                1 <= i <= lines.len(),
                lv == Seq::new(lines@.len(), |k: int| lines@[k]@),
                self.spec_headers() == spec_insert_all(h0, spec_entries(lv.subrange(1, i as int))),
                te_chunked == exists|k: int| 1 <= k < i && #[trigger] spec_te_line(lv[k]),
                self.spec_code() == ResponseCode::spec_from_int(code),
                self.spec_body() == old(self).spec_body(),
            decreases lines.len() - i,
        {
            let ghost sofar = lv.subrange(1, i as int);
            let line = &lines[i];
            proof {
                assert(line@ == lv[i as int]);
                assert(lv.subrange(1, (i + 1) as int) =~~= sofar.push(lv[i as int]));
                lemma_entries_push(sofar, lv[i as int]);
            }
            match find_sep(line) {
                None => {
                    proof {
                        assert(spec_header_entry(lv[i as int]) is None);
                        assert(spec_entries(sofar) + Seq::<(Seq<char>, Seq<char>)>::empty()
                            =~= spec_entries(sofar));
                        assert(!spec_te_line(lv[i as int]));
                        assert(te_chunked == exists|k: int|
                            1 <= k < i + 1 && #[trigger] spec_te_line(lv[k]));
                    }
                },
                Some(j) => {
                    proof {
                        lemma_find_sep_bounds(line@, 0);
                        assert(j + 2 <= line@.len());
                    }
                    let name_v = crate::text::sub_chars(line, 0, j);
                    let line_len = line.len();
                    let val_v = crate::text::sub_chars(line, j + 2, line_len);
                    proof {
                        assert(spec_header_entry(lv[i as int]) == Some((name_v@, val_v@)));
                    }
                    if crate::text::matches_lower(&name_v, &tename) && crate::text::contains_lower(
                        &val_v,
                        &chunkname,
                    ) {
                        te_chunked = true;
                        proof {
                            assert(spec_te_line(lv[i as int]));
                        }
                    } else {
                        proof {
                            assert(!spec_te_line(lv[i as int]));
                        }
                    }
                    proof {
                        assert(te_chunked == exists|k: int|
                            1 <= k < i + 1 && #[trigger] spec_te_line(lv[k]));
                    }
                    let name_s = crate::text::string_of(&name_v);
                    let val_s = crate::text::string_of(&val_v);
                    let ghost before = self.spec_headers();
                    self.headers.insert(name_s, val_s);
                    proof {
                        lemma_insert_all_push(h0, spec_entries(sofar), (name_v@, val_v@));
                        assert(spec_entries(sofar).push((name_v@, val_v@)) =~~= spec_entries(
                            sofar,
                        ) + seq![(name_v@, val_v@)]);
                        assert(self.spec_headers() == spec_insert_all(
                            h0,
                            spec_entries(lv.subrange(1, (i + 1) as int)),
                        ));
                    }
                },
            }
            i = i + 1;
        }
        proof {
            let rest = spec_lines(s).drop_first();
            assert(lv.subrange(1, lv.len() as int) =~~= rest);
            if te_chunked {
                let k0 = choose|k: int| 1 <= k < lv.len() && #[trigger] spec_te_line(lv[k]);
                assert(rest[k0 - 1] == lv[k0]);
                assert(spec_te_line(rest[k0 - 1]));
                assert(spec_te(rest) == TransferEncoding::Chunked);
            } else {
                if exists|k: int| 0 <= k < rest.len() && #[trigger] spec_te_line(rest[k]) {
                    let k0 = choose|k: int| 0 <= k < rest.len() && #[trigger] spec_te_line(
                        rest[k],
                    );
                    assert(rest[k0] == lv[k0 + 1]);
                    assert(spec_te_line(lv[k0 + 1]));
                    assert(false);
                }
                assert(spec_te(rest) == TransferEncoding::Normal);
            }
        }
        if te_chunked {
            Ok(TransferEncoding::Chunked)
        } else {
            Ok(TransferEncoding::Normal)
        }
    }

    /// Reassembles the logical body from its framed bytes: verbatim for
    /// the normal framing, and chunk by chunk for chunked transfer
    /// encoding, where decoded payload is appended to the body held so
    /// far.
    #[verifier::loop_isolation(false)]
    pub fn parse_body(&mut self, data: &[u8], transfer_encoding: TransferEncoding) -> (r: Result<
        (),
        String,
    >)
        ensures
            final(self).spec_code() == old(self).spec_code(),
            final(self).spec_headers() == old(self).spec_headers(),
            transfer_encoding == TransferEncoding::Normal ==> r is Ok && final(self).spec_body()
                == data@,
            transfer_encoding == TransferEncoding::Chunked ==> ({
                let (decoded, fault) = spec_decode_chunked(data@);
                &&& final(self).spec_body() == old(self).spec_body() + decoded
                &&& match fault {
                    None => r is Ok,
                    Some(ChunkError::NoDelimiter) => r matches Err(e) && e@
                        == "Error parsing chunked data: unable to read chunk size"@,
                    Some(ChunkError::BadSize) => r matches Err(e) && e@
                        == "Error parsing chunked encoding: invalid chunk size"@,
                    Some(ChunkError::Truncated) => r matches Err(e) && e@
                        == "Error parsing chunked data: incomplete chunk"@,
                }
            }),
    {
        match transfer_encoding {
            TransferEncoding::Normal => {
                self.set_body(data);
                Ok(())
            },
            TransferEncoding::Chunked => {
                let mut rest = vstd::slice::slice_to_vec(data);
                let mut done = is_terminal_chunk(&rest);
                while !done
                    invariant
                        done == (rest@ == spec_terminal_bytes()),
                        self.spec_body() + spec_decode_chunked(rest@).0 == old(self).spec_body()
                            + spec_decode_chunked(data@).0,
                        spec_decode_chunked(rest@).1 == spec_decode_chunked(data@).1,
                        self.spec_code() == old(self).spec_code(),
                        self.spec_headers() == old(self).spec_headers(),
                    decreases rest@.len(),
                {
                    let w = if rest.len() < 8 {
                        rest.len()
                    } else {
                        8
                    };
                    let window = sub_bytes(&rest, 0, w);
                    let mut crlf: Vec<u8> = Vec::new();
                    crlf.push(13);
                    crlf.push(10);
                    proof {
                        assert(crlf@ =~= seq![13u8, 10u8]);
                    }
                    match crate::transports::find_sub_vector(&window, &crlf) {
                        None => {
                            proof {
                                assert(spec_decode_chunked(rest@).0 =~= Seq::<u8>::empty());
                                assert(self.spec_body() + Seq::<u8>::empty() =~= self.spec_body());
                            }
                            return Err(
                                "Error parsing chunked data: unable to read chunk size".to_owned(),
                            );
                        },
                        Some(off) => {
                            proof {
                                crate::transports::lemma_find_sub_bounds(window@, crlf@, 0);
                            }
                            match parse_hex(&rest, 0, off - 2) {
                                None => {
                                    proof {
                                        assert(spec_decode_chunked(rest@).0 =~= Seq::<u8>::empty());
                                        assert(self.spec_body() + Seq::<u8>::empty()
                                            =~= self.spec_body());
                                    }
                                    return Err(
                                        "Error parsing chunked encoding: invalid chunk size".to_owned(),
                                    );
                                },
                                Some(n) => {
                                    let avail = rest.len() - off;
                                    if n > avail || avail - n < 2 {
                                        proof {
                                            assert(!(2 <= off && off + n + 2 <= rest@.len()));
                                            assert(spec_decode_chunked(rest@).0 =~= Seq::<
                                                u8,
                                            >::empty());
                                            assert(self.spec_body() + Seq::<u8>::empty()
                                                =~= self.spec_body());
                                        }
                                        return Err(
                                            "Error parsing chunked data: incomplete chunk".to_owned(),
                                        );
                                    }
                                    let ghost body_before = self.spec_body();
                                    let mut chunk = sub_bytes(&rest, off, off + n);
                                    self.body.append(&mut chunk);
                                    let new_rest = sub_bytes(&rest, off + n + 2, rest.len());
                                    proof {
                                        let piece = rest@.subrange(off as int, off + n);
                                        assert(spec_decode_chunked(rest@).0 == piece
                                            + spec_decode_chunked(new_rest@).0);
                                        assert(spec_decode_chunked(rest@).1 == spec_decode_chunked(
                                            new_rest@,
                                        ).1);
                                        assert((body_before + piece) + spec_decode_chunked(
                                            new_rest@,
                                        ).0 =~= body_before + (piece + spec_decode_chunked(
                                            new_rest@,
                                        ).0));
                                    }
                                    rest = new_rest;
                                },
                            }
                        },
                    }
                    done = is_terminal_chunk(&rest);
                }
                proof {
                    assert(spec_decode_chunked(rest@).0 =~= Seq::<u8>::empty());
                    assert(self.spec_body() + Seq::<u8>::empty() =~= self.spec_body());
                }
                Ok(())
            },
        }
    }

    /// Returns a Response object parsed out of the bytes of one
    /// received message: the header block, complete with the final
    /// header line's CRLF, ends at the first `\r\n\r\n`; the body
    /// after the boundary is framed as the headers declare.
    pub fn from_bytes(data: &[u8]) -> (r: Result<Response, String>)
        ensures
            match spec_body_start(data@) {
                None => r matches Err(e) && e@ == "Could not parse http response!"@,
                Some(i) => {
                    let head = data@.subrange(0, i - 1);
                    let body = data@.subrange(i + 1, data@.len() as int);
                    if !valid_utf8(head) {
                        r is Err
                    } else {
                        match spec_parse_headers(decode_utf8(head)) {
                            Err(m) => r matches Err(e) && e@ == m,
                            Ok((code, entries, te)) => match te {
                                TransferEncoding::Normal => r matches Ok(resp) && resp.spec_code()
                                    == code && resp.spec_headers() == spec_insert_all(
                                    Seq::<(Seq<char>, Seq<char>)>::empty(),
                                    entries,
                                ) && resp.spec_body() == body,
                                TransferEncoding::Chunked => ({
                                    let (decoded, fault) = spec_decode_chunked(body);
                                    match fault {
                                        None => r matches Ok(resp) && resp.spec_code() == code
                                            && resp.spec_headers() == spec_insert_all(
                                            Seq::<(Seq<char>, Seq<char>)>::empty(),
                                            entries,
                                        ) && resp.spec_body() == decoded,
                                        Some(ChunkError::NoDelimiter) => r matches Err(e) && e@
                                            == "Error parsing chunked data: unable to read chunk size"@,
                                        Some(ChunkError::BadSize) => r matches Err(e) && e@
                                            == "Error parsing chunked encoding: invalid chunk size"@,
                                        Some(ChunkError::Truncated) => r matches Err(e) && e@
                                            == "Error parsing chunked data: incomplete chunk"@,
                                    }
                                }),
                            },
                        }
                    }
                },
            },
    {
        match Response::find_body_start(data) {
            Some(i) => {
                proof {
                    lemma_body_start_first(data@, 3);
                    assert(spec_marker_ends_at(data@, i as int));
                    assert(3 <= i < data@.len());
                }
                let n = data.len();
                let head = vstd::slice::slice_subrange(data, 0, i - 1);
                let body = vstd::slice::slice_subrange(data, i + 1, n);
                let mut response = Response::new();
                match response.parse_headers(head) {
                    Err(e) => Err(e),
                    Ok(te) => {
                        match response.parse_body(body, te) {
                            Err(e) => Err(e),
                            Ok(()) => {
                                proof {
                                    if te == TransferEncoding::Chunked {
                                        assert(Seq::<u8>::empty() + spec_decode_chunked(body@).0
                                            =~= spec_decode_chunked(body@).0);
                                    }
                                }
                                Ok(response)
                            },
                        }
                    },
                }
            },
            None => Err("Could not parse http response!".to_owned()),
        }
    }

    /// Finds the end of the http header block: the index of the final
    /// newline of the first `\r\n\r\n`.
    #[verifier::loop_isolation(false)]
    pub fn find_body_start(data: &[u8]) -> (r: Option<usize>)
        ensures
            match spec_body_start(data@) {
                None => r is None,
                Some(j) => r matches Some(u) && u == j,
            },
    {
        let n = data.len();
        if n < 4 {
            return None;
        }
        let mut i: usize = 3;
        while i < n
            invariant
                3 <= i <= n,
                n == data@.len(),
                spec_body_start_from(data@, 3) == spec_body_start_from(data@, i as int),
            decreases n - i,
        {
            if data[i - 3] == 13 && data[i - 2] == 10 && data[i - 1] == 13 && data[i] == 10 {
                return Some(i);
            }
            i = i + 1;
        }
        None
    }
}

} // verus!
