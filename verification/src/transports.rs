//! Transport-level logic that needs no socket: choosing the kind of
//! transport for a scheme, searching received bytes, and deciding when
//! a message has been fully received.

use vstd::prelude::*;

use crate::config::Config;
use vstd::string::StrSliceExecFns;

verus! {

/// True when `s` occurs in `l` starting at `i`.
pub open spec fn spec_sub_at(l: Seq<u8>, s: Seq<u8>, i: int) -> bool
    recommends
        0 <= i,
        i + s.len() <= l.len(),
{
    l.subrange(i, i + s.len()) == s
}

/// The scan of `find_sub_vector`, started at `i`: the first start
/// position where `s` occurs, reported as the position just past the
/// occurrence.
pub open spec fn spec_find_sub_from(l: Seq<u8>, s: Seq<u8>, i: int) -> Option<int>
    recommends
        0 <= i,
        s.len() <= l.len(),
    decreases l.len() + 1 - i,
{
    if i < 0 || i > l.len() - s.len() {
        None
    } else if spec_sub_at(l, s, i) {
        Some(i + s.len())
    } else {
        spec_find_sub_from(l, s, i + 1)
    }
}

/// What `find_sub_vector` returns: the position just past the first
/// occurrence of `s` in `l`, including one flush with the end.
pub open spec fn spec_find_sub(l: Seq<u8>, s: Seq<u8>) -> Option<int> {
    if l.len() < s.len() {
        None
    } else {
        spec_find_sub_from(l, s, 0)
    }
}

/// Whatever the scan reports lies past one occurrence of `s` and
/// within `l`.
pub proof fn lemma_find_sub_bounds(l: Seq<u8>, s: Seq<u8>, i: int)
    requires
        0 <= i,
        s.len() <= l.len(),
    ensures
        spec_find_sub_from(l, s, i) matches Some(x) ==> i + s.len() <= x <= l.len() && spec_sub_at(
            l,
            s,
            x - s.len(),
        ),
    decreases l.len() + 1 - i,
{
    if i <= l.len() - s.len() && !spec_sub_at(l, s, i) {
        lemma_find_sub_bounds(l, s, i + 1);
    }
}

/// Looks for `small` inside `large`, reporting the position just past
/// the first occurrence.
#[verifier::loop_isolation(false)]
pub fn find_sub_vector(large: &Vec<u8>, small: &Vec<u8>) -> (r: Option<usize>)
    ensures
        match spec_find_sub(large@, small@) {
            None => r is None,
            Some(x) => r matches Some(u) && u == x,
        },
{
    if large.len() < small.len() {
        return None;
    }
    if small.len() == 0 {
        proof {
            assert(large@.subrange(0, 0) =~= small@);
        }
        return Some(0);
    }
    let bound = large.len() - small.len();
    let mut i: usize = 0;
    while i <= bound
        invariant
            0 <= i <= bound + 1,
            spec_find_sub_from(large@, small@, 0) == spec_find_sub_from(large@, small@, i as int),
        decreases bound + 1 - i,
    {
        let mut j: usize = 0;
        let mut hit = true;
        while j < small.len()
            invariant
                0 <= j <= small.len(),
                i + small.len() <= large.len(),
                hit ==> forall|k: int| 0 <= k < j ==> large@[i + k] == small@[k],
                !hit ==> !spec_sub_at(large@, small@, i as int),
            decreases small.len() - j,
        {
            proof {
                assert(large@.subrange(i as int, i + small@.len())[j as int] == large@[i + j]);
            }
            if large[i + j] != small[j] {
                hit = false;
                j = small.len();
            } else {
                j = j + 1;
            }
        }
        if hit {
            proof {
                assert(large@.subrange(i as int, i + small@.len()) =~= small@);
            }
            return Some(i + small.len());
        }
        i = i + 1;
    }
    None
}

/// The byte-level counterpart of ASCII case folding: lowering the
/// letters of `a` gives `b`.
pub open spec fn byte_lower_eq(a: u8, b: u8) -> bool {
    a == b || (65 <= a <= 90 && a + 32 == b)
}

/// True when `s`, lowercased byte by byte, reads as `t`.
pub open spec fn bytes_lower_match(s: Seq<u8>, t: Seq<u8>) -> bool {
    s.len() == t.len() && forall|i: int| 0 <= i < s.len() ==> byte_lower_eq(s[i], t[i])
}

/// True when some window of `s` reads as `t` once lowercased.
pub open spec fn spec_contains_lower_bytes(s: Seq<u8>, t: Seq<u8>) -> bool {
    exists|i: int|
        0 <= i && i + t.len() <= s.len() && #[trigger] bytes_lower_match(
            s.subrange(i, i + t.len()),
            t,
        )
}

/// Case-insensitive byte search for `t` in `s`.
#[verifier::loop_isolation(false)]
fn contains_lower_bytes(s: &Vec<u8>, t: &Vec<u8>) -> (r: bool)
    ensures
        r == spec_contains_lower_bytes(s@, t@),
{
    if t.len() > s.len() {
        return false;
    }
    let mut i: usize = 0;
    while i <= s.len() - t.len()
        invariant
            0 <= i <= s.len() - t.len() + 1,
            forall|k: int|
                0 <= k < i ==> !(#[trigger] bytes_lower_match(
                    s@.subrange(k, k + t@.len() as int),
                    t@,
                )),
        decreases s.len() - t.len() + 1 - i,
    {
        let ghost win = s@.subrange(i as int, i + t@.len() as int);
        let mut j: usize = 0;
        let mut hit = true;
        while j < t.len()
            invariant
                0 <= j <= t.len(),
                win == s@.subrange(i as int, i + t@.len() as int),
                hit ==> forall|k: int| 0 <= k < j ==> byte_lower_eq(win[k], t@[k]),
                !hit ==> !bytes_lower_match(win, t@),
            decreases t.len() - j,
        {
            proof {
                assert(win[j as int] == s@[i + j]);
            }
            let a = s[i + j];
            let b = t[j];
            if !(a == b || (65 <= a && a <= 90 && a + 32 == b)) {
                proof {
                    assert(!byte_lower_eq(win[j as int], t@[j as int]));
                }
                hit = false;
                j = t.len();
            } else {
                j = j + 1;
            }
        }
        if hit {
            proof {
                assert(bytes_lower_match(win, t@));
            }
            return true;
        }
        i = i + 1;
    }
    false
}

/// The bytes of `\r\n\r\n`, the boundary between headers and body.
pub open spec fn spec_boundary_bytes() -> Seq<u8> {
    seq![13u8, 10u8, 13u8, 10u8]
}

/// The bytes of `0\r\n\r\n`, the terminal chunk marker.
pub open spec fn spec_terminal_bytes() -> Seq<u8> {
    seq![48u8, 13u8, 10u8, 13u8, 10u8]
}

/// The bytes of `transfer-encoding: chunked`, lowercase.
pub open spec fn spec_te_marker_bytes() -> Seq<u8> {
    seq![
        116u8,
        114u8,
        97u8,
        110u8,
        115u8,
        102u8,
        101u8,
        114u8,
        45u8,
        101u8,
        110u8,
        99u8,
        111u8,
        100u8,
        105u8,
        110u8,
        103u8,
        58u8,
        32u8,
        99u8,
        104u8,
        117u8,
        110u8,
        107u8,
        101u8,
        100u8,
    ]
}

/// The header block marks the message as chunked when it holds the
/// `Transfer-Encoding: chunked` marker, in any letter case.
pub open spec fn spec_marks_chunked(t: Seq<u8>) -> bool {
    spec_contains_lower_bytes(t, spec_te_marker_bytes())
}

/// A received buffer ends with the terminal chunk marker.
pub open spec fn spec_ends_terminal(t: Seq<u8>) -> bool {
    t.len() >= 5 && t.subrange(t.len() - 5, t.len() as int) == spec_terminal_bytes()
}

/// The boundary marker `\r\n\r\n`, as sent on the wire.
fn boundary_bytes() -> (r: Vec<u8>)
    ensures
        r@ == spec_boundary_bytes(),
{
    let b = "\r\n\r\n".as_bytes_vec();
    proof {
        reveal_strlit("\r\n\r\n");
        vstd::utf8::is_ascii_chars_encode_utf8("\r\n\r\n"@);
        assert(b@ =~= spec_boundary_bytes());
    }
    b
}

/// The terminal chunk marker `0\r\n\r\n`.
fn terminal_bytes() -> (r: Vec<u8>)
    ensures
        r@ == spec_terminal_bytes(),
{
    let b = "0\r\n\r\n".as_bytes_vec();
    proof {
        reveal_strlit("0\r\n\r\n");
        vstd::utf8::is_ascii_chars_encode_utf8("0\r\n\r\n"@);
        assert(b@ =~= spec_terminal_bytes());
    }
    b
}

/// The chunked-transfer marker `transfer-encoding: chunked`.
fn te_marker_bytes() -> (r: Vec<u8>)
    ensures
        r@ == spec_te_marker_bytes(),
{
    let b = "transfer-encoding: chunked".as_bytes_vec();
    proof {
        reveal_strlit("transfer-encoding: chunked");
        vstd::utf8::is_ascii_chars_encode_utf8("transfer-encoding: chunked"@);
        assert(b@ =~= spec_te_marker_bytes());
    }
    b
}

/// Assembles the bytes of one response as decrypted plaintext arrives,
/// and decides when the message is complete.
///
/// The embedding transport feeds every drained batch of plaintext into
/// `push_plaintext` and stops reading as soon as it answers true.
pub struct MessageAssembler {
    data: Vec<u8>,
    chunked: bool,
}

impl MessageAssembler {
    /// The bytes taken so far.
    pub closed spec fn spec_data(self) -> Seq<u8> {
        self.data@
    }

    /// Whether the header block declared chunked transfer encoding.
    pub closed spec fn spec_chunked(self) -> bool {
        self.chunked
    }

    /// An assembler that has seen nothing yet.
    pub fn new() -> (r: MessageAssembler)
        ensures
            r.spec_data() == Seq::<u8>::empty(),
            !r.spec_chunked(),
    {
        MessageAssembler { data: Vec::new(), chunked: false }
    }

    /// Takes one batch of plaintext and answers whether the message is
    /// now complete.
    ///
    /// Before the header boundary has been seen, a batch without one is
    /// dropped and ends the message; a batch with one is kept, and ends
    /// the message unless its header block declares chunked transfer.
    /// Once chunked, every batch is kept, and the batch that ends with
    /// the terminal chunk marker ends the message.
    pub fn push_plaintext(&mut self, chunk: &Vec<u8>) -> (done: bool)
        ensures
            old(self).spec_chunked() ==> final(self).spec_chunked() && final(self).spec_data()
                == old(self).spec_data() + chunk@ && done == spec_ends_terminal(chunk@),
            !old(self).spec_chunked() ==> match spec_find_sub(chunk@, spec_boundary_bytes()) {
                Some(h) => final(self).spec_chunked() == spec_marks_chunked(
                    chunk@.subrange(0, h),
                ) && final(self).spec_data() == old(self).spec_data() + chunk@ && done
                    == !spec_marks_chunked(chunk@.subrange(0, h)),
                None => *final(self) == *old(self) && done,
            },
    {
        if self.chunked {
            let done = ends_with_terminal(chunk);
            let mut tmp = copy_bytes(chunk);
            self.data.append(&mut tmp);
            return done;
        }
        let boundary = boundary_bytes();
        match find_sub_vector(chunk, &boundary) {
            Some(h) => {
                proof {
                    lemma_find_sub_bounds(chunk@, boundary@, 0);
                }
                let head = sub_bytes(chunk, 0, h);
                let marker = te_marker_bytes();
                let is_chunked = contains_lower_bytes(&head, &marker);
                self.chunked = is_chunked;
                let mut tmp = copy_bytes(chunk);
                self.data.append(&mut tmp);
                !is_chunked
            },
            None => true,
        }
    }

    /// Hands the assembled bytes out.
    pub fn into_bytes(self) -> (r: Vec<u8>)
        ensures
            r@ == self.spec_data(),
    {
        let MessageAssembler { data, chunked: _ } = self;
        data
    }
}

/// Whether `chunk` ends with the terminal chunk marker `0 CRLF CRLF`.
fn ends_with_terminal(chunk: &Vec<u8>) -> (r: bool)
    ensures
        r == spec_ends_terminal(chunk@),
{
    let terminal = terminal_bytes();
    if chunk.len() < 5 {
        return false;
    }
    let start = chunk.len() - 5;
    let tail = sub_bytes(chunk, start, chunk.len());
    let mut i: usize = 0;
    let mut same = true;
    while i < 5
        invariant
            0 <= i <= 5,
            tail@.len() == 5,
            terminal@ == spec_terminal_bytes(),
            tail@ == chunk@.subrange(chunk@.len() - 5, chunk@.len() as int),
            same ==> forall|k: int| 0 <= k < i ==> tail@[k] == terminal@[k],
            !same ==> tail@ != terminal@,
        decreases 5 - i,
    {
        if tail[i] != terminal[i] {
            same = false;
            i = 5;
        } else {
            i = i + 1;
        }
    }
    if same {
        proof {
            assert(tail@ =~= terminal@);
        }
    }
    same
}

/// A copy of `v`.
pub(crate) fn copy_bytes(v: &Vec<u8>) -> (r: Vec<u8>)
    ensures
        r@ == v@,
{
    let mut r: Vec<u8> = Vec::new();
    let mut i: usize = 0;
    while i < v.len()
        invariant
            0 <= i <= v.len(),
            r@ =~= v@.subrange(0, i as int),
        decreases v.len() - i,
    {
        r.push(v[i]);
        i = i + 1;
    }
    proof {
        assert(v@.subrange(0, v.len() as int) =~= v@);
    }
    r
}

/// A copy of `v[from..to]`.
pub(crate) fn sub_bytes(v: &Vec<u8>, from: usize, to: usize) -> (r: Vec<u8>)
    requires
        from <= to <= v.len(),
    ensures
        r@ == v@.subrange(from as int, to as int),
{
    let mut r: Vec<u8> = Vec::new();
    let mut i: usize = from;
    while i < to
        invariant
            from <= i <= to <= v.len(),
            r@ =~= v@.subrange(from as int, i as int),
        decreases to - i,
    {
        r.push(v[i]);
        i = i + 1;
    }
    r
}

/// The kinds of transport a scheme selects.
#[derive(Clone, Copy, Debug, PartialEq, Eq, Structural)]
pub enum TransportKind {
    Http,
    Https,
}

/// Everything the embedding application needs in order to open a
/// connection: the kind of transport, the destination, and whether
/// certificate validation is to be skipped.
pub struct TransportPlan {
    pub kind: TransportKind,
    pub host: String,
    pub port: u16,
    pub skip_verification: bool,
}

/// Chooses the transport for a scheme.  Unknown schemes and a missing
/// host fail; an absent port falls back to the scheme's default.
/// Certificate validation is skipped only for https, and only when the
/// configuration explicitly allows it.
pub fn plan_transport(scheme: &str, host: Option<String>, port: Option<u16>, config: &Config) -> (r:
    Result<TransportPlan, String>)
    ensures
        scheme@ != "http"@ && scheme@ != "https"@ ==> (r matches Err(e) && e@
            == "Unsupported protocol!"@),
        (scheme@ == "http"@ || scheme@ == "https"@) && host is None ==> (r matches Err(e) && e@
            == "Invalid host!"@),
        scheme@ == "http"@ ==> (host matches Some(h) ==> (r matches Ok(p) && p.kind
            == TransportKind::Http && p.host@ == h@ && p.port == (match port {
            Some(x) => x,
            None => 80u16,
        }) && !p.skip_verification)),
        scheme@ == "https"@ ==> (host matches Some(h) ==> (r matches Ok(p) && p.kind
            == TransportKind::Https && p.host@ == h@ && p.port == (match port {
            Some(x) => x,
            None => 443u16,
        }) && p.skip_verification == config.spec_allows_insecure_https())),
{
    proof {
        reveal_strlit("http");
        reveal_strlit("https");
        assert("http"@.len() == 4);
        assert("https"@.len() == 5);
    }
    let sch = scheme.to_owned();
    let is_https = sch == "https".to_owned();
    let is_http = sch == "http".to_owned();
    if !is_https && !is_http {
        return Err("Unsupported protocol!".to_owned());
    }
    match host {
        None => Err("Invalid host!".to_owned()),
        Some(h) => {
            if is_https {
                let p = match port {
                    Some(x) => x,
                    None => 443,
                };
                Ok(
                    TransportPlan {
                        kind: TransportKind::Https,
                        host: h,
                        port: p,
                        skip_verification: config.allows_insecure_https(),
                    },
                )
            } else {
                let p = match port {
                    Some(x) => x,
                    None => 80,
                };
                Ok(
                    TransportPlan {
                        kind: TransportKind::Http,
                        host: h,
                        port: p,
                        skip_verification: false,
                    },
                )
            }
        },
    }
}

} // verus!
