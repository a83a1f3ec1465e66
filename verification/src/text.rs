//! Character-level text helpers: whitespace fields, decimal numbers,
//! and ASCII case-insensitive matching.
//!
//! Everything here works on `char` sequences; the wire codec decodes
//! received bytes once and then parses at the character level.

use vstd::prelude::*;
use vstd::utf8::encode_utf8;
use vstd::utf8::valid_utf8;

verus! {

#[verifier::external_type_specification]
#[verifier::external_body]
pub struct ExFromUtf8Error(std::string::FromUtf8Error);

/// Relies on String::from_utf8: it succeeds exactly on valid UTF-8
/// input, and the returned string re-encodes to the input bytes.
#[verifier::external_body]
pub(crate) fn string_from_utf8(v: Vec<u8>) -> (r: Result<String, std::string::FromUtf8Error>)
    ensures
        r is Ok <==> valid_utf8(v@),
        r matches Ok(s) ==> encode_utf8(s@) == v@,
{
    String::from_utf8(v)
}

/// ASCII whitespace, as found between the fields of a status line.
pub open spec fn is_ascii_space(c: char) -> bool {
    c == ' ' || c == '\t' || c == '\n' || c == '\r' || c == '\u{b}' || c == '\u{c}'
}

/// First position at or after `i` that does not hold whitespace.
pub open spec fn spec_skip_space(s: Seq<char>, i: int) -> int
    recommends
        0 <= i <= s.len(),
    decreases s.len() - i,
{
    if i < 0 || i >= s.len() {
        i
    } else if is_ascii_space(s[i]) {
        spec_skip_space(s, i + 1)
    } else {
        i
    }
}

/// First position at or after `i` that holds whitespace (or the end).
pub open spec fn spec_skip_field(s: Seq<char>, i: int) -> int
    recommends
        0 <= i <= s.len(),
    decreases s.len() - i,
{
    if i < 0 || i >= s.len() {
        i
    } else if !is_ascii_space(s[i]) {
        spec_skip_field(s, i + 1)
    } else {
        i
    }
}

/// The second whitespace-delimited field of `s`, as a range, when `s`
/// has at least two fields.
pub open spec fn spec_second_field(s: Seq<char>) -> Option<(int, int)> {
    let b0 = spec_skip_space(s, 0);
    let e0 = spec_skip_field(s, b0);
    let b1 = spec_skip_space(s, e0);
    let e1 = spec_skip_field(s, b1);
    if b1 >= s.len() {
        None
    } else {
        Some((b1, e1))
    }
}

/// A decimal digit.
pub open spec fn is_dec_digit(c: char) -> bool {
    48 <= c as u32 <= 57
}

/// The value of a decimal digit.
pub open spec fn dec_digit_val(c: char) -> nat
    recommends
        is_dec_digit(c),
{
    (c as u32 - 48) as nat
}

/// True when `s` is nothing but decimal digits.
pub open spec fn all_dec_digits(s: Seq<char>) -> bool {
    forall|i: int| 0 <= i < s.len() ==> is_dec_digit(s[i])
}

/// The number that a digit sequence denotes.
pub open spec fn dec_val(s: Seq<char>) -> nat
    decreases s.len(),
{
    if s.len() == 0 {
        0
    } else {
        dec_val(s.drop_last()) * 10 + dec_digit_val(s.last())
    }
}

/// The number denoted by a prefix never exceeds the number denoted by
/// the whole digit sequence.
proof fn lemma_dec_val_prefix(s: Seq<char>, n: int)
    requires
        0 <= n <= s.len(),
    ensures
        dec_val(s.subrange(0, n)) <= dec_val(s),
    decreases s.len() - n,
{
    if n < s.len() {
        lemma_dec_val_prefix(s, n + 1);
        let t = s.subrange(0, n + 1);
        assert(t.drop_last() =~= s.subrange(0, n));
        assert(dec_val(s.subrange(0, n)) <= dec_val(t));
    } else {
        assert(s.subrange(0, n) =~= s);
    }
}

/// How a numeric token is read: an optional leading `+`, then decimal
/// digits; absent, empty, or overflowing tokens give nothing.
pub open spec fn spec_parse_u32(s: Seq<char>) -> Option<u32> {
    let t = if s.len() > 0 && s[0] == '+' {
        s.subrange(1, s.len() as int)
    } else {
        s
    };
    if t.len() > 0 && all_dec_digits(t) && dec_val(t) <= u32::MAX {
        Some(dec_val(t) as u32)
    } else {
        None
    }
}

/// Reads a `u32` from the characters of `s[from..to]`, as
/// `spec_parse_u32` describes.
#[verifier::loop_isolation(false)]
pub(crate) fn parse_u32_chars(s: &Vec<char>, from: usize, to: usize) -> (r: Option<u32>)
    requires
        from <= to <= s.len(),
    ensures
        r == spec_parse_u32(s@.subrange(from as int, to as int)),
{
    let ghost whole = s@.subrange(from as int, to as int);
    let mut i: usize = from;
    if i < to && s[i] == '+' {
        i = i + 1;
    }
    let ghost tok = s@.subrange(i as int, to as int);
    proof {
        if whole.len() > 0 && whole[0] == '+' {
            assert(whole.subrange(1, whole.len() as int) =~= tok);
        } else {
            assert(whole =~= tok);
        }
    }
    if i == to {
        return None;
    }
    let mut v: u32 = 0;
    let mut j: usize = i;
    while j < to
        invariant
            i <= j <= to <= s.len(),
            tok == s@.subrange(i as int, to as int),
            to > i,
            all_dec_digits(s@.subrange(i as int, j as int)),
            v == dec_val(s@.subrange(i as int, j as int)),
            v <= u32::MAX,
        decreases to - j,
    {
        let c = s[j];
        let u = c as u32;
        if u < 48 || u > 57 {
            proof {
                assert(tok[j - i] == s@[j as int]);
                assert(!is_dec_digit(tok[j - i]));
                assert(!all_dec_digits(tok));
            }
            return None;
        }
        let d: u32 = u - 48;
        proof {
            assert(s@.subrange(i as int, (j + 1) as int).drop_last() =~= s@.subrange(
                i as int,
                j as int,
            ));
            assert(s@.subrange(i as int, (j + 1) as int).last() == s@[j as int]);
        }
        if v > (u32::MAX - d) / 10 {
            proof {
                let p = s@.subrange(i as int, (j + 1) as int);
                assert(p.last() == s@[j as int]);
                assert(dec_digit_val(p.last()) == d);
                assert(dec_val(p) == v * 10 + d);
                assert(v * 10 + d > u32::MAX) by {
                    assert(v >= (u32::MAX - d) / 10 + 1);
                    assert(((u32::MAX - d) / 10 + 1) * 10 == ((u32::MAX - d) / 10) * 10 + 10);
                    assert(((u32::MAX - d) / 10) * 10 + 10 > u32::MAX - d);
                };
                lemma_dec_val_prefix(tok, j + 1 - i);
                assert(tok.subrange(0, j + 1 - i) =~= p);
                assert(dec_val(tok) > u32::MAX);
            }
            return None;
        }
        v = v * 10 + d;
        j = j + 1;
    }
    proof {
        assert(s@.subrange(i as int, to as int) =~= tok);
    }
    Some(v)
}

/// Locates the second whitespace-delimited field of `s[from..to]`,
/// returning its bounds relative to the whole vector.
pub(crate) fn second_field(s: &Vec<char>, from: usize, to: usize) -> (r: Option<(usize, usize)>)
    requires
        from <= to <= s.len(),
    ensures
        ({
            let w = s@.subrange(from as int, to as int);
            match spec_second_field(w) {
                None => r is None,
                Some((a, b)) => r matches Some(p) && p.0 == from + a && p.1 == from + b && from
                    <= p.0 <= p.1 <= to,
            }
        }),
{
    let ghost w = s@.subrange(from as int, to as int);
    let mut i: usize = from;
    while i < to && is_space(s[i])
        invariant
            from <= i <= to <= s.len(),
            w == s@.subrange(from as int, to as int),
            spec_skip_space(w, 0) == spec_skip_space(w, i - from),
        decreases to - i,
    {
        i = i + 1;
    }
    let ghost b0 = i - from;
    proof {
        assert(spec_skip_space(w, 0) == b0);
    }
    let mut i2: usize = i;
    while i2 < to && !is_space(s[i2])
        invariant
            from <= i <= i2 <= to <= s.len(),
            w == s@.subrange(from as int, to as int),
            spec_skip_field(w, b0) == spec_skip_field(w, i2 - from),
        decreases to - i2,
    {
        i2 = i2 + 1;
    }
    let ghost e0 = i2 - from;
    proof {
        assert(spec_skip_field(w, b0) == e0);
    }
    let mut i3: usize = i2;
    while i3 < to && is_space(s[i3])
        invariant
            from <= i2 <= i3 <= to <= s.len(),
            w == s@.subrange(from as int, to as int),
            spec_skip_space(w, e0) == spec_skip_space(w, i3 - from),
        decreases to - i3,
    {
        i3 = i3 + 1;
    }
    let ghost b1 = i3 - from;
    proof {
        assert(spec_skip_space(w, e0) == b1);
    }
    if i3 == to {
        return None;
    }
    let mut i4: usize = i3;
    while i4 < to && !is_space(s[i4])
        invariant
            from <= i3 <= i4 <= to <= s.len(),
            w == s@.subrange(from as int, to as int),
            spec_skip_field(w, b1) == spec_skip_field(w, i4 - from),
        decreases to - i4,
    {
        i4 = i4 + 1;
    }
    proof {
        assert(spec_skip_field(w, b1) == i4 - from);
    }
    Some((i3, i4))
}

/// Whitespace test on one character.
pub(crate) fn is_space(c: char) -> (r: bool)
    ensures
        r == is_ascii_space(c),
{
    c == ' ' || c == '\t' || c == '\n' || c == '\r' || c == '\u{b}' || c == '\u{c}'
}

/// True when lowering the ASCII letters of `a` gives `b`.
pub open spec fn char_lower_eq(a: char, b: char) -> bool {
    a == b || (65 <= a as u32 <= 90 && a as u32 + 32 == b as u32)
}

/// True when `s`, lowercased letter by letter, reads as `t`.
pub open spec fn lower_matches(s: Seq<char>, t: Seq<char>) -> bool {
    s.len() == t.len() && forall|i: int| 0 <= i < s.len() ==> char_lower_eq(s[i], t[i])
}

/// True when some window of `s` reads as `t` once lowercased.
pub open spec fn spec_contains_lower(s: Seq<char>, t: Seq<char>) -> bool {
    exists|i: int|
        0 <= i && i + t.len() <= s.len() && #[trigger] lower_matches(
            s.subrange(i, i + t.len()),
            t,
        )
}

/// Case-folding comparison of one character against a lowercase one.
pub(crate) fn char_matches_lower(a: char, b: char) -> (r: bool)
    ensures
        r == char_lower_eq(a, b),
{
    let ua = a as u32;
    let ub = b as u32;
    a == b || (65 <= ua && ua <= 90 && ua + 32 == ub)
}

/// Compares `s`, lowercased, against `t`.
pub(crate) fn matches_lower(s: &Vec<char>, t: &Vec<char>) -> (r: bool)
    ensures
        r == lower_matches(s@, t@),
{
    if s.len() != t.len() {
        return false;
    }
    let mut i: usize = 0;
    while i < s.len()
        invariant
            0 <= i <= s.len(),
            s.len() == t.len(),
            forall|k: int| 0 <= k < i ==> char_lower_eq(s@[k], t@[k]),
        decreases s.len() - i,
    {
        if !char_matches_lower(s[i], t[i]) {
            return false;
        }
        i = i + 1;
    }
    true
}

/// Looks for a window of `s` that, lowercased, reads as `t`.
pub(crate) fn contains_lower(s: &Vec<char>, t: &Vec<char>) -> (r: bool)
    ensures
        r == spec_contains_lower(s@, t@),
{
    if t.len() > s.len() {
        return false;
    }
    let mut i: usize = 0;
    while i <= s.len() - t.len()
        invariant
            0 <= i <= s.len() - t.len() + 1,
            t.len() <= s.len(),
            forall|k: int|
                0 <= k < i ==> !(#[trigger] lower_matches(
                    s@.subrange(k, k + t@.len() as int),
                    t@,
                )),
        decreases s.len() - t.len() + 1 - i,
    {
        let ghost win = s@.subrange(i as int, i + t@.len() as int);
        let mut j: usize = 0;
        let mut hit = true;
        while j < t.len()
            invariant
                0 <= j <= t.len(),
                i + t.len() <= s.len(),
                i <= s.len(),
                win == s@.subrange(i as int, i + t@.len() as int),
                hit ==> forall|k: int| 0 <= k < j ==> char_lower_eq(win[k], t@[k]),
                !hit ==> !lower_matches(win, t@),
            decreases t.len() - j,
        {
            proof {
                assert(win[j as int] == s@[i + j]);
            }
            if !char_matches_lower(s[i + j], t[j]) {
                proof {
                    assert(!char_lower_eq(win[j as int], t@[j as int]));
                }
                hit = false;
                j = t.len();
            } else {
                j = j + 1;
            }
        }
        if hit {
            proof {
                assert(lower_matches(win, t@));
            }
            return true;
        }
        i = i + 1;
    }
    false
}

/// The characters of `s`, one by one.
pub(crate) fn chars_of(s: &str) -> (r: Vec<char>)
    ensures
        r@ == s@,
{
    let n = s.unicode_len();
    let mut r: Vec<char> = Vec::new();
    let mut i: usize = 0;
    while i < n
        invariant
            0 <= i <= n,
            n == s@.len(),
            r@ =~= s@.subrange(0, i as int),
        decreases n - i,
    {
        r.push(s.get_char(i));
        i = i + 1;
    }
    proof {
        assert(s@.subrange(0, n as int) =~= s@);
    }
    r
}

/// A copy of `s[from..to]`.
pub(crate) fn sub_chars(s: &Vec<char>, from: usize, to: usize) -> (r: Vec<char>)
    requires
        from <= to <= s.len(),
    ensures
        r@ == s@.subrange(from as int, to as int),
{
    let mut r: Vec<char> = Vec::new();
    let mut i: usize = from;
    while i < to
        invariant
            from <= i <= to <= s.len(),
            r@ =~= s@.subrange(from as int, i as int),
        decreases to - i,
    {
        r.push(s[i]);
        i = i + 1;
    }
    r
}

/// Relies on String::push: appends the given character to the string.
#[verifier::external_body]
pub(crate) fn push_char(s: &mut String, c: char)
    ensures
        final(s)@ == old(s)@.push(c),
{
    s.push(c);
}

/// A string holding exactly the characters of `s`.
pub(crate) fn string_of(s: &Vec<char>) -> (r: String)
    ensures
        r@ == s@,
{
    let mut r = String::new();
    let mut i: usize = 0;
    while i < s.len()
        invariant
            0 <= i <= s.len(),
            r@ =~= s@.subrange(0, i as int),
        decreases s.len() - i,
    {
        push_char(&mut r, s[i]);
        i = i + 1;
    }
    proof {
        assert(s@.subrange(0, s.len() as int) =~= s@);
    }
    r
}

/// The character for a decimal digit value.
pub open spec fn dec_digit_char(d: nat) -> char
    recommends
        d < 10,
{
    if d == 0 {
        '0'
    } else if d == 1 {
        '1'
    } else if d == 2 {
        '2'
    } else if d == 3 {
        '3'
    } else if d == 4 {
        '4'
    } else if d == 5 {
        '5'
    } else if d == 6 {
        '6'
    } else if d == 7 {
        '7'
    } else if d == 8 {
        '8'
    } else {
        '9'
    }
}

/// The shortest decimal spelling of `n`.
pub open spec fn dec_digits(n: nat) -> Seq<char>
    decreases n,
{
    if n < 10 {
        seq![dec_digit_char(n)]
    } else {
        dec_digits(n / 10).push(dec_digit_char(n % 10))
    }
}

/// The character for one digit value.
fn digit_char(d: usize) -> (c: char)
    requires
        d < 10,
    ensures
        c == dec_digit_char(d as nat),
{
    if d == 0 {
        '0'
    } else if d == 1 {
        '1'
    } else if d == 2 {
        '2'
    } else if d == 3 {
        '3'
    } else if d == 4 {
        '4'
    } else if d == 5 {
        '5'
    } else if d == 6 {
        '6'
    } else if d == 7 {
        '7'
    } else if d == 8 {
        '8'
    } else {
        '9'
    }
}

/// Writes `n` in decimal.
pub(crate) fn dec_string(n: usize) -> (r: String)
    ensures
        r@ == dec_digits(n as nat),
    decreases n,
{
    if n < 10 {
        let mut r = String::new();
        push_char(&mut r, digit_char(n));
        proof {
            assert(Seq::<char>::empty().push(dec_digit_char(n as nat)) =~= seq![
                dec_digit_char(n as nat),
            ]);
        }
        r
    } else {
        let mut r = dec_string(n / 10);
        push_char(&mut r, digit_char(n % 10));
        r
    }
}

} // verus!
