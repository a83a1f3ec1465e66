//! Laws of the wire codec: what holds of parsing and serialization
//! together, beyond the contract of either alone.

use vstd::prelude::*;

use crate::constants::ResponseCode;
use crate::constants::TransferEncoding;
use crate::headers::spec_insert;
use crate::headers::spec_insert_all;
use crate::headers::unique_keys;
use crate::request::spec_header_line;
use crate::request::spec_header_lines;
use crate::response::all_hex_digits;
use crate::response::hex_digit_val;
use crate::response::hex_val;
use crate::response::is_hex_digit;
use crate::response::spec_decode_chunked;
use crate::response::spec_entries;
use crate::response::spec_find_nl;
use crate::response::spec_find_sep;
use crate::response::spec_header_entry;
use crate::response::spec_lines;
use crate::response::spec_parse_headers;
use crate::response::spec_status_val;
use crate::response::spec_strip_cr;
use crate::response::spec_parse_hex;
use crate::response::spec_te;
use crate::response::spec_te_line;
use crate::transports::spec_find_sub;
use crate::transports::spec_find_sub_from;
use crate::transports::spec_sub_at;
use crate::transports::spec_terminal_bytes;
use vstd::utf8::decode_utf8;
use vstd::utf8::encode_utf8;
use vstd::utf8::valid_utf8;

verus! {

/// How the transfer-encoding flag of a line list decomposes: the first
/// line, then the rest.
proof fn lemma_te_cons(ls: Seq<Seq<char>>)
    requires
        ls.len() > 0,
    ensures
        spec_te(ls) == (if spec_te_line(ls.first()) || spec_te(ls.drop_first())
            == TransferEncoding::Chunked {
            TransferEncoding::Chunked
        } else {
            TransferEncoding::Normal
        }),
{
    let rest = ls.drop_first();
    if spec_te_line(ls.first()) {
        assert(spec_te_line(ls[0]));
        assert(spec_te(ls) == TransferEncoding::Chunked);
    } else if spec_te(rest) == TransferEncoding::Chunked {
        let k = choose|k: int| 0 <= k < rest.len() && #[trigger] spec_te_line(rest[k]);
        assert(rest[k] == ls[k + 1]);
        assert(spec_te_line(ls[k + 1]));
        assert(spec_te(ls) == TransferEncoding::Chunked);
    } else {
        if exists|k: int| 0 <= k < ls.len() && #[trigger] spec_te_line(ls[k]) {
            let k = choose|k: int| 0 <= k < ls.len() && #[trigger] spec_te_line(ls[k]);
            if k == 0 {
                assert(spec_te_line(ls.first()));
            } else {
                assert(ls[k] == rest[k - 1]);
                assert(spec_te_line(rest[k - 1]));
                assert(spec_te(rest) == TransferEncoding::Chunked);
            }
            assert(false);
        }
        assert(spec_te(ls) == TransferEncoding::Normal);
    }
}

/// A line without the `": "` separator is skipped: the headers and the
/// transfer encoding read from the surrounding lines are exactly those
/// read with the line left out.
pub proof fn lemma_malformed_line_skipped(pre: Seq<Seq<char>>, bad: Seq<char>, post: Seq<Seq<char>>)
    requires
        spec_header_entry(bad) is None,
    ensures
        spec_entries(pre + seq![bad] + post) == spec_entries(pre + post),
        spec_te(pre + seq![bad] + post) == spec_te(pre + post),
    decreases pre.len(),
{
    if pre.len() == 0 {
        let l = pre + seq![bad] + post;
        assert(l =~~= seq![bad] + post);
        assert(pre + post =~~= post);
        assert(l.len() > 0);
        assert(l.first() == bad);
        assert(l.drop_first() =~~= post);
        assert(spec_entries(l) == spec_entries(post));
        lemma_te_cons(l);
        assert(!spec_te_line(bad));
        assert(spec_te(l) == spec_te(post));
    } else {
        let a = pre.first();
        let l = pre + seq![bad] + post;
        let m = pre + post;
        assert(l.len() > 0 && m.len() > 0);
        assert(l.first() == a);
        assert(m.first() == a);
        assert(l.drop_first() =~~= pre.drop_first() + seq![bad] + post);
        assert(m.drop_first() =~~= pre.drop_first() + post);
        lemma_malformed_line_skipped(pre.drop_first(), bad, post);
        lemma_te_cons(l);
        lemma_te_cons(m);
    }
}

/// Folding unique pairs into an empty map keeps exactly those pairs,
/// in order.
pub proof fn lemma_insert_all_unique(entries: Seq<(Seq<char>, Seq<char>)>)
    requires
        unique_keys(entries),
    ensures
        spec_insert_all(Seq::<(Seq<char>, Seq<char>)>::empty(), entries) == entries,
    decreases entries.len(),
{
    if entries.len() > 0 {
        let es = entries.drop_last();
        let p = entries.last();
        assert(unique_keys(es));
        assert forall|i: int, j: int| 0 <= i < j < es.len() implies es[i].0 != es[j].0 by {
            assert(es[i] == entries[i]);
            assert(es[j] == entries[j]);
        }
        lemma_insert_all_unique(es);
        assert(entries =~~= es.push(p));
        crate::response::lemma_insert_all_push(Seq::<(Seq<char>, Seq<char>)>::empty(), es, p);
        assert forall|j: int| 0 <= j < es.len() implies es[j].0 != p.0 by {
            assert(es[j] == entries[j]);
            assert(entries[j].0 != entries[entries.len() - 1].0);
        }
        crate::headers::lemma_key_index_none(es, p.0);
        assert(spec_insert(es, p.0, p.1) =~~= es.push(p));
    }
}

/// A text where the separator scan finds nothing holds no `": "`.
proof fn lemma_find_sep_none(k: Seq<char>, i: int)
    requires
        0 <= i,
        spec_find_sep(k, i) is None,
    ensures
        forall|j: int| i <= j && j + 2 <= k.len() ==> !(#[trigger] k[j] == ':' && k[j + 1] == ' '),
    decreases k.len() - i,
{
    if i + 2 <= k.len() {
        assert(!(k[i] == ':' && k[i + 1] == ' '));
        lemma_find_sep_none(k, i + 1);
    }
}

/// Scanning a serialized header line finds the separator exactly where
/// the name ends.
proof fn lemma_sep_scan(k: Seq<char>, v: Seq<char>, i: int)
    requires
        0 <= i <= k.len(),
        spec_find_sep(k, 0) is None,
    ensures
        spec_find_sep(k + ": "@ + v, i) == Some(k.len() as int),
    decreases k.len() - i,
{
    reveal_strlit(": ");
    let l = k + ": "@ + v;
    assert(l[k.len() as int] == ':');
    assert(l[k.len() as int + 1] == ' ');
    if i == k.len() {
        assert(spec_find_sep(l, i) == Some(i));
    } else {
        lemma_find_sep_none(k, 0);
        if i + 1 < k.len() {
            assert(l[i] == k[i]);
            assert(l[i + 1] == k[i + 1]);
            assert(!(l[i] == ':' && l[i + 1] == ' '));
        } else {
            assert(l[i + 1] == ':');
            assert(!(l[i] == ':' && l[i + 1] == ' '));
        }
        lemma_sep_scan(k, v, i + 1);
    }
}

/// What parsing a serialized header line recovers: the name and the
/// value it was written from.
proof fn lemma_entry_of_header_line(k: Seq<char>, v: Seq<char>)
    requires
        spec_find_sep(k, 0) is None,
    ensures
        spec_header_entry(k + ": "@ + v) == Some((k, v)),
{
    reveal_strlit(": ");
    let l = k + ": "@ + v;
    lemma_sep_scan(k, v, 0);
    assert(l.subrange(0, k.len() as int) =~= k);
    assert(l.subrange(k.len() as int + 2, l.len() as int) =~= v);
}

/// The newline scan reports the first newline.
proof fn lemma_find_nl_from(w: Seq<char>, i: int, p: int)
    requires
        0 <= i <= p < w.len(),
        forall|j: int| i <= j < p ==> w[j] != '\n',
        w[p] == '\n',
    ensures
        spec_find_nl(w, i) == Some(p),
    decreases p - i,
{
    if i < p {
        lemma_find_nl_from(w, i + 1, p);
    }
}

/// A newline-free stretch closed by CRLF reads as one line before the
/// rest of the text.
proof fn lemma_line_then_rest(l: Seq<char>, rest: Seq<char>)
    requires
        forall|i: int| 0 <= i < l.len() ==> l[i] != '\n',
    ensures
        spec_lines(l + "\r\n"@ + rest) == seq![l] + spec_lines(rest),
{
    reveal_strlit("\r\n");
    let w = l + "\r\n"@ + rest;
    let p = l.len() as int + 1;
    assert(w[p] == '\n');
    assert(w[p - 1] == '\r');
    assert forall|j: int| 0 <= j < p implies w[j] != '\n' by {
        if j < l.len() {
            assert(w[j] == l[j]);
        } else {
            assert(w[j] == '\r');
        }
    }
    lemma_find_nl_from(w, 0, p);
    let seg = w.subrange(0, p);
    assert(seg.len() > 0);
    assert(seg.last() == '\r');
    assert(spec_strip_cr(seg) =~= l);
    assert(w.subrange(p + 1, w.len() as int) =~= rest);
    assert(spec_lines(w) =~~= seq![l] + spec_lines(rest));
}

/// The serialized header block decomposes from the front: the first
/// entry's line, then the rest.
proof fn lemma_header_lines_cons(e: Seq<(Seq<char>, Seq<char>)>)
    requires
        e.len() > 0,
    ensures
        spec_header_lines(e) == spec_header_line(e.first().0, e.first().1) + spec_header_lines(
            e.drop_first(),
        ),
    decreases e.len(),
{
    if e.len() == 1 {
        assert(e.drop_last() =~~= Seq::<(Seq<char>, Seq<char>)>::empty());
        assert(e.drop_first() =~~= Seq::<(Seq<char>, Seq<char>)>::empty());
        assert(e.last() == e.first());
        assert(spec_header_lines(e) =~= spec_header_line(e.first().0, e.first().1)
            + spec_header_lines(e.drop_first()));
    } else {
        let front = e.drop_last();
        assert(front.len() > 0);
        lemma_header_lines_cons(front);
        assert(front.first() == e.first());
        assert(front.drop_first() =~~= e.drop_first().drop_last());
        assert(e.drop_first().len() > 0);
        assert(e.drop_first().last() == e.last());
        assert(spec_header_lines(e.drop_first()) == spec_header_lines(e.drop_first().drop_last())
            + spec_header_line(e.last().0, e.last().1));
        assert(spec_header_lines(e) =~= spec_header_line(e.first().0, e.first().1)
            + spec_header_lines(e.drop_first()));
    }
}

/// A header name fit for the wire: free of newlines, and free of the
/// `": "` separator that would end it early.
pub open spec fn wf_header_name(k: Seq<char>) -> bool {
    (forall|i: int| 0 <= i < k.len() ==> k[i] != '\n') && spec_find_sep(k, 0) is None
}

/// A header value fit for the wire: free of newlines.
pub open spec fn wf_header_value(v: Seq<char>) -> bool {
    forall|i: int| 0 <= i < v.len() ==> v[i] != '\n'
}

/// Parsing the serialized header block recovers exactly the entries it
/// was written from, in order.
proof fn lemma_entries_round(entries: Seq<(Seq<char>, Seq<char>)>)
    requires
        forall|i: int|
            0 <= i < entries.len() ==> #[trigger] wf_header_name(entries[i].0) && wf_header_value(
                entries[i].1,
            ),
    ensures
        spec_entries(spec_lines(spec_header_lines(entries))) == entries,
    decreases entries.len(),
{
    reveal_strlit(": ");
    if entries.len() == 0 {
        assert(spec_header_lines(entries).len() == 0);
        assert(spec_lines(spec_header_lines(entries)) =~~= Seq::<Seq<char>>::empty());
        assert(spec_entries(Seq::<Seq<char>>::empty()) =~= entries);
    } else {
        let k = entries.first().0;
        let v = entries.first().1;
        assert(wf_header_name(entries[0].0) && wf_header_value(entries[0].1));
        let rest = entries.drop_first();
        lemma_header_lines_cons(entries);
        let l = k + ": "@ + v;
        assert forall|i: int| 0 <= i < l.len() implies l[i] != '\n' by {
            if i < k.len() {
                assert(l[i] == k[i]);
            } else if i < k.len() + 2 {
                assert(l[i] == ": "@[i - k.len()]);
            } else {
                assert(l[i] == v[i - k.len() - 2]);
            }
        }
        assert(spec_header_lines(entries) =~= l + "\r\n"@ + spec_header_lines(rest));
        lemma_line_then_rest(l, spec_header_lines(rest));
        assert forall|i: int|
            0 <= i < rest.len() implies #[trigger] wf_header_name(rest[i].0) && wf_header_value(
            rest[i].1,
        ) by {
            assert(rest[i] == entries[i + 1]);
            assert(wf_header_name(entries[i + 1].0) && wf_header_value(entries[i + 1].1));
        }
        lemma_entries_round(rest);
        lemma_entry_of_header_line(k, v);
        let ls = spec_lines(spec_header_lines(entries));
        assert(ls =~~= seq![l] + spec_lines(spec_header_lines(rest)));
        assert(ls.first() == l);
        assert(ls.drop_first() =~~= spec_lines(spec_header_lines(rest)));
        assert(spec_entries(ls) =~~= seq![(k, v)] + rest);
        assert(seq![(k, v)] + rest =~~= entries);
    }
}

/// Serializing a header map and parsing the result round-trips every
/// pair: for any well-formed status line and any header map with
/// unique, wire-safe names and values, the parsed header block holds
/// exactly the serialized entries, and folding them into an empty map
/// gives the map back.
pub proof fn lemma_serialize_parse_headers(
    status: Seq<char>,
    c: u32,
    entries: Seq<(Seq<char>, Seq<char>)>,
)
    requires
        status.len() >= 8,
        status.subrange(0, 8) == "HTTP/1.1"@,
        forall|i: int| 0 <= i < status.len() ==> status[i] != '\n',
        spec_status_val(status) == Some(c),
        unique_keys(entries),
        forall|i: int|
            0 <= i < entries.len() ==> #[trigger] wf_header_name(entries[i].0) && wf_header_value(
                entries[i].1,
            ),
    ensures
        ({
            let text = status + "\r\n"@ + spec_header_lines(entries);
            let bytes = encode_utf8(text);
            &&& valid_utf8(bytes)
            &&& decode_utf8(bytes) == text
            &&& spec_parse_headers(text) matches Ok(o) && o.0 == ResponseCode::spec_from_int(c)
                && o.1 == entries
            &&& spec_insert_all(Seq::<(Seq<char>, Seq<char>)>::empty(), entries) == entries
        }),
{
    let h = spec_header_lines(entries);
    let text = status + "\r\n"@ + h;
    let bytes = encode_utf8(text);
    vstd::utf8::encode_utf8_valid_utf8(text);
    vstd::utf8::encode_utf8_decode_utf8(text);
    lemma_line_then_rest(status, h);
    let lines = spec_lines(text);
    assert(lines == seq![status] + spec_lines(h));
    assert(lines[0] == status);
    assert(text.len() >= status.len());
    assert forall|i: int| 0 <= i < 8 implies text.subrange(0, 8)[i] == status.subrange(0, 8)[i] by {
        assert(text[i] == status[i]);
    }
    assert(text.subrange(0, 8) =~= status.subrange(0, 8));
    assert(spec_status_val(lines[0]) == Some(c));
    lemma_entries_round(entries);
    assert(lines.drop_first() =~~= spec_lines(h));
    assert(spec_entries(lines.drop_first()) == entries);
    assert(spec_parse_headers(text) matches Ok(o) && o.0 == ResponseCode::spec_from_int(c) && o.1
        == entries);
    lemma_insert_all_unique(entries);
}

/// Powers of sixteen.
spec fn pow16(n: nat) -> nat
    decreases n,
{
    if n == 0 {
        1
    } else {
        16 * pow16((n - 1) as nat)
    }
}

/// A token of hexadecimal digits denotes less than sixteen to the
/// power of its length.
proof fn lemma_hex_val_bound(s: Seq<u8>)
    requires
        all_hex_digits(s),
    ensures
        hex_val(s) < pow16(s.len()),
    decreases s.len(),
{
    if s.len() > 0 {
        let front = s.drop_last();
        assert forall|i: int| 0 <= i < front.len() implies is_hex_digit(front[i]) by {
            assert(front[i] == s[i]);
        }
        lemma_hex_val_bound(front);
        assert(is_hex_digit(s.last()));
        assert(hex_digit_val(s.last()) < 16);
    }
}

/// The scan reports the first occurrence.
proof fn lemma_find_sub_first_hit(l: Seq<u8>, s: Seq<u8>, i: int, p: int)
    requires
        0 <= i <= p,
        p + s.len() <= l.len(),
        spec_sub_at(l, s, p),
        forall|k: int| i <= k < p ==> !spec_sub_at(l, s, k),
    ensures
        spec_find_sub_from(l, s, i) == Some(p + s.len()),
    decreases p - i,
{
    if i < p {
        lemma_find_sub_first_hit(l, s, i + 1, p);
    }
}

/// One well-formed chunk decodes: a size token of up to six
/// hexadecimal digits, its CRLF, exactly that many payload bytes and
/// the closing CRLF yield the payload, and decoding continues with
/// whatever follows.
pub proof fn lemma_chunk_step(tok: Seq<u8>, payload: Seq<u8>, rest: Seq<u8>)
    requires
        1 <= tok.len() <= 6,
        all_hex_digits(tok),
        payload.len() == hex_val(tok),
        tok + seq![13u8, 10u8] + payload + seq![13u8, 10u8] + rest != spec_terminal_bytes(),
    ensures
        ({
            let data = tok + seq![13u8, 10u8] + payload + seq![13u8, 10u8] + rest;
            spec_decode_chunked(data) == (
                payload + spec_decode_chunked(rest).0,
                spec_decode_chunked(rest).1,
            )
        }),
{
    let crlf = seq![13u8, 10u8];
    let data = tok + crlf + payload + crlf + rest;
    let tl = tok.len() as int;
    assert(data.len() == tl + 4 + payload.len() + rest.len());
    let w: int = if data.len() < 8 {
        data.len() as int
    } else {
        8
    };
    assert(tl + 2 <= w);
    let win = data.subrange(0, w);
    assert(data[tl] == 13u8);
    assert(data[tl + 1] == 10u8);
    assert(win.subrange(tl, tl + 2) =~= crlf);
    assert(spec_sub_at(win, crlf, tl));
    assert forall|k: int| 0 <= k < tl implies !spec_sub_at(win, crlf, k) by {
        assert(win.subrange(k, k + 2)[0] == win[k]);
        assert(win[k] == tok[k]);
        assert(is_hex_digit(tok[k]));
    }
    lemma_find_sub_first_hit(win, crlf, 0, tl);
    assert(spec_find_sub(win, crlf) == Some(tl + 2));
    assert(data.subrange(0, tl) =~= tok);
    lemma_hex_val_bound(tok);
    assert(pow16(0) == 1);
    assert(pow16(1) == 16);
    assert(pow16(2) == 256);
    assert(pow16(3) == 4096);
    assert(pow16(4) == 65536);
    assert(pow16(5) == 1048576);
    assert(pow16(6) == 16777216);
    assert(pow16(tok.len()) <= 16777216);
    assert(hex_val(tok) <= usize::MAX);
    assert(is_hex_digit(tok[0]));
    assert(tok[0] != 43u8);
    assert(spec_parse_hex(tok) == Some((hex_val(tok) as usize)));
    let off = tl + 2;
    let n = hex_val(tok) as usize;
    assert(2 <= off && off + n + 2 <= data.len());
    assert(data.subrange(off, off + n) =~= payload);
    assert(data.subrange(off + n + 2, data.len() as int) =~= rest);
}

} // verus!
