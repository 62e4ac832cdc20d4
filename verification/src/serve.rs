//! The read-only HTTP API: the request line, its query parameters and
//! percent-decoding, where a request is routed, what `/models` was asked
//! for, and the head of a response.
//!
//! The server loop itself (sockets, timeouts, running the analysis) lives
//! with the application; what a request means is decided here.

use vstd::prelude::*;
use vstd::utf8::{valid_utf8, decode_utf8, encode_utf8};
use crate::text::{is_space, trim_start, upper_seq, chars_of, string_of, upper_vec, is_space_char, parse_u64, parse_nat, str_eq};
use crate::models::{Quant, UseCase, parse_quant, parse_use_case};
use crate::fit::{FitLevel, RunMode, fit_rank, parse_fit, parse_run_mode};
use crate::text::{concat2, dec, dec_string, starts_with};

verus! {

// ---------------------------------------------------------------------------
// Percent-decoding
// ---------------------------------------------------------------------------

/// The text `String::from_utf8_lossy` makes of a byte sequence.
pub uninterp spec fn lossy_text(bytes: Seq<u8>) -> Seq<char>;

/// `String::from_utf8_lossy`: the bytes as text, with every invalid sequence
/// replaced by U+FFFD. Which characters the replacement produces is left to
/// the name `lossy_text`; std documents that valid UTF-8 reads as itself.
#[verifier::external_body]
fn lossy_string(bytes: &[u8]) -> (s: String)
    ensures
        s@ == lossy_text(bytes@),
        valid_utf8(bytes@) ==> s@ == decode_utf8(bytes@),
{
    String::from_utf8_lossy(bytes).into_owned()
}

pub open spec fn hex_byte(b: u8) -> bool {
    (48 <= b <= 57) || (97 <= b <= 102) || (65 <= b <= 70)
}

pub open spec fn hex_byte_value(b: u8) -> nat {
    if 48 <= b <= 57 {
        (b - 48) as nat
    } else if 97 <= b <= 102 {
        (b - 87) as nat
    } else {
        (b - 55) as nat
    }
}

/// What `u8::from_str_radix(_, 16)` makes of the two bytes after a `%`: two
/// hex digits, or a `+` sign and one hex digit.
pub open spec fn escape_value(x: u8, y: u8) -> Option<u8> {
    if hex_byte(x) && hex_byte(y) {
        Some((16 * hex_byte_value(x) + hex_byte_value(y)) as u8)
    } else if x == 43 && hex_byte(y) {
        Some(hex_byte_value(y) as u8)
    } else {
        None
    }
}

/// The bytes after decoding: `%` and a valid escape become one byte, `+`
/// becomes a space, anything else is kept as it is.
pub open spec fn decode_bytes(b: Seq<u8>) -> Seq<u8>
    decreases b.len(),
{
    if b.len() == 0 {
        seq![]
    } else if b[0] == 37 && b.len() > 2 && escape_value(b[1], b[2]) is Some {
        seq![escape_value(b[1], b[2]).unwrap()] + decode_bytes(b.subrange(3, b.len() as int))
    } else if b[0] == 43 {
        seq![32u8] + decode_bytes(b.drop_first())
    } else {
        seq![b[0]] + decode_bytes(b.drop_first())
    }
}

/// The text a percent-encoded string decodes to.
pub open spec fn decoded(s: Seq<char>) -> Seq<char> {
    lossy_text(decode_bytes(encode_utf8(s)))
}

fn hex_value_of(b: u8) -> (r: Option<u8>)
    ensures
        r is Some <==> hex_byte(b),
        r matches Some(v) ==> v == hex_byte_value(b),
{
    if 48 <= b && b <= 57 {
        Some(b - 48)
    } else if 97 <= b && b <= 102 {
        Some(b - 87)
    } else if 65 <= b && b <= 70 {
        Some(b - 55)
    } else {
        None
    }
}

fn escape(x: u8, y: u8) -> (r: Option<u8>)
    ensures
        r == escape_value(x, y),
{
    match (hex_value_of(x), hex_value_of(y)) {
        (Some(a), Some(b)) => Some(16 * a + b),
        (None, Some(b)) => if x == 43 {
            Some(b)
        } else {
            None
        },
        _ => None,
    }
}

/// Bytes with no `%` and no `+` decode to themselves.
proof fn lemma_plain_bytes_decode_to_themselves(b: Seq<u8>)
    requires
        forall|i: int| 0 <= i < b.len() ==> b[i] != 37 && b[i] != 43,
    ensures
        decode_bytes(b) == b,
    decreases b.len(),
{
    if b.len() > 0 {
        lemma_plain_bytes_decode_to_themselves(b.drop_first());
        assert(seq![b[0]] + b.drop_first() =~= b);
    }
}

/// Minimal percent-decoding, plus `+` for a space. Text with neither a `%`
/// nor a `+` reads as itself.
pub fn percent_decode(input: &str) -> (r: String)
    ensures
        r@ == decoded(input@),
        valid_utf8(decode_bytes(encode_utf8(input@))) ==> r@ == decode_utf8(decode_bytes(encode_utf8(input@))),
        (forall|i: int| 0 <= i < encode_utf8(input@).len() ==> encode_utf8(input@)[i] != 37 && encode_utf8(input@)[i] != 43)
            ==> r@ == input@,
{
    let bytes = input.as_bytes();
    let ghost b = bytes@;
    let mut out: Vec<u8> = Vec::new();
    let mut i: usize = 0;
    assert(b.subrange(0, b.len() as int) =~= b);
    while i < bytes.len()
        invariant
            i <= bytes.len(),
            b == bytes@,
            out@ + decode_bytes(b.subrange(i as int, b.len() as int)) == decode_bytes(b),
        decreases bytes.len() - i,
    {
        let ghost rest = b.subrange(i as int, b.len() as int);
        let c = bytes[i];
        if c == 37 && bytes.len() - i > 2 {
            match escape(bytes[i + 1], bytes[i + 2]) {
                Some(v) => {
                    proof {
                        assert(rest[1] == b[i + 1] && rest[2] == b[i + 2]);
                        assert(rest.subrange(3, rest.len() as int) =~= b.subrange(i + 3, b.len() as int));
                        assert(out@.push(v) + decode_bytes(b.subrange(i + 3, b.len() as int)) =~= out@ + decode_bytes(rest));
                    }
                    out.push(v);
                    i = i + 3;
                    continue;
                },
                None => {},
            }
        }
        let d: u8 = if c == 43 { 32 } else { c };
        proof {
            assert(rest[0] == c);
            if c == 37 && bytes.len() - i > 2 {
                assert(rest[1] == b[i + 1] && rest[2] == b[i + 2]);
            }
            assert(rest.drop_first() =~= b.subrange(i + 1, b.len() as int));
            assert(out@.push(d) + decode_bytes(b.subrange(i + 1, b.len() as int)) =~= out@ + decode_bytes(rest));
        }
        out.push(d);
        i = i + 1;
    }
    proof {
        assert(b.subrange(i as int, b.len() as int) =~= seq![]);
        assert(out@ =~= out@ + decode_bytes(b.subrange(i as int, b.len() as int)));
        if forall|i: int| 0 <= i < encode_utf8(input@).len() ==> encode_utf8(input@)[i] != 37 && encode_utf8(input@)[i] != 43 {
            lemma_plain_bytes_decode_to_themselves(b);
            vstd::utf8::encode_utf8_valid_utf8(input@);
            vstd::utf8::encode_utf8_decode_utf8(input@);
        }
    }
    lossy_string(out.as_slice())
}


// ---------------------------------------------------------------------------
// The request line
// ---------------------------------------------------------------------------

/// Length of the run of non-whitespace that `s` starts with.
pub open spec fn word_len(s: Seq<char>) -> nat
    decreases s.len(),
{
    if s.len() == 0 || is_space(s[0]) {
        0
    } else {
        1 + word_len(s.drop_first())
    }
}

/// The first whitespace-separated word of `s`, and what follows it.
pub open spec fn next_word(s: Seq<char>) -> Option<(Seq<char>, Seq<char>)> {
    let t = trim_start(s);
    if t.len() == 0 {
        None
    } else {
        Some((t.take(word_len(t) as int), t.skip(word_len(t) as int)))
    }
}

/// Index of the first `c` in `s`.
pub open spec fn find_char(s: Seq<char>, c: char) -> Option<nat>
    decreases s.len(),
{
    if s.len() == 0 {
        None
    } else if s[0] == c {
        Some(0)
    } else {
        match find_char(s.drop_first(), c) {
            Some(i) => Some(i + 1),
            None => None,
        }
    }
}

/// `find_char` finds the first occurrence of `c`, and `None` means there is none.
pub proof fn lemma_find_char(s: Seq<char>, c: char)
    ensures
        find_char(s, c) matches Some(i) ==> i < s.len() && s[i as int] == c && forall|j: int| 0 <= j < i ==> s[j] != c,
        find_char(s, c) is None ==> forall|j: int| 0 <= j < s.len() ==> s[j] != c,
    decreases s.len(),
{
    if s.len() > 0 {
        lemma_find_char(s.drop_first(), c);
        if s[0] != c {
            assert forall|j: int| 1 <= j < s.len() implies s[j] == s.drop_first()[j - 1] by {}
        }
    }
}

/// `str::split_once`: the parts before and after the first `c`.
pub open spec fn split_once(s: Seq<char>, c: char) -> Option<(Seq<char>, Seq<char>)> {
    match find_char(s, c) {
        Some(i) => Some((s.take(i as int), s.skip(i as int + 1))),
        None => None,
    }
}

/// `str::trim_end_matches` with one character.
pub open spec fn trim_end_char(s: Seq<char>, c: char) -> Seq<char>
    decreases s.len(),
{
    if s.len() > 0 && s.last() == c {
        trim_end_char(s.drop_last(), c)
    } else {
        s
    }
}

/// A query parameter as written: `key=value`, or a bare `key` with an empty value.
pub open spec fn query_pair(p: Seq<char>) -> (Seq<char>, Seq<char>) {
    match split_once(p, '=') {
        Some(kv) => kv,
        None => (p, seq![]),
    }
}

pub open spec fn pair_of(p: Seq<char>) -> Seq<(Seq<char>, Seq<char>)> {
    if p.len() == 0 {
        seq![]
    } else {
        seq![query_pair(p)]
    }
}

/// The parameters of a query string, in order, undecoded: the `&`-separated
/// pieces that are not empty.
pub open spec fn query_entries(q: Seq<char>) -> Seq<(Seq<char>, Seq<char>)>
    decreases q.len(),
{
    proof {
        lemma_find_char(q, '&');
    }
    match find_char(q, '&') {
        None => pair_of(q),
        Some(i) => pair_of(q.take(i as int)) + query_entries(q.skip(i as int + 1)),
    }
}

/// A request line taken apart but not yet decoded: the method in upper case,
/// the path without trailing slashes, and the query's parameters.
pub open spec fn raw_request(line: Seq<char>) -> Result<
    (Seq<char>, Seq<char>, Seq<(Seq<char>, Seq<char>)>),
    Seq<char>,
> {
    match next_word(line) {
        None => Err("malformed request line"@),
        Some((m, rest)) => match next_word(rest) {
            None => Err("malformed request line: no target"@),
            Some((target, _)) => {
                let (rp, entries) = match split_once(target, '?') {
                    Some((p, q)) => (p, query_entries(q)),
                    None => (target, seq![]),
                };
                Ok((upper_seq(m), trim_end_char(rp, '/'), entries))
            },
        },
    }
}

/// A parsed request. A parameter given twice keeps its last value.
#[derive(Debug, Clone, PartialEq, Eq)]
pub struct Request {
    pub method: String,
    pub path: String,
    pub query: Vec<(String, String)>,
}

pub open spec fn pairs_view(v: Seq<(String, String)>) -> Seq<(Seq<char>, Seq<char>)> {
    v.map_values(|e: (String, String)| (e.0@, e.1@))
}

/// The value a key was given last.
pub open spec fn param(ps: Seq<(Seq<char>, Seq<char>)>, k: Seq<char>) -> Option<Seq<char>>
    decreases ps.len(),
{
    if ps.len() == 0 {
        None
    } else if ps.last().0 == k {
        Some(ps.last().1)
    } else {
        param(ps.drop_last(), k)
    }
}

pub open spec fn decode_pair(e: (Seq<char>, Seq<char>)) -> (Seq<char>, Seq<char>) {
    (decoded(e.0), decoded(e.1))
}

/// What a request line parses to.
pub open spec fn request_of(line: Seq<char>, r: Request) -> bool {
    match raw_request(line) {
        Err(_) => false,
        Ok((m, p, es)) => {
            &&& r.method@ == m
            &&& r.path@ == if p.len() == 0 {
                "/"@
            } else {
                decoded(p)
            }
            &&& pairs_view(r.query@) == es.map_values(|e: (Seq<char>, Seq<char>)| decode_pair(e))
        },
    }
}

proof fn lemma_trim_start_skip(s: Seq<char>, i: int)
    requires
        0 <= i < s.len(),
        is_space(s[i]),
    ensures
        trim_start(s.skip(i)) == trim_start(s.skip(i + 1)),
{
    assert(s.skip(i).drop_first() =~= s.skip(i + 1));
}

proof fn lemma_word_len_skip(s: Seq<char>, i: int)
    requires
        0 <= i < s.len(),
        !is_space(s[i]),
    ensures
        word_len(s.skip(i)) == 1 + word_len(s.skip(i + 1)),
{
    assert(s.skip(i).drop_first() =~= s.skip(i + 1));
}

/// Where the next word of `v[from..]` starts and ends.
fn next_word_at(v: &[char], from: usize) -> (r: Option<(usize, usize)>)
    requires
        from <= v.len(),
    ensures
        r is None ==> next_word(v@.skip(from as int)) is None,
        r matches Some((a, b)) ==> from <= a < b <= v.len() && next_word(v@.skip(from as int)) == Some(
            (v@.subrange(a as int, b as int), v@.skip(b as int)),
        ),
{
    let mut a = from;
    while a < v.len() && is_space_char(v[a])
        invariant
            from <= a <= v.len(),
            trim_start(v@.skip(from as int)) == trim_start(v@.skip(a as int)),
        decreases v.len() - a,
    {
        proof {
            lemma_trim_start_skip(v@, a as int);
        }
        a = a + 1;
    }
    if a == v.len() {
        assert(v@.skip(a as int) =~= seq![]);
        return None;
    }
    assert(v@.skip(a as int)[0] == v@[a as int]);
    assert(trim_start(v@.skip(a as int)) == v@.skip(a as int));
    let mut b = a;
    while b < v.len() && !is_space_char(v[b])
        invariant
            a <= b <= v.len(),
            word_len(v@.skip(a as int)) == (b - a) + word_len(v@.skip(b as int)),
        decreases v.len() - b,
    {
        proof {
            lemma_word_len_skip(v@, b as int);
        }
        b = b + 1;
    }
    proof {
        if b < v.len() {
            assert(v@.skip(b as int)[0] == v@[b as int]);
        }
        assert(word_len(v@.skip(b as int)) == 0);
        let t = v@.skip(a as int);
        assert(t.take((b - a) as int) =~= v@.subrange(a as int, b as int));
        assert(t.skip((b - a) as int) =~= v@.skip(b as int));
    }
    Some((a, b))
}

proof fn lemma_find_char_skip(s: Seq<char>, i: int, c: char)
    requires
        0 <= i < s.len(),
        s[i] != c,
    ensures
        find_char(s.skip(i), c) == match find_char(s.skip(i + 1), c) {
            Some(j) => Some(j + 1),
            None => None::<nat>,
        },
{
    assert(s.skip(i).drop_first() =~= s.skip(i + 1));
}

/// Index of the first `c` in `v[from..to]`, as an index into `v`.
pub(crate) fn find_in(v: &[char], from: usize, to: usize, c: char) -> (r: Option<usize>)
    requires
        from <= to <= v.len(),
    ensures
        r is None ==> find_char(v@.subrange(from as int, to as int), c) is None,
        r matches Some(i) ==> from <= i < to && find_char(v@.subrange(from as int, to as int), c) == Some((i - from) as nat),
{
    let ghost w = v@.subrange(from as int, to as int);
    let mut i = from;
    assert(w.skip(0) =~= w);
    while i < to
        invariant
            from <= i <= to,
            to <= v.len(),
            w == v@.subrange(from as int, to as int),
            find_char(w, c) == match find_char(w.skip(i - from), c) {
                Some(j) => Some((j + (i - from)) as nat),
                None => None::<nat>,
            },
        decreases to - i,
    {
        assert(w[i - from] == v@[i as int]);
        if v[i] == c {
            assert(w.skip(i - from)[0] == c);
            return Some(i);
        }
        proof {
            lemma_find_char_skip(w, i - from, c);
        }
        i = i + 1;
    }
    assert(w.skip(i - from) =~= seq![]);
    None
}

pub open spec fn chars_pairs(v: Seq<(Vec<char>, Vec<char>)>) -> Seq<(Seq<char>, Seq<char>)> {
    v.map_values(|e: (Vec<char>, Vec<char>)| (e.0@, e.1@))
}

fn piece(v: &[char], a: usize, b: usize) -> (r: Vec<char>)
    requires
        a <= b <= v.len(),
    ensures
        r@ == v@.subrange(a as int, b as int),
{
    vstd::slice::slice_to_vec(vstd::slice::slice_subrange(v, a, b))
}

fn pair_at(v: &[char], a: usize, b: usize) -> (r: (Vec<char>, Vec<char>))
    requires
        a <= b <= v.len(),
    ensures
        (r.0@, r.1@) == query_pair(v@.subrange(a as int, b as int)),
{
    let ghost p = v@.subrange(a as int, b as int);
    match find_in(v, a, b, '=') {
        Some(i) => {
            assert(p.take(i - a) =~= v@.subrange(a as int, i as int));
            assert(p.skip(i - a + 1) =~= v@.subrange(i + 1, b as int));
            (piece(v, a, i), piece(v, i + 1, b))
        },
        None => (piece(v, a, b), Vec::new()),
    }
}

/// The parameters of the query string `v[from..to]`, undecoded.
fn entries_in(v: &[char], from: usize, to: usize) -> (r: Vec<(Vec<char>, Vec<char>)>)
    requires
        from <= to <= v.len(),
    ensures
        chars_pairs(r@) == query_entries(v@.subrange(from as int, to as int)),
{
    let mut out: Vec<(Vec<char>, Vec<char>)> = Vec::new();
    let mut start = from;
    assert(chars_pairs(out@) =~= seq![]);
    loop
        invariant
            from <= start <= to,
            to <= v.len(),
            chars_pairs(out@) + query_entries(v@.subrange(start as int, to as int)) == query_entries(v@.subrange(from as int, to as int)),
        decreases to - start,
    {
        let ghost sub = v@.subrange(start as int, to as int);
        match find_in(v, start, to, '&') {
            None => {
                let ghost before = chars_pairs(out@);
                if start < to {
                    let pr = pair_at(v, start, to);
                    out.push(pr);
                    assert(chars_pairs(out@) =~= before + pair_of(sub));
                } else {
                    assert(pair_of(sub) =~= seq![]);
                    assert(before + pair_of(sub) =~= before);
                }
                return out;
            },
            Some(i) => {
                let ghost before = chars_pairs(out@);
                let ghost head = v@.subrange(start as int, i as int);
                assert(sub.take(i - start) =~= head);
                assert(sub.skip(i - start + 1) =~= v@.subrange(i + 1, to as int));
                if start < i {
                    let pr = pair_at(v, start, i);
                    out.push(pr);
                    assert(chars_pairs(out@) =~= before + pair_of(head));
                } else {
                    assert(pair_of(head) =~= seq![]);
                    assert(before + pair_of(head) =~= before);
                }
                assert(chars_pairs(out@) + query_entries(v@.subrange(i + 1, to as int)) =~= before + query_entries(sub));
                start = i + 1;
            },
        }
    }
}

/// `trim_end_char(v[a..b], c)` as the end index it leaves.
fn trim_end_at(v: &[char], a: usize, b: usize, c: char) -> (r: usize)
    requires
        a <= b <= v.len(),
    ensures
        a <= r <= b,
        v@.subrange(a as int, r as int) == trim_end_char(v@.subrange(a as int, b as int), c),
{
    let mut e = b;
    while e > a && v[e - 1] == c
        invariant
            a <= e <= b,
            b <= v.len(),
            trim_end_char(v@.subrange(a as int, b as int), c) == trim_end_char(v@.subrange(a as int, e as int), c),
        decreases e,
    {
        assert(v@.subrange(a as int, e as int).drop_last() =~= v@.subrange(a as int, e - 1));
        e = e - 1;
    }
    proof {
        if e > a {
            assert(v@.subrange(a as int, e as int).last() == v@[e - 1]);
        }
    }
    e
}

/// A request line taken apart, before anything is decoded.
fn raw_parts(line: &str) -> (r: Result<(Vec<char>, Vec<char>, Vec<(Vec<char>, Vec<char>)>), String>)
    ensures
        r matches Err(e) ==> raw_request(line@) == Err::<(Seq<char>, Seq<char>, Seq<(Seq<char>, Seq<char>)>), Seq<char>>(e@),
        r matches Ok((m, p, es)) ==> raw_request(line@) == Ok::<(Seq<char>, Seq<char>, Seq<(Seq<char>, Seq<char>)>), Seq<char>>((m@, p@, chars_pairs(es@))),
{
    let v = chars_of(line);
    assert(v@.skip(0) =~= v@);
    let (a, b) = match next_word_at(v.as_slice(), 0) {
        Some(x) => x,
        None => {
            return Err("malformed request line".to_owned());
        },
    };
    let (c, d) = match next_word_at(v.as_slice(), b) {
        Some(x) => x,
        None => {
            return Err("malformed request line: no target".to_owned());
        },
    };
    let method = upper_vec(piece(v.as_slice(), a, b).as_slice());
    let ghost target = v@.subrange(c as int, d as int);
    let (path_end, entries) = match find_in(v.as_slice(), c, d, '?') {
        Some(i) => {
            assert(target.take(i - c) =~= v@.subrange(c as int, i as int));
            assert(target.skip(i - c + 1) =~= v@.subrange(i + 1, d as int));
            (i, entries_in(v.as_slice(), i + 1, d))
        },
        None => {
            let none: Vec<(Vec<char>, Vec<char>)> = Vec::new();
            assert(chars_pairs(none@) =~= seq![]);
            (d, none)
        },
    };
    let e = trim_end_at(v.as_slice(), c, path_end, '/');
    let path = piece(v.as_slice(), c, e);
    Ok((method, path, entries))
}

/// Parse an HTTP request line: the method (upper-cased), the path with any
/// trailing slashes removed (`/` when nothing is left), and the query
/// parameters, all percent-decoded.
pub fn parse_request_line(line: &str) -> (r: Result<Request, String>)
    ensures
        r is Err <==> raw_request(line@) is Err,
        r matches Err(e) ==> raw_request(line@) == Err::<(Seq<char>, Seq<char>, Seq<(Seq<char>, Seq<char>)>), Seq<char>>(e@),
        r matches Ok(req) ==> request_of(line@, req),
{
    let (method, path, entries) = match raw_parts(line) {
        Ok(x) => x,
        Err(e) => {
            return Err(e);
        },
    };
    let ghost es = chars_pairs(entries@);
    assert(raw_request(line@) == Ok::<(Seq<char>, Seq<char>, Seq<(Seq<char>, Seq<char>)>), Seq<char>>((method@, path@, es)));
    let mut query: Vec<(String, String)> = Vec::new();
    let mut i: usize = 0;
    assert(pairs_view(query@) =~= es.subrange(0, 0).map_values(|e: (Seq<char>, Seq<char>)| decode_pair(e)));
    while i < entries.len()
        invariant
            i <= entries.len(),
            es == chars_pairs(entries@),
            pairs_view(query@) == es.subrange(0, i as int).map_values(|e: (Seq<char>, Seq<char>)| decode_pair(e)),
        decreases entries.len() - i,
    {
        assert(es[i as int] == (entries@[i as int].0@, entries@[i as int].1@));
        let k = string_of(entries[i].0.as_slice());
        let val = string_of(entries[i].1.as_slice());
        assert(es[i as int].0 == k@ && es[i as int].1 == val@);
        let dk = percent_decode(k.as_str());
        let dv = percent_decode(val.as_str());
        let ghost before = pairs_view(query@);
        assert(dk@ == decoded(es[i as int].0));
        assert(dv@ == decoded(es[i as int].1));
        query.push((dk, dv));
        proof {
            let f = |e: (Seq<char>, Seq<char>)| decode_pair(e);
            assert(es.subrange(0, i + 1).map_values(f) =~= es.subrange(0, i as int).map_values(f).push(f(es[i as int])));
            assert(pairs_view(query@) =~= before.push((dk@, dv@)));
        }
        i = i + 1;
    }
    assert(es.subrange(0, i as int) =~= es);
    let path = if path.len() == 0 {
        "/".to_owned()
    } else {
        let raw = string_of(path.as_slice());
        percent_decode(raw.as_str())
    };
    Ok(Request { method: string_of(method.as_slice()), path, query })
}


/// A parameter's value when it was given one; an empty value reads as absent.
pub open spec fn present(r: Request, k: Seq<char>) -> Option<Seq<char>> {
    match param(pairs_view(r.query@), k) {
        Some(v) => if v.len() > 0 {
            Some(v)
        } else {
            None
        },
        None => None,
    }
}

/// A parameter read as an unsigned number no larger than `max`.
pub open spec fn number(v: Option<Seq<char>>, max: nat) -> Option<nat> {
    match v {
        Some(t) => match parse_nat(t) {
            Some(x) => if x <= max {
                Some(x)
            } else {
                None
            },
            None => None,
        },
        None => None,
    }
}

/// The `limit` parameter, or `n` when `limit` is absent, as a count.
pub open spec fn limit_of(r: Request) -> Option<nat> {
    number(
        if present(r, "limit"@) is Some {
            present(r, "limit"@)
        } else {
            present(r, "n"@)
        },
        usize::MAX as nat,
    )
}

impl Request {
    /// Index of the entry holding the value a key was given last.
    fn position(&self, key: &str) -> (r: Option<usize>)
        ensures
            r is None ==> param(pairs_view(self.query@), key@) is None,
            r matches Some(i) ==> i < self.query.len() && param(pairs_view(self.query@), key@) == Some(self.query@[i as int].1@),
    {
        let ghost ps = pairs_view(self.query@);
        let mut i: usize = self.query.len();
        assert(ps.subrange(0, i as int) =~= ps);
        while i > 0
            invariant
                i <= self.query.len(),
                ps == pairs_view(self.query@),
                param(ps, key@) == param(ps.subrange(0, i as int), key@),
            decreases i,
        {
            let ghost sub = ps.subrange(0, i as int);
            assert(sub.last() == (self.query@[i - 1].0@, self.query@[i - 1].1@));
            assert(sub.drop_last() =~= ps.subrange(0, i - 1));
            if str_eq(self.query[i - 1].0.as_str(), key) {
                return Some(i - 1);
            }
            i = i - 1;
        }
        assert(ps.subrange(0, 0) =~= seq![]);
        None
    }

    /// A parameter's value; a parameter given with an empty value is absent.
    pub fn get(&self, key: &str) -> (r: Option<&str>)
        ensures
            r is None ==> present(*self, key@) is None,
            r matches Some(v) ==> present(*self, key@) == Some(v@),
    {
        match self.position(key) {
            None => None,
            Some(i) => {
                let v = self.query[i].1.as_str();
                if v.unicode_len() == 0 {
                    None
                } else {
                    Some(v)
                }
            },
        }
    }

    /// A parameter that is true when present, unless it says `false`, `0` or `no`.
    pub fn flag(&self, key: &str) -> (r: bool)
        ensures
            r == match param(pairs_view(self.query@), key@) {
                None => false,
                Some(v) => !(v == "false"@ || v == "0"@ || v == "no"@),
            },
    {
        match self.position(key) {
            None => false,
            Some(i) => {
                let v = self.query[i].1.as_str();
                !(str_eq(v, "false") || str_eq(v, "0") || str_eq(v, "no"))
            },
        }
    }

    /// How many results were asked for, by `limit` or its short form `n`.
    pub fn limit(&self) -> (r: Option<usize>)
        ensures
            r matches Some(n) ==> limit_of(*self) == Some(n as nat),
            r is None ==> limit_of(*self) is None,
    {
        let raw = match self.get("limit") {
            Some(v) => Some(v),
            None => self.get("n"),
        };
        match raw {
            None => None,
            Some(v) => match parse_u64(chars_of(v).as_slice()) {
                Some(x) => if x <= usize::MAX as u64 {
                    Some(x as usize)
                } else {
                    None
                },
                None => None,
            },
        }
    }

    /// The largest context the caller wants considered.
    pub fn max_context(&self) -> (r: Option<u32>)
        ensures
            r matches Some(n) ==> number(present(*self, "max_context"@), u32::MAX as nat) == Some(n as nat),
            r is None ==> number(present(*self, "max_context"@), u32::MAX as nat) is None,
    {
        self.tokens("max_context")
    }

    /// The `min_context` parameter as a token count.
    pub fn min_context(&self) -> (r: Option<u32>)
        ensures
            r matches Some(n) ==> number(present(*self, "min_context"@), u32::MAX as nat) == Some(n as nat),
            r is None ==> number(present(*self, "min_context"@), u32::MAX as nat) is None,
    {
        self.tokens("min_context")
    }

    /// A parameter read as a token count; `None` when it is absent, blank,
    /// not a number or too large.
    fn tokens(&self, key: &str) -> (r: Option<u32>)
        ensures
            r matches Some(n) ==> number(present(*self, key@), u32::MAX as nat) == Some(n as nat),
            r is None ==> number(present(*self, key@), u32::MAX as nat) is None,
    {
        match self.get(key) {
            None => None,
            Some(v) => match parse_u64(chars_of(v).as_slice()) {
                Some(x) => if x <= u32::MAX as u64 {
                    Some(x as u32)
                } else {
                    None
                },
                None => None,
            },
        }
    }

    /// The use case asked for, or `fallback` when none was.
    pub fn use_case(&self, fallback: UseCase) -> (r: Result<UseCase, String>)
        ensures
            present(*self, "use_case"@) is None ==> r == Ok::<UseCase, String>(fallback),
            present(*self, "use_case"@) matches Some(raw) ==> match parse_use_case(raw) {
                Some(u) => r == Ok::<UseCase, String>(u),
                None => r matches Err(e) && e@ == "unknown use case '"@ + raw + "'"@,
            },
    {
        match self.get("use_case") {
            None => Ok(fallback),
            Some(raw) => match UseCase::parse(raw) {
                Some(u) => Ok(u),
                None => {
                    let mut e = String::new();
                    e.append("unknown use case '");
                    e.append(raw);
                    e.append("'");
                    Err(e)
                },
            },
        }
    }
}


// ---------------------------------------------------------------------------
// Routing
// ---------------------------------------------------------------------------

/// Where a request is sent.
#[derive(Debug, Clone, PartialEq, Eq)]
pub enum Route {
    /// Anything but GET: the API is read-only.
    WrongMethod,
    Health,
    System,
    Runtimes,
    Catalog,
    /// The ranked models.
    Models,
    /// The few best runnable models.
    Top,
    /// One model, by the id or name that followed `/models/`, still encoded.
    Model(String),
    /// No such route.
    Missing,
}

/// `Route` as a value.
pub enum RouteView {
    WrongMethod,
    Health,
    System,
    Runtimes,
    Catalog,
    Models,
    Top,
    Model(Seq<char>),
    Missing,
}

impl View for Route {
    type V = RouteView;

    open spec fn view(&self) -> RouteView {
        match self {
            Route::WrongMethod => RouteView::WrongMethod,
            Route::Health => RouteView::Health,
            Route::System => RouteView::System,
            Route::Runtimes => RouteView::Runtimes,
            Route::Catalog => RouteView::Catalog,
            Route::Models => RouteView::Models,
            Route::Top => RouteView::Top,
            Route::Model(id) => RouteView::Model(id@),
            Route::Missing => RouteView::Missing,
        }
    }
}

/// `s` with every leading copy of `prefix` removed, as
/// `str::trim_start_matches` leaves it.
pub open spec fn strip_prefixes(s: Seq<char>, prefix: Seq<char>) -> Seq<char>
    decreases s.len(),
{
    if prefix.len() > 0 && starts_with(s, prefix) {
        strip_prefixes(s.skip(prefix.len() as int), prefix)
    } else {
        s
    }
}

/// Where a request goes.
pub open spec fn route_of(r: Request) -> RouteView {
    let p = r.path@;
    if r.method@ != "GET"@ {
        RouteView::WrongMethod
    } else if p == "/"@ || p == "/health"@ {
        RouteView::Health
    } else if p == "/system"@ {
        RouteView::System
    } else if p == "/runtimes"@ {
        RouteView::Runtimes
    } else if p == "/catalog"@ {
        RouteView::Catalog
    } else if p == "/models"@ {
        RouteView::Models
    } else if p == "/models/top"@ {
        RouteView::Top
    } else if starts_with(p, "/models/"@) {
        RouteView::Model(strip_prefixes(p, "/models/"@))
    } else {
        RouteView::Missing
    }
}

fn strip_all(s: &[char], prefix: &[char]) -> (r: String)
    ensures
        r@ == strip_prefixes(s@, prefix@),
{
    let mut i: usize = 0;
    let n = prefix.len();
    assert(s@.skip(0) =~= s@);
    if n == 0 {
        return string_of(s);
    }
    while n <= s.len() - i && crate::text::matches_at(s, prefix, i)
        invariant
            n == prefix.len(),
            n > 0,
            i <= s.len(),
            strip_prefixes(s@, prefix@) == strip_prefixes(s@.skip(i as int), prefix@),
        decreases s.len() - i,
    {
        let ghost t = s@.skip(i as int);
        assert(t.subrange(0, n as int) =~= s@.subrange(i as int, i + n));
        assert(t.skip(n as int) =~= s@.skip(i + n));
        i = i + n;
    }
    let ghost t = s@.skip(i as int);
    proof {
        if i + n <= s.len() {
            assert(t.subrange(0, n as int) =~= s@.subrange(i as int, i + n));
        }
    }
    let r = string_of(vstd::slice::slice_subrange(s, i, s.len()));
    assert(r@ =~= t);
    r
}

impl Request {
    /// Where this request goes.
    pub fn route(&self) -> (r: Route)
        ensures
            r@ == route_of(*self),
    {
        let p = self.path.as_str();
        if !str_eq(self.method.as_str(), "GET") {
            Route::WrongMethod
        } else if str_eq(p, "/") || str_eq(p, "/health") {
            Route::Health
        } else if str_eq(p, "/system") {
            Route::System
        } else if str_eq(p, "/runtimes") {
            Route::Runtimes
        } else if str_eq(p, "/catalog") {
            Route::Catalog
        } else if str_eq(p, "/models") {
            Route::Models
        } else if str_eq(p, "/models/top") {
            Route::Top
        } else {
            let v = chars_of(p);
            let prefix = chars_of("/models/");
            if prefix.len() <= v.len() && crate::text::matches_at(v.as_slice(), prefix.as_slice(), 0) {
                Route::Model(strip_all(v.as_slice(), prefix.as_slice()))
            } else {
                Route::Missing
            }
        }
    }
}

/// The message for a path no route answers.
pub fn no_route(path: &str) -> (r: String)
    ensures
        r@ == "no route "@ + path@,
{
    concat2("no route ", path)
}

/// The message for a method other than GET.
pub fn only_get() -> (r: &'static str)
    ensures
        r@ == "only GET is supported by this API"@,
{
    "only GET is supported by this API"
}

// ---------------------------------------------------------------------------
// What /models was asked for
// ---------------------------------------------------------------------------

/// The filters of a `/models` request.
#[derive(Debug, Clone, PartialEq, Eq)]
pub struct ModelQuery {
    pub use_case: UseCase,
    /// A cap on the context each model is analysed at.
    pub max_context: Option<u32>,
    /// The least context a model must be analysed at to be shown.
    pub min_context: Option<u32>,
    /// Free text the catalog entries are searched by.
    pub search: Option<String>,
    /// Text the publisher's name must contain, case aside.
    pub provider: Option<String>,
    pub quant: Option<Quant>,
    pub mode: Option<RunMode>,
    /// The worst fit that is still shown.
    pub min_fit: Option<FitLevel>,
    /// Only perfect fits.
    pub perfect: bool,
    /// Only models this machine can load.
    pub runnable_only: bool,
    /// How many results at most.
    pub limit: Option<usize>,
}

pub open spec fn text_opt(o: Option<String>) -> Option<Seq<char>> {
    match o {
        Some(s) => Some(s@),
        None => None,
    }
}

pub open spec fn flag_of(r: Request, k: Seq<char>) -> bool {
    match param(pairs_view(r.query@), k) {
        None => false,
        Some(v) => !(v == "false"@ || v == "0"@ || v == "no"@),
    }
}

/// The first parameter, in the order the server reads them, whose value
/// names nothing, with the message it is refused with.
pub open spec fn query_error(r: Request, fallback: UseCase) -> Option<Seq<char>> {
    if present(r, "use_case"@) is Some && parse_use_case(present(r, "use_case"@).unwrap()) is None {
        Some("unknown use case '"@ + present(r, "use_case"@).unwrap() + "'"@)
    } else if present(r, "quant"@) is Some && parse_quant(present(r, "quant"@).unwrap()) is None {
        Some("unknown quantization '"@ + present(r, "quant"@).unwrap() + "'"@)
    } else if present(r, "mode"@) is Some && parse_run_mode(present(r, "mode"@).unwrap()) is None {
        Some("unknown run mode '"@ + present(r, "mode"@).unwrap() + "'"@)
    } else if present(r, "min_fit"@) is Some && parse_fit(present(r, "min_fit"@).unwrap()) is None {
        Some("unknown fit level '"@ + present(r, "min_fit"@).unwrap() + "'"@)
    } else {
        None
    }
}

/// The query a well-formed `/models` request asks for.
pub open spec fn query_of(r: Request, fallback: UseCase, q: ModelQuery) -> bool {
    let top = r.path@ == "/models/top"@;
    &&& q.use_case == match present(r, "use_case"@) {
        Some(raw) => parse_use_case(raw).unwrap(),
        None => fallback,
    }
    &&& (q.max_context matches Some(n) ==> number(present(r, "max_context"@), u32::MAX as nat) == Some(n as nat))
    &&& (q.max_context is None ==> number(present(r, "max_context"@), u32::MAX as nat) is None)
    &&& (q.min_context matches Some(n) ==> number(present(r, "min_context"@), u32::MAX as nat) == Some(n as nat))
    &&& (q.min_context is None ==> number(present(r, "min_context"@), u32::MAX as nat) is None)
    &&& text_opt(q.search) == present(r, "search"@)
    &&& text_opt(q.provider) == present(r, "provider"@)
    &&& q.quant == match present(r, "quant"@) {
        Some(raw) => parse_quant(raw),
        None => None,
    }
    &&& q.mode == match present(r, "mode"@) {
        Some(raw) => parse_run_mode(raw),
        None => None,
    }
    &&& q.min_fit == match present(r, "min_fit"@) {
        Some(raw) => parse_fit(raw),
        None => None,
    }
    &&& q.perfect == flag_of(r, "perfect"@)
    &&& q.runnable_only == (top || !flag_of(r, "include_too_tight"@))
    &&& (limit_of(r) matches Some(n) ==> q.limit == Some(n as usize))
    &&& (limit_of(r) is None ==> q.limit == if top { Some(5usize) } else { None })
}

/// True when a result with this quantization, run mode and fit passes the
/// query's filters.
pub open spec fn admitted(q: ModelQuery, quant: Quant, mode: RunMode, fit: FitLevel) -> bool {
    &&& (q.quant matches Some(want) ==> quant == want)
    &&& (q.mode matches Some(want) ==> mode == want)
    &&& (q.min_fit matches Some(floor) ==> fit_rank(fit) >= fit_rank(floor))
    &&& (q.perfect ==> fit == FitLevel::Perfect)
    &&& (q.runnable_only ==> fit != FitLevel::TooTight)
}

fn owned_opt(o: Option<&str>) -> (r: Option<String>)
    ensures
        text_opt(r) == match o {
            Some(s) => Some(s@),
            None => None,
        },
{
    match o {
        Some(s) => Some(s.to_owned()),
        None => None,
    }
}

fn refused(what: &str, raw: &str) -> (r: String)
    ensures
        r@ == what@ + raw@ + "'"@,
{
    let mut e = concat2(what, raw);
    e.append("'");
    e
}

impl Request {
    /// What a `/models` request asks for, or the message a bad filter
    /// value is refused with (a 400).
    pub fn model_query(&self, fallback: UseCase) -> (r: Result<ModelQuery, String>)
        ensures
            match query_error(*self, fallback) {
                Some(e) => r matches Err(m) && m@ == e,
                None => r matches Ok(q) && query_of(*self, fallback, q),
            },
    {
        let use_case = match self.use_case(fallback) {
            Ok(u) => u,
            Err(e) => return Err(e),
        };
        let quant = match self.get("quant") {
            None => None,
            Some(raw) => match Quant::parse(raw) {
                Some(q) => Some(q),
                None => return Err(refused("unknown quantization '", raw)),
            },
        };
        let mode = match self.get("mode") {
            None => None,
            Some(raw) => match RunMode::parse(raw) {
                Some(m) => Some(m),
                None => return Err(refused("unknown run mode '", raw)),
            },
        };
        let min_fit = match self.get("min_fit") {
            None => None,
            Some(raw) => match FitLevel::parse(raw) {
                Some(f) => Some(f),
                None => return Err(refused("unknown fit level '", raw)),
            },
        };
        let top = str_eq(self.path.as_str(), "/models/top");
        let limit = match self.limit() {
            Some(n) => Some(n),
            None => if top { Some(5) } else { None },
        };
        Ok(ModelQuery {
            use_case,
            max_context: self.max_context(),
            min_context: self.min_context(),
            search: owned_opt(self.get("search")),
            provider: owned_opt(self.get("provider")),
            quant,
            mode,
            min_fit,
            perfect: self.flag("perfect"),
            runnable_only: top || !self.flag("include_too_tight"),
            limit,
        })
    }
}

impl ModelQuery {
    /// True when a result with this quantization, run mode and fit is kept.
    pub fn admits(&self, quant: Quant, mode: RunMode, fit: FitLevel) -> (r: bool)
        ensures
            r == admitted(*self, quant, mode, fit),
    {
        let quant_ok = match self.quant {
            Some(want) => quant == want,
            None => true,
        };
        let mode_ok = match self.mode {
            Some(want) => mode == want,
            None => true,
        };
        let fit_ok = match self.min_fit {
            Some(floor) => fit.at_least(floor),
            None => true,
        };
        quant_ok && mode_ok && fit_ok && (!self.perfect || fit == FitLevel::Perfect) && (!self.runnable_only
            || fit.is_runnable())
    }

    /// True when a model analysed at `context` tokens passes the
    /// `min_context` filter.
    pub fn admits_context(&self, context: u32) -> (r: bool)
        ensures
            r == match self.min_context {
                Some(m) => context >= m,
                None => true,
            },
    {
        match self.min_context {
            Some(m) => context >= m,
            None => true,
        }
    }

    /// True when a publisher's name passes the `provider` filter: it
    /// contains the text asked for, case aside.
    pub fn admits_provider(&self, provider: &str) -> (r: bool)
        ensures
            r == match self.provider {
                Some(p) => crate::text::contains_seq(crate::text::lower_seq(provider@), crate::text::lower_seq(p@)),
                None => true,
            },
    {
        match &self.provider {
            None => true,
            Some(p) => {
                let hay = crate::text::lower_vec(chars_of(provider).as_slice());
                let needle = crate::text::lower_vec(chars_of(p.as_str()).as_slice());
                crate::text::contains_chars(hay.as_slice(), needle.as_slice())
            },
        }
    }
}

// ---------------------------------------------------------------------------
// Responses
// ---------------------------------------------------------------------------

/// The reason phrase sent with a status code.
pub open spec fn reason_of(status: u16) -> Seq<char> {
    if status == 200 {
        "OK"@
    } else if status == 400 {
        "Bad Request"@
    } else if status == 404 {
        "Not Found"@
    } else if status == 405 {
        "Method Not Allowed"@
    } else {
        "Error"@
    }
}

pub fn reason(status: u16) -> (r: &'static str)
    ensures
        r@ == reason_of(status),
{
    if status == 200 {
        "OK"
    } else if status == 400 {
        "Bad Request"
    } else if status == 404 {
        "Not Found"
    } else if status == 405 {
        "Method Not Allowed"
    } else {
        "Error"
    }
}

/// The status line and headers of a JSON response whose body is
/// `body_len` bytes; the connection is closed after it.
pub open spec fn head_text(status: u16, body_len: nat) -> Seq<char> {
    "HTTP/1.1 "@ + dec(status as nat) + " "@ + reason_of(status) + "\r\nContent-Type: application/json\r\nContent-Length: "@
        + dec(body_len) + "\r\nCache-Control: no-store\r\nConnection: close\r\n\r\n"@
}

pub fn response_head(status: u16, body_len: usize) -> (r: String)
    ensures
        r@ == head_text(status, body_len as nat),
{
    let mut h = String::new();
    h.append("HTTP/1.1 ");
    let s = dec_string(status as u64);
    h.append(s.as_str());
    h.append(" ");
    h.append(reason(status));
    h.append("\r\nContent-Type: application/json\r\nContent-Length: ");
    let n = dec_string(body_len as u64);
    h.append(n.as_str());
    h.append("\r\nCache-Control: no-store\r\nConnection: close\r\n\r\n");
    h
}

/// `/models/top` only ever lists models this machine can load, and lists
/// five of them unless a count was asked for.
pub proof fn lemma_top_lists_only_runnable_models(r: Request, fallback: UseCase, q: ModelQuery, fit: FitLevel, quant: Quant, mode: RunMode)
    requires
        r.path@ == "/models/top"@,
        query_of(r, fallback, q),
    ensures
        q.runnable_only,
        admitted(q, quant, mode, fit) ==> fit != FitLevel::TooTight,
        limit_of(r) is None ==> q.limit == Some(5usize),
{
}

/// A fit meets a floor when it is the floor itself or better, in the order
/// Perfect, Good, Marginal, Too Tight.
pub open spec fn meets_floor(fit: FitLevel, floor: FitLevel) -> bool {
    ||| fit == floor
    ||| floor == FitLevel::TooTight
    ||| fit == FitLevel::Perfect
    ||| (floor == FitLevel::Marginal && fit == FitLevel::Good)
}

/// `min_fit` keeps exactly the fits at or above the floor, the floor
/// included, and leaves the other filters as they were.
pub proof fn lemma_min_fit_keeps_the_floor_and_better(q: ModelQuery, floor: FitLevel, quant: Quant, mode: RunMode, fit: FitLevel)
    requires
        q.min_fit == Some(floor),
    ensures
        admitted(q, quant, mode, fit) <==> admitted((ModelQuery { min_fit: None, ..q }), quant, mode, fit)
            && meets_floor(fit, floor),
        admitted((ModelQuery { min_fit: None, ..q }), quant, mode, floor) ==> admitted(q, quant, mode, floor),
{
}

} // verus!
