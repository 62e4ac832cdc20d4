//! Plain-text layout for the command-line output: fixed-width columns and
//! the short forms numbers are shown in.
//!
//! The colouring and the tables of floating-point estimates are assembled by
//! the application; the column arithmetic they rely on is here.

use vstd::prelude::*;
use crate::text::{chars_of, dec, dec_string, push_char, string_of};

verus! {

/// `s` cut to `width` characters, the last one replaced by `~` when anything
/// was cut.
pub open spec fn truncated(s: Seq<char>, width: nat) -> Seq<char> {
    if s.len() <= width {
        s
    } else {
        s.take(if width >= 1 { width - 1 } else { 0 }) + seq!['~']
    }
}

pub open spec fn spaces(n: nat) -> Seq<char> {
    Seq::new(n, |i: int| ' ')
}

/// `s` truncated to `width` and padded on the right to exactly that width.
pub open spec fn padded(s: Seq<char>, width: nat) -> Seq<char> {
    let t = truncated(s, width);
    t + spaces(if width > t.len() { (width - t.len()) as nat } else { 0 })
}

/// `s` truncated to `width` and padded on the left to exactly that width.
pub open spec fn right_aligned(s: Seq<char>, width: nat) -> Seq<char> {
    let t = truncated(s, width);
    spaces(if width > t.len() { (width - t.len()) as nat } else { 0 }) + t
}

/// A context length as a table shows it: whole thousands-of-1024 with `K`.
pub open spec fn context_text(tokens: nat) -> Seq<char> {
    if tokens >= 1024 {
        dec(tokens / 1024) + "K"@
    } else {
        dec(tokens)
    }
}

/// One `label value` line of a detail view, the label in a 14-wide column.
pub open spec fn row_text(label: Seq<char>, value: Seq<char>) -> Seq<char> {
    "  "@ + label + spaces(if label.len() < 14 { (14 - label.len()) as nat } else { 0 }) + " "@
        + value + "\n"@
}

/// Cut text to a column width, marking the cut with `~`.
pub fn truncate(text: &str, width: usize) -> (r: String)
    ensures
        r@ == truncated(text@, width as nat),
        width >= 1 ==> r@.len() == if text@.len() <= width { text@.len() } else { width as nat },
{
    let v = chars_of(text);
    if v.len() <= width {
        return crate::text::owned(text);
    }
    let keep = if width >= 1 { width - 1 } else { 0 };
    let mut r = string_of(vstd::slice::slice_subrange(v.as_slice(), 0, keep));
    push_char(&mut r, '~');
    assert(r@ =~= truncated(text@, width as nat));
    r
}

fn push_spaces(s: &mut String, n: usize)
    ensures
        final(s)@ == old(s)@ + spaces(n as nat),
{
    let mut i: usize = 0;
    while i < n
        invariant
            i <= n,
            s@ == old(s)@ + spaces(i as nat),
        decreases n - i,
    {
        push_char(s, ' ');
        i = i + 1;
        assert(s@ =~= old(s)@ + spaces(i as nat));
    }
}

/// Text in a left-aligned column of exactly `width` characters.
pub fn pad(text: &str, width: usize) -> (r: String)
    ensures
        r@ == padded(text@, width as nat),
        width >= 1 ==> r@.len() == width,
{
    let mut t = truncate(text, width);
    let len = chars_of(t.as_str()).len();
    let fill = if width > len { width - len } else { 0 };
    push_spaces(&mut t, fill);
    t
}

/// Text in a right-aligned column of exactly `width` characters.
pub fn rpad(text: &str, width: usize) -> (r: String)
    ensures
        r@ == right_aligned(text@, width as nat),
        width >= 1 ==> r@.len() == width,
{
    let t = truncate(text, width);
    let len = chars_of(t.as_str()).len();
    let fill = if width > len { width - len } else { 0 };
    let mut r = String::new();
    push_spaces(&mut r, fill);
    r.append(t.as_str());
    assert(r@ =~= right_aligned(text@, width as nat));
    r
}

/// A context length in tokens, as `128K` or `512`.
pub fn format_context(tokens: u32) -> (r: String)
    ensures
        r@ == context_text(tokens as nat),
{
    if tokens >= 1024 {
        let mut r = dec_string((tokens / 1024) as u64);
        r.append("K");
        r
    } else {
        dec_string(tokens as u64)
    }
}

/// One `label value` line of a detail view.
pub fn row(label: &str, value: &str) -> (r: String)
    ensures
        r@ == row_text(label@, value@),
{
    let mut r = crate::text::owned("  ");
    r.append(label);
    let n = chars_of(label).len();
    let fill = if n < 14 { 14 - n } else { 0 };
    push_spaces(&mut r, fill);
    r.append(" ");
    r.append(value);
    r.append("\n");
    r
}

} // verus!
