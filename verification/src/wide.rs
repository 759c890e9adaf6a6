//! Wide (UTF-16, NUL-terminated) strings, as the operating system's
//! configuration call takes them.

use vstd::prelude::*;

verus! {

/// First code point that needs two UTF-16 code units.
pub const SUPPLEMENTARY_START: u32 = 0x10000;

/// Base of the leading (high) surrogates.
pub const LEAD_BASE: u32 = 0xD800;

/// Base of the trailing (low) surrogates.
pub const TRAIL_BASE: u32 = 0xDC00;

/// Number of code points that share one leading surrogate.
pub const SURROGATE_SPAN: u32 = 0x400;

/// The UTF-16 code units of one character: itself below the supplementary
/// planes, a surrogate pair above.
pub open spec fn units_of(c: char) -> Seq<u16> {
    let v = c as int;
    if v < 0x10000 {
        seq![v as u16]
    } else {
        seq![
            (0xD800 + (v - 0x10000) / 0x400) as u16,
            (0xDC00 + (v - 0x10000) % 0x400) as u16,
        ]
    }
}

/// The UTF-16 encoding of a text: the units of its characters, in order.
pub open spec fn utf16(text: Seq<char>) -> Seq<u16>
    decreases text.len(),
{
    if text.len() == 0 {
        Seq::empty()
    } else {
        utf16(text.drop_last()) + units_of(text.last())
    }
}

/// The wide string of a text: its UTF-16 encoding followed by one NUL unit.
pub open spec fn wide(text: Seq<char>) -> Seq<u16> {
    utf16(text).push(0u16)
}

/// The encoding of a text grows by the units of each character appended.
pub proof fn lemma_utf16_push(text: Seq<char>, c: char)
    ensures
        utf16(text.push(c)) == utf16(text) + units_of(c),
{
    assert(text.push(c).drop_last() == text);
}

/// Appends the UTF-16 units of `c` to `out`.
pub fn push_units(out: &mut Vec<u16>, c: char)
    ensures
        final(out)@ == old(out)@ + units_of(c),
{
    let v: u32 = c as u32;
    if v < SUPPLEMENTARY_START {
        out.push(v as u16);
    } else {
        let offset: u32 = v - SUPPLEMENTARY_START;
        let lead: u32 = LEAD_BASE + offset / SURROGATE_SPAN;
        let trail: u32 = TRAIL_BASE + offset % SURROGATE_SPAN;
        out.push(lead as u16);
        out.push(trail as u16);
    }
    assert(out@ =~= old(out)@ + units_of(c));
}

/// Encodes `text` as a NUL-terminated wide string.
///
/// Characters are fetched by position, so the cost is quadratic in the
/// length of the text; paths are short.
pub fn encode_wide(text: &str) -> (out: Vec<u16>)
    ensures
        out@ == wide(text@),
{
    let n: usize = text.unicode_len();
    let mut out: Vec<u16> = Vec::new();
    let mut i: usize = 0;
    while i < n
        invariant
            n == text@.len(),
            i <= n,
            out@ == utf16(text@.take(i as int)),
        decreases n - i,
    {
        let c: char = text.get_char(i);
        push_units(&mut out, c);
        proof {
            assert(text@.take(i + 1) == text@.take(i as int).push(c));
            lemma_utf16_push(text@.take(i as int), c);
        }
        i += 1;
    }
    assert(text@.take(n as int) == text@);
    out.push(0u16);
    out
}

} // verus!
