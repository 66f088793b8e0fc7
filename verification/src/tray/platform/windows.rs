//! Wide strings for the Windows shell: texts as UTF-16 code units.

use crate::text::chars_of;
use vstd::prelude::*;

verus! {

/// The most code units of a tooltip, the closing zero aside.
pub const TIP_UNITS: usize = 127;

/// The UTF-16 code units of a character: the code point itself, or a
/// surrogate pair for a code point beyond the basic plane.
pub open spec fn utf16_of_char(c: char) -> Seq<u16> {
    let n = c as u32;
    if n < 0x1_0000 {
        seq![n as u16]
    } else {
        seq![
            (0xD800 + (n - 0x1_0000) / 0x400) as u16,
            (0xDC00 + (n - 0x1_0000) % 0x400) as u16,
        ]
    }
}

/// The UTF-16 code units of a text.
pub open spec fn utf16_of(s: Seq<char>) -> Seq<u16>
    decreases s.len(),
{
    if s.len() == 0 {
        Seq::empty()
    } else {
        utf16_of(s.drop_last()) + utf16_of_char(s.last())
    }
}

/// Appends the UTF-16 code units of `c` to `out`.
pub fn push_utf16(out: &mut Vec<u16>, c: char)
    ensures
        final(out)@ == old(out)@ + utf16_of_char(c),
{
    let n: u32 = c as u32;
    if n < 0x1_0000 {
        out.push(n as u16);
        assert(out@ =~= old(out)@ + utf16_of_char(c));
    } else {
        let m: u32 = n - 0x1_0000;
        out.push((0xD800 + m / 0x400) as u16);
        out.push((0xDC00 + m % 0x400) as u16);
        assert(out@ =~= old(out)@ + utf16_of_char(c));
    }
}

/// The UTF-16 code units of the characters `v`.
pub fn utf16_chars(v: &Vec<char>) -> (r: Vec<u16>)
    ensures
        r@ == utf16_of(v@),
{
    let mut r: Vec<u16> = Vec::new();
    let mut i: usize = 0;
    while i < v.len()
        invariant
            i <= v.len(),
            r@ == utf16_of(v@.take(i as int)),
        decreases v.len() - i,
    {
        assert(v@.take(i + 1).drop_last() =~= v@.take(i as int));
        push_utf16(&mut r, v[i]);
        i += 1;
    }
    assert(v@.take(v.len() as int) =~= v@);
    r
}

/// The text as a wide string: its UTF-16 code units and a closing zero.
pub fn wide(s: &str) -> (r: Vec<u16>)
    ensures
        r@ == utf16_of(s@).push(0u16),
{
    let mut r = utf16_chars(&chars_of(s));
    r.push(0);
    r
}

/// At most the first `n` items of `s`.
pub open spec fn at_most<T>(s: Seq<T>, n: int) -> Seq<T> {
    if s.len() <= n {
        s
    } else {
        s.take(n)
    }
}

/// `s` filled up with zeros to the length `n`.
pub open spec fn zero_padded(s: Seq<u16>, n: int) -> Seq<u16> {
    Seq::new(
        n as nat,
        |i: int|
            if i < s.len() {
                s[i]
            } else {
                0u16
            },
    )
}

/// The tooltip as the shell takes it: 128 code units. The text is cut to
/// its first 127 characters, their code units to the first 127, and zeros
/// fill the rest, so the last unit always is zero.
pub open spec fn tip_units(tip: Seq<char>) -> Seq<u16> {
    zero_padded(at_most(utf16_of(at_most(tip, TIP_UNITS as int)), TIP_UNITS as int), TIP_UNITS + 1)
}

/// The code units of the tooltip `tip`.
pub fn write_tip(tip: &str) -> (r: Vec<u16>)
    ensures
        r@ == tip_units(tip@),
        r@.len() == 128,
        r@[127] == 0,
{
    let chars = chars_of(tip);
    let kept = if chars.len() <= TIP_UNITS {
        chars
    } else {
        crate::text::slice_chars(&chars, 0, TIP_UNITS)
    };
    let units = utf16_chars(&kept);
    let ghost cut = at_most(units@, TIP_UNITS as int);
    let mut r: Vec<u16> = Vec::new();
    let mut i: usize = 0;
    while i < TIP_UNITS + 1
        invariant
            i <= TIP_UNITS + 1,
            r@.len() == i,
            cut == at_most(units@, TIP_UNITS as int),
            forall|k: int| 0 <= k < i ==> #[trigger] r@[k] == zero_padded(cut, TIP_UNITS + 1)[k],
        decreases TIP_UNITS + 1 - i,
    {
        if i < units.len() && i < TIP_UNITS {
            r.push(units[i]);
        } else {
            r.push(0);
        }
        i += 1;
    }
    assert(r@ =~= zero_padded(cut, TIP_UNITS + 1));
    r
}

} // verus!
