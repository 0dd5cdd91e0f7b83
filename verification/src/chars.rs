//! Character classes used by the validation rules: blank-line detection,
//! ASCII uppercasing, the canonical-base alphabet and the quality range.
use vstd::prelude::*;

verus! {

/// Characters that make a line count as blank: ASCII whitespace.
pub open spec fn is_space_char(c: char) -> bool {
    c == ' ' || c == '\t' || c == '\r' || c == '\n' || c == '\u{b}' || c == '\u{c}'
}

/// A line is blank when every character in it is whitespace (so the empty
/// line is blank too). Blank lines never count toward the record structure.
pub open spec fn is_blank_line(l: Seq<char>) -> bool {
    forall|i: int| 0 <= i < l.len() ==> is_space_char(#[trigger] l[i])
}

/// ASCII uppercasing: maps `a`..`z` to `A`..`Z` and leaves every other
/// character unchanged.
pub open spec fn upper_char(c: char) -> char {
    if 97 <= c as u32 && c as u32 <= 122 {
        ((c as u32 - 32) as u8) as char
    } else {
        c
    }
}

/// The canonical bases, case-insensitively: A, T, G, C.
pub open spec fn is_canonical_base(c: char) -> bool {
    upper_char(c) == 'A' || upper_char(c) == 'T' || upper_char(c) == 'G' || upper_char(c) == 'C'
}

/// Lowest code point a quality character may have.
pub const QUALITY_MIN: u32 = 33;

/// Highest code point a quality character may have.
pub const QUALITY_MAX: u32 = 126;

/// A quality character must lie in the inclusive ASCII range 33..=126.
pub open spec fn is_quality_char(c: char) -> bool {
    QUALITY_MIN <= c as u32 && c as u32 <= QUALITY_MAX
}

pub fn exec_is_space_char(c: char) -> (r: bool)
    ensures
        r == is_space_char(c),
{
    c == ' ' || c == '\t' || c == '\r' || c == '\n' || c == '\u{b}' || c == '\u{c}'
}

pub fn to_upper_char(c: char) -> (r: char)
    ensures
        r == upper_char(c),
{
    let u: u32 = c as u32;
    if 97 <= u && u <= 122 {
        ((u - 32) as u8) as char
    } else {
        c
    }
}

pub fn exec_is_canonical_base(c: char) -> (r: bool)
    ensures
        r == is_canonical_base(c),
{
    let u = to_upper_char(c);
    u == 'A' || u == 'T' || u == 'G' || u == 'C'
}

pub fn exec_is_quality_char(c: char) -> (r: bool)
    ensures
        r == is_quality_char(c),
{
    let u: u32 = c as u32;
    QUALITY_MIN <= u && u <= QUALITY_MAX
}

} // verus!
