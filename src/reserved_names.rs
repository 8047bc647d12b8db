//! Windows device names (`CON`, `COM1`, `LPT³`, ...) that cannot be used as
//! ordinary file names on that platform.

use vstd::prelude::*;
use vstd::string::StringSliceAdditionalSpecFns;

use crate::path_safety::is_separator;

verus! {

/// The name ends with a `.` segment (`.` alone, or `.` after a separator).
pub open spec fn ends_with_dot_segment(s: Seq<u8>) -> bool {
    s.len() > 0 && s.last() == 0x2e && (s.len() == 1 || is_separator(s[s.len() - 2]))
}

/// The final segment of a name split on `/` and `\`, trailing separators and
/// `.` segments ignored.
pub open spec fn final_segment(s: Seq<u8>) -> Seq<u8>
    decreases s.len(),
{
    if s.len() == 0 {
        s
    } else if is_separator(s.last()) || ends_with_dot_segment(s) {
        final_segment(s.drop_last())
    } else {
        text_after_last_separator(s)
    }
}

/// What follows the last separator (all of `s` when it has none).
pub open spec fn text_after_last_separator(s: Seq<u8>) -> Seq<u8>
    decreases s.len(),
{
    if s.len() == 0 {
        s
    } else if is_separator(s.last()) {
        Seq::empty()
    } else {
        text_after_last_separator(s.drop_last()).push(s.last())
    }
}

/// `s` without its trailing `.` characters.
pub open spec fn without_trailing_dots(s: Seq<u8>) -> Seq<u8>
    decreases s.len(),
{
    if s.len() > 0 && s.last() == 0x2e {
        without_trailing_dots(s.drop_last())
    } else {
        s
    }
}

/// The part of `s` before its first `.` (all of `s` when it has none).
pub open spec fn before_first_dot(s: Seq<u8>) -> Seq<u8>
    decreases s.len(),
{
    if s.len() == 0 {
        s
    } else if s[0] == 0x2e {
        Seq::empty()
    } else {
        seq![s[0]].add(before_first_dot(s.drop_first()))
    }
}

pub open spec fn ascii_upper(c: u8) -> u8 {
    if 0x61 <= c && c <= 0x7a {
        (c - 0x20) as u8
    } else {
        c
    }
}

/// The first three bytes of `b`, upper-cased, spell `x y z`.
pub open spec fn starts_with_word(b: Seq<u8>, x: u8, y: u8, z: u8) -> bool {
    b.len() >= 3 && ascii_upper(b[0]) == x && ascii_upper(b[1]) == y && ascii_upper(b[2]) == z
}

/// `CON`, `PRN`, `AUX` or `NUL`, in any case.
pub open spec fn is_plain_device(b: Seq<u8>) -> bool {
    b.len() == 3 && (starts_with_word(b, 0x43, 0x4f, 0x4e) || starts_with_word(b, 0x50, 0x52, 0x4e)
        || starts_with_word(b, 0x41, 0x55, 0x58) || starts_with_word(b, 0x4e, 0x55, 0x4c))
}

/// `COM` or `LPT`, in any case.
pub open spec fn is_port_word(b: Seq<u8>) -> bool {
    starts_with_word(b, 0x43, 0x4f, 0x4d) || starts_with_word(b, 0x4c, 0x50, 0x54)
}

/// A port name: `COM` or `LPT` then a digit from 1 to 9, or one of the
/// superscripts `¹`, `²`, `³` (UTF-8 `C2 B9`, `C2 B2`, `C2 B3`), which Windows
/// reads as the digits 1 to 3.
pub open spec fn is_port_device(b: Seq<u8>) -> bool {
    is_port_word(b) && ((b.len() == 4 && 0x31 <= b[3] && b[3] <= 0x39) || (b.len() == 5 && b[3]
        == 0xc2 && (b[4] == 0xb9 || b[4] == 0xb2 || b[4] == 0xb3)))
}

/// A base name that, with superscript digits read as digits and upper-cased,
/// is one of CON, PRN, AUX, NUL, COM1 to COM9, LPT1 to LPT9.
pub open spec fn is_device_base(b: Seq<u8>) -> bool {
    is_plain_device(b) || is_port_device(b)
}

/// The reserved-name rule on a whole name: take the final segment, drop its
/// trailing dots, keep what stands before the first remaining dot.
pub open spec fn reserved_name(s: Seq<u8>) -> bool {
    is_device_base(before_first_dot(without_trailing_dots(final_segment(s))))
}

proof fn lemma_prefix_drop_last(s: Seq<u8>, end: int)
    requires
        0 < end <= s.len(),
    ensures
        s.subrange(0, end).drop_last() == s.subrange(0, end - 1),
        s.subrange(0, end).last() == s[end - 1],
{
    assert(s.subrange(0, end).drop_last() =~= s.subrange(0, end - 1));
}

/// Bounds `[start, end)` of the final segment of `s`.
fn final_segment_bounds(s: &[u8]) -> (r: (usize, usize))
    ensures
        r.0 <= r.1 <= s@.len(),
        s@.subrange(r.0 as int, r.1 as int) == final_segment(s@),
{
    let mut end: usize = s.len();
    assert(s@.subrange(0, s@.len() as int) =~= s@);
    while end > 0 && (s[end - 1] == 0x2f || s[end - 1] == 0x5c || (s[end - 1] == 0x2e && (end
        == 1 || s[end - 2] == 0x2f || s[end - 2] == 0x5c)))
        invariant
            end <= s@.len(),
            final_segment(s@.subrange(0, end as int)) == final_segment(s@),
        decreases end,
    {
        proof {
            lemma_prefix_drop_last(s@, end as int);
            if end >= 2 {
                assert(s@.subrange(0, end as int)[end - 2] == s@[end - 2]);
            }
        }
        end = end - 1;
    }
    let mut start: usize = end;
    while start > 0 && s[start - 1] != 0x2f && s[start - 1] != 0x5c
        invariant
            start <= end <= s@.len(),
            end == 0 || !is_separator(s@[end - 1]),
            final_segment(s@.subrange(0, end as int)) == final_segment(s@),
            text_after_last_separator(s@.subrange(0, end as int)) == text_after_last_separator(
                s@.subrange(0, start as int),
            ) + s@.subrange(start as int, end as int),
        decreases start,
    {
        proof {
            lemma_prefix_drop_last(s@, start as int);
            assert(s@.subrange(start - 1, end as int) =~= seq![s@[start - 1]] + s@.subrange(
                start as int,
                end as int,
            ));
            assert(text_after_last_separator(s@.subrange(0, start as int)) == text_after_last_separator(
                s@.subrange(0, start - 1),
            ).push(s@[start - 1]));
            assert(text_after_last_separator(s@.subrange(0, start - 1)).push(s@[start - 1])
                + s@.subrange(start as int, end as int) =~= text_after_last_separator(
                s@.subrange(0, start - 1),
            ) + s@.subrange(start - 1, end as int));
        }
        start = start - 1;
    }
    proof {
        if start > 0 {
            lemma_prefix_drop_last(s@, start as int);
        }
        if end > 0 {
            lemma_prefix_drop_last(s@, end as int);
        }
        assert(text_after_last_separator(s@.subrange(0, start as int)) =~= Seq::<u8>::empty());
        assert(Seq::<u8>::empty() + s@.subrange(start as int, end as int) =~= s@.subrange(
            start as int,
            end as int,
        ));
    }
    (start, end)
}

/// The end of `s[start..end]` once its trailing dots are dropped.
fn trim_trailing_dots(s: &[u8], start: usize, end: usize) -> (r: usize)
    requires
        start <= end <= s@.len(),
    ensures
        start <= r <= end,
        s@.subrange(start as int, r as int) == without_trailing_dots(
            s@.subrange(start as int, end as int),
        ),
{
    let mut e: usize = end;
    while e > start && s[e - 1] == 0x2e
        invariant
            start <= e <= end <= s@.len(),
            without_trailing_dots(s@.subrange(start as int, e as int)) == without_trailing_dots(
                s@.subrange(start as int, end as int),
            ),
        decreases e,
    {
        assert(s@.subrange(start as int, e as int).drop_last() =~= s@.subrange(
            start as int,
            e - 1,
        ));
        e = e - 1;
    }
    e
}

/// The end of the part of `s[start..end]` that stands before its first dot.
fn base_name_before_first_dot(s: &[u8], start: usize, end: usize) -> (r: usize)
    requires
        start <= end <= s@.len(),
    ensures
        start <= r <= end,
        s@.subrange(start as int, r as int) == before_first_dot(
            s@.subrange(start as int, end as int),
        ),
{
    let mut i: usize = start;
    while i < end && s[i] != 0x2e
        invariant
            start <= i <= end <= s@.len(),
            before_first_dot(s@.subrange(start as int, end as int)) == s@.subrange(
                start as int,
                i as int,
            ) + before_first_dot(s@.subrange(i as int, end as int)),
        decreases end - i,
    {
        let ghost rest = s@.subrange(i as int, end as int);
        assert(rest.drop_first() =~= s@.subrange(i + 1, end as int));
        assert(s@.subrange(start as int, i as int) + (seq![rest[0]] + before_first_dot(
            rest.drop_first(),
        )) =~= s@.subrange(start as int, i + 1) + before_first_dot(rest.drop_first()));
        i = i + 1;
    }
    assert(before_first_dot(s@.subrange(i as int, end as int)) =~= Seq::<u8>::empty());
    assert(s@.subrange(start as int, i as int) + Seq::<u8>::empty() =~= s@.subrange(
        start as int,
        i as int,
    ));
    i
}

fn upper(c: u8) -> (r: u8)
    ensures
        r == ascii_upper(c),
{
    if 0x61 <= c && c <= 0x7a {
        c - 0x20
    } else {
        c
    }
}

fn word_at(s: &[u8], at: usize, x: u8, y: u8, z: u8) -> (r: bool)
    requires
        at + 3 <= s@.len(),
    ensures
        r == starts_with_word(s@.subrange(at as int, s@.len() as int), x, y, z),
{
    upper(s[at]) == x && upper(s[at + 1]) == y && upper(s[at + 2]) == z
}

/// Whether `s[start..end]` is a device base name (see `is_device_base`).
fn is_reserved_device_name(s: &[u8], start: usize, end: usize) -> (r: bool)
    requires
        start <= end <= s@.len(),
    ensures
        r == is_device_base(s@.subrange(start as int, end as int)),
{
    let ghost b = s@.subrange(start as int, end as int);
    let len = end - start;
    if len < 3 || len > 5 {
        return false;
    }
    let ghost tail = s@.subrange(start as int, s@.len() as int);
    assert(b[0] == tail[0] && b[1] == tail[1] && b[2] == tail[2]);
    if len == 3 {
        return word_at(s, start, 0x43, 0x4f, 0x4e) || word_at(s, start, 0x50, 0x52, 0x4e)
            || word_at(s, start, 0x41, 0x55, 0x58) || word_at(s, start, 0x4e, 0x55, 0x4c);
    }
    let port = word_at(s, start, 0x43, 0x4f, 0x4d) || word_at(s, start, 0x4c, 0x50, 0x54);
    if len == 4 {
        port && 0x31 <= s[start + 3] && s[start + 3] <= 0x39
    } else {
        port && s[start + 3] == 0xc2 && (s[start + 4] == 0xb9 || s[start + 4] == 0xb2 || s[start
            + 4] == 0xb3)
    }
}

/// Whether the final segment of `name` is a Windows device name: trailing dots
/// are dropped, then what stands before the first dot is compared, ignoring
/// ASCII case and reading `¹ ² ³` as `1 2 3`, with CON, PRN, AUX, NUL, COM1 to
/// COM9 and LPT1 to LPT9.
pub fn is_windows_reserved_name(name: &str) -> (r: bool)
    ensures
        r == reserved_name(name.spec_bytes()),
{
    let bytes = name.as_bytes();
    let (start, end) = final_segment_bounds(bytes);
    let trimmed = trim_trailing_dots(bytes, start, end);
    let base_end = base_name_before_first_dot(bytes, start, trimmed);
    is_reserved_device_name(bytes, start, base_end)
}

} // verus!
