//! Byte-level predicates on raw entry names. They never decode the name, so a
//! name that is not valid text cannot slip past them.

use vstd::prelude::*;
use vstd::string::StringSliceAdditionalSpecFns;

verus! {

/// `/` or `\`: both count as separators whatever the host platform.
pub open spec fn is_separator(b: u8) -> bool {
    b == 0x2f || b == 0x5c
}

pub open spec fn is_ascii_letter(b: u8) -> bool {
    (0x41 <= b && b <= 0x5a) || (0x61 <= b && b <= 0x7a)
}

/// A drive prefix such as `C:/` or `c:\` at the start of the name.
pub open spec fn has_drive_prefix(s: Seq<u8>) -> bool {
    s.len() >= 3 && is_ascii_letter(s[0]) && s[1] == 0x3a && is_separator(s[2])
}

/// A network-share prefix: two backslashes.
pub open spec fn has_unc_prefix(s: Seq<u8>) -> bool {
    s.len() >= 2 && s[0] == 0x5c && s[1] == 0x5c
}

/// The name is rooted: a leading separator, a drive prefix or a share prefix.
pub open spec fn absolute_name(s: Seq<u8>) -> bool {
    s.len() > 0 && (is_separator(s[0]) || has_drive_prefix(s) || has_unc_prefix(s))
}

/// `..` followed by a separator starts at offset `i`.
pub open spec fn parent_component_at(s: Seq<u8>, i: int) -> bool {
    0 <= i && i + 3 <= s.len() && s[i] == 0x2e && s[i + 1] == 0x2e && is_separator(s[i + 2])
}

/// The name holds `../` or `..\` somewhere.
pub open spec fn has_parent_component(s: Seq<u8>) -> bool {
    exists|i: int| parent_component_at(s, i)
}

/// A segment (a maximal run of non-separators) begins at offset `i`.
pub open spec fn segment_starts_at(s: Seq<u8>, i: int) -> bool {
    !is_separator(s[i]) && (i == 0 || is_separator(s[i - 1]))
}

/// How many segments begin among the first `n` bytes.
pub open spec fn segments_before(s: Seq<u8>, n: int) -> nat
    decreases n,
{
    if n <= 0 {
        0
    } else {
        segments_before(s, n - 1) + if segment_starts_at(s, n - 1) {
            1nat
        } else {
            0nat
        }
    }
}

/// The number of non-empty segments when the name is split on runs of separators.
pub open spec fn depth_of(s: Seq<u8>) -> nat {
    segments_before(s, s.len() as int)
}

pub open spec fn is_control_byte(b: u8) -> bool {
    b < 0x20 || b == 0x7f
}

pub open spec fn has_control_byte(s: Seq<u8>) -> bool {
    exists|i: int| 0 <= i < s.len() && is_control_byte(#[trigger] s[i])
}

/// Longer than 255 bytes, or deeper than 40 segments.
pub open spec fn extremely_long(s: Seq<u8>) -> bool {
    s.len() > 255 || depth_of(s) > 40
}

proof fn lemma_segments_before_bounded(s: Seq<u8>, n: int)
    requires
        0 <= n,
    ensures
        segments_before(s, n) <= n,
    decreases n,
{
    if n > 0 {
        lemma_segments_before_bounded(s, n - 1);
    }
}

fn starts_with_separator(name: &[u8]) -> (r: bool)
    ensures
        r == (name@.len() > 0 && is_separator(name@[0])),
{
    name.len() > 0 && (name[0] == 0x2f || name[0] == 0x5c)
}

fn has_share_prefix(name: &[u8]) -> (r: bool)
    ensures
        r == has_unc_prefix(name@),
{
    name.len() >= 2 && name[0] == 0x5c && name[1] == 0x5c
}

fn is_ascii_alpha(c: u8) -> (r: bool)
    ensures
        r == is_ascii_letter(c),
{
    (0x41 <= c && c <= 0x5a) || (0x61 <= c && c <= 0x7a)
}

fn has_windows_drive_prefix(name: &[u8]) -> (r: bool)
    ensures
        r == has_drive_prefix(name@),
{
    if name.len() >= 3 && name[1] == 0x3a && (name[2] == 0x2f || name[2] == 0x5c) {
        return is_ascii_alpha(name[0]);
    }
    false
}

/// Whether the raw name is absolute: it starts with `/` or `\`, with a drive
/// prefix such as `C:/`, or with the share prefix `\\`. An empty name is not.
pub fn is_absolute_path_bytes(name: &[u8]) -> (r: bool)
    ensures
        r == absolute_name(name@),
{
    if name.len() == 0 {
        return false;
    }
    starts_with_separator(name) || has_windows_drive_prefix(name) || has_share_prefix(name)
}

fn contains_parent_before(name: &[u8], sep: u8) -> (r: bool)
    requires
        sep == 0x2f || sep == 0x5c,
    ensures
        r == exists|i: int| #[trigger]
            parent_component_at(name@, i) && name@[i + 2] == sep,
{
    let n = name.len();
    if n < 3 {
        assert forall|i: int| #[trigger] parent_component_at(name@, i) implies false by {}
        return false;
    }
    let mut i: usize = 0;
    while i < n - 2
        invariant
            n == name@.len(),
            n >= 3,
            i <= n - 2,
            sep == 0x2f || sep == 0x5c,
            forall|j: int|
                0 <= j < i ==> !(#[trigger] parent_component_at(name@, j) && name@[j + 2] == sep),
        decreases n - i,
    {
        if name[i] == 0x2e && name[i + 1] == 0x2e && name[i + 2] == sep {
            assert(name@[i as int] == 0x2e && name@[i + 1] == 0x2e && name@[i + 2] == sep);
            assert(parent_component_at(name@, i as int));
            return true;
        }
        i = i + 1;
    }
    false
}

/// Whether the raw name holds a parent step: `../` or `..\` anywhere. A bare
/// `..` with no separator after it does not count.
pub fn has_parent_components_bytes(name: &[u8]) -> (r: bool)
    ensures
        r == has_parent_component(name@),
{
    if name.len() == 0 {
        return false;
    }
    let posix = contains_parent_before(name, 0x2f);
    let windows = contains_parent_before(name, 0x5c);
    posix || windows
}

/// The number of non-empty segments of the raw name, splitting on any run of
/// `/` or `\`. Leading and trailing separators add nothing.
pub fn count_path_components_bytes(name: &[u8]) -> (r: usize)
    ensures
        r == depth_of(name@),
{
    let n = name.len();
    let mut depth: usize = 0;
    let mut i: usize = 0;
    while i < n
        invariant
            n == name@.len(),
            i <= n,
            depth == segments_before(name@, i as int),
        decreases n - i,
    {
        proof {
            lemma_segments_before_bounded(name@, i as int);
        }
        let b = name[i];
        let sep = b == 0x2f || b == 0x5c;
        if !sep && (i == 0 || name[i - 1] == 0x2f || name[i - 1] == 0x5c) {
            depth = depth + 1;
        }
        i = i + 1;
    }
    depth
}

/// The directory depth of a raw name: its number of non-empty segments.
pub fn depth_hint_bytes(name: &[u8]) -> (r: usize)
    ensures
        r == depth_of(name@),
{
    count_path_components_bytes(name)
}

/// Longer than 255 bytes, or more than 40 segments deep.
pub fn path_is_extremely_long(name: &[u8]) -> (r: bool)
    ensures
        r == extremely_long(name@),
{
    name.len() > 255 || depth_hint_bytes(name) > 40
}

/// Whether some byte is an ASCII control character: below 0x20, or 0x7F.
pub fn contains_control_chars(name: &[u8]) -> (r: bool)
    ensures
        r == has_control_byte(name@),
{
    let mut i: usize = 0;
    while i < name.len()
        invariant
            i <= name@.len(),
            forall|j: int| 0 <= j < i ==> !is_control_byte(#[trigger] name@[j]),
        decreases name@.len() - i,
    {
        if name[i] < 0x20 || name[i] == 0x7f {
            assert(is_control_byte(name@[i as int]));
            return true;
        }
        i = i + 1;
    }
    false
}

/// A link target stays below the extraction root: it is not absolute and has
/// no parent step.
pub fn is_within_root(target: &str) -> (r: bool)
    ensures
        r == (!absolute_name(target.spec_bytes()) && !has_parent_component(target.spec_bytes())),
{
    let bytes = target.as_bytes();
    !is_absolute_path_bytes(bytes) && !has_parent_components_bytes(bytes)
}

} // verus!
