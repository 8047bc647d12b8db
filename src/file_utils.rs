//! Small decisions on paths and file headers, made on plain values: the
//! caller splits paths into components and reads the header bytes.

use vstd::prelude::*;
use vstd::string::StringExecFns;

verus! {

/// `root`'s components lead `current`'s, as far as both go.
pub open spec fn leads(root: Seq<Vec<u8>>, current: Seq<Vec<u8>>) -> bool {
    forall|i: int| 0 <= i < root.len() && i < current.len() ==> #[trigger] root[i]@ == current[i]@
}

/// Where the path `current` continues below `root`, both given as their
/// components' bytes: `Some(root.len())` when `root`'s components lead
/// `current`'s and `current` is at least as long; otherwise `None` (nothing
/// of `current` lies below `root`).
pub fn make_relative_path(root: &Vec<Vec<u8>>, current: &Vec<Vec<u8>>) -> (r: Option<usize>)
    ensures
        r == if leads(root@, current@) && root@.len() <= current@.len() {
            Some(root@.len() as usize)
        } else {
            None::<usize>
        },
{
    let mut i: usize = 0;
    while i < current.len() && i < root.len()
        invariant
            i <= current@.len(),
            i <= root@.len(),
            forall|j: int| 0 <= j < i ==> #[trigger] root@[j]@ == current@[j]@,
        decreases current@.len() - i,
    {
        if !(root[i] == current[i]) {
            return None;
        }
        i = i + 1;
    }
    if root.len() <= current.len() {
        Some(root.len())
    } else {
        None
    }
}

/// `parts` joined with `/` between them.
pub open spec fn joined(parts: Seq<Seq<char>>) -> Seq<char>
    decreases parts.len(),
{
    if parts.len() == 0 {
        Seq::empty()
    } else if parts.len() == 1 {
        parts[0]
    } else {
        joined(parts.drop_last()) + seq!['/'] + parts.last()
    }
}

/// The normal components of a path, written with `/` between them: the form
/// an entry name takes in an archive.
pub fn path_as_string(parts: &Vec<String>) -> (r: String)
    ensures
        r@ == joined(parts@.map_values(|s: String| s@)),
{
    let ghost views = parts@.map_values(|s: String| s@);
    let mut out = String::new();
    let mut i: usize = 0;
    while i < parts.len()
        invariant
            i <= parts@.len(),
            views == parts@.map_values(|s: String| s@),
            out@ == joined(views.subrange(0, i as int)),
        decreases parts@.len() - i,
    {
        proof {
            assert(views.subrange(0, i + 1).drop_last() =~= views.subrange(0, i as int));
            reveal_strlit("/");
        }
        if i > 0 {
            out.append("/");
        }
        out.append(parts[i].as_str());
        i = i + 1;
    }
    assert(views.subrange(0, parts@.len() as int) =~= views);
    out
}

/// The local-header and end-of-directory signatures: `PK` then a pair from
/// `03 04`, `05 06`, `07 08`, matched on either byte.
pub open spec fn zip_signature(h: Seq<u8>) -> bool {
    h.len() == 4 && h[0] == 0x50 && h[1] == 0x4b && (h[2] == 3 || h[2] == 5 || h[2] == 7 || h[3]
        == 4 || h[3] == 6 || h[3] == 8)
}

/// Whether the first bytes read from a file mark it as a ZIP archive. Fewer
/// than four bytes never do.
pub fn has_zip_signature(header: &[u8]) -> (r: bool)
    ensures
        r == zip_signature(header@),
{
    if header.len() != 4 {
        return false;
    }
    if header[0] != 0x50 || header[1] != 0x4b {
        return false;
    }
    let a = header[2];
    let b = header[3];
    a == 3 || b == 4 || a == 5 || b == 6 || a == 7 || b == 8
}

} // verus!
