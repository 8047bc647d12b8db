//! One entry's snapshot: every field the handlers read, computed once from
//! the metadata that the archive reader reports.

use vstd::prelude::*;
use vstd::utf8::{decode_utf8, valid_utf8};

use crate::path_safety::{
    absolute_name, count_path_components_bytes, depth_of, has_parent_component,
    has_parent_components_bytes, is_absolute_path_bytes,
};
use crate::report::Ratio;

verus! {

/// Link targets are read only from entries that expand to at most this many
/// bytes, so that an audit never inflates a large payload.
pub const LINK_TARGET_READ_LIMIT: u64 = 8192;

/// What the archive reader reports of one entry, before any analysis.
#[derive(Clone, Debug)]
pub struct EntryMetadata {
    /// The name exactly as stored.
    pub name_raw: Vec<u8>,
    /// The name made relative and stripped of parent steps by the reader.
    pub enclosed_name: String,
    pub compressed_size: u64,
    pub uncompressed_size: u64,
    pub encrypted: bool,
    pub unix_mode: Option<u32>,
}

/// The file-type bits of a POSIX mode denote a symbolic link.
pub open spec fn symlink_mode(unix_mode: Option<u32>) -> bool {
    match unix_mode {
        Some(m) => (m & 0o170000u32) == 0o120000u32,
        None => false,
    }
}

/// Whether the POSIX mode, when there is one, denotes a symbolic link.
pub fn is_symlink_unix_mode(unix_mode: Option<u32>) -> (r: bool)
    ensures
        r == symlink_mode(unix_mode),
{
    if let Some(m) = unix_mode {
        (m & 0o170000u32) == 0o120000u32
    } else {
        false
    }
}

/// The compression ratio `uncompressed / compressed`; infinite when
/// `compressed` is zero.
pub fn compression_ratio(compressed: u64, uncompressed: u64) -> (r: Ratio)
    ensures
        r.compressed == compressed,
        r.uncompressed == uncompressed,
        r.is_infinite() == (compressed == 0),
{
    Ratio { uncompressed, compressed }
}

/// Relies on `String::from_utf8`: `Ok` exactly when the bytes are valid
/// UTF-8, holding the text they encode.
#[verifier::external_body]
fn utf8_text(bytes: Vec<u8>) -> (r: Option<String>)
    ensures
        r.is_some() == valid_utf8(bytes@),
        r.is_some() ==> r.unwrap()@ == decode_utf8(bytes@),
{
    String::from_utf8(bytes).ok()
}

/// What `String::from_utf8_lossy` makes of a byte sequence.
pub uninterp spec fn lossy_text(bytes: Seq<u8>) -> Seq<char>;

/// Relies on `String::from_utf8_lossy`: a fixed decoding of the bytes, with
/// each invalid sequence replaced; valid UTF-8 is decoded unchanged.
#[verifier::external_body]
pub(crate) fn lossy_utf8(bytes: &[u8]) -> (r: String)
    ensures
        r@ == lossy_text(bytes@),
        valid_utf8(bytes@) ==> r@ == decode_utf8(bytes@),
{
    String::from_utf8_lossy(bytes).into_owned()
}

/// A copy of the raw name, and its text when it is valid UTF-8.
pub fn name_raw_and_utf8(bytes: &[u8]) -> (r: (Vec<u8>, Option<String>))
    ensures
        r.0@ == bytes@,
        r.1.is_some() == valid_utf8(bytes@),
        r.1.is_some() ==> r.1.unwrap()@ == decode_utf8(bytes@),
{
    let raw = vstd::slice::slice_to_vec(bytes);
    let copy = vstd::slice::slice_to_vec(bytes);
    let text = utf8_text(copy);
    (raw, text)
}

/// A read-only snapshot of one entry, as the handlers see it.
#[derive(Clone, Debug)]
pub struct EntryView {
    pub compressed_size: u64,
    pub depth_hint: usize,
    pub enclosed_name: String,
    pub encrypted: bool,
    pub has_abs: bool,
    pub has_parent_components: bool,
    pub invalid_utf8: bool,
    pub name_raw: Vec<u8>,
    pub ratio: Ratio,
    pub symlink: bool,
    pub symlink_target: Option<String>,
    pub uncompressed_size: u64,
    pub unix_mode: Option<u32>,
}

/// What an `EntryView` holds, with names and text as sequences.
pub struct EntryModel {
    pub compressed_size: u64,
    pub depth_hint: usize,
    pub enclosed_name: Seq<char>,
    pub encrypted: bool,
    pub has_abs: bool,
    pub has_parent_components: bool,
    pub invalid_utf8: bool,
    pub name_raw: Seq<u8>,
    pub ratio: Ratio,
    pub symlink: bool,
    pub symlink_target: Option<Seq<char>>,
    pub uncompressed_size: u64,
    pub unix_mode: Option<u32>,
}

impl View for EntryView {
    type V = EntryModel;

    open spec fn view(&self) -> EntryModel {
        EntryModel {
            compressed_size: self.compressed_size,
            depth_hint: self.depth_hint,
            enclosed_name: self.enclosed_name@,
            encrypted: self.encrypted,
            has_abs: self.has_abs,
            has_parent_components: self.has_parent_components,
            invalid_utf8: self.invalid_utf8,
            name_raw: self.name_raw@,
            ratio: self.ratio,
            symlink: self.symlink,
            symlink_target: text_view(self.symlink_target),
            uncompressed_size: self.uncompressed_size,
            unix_mode: self.unix_mode,
        }
    }
}

/// The characters of an optional text.
pub open spec fn text_view(t: Option<String>) -> Option<Seq<char>> {
    match t {
        Some(s) => Some(s@),
        None => None,
    }
}

/// An entry's metadata as plain values: raw name, enclosed name, stored
/// size, expanded size, encryption flag, POSIX mode.
pub open spec fn metadata_facts(m: EntryMetadata) -> (Seq<u8>, Seq<char>, u64, u64, bool, Option<
    u32,
>) {
    (m.name_raw@, m.enclosed_name@, m.compressed_size, m.uncompressed_size, m.encrypted, m.unix_mode)
}

/// The entry is a link whose target is small enough to read.
pub open spec fn wants_target(unix_mode: Option<u32>, uncompressed_size: u64) -> bool {
    symlink_mode(unix_mode) && uncompressed_size <= LINK_TARGET_READ_LIMIT
}

/// The snapshot of an entry with metadata `meta`, given the text read from
/// its payload (used only when the entry is a small link, and only when not
/// empty).
pub open spec fn entry_model(
    meta: (Seq<u8>, Seq<char>, u64, u64, bool, Option<u32>),
    payload: Option<Seq<char>>,
) -> EntryModel {
    let (name_raw, enclosed_name, compressed, uncompressed, encrypted, unix_mode) = meta;
    EntryModel {
        compressed_size: compressed,
        depth_hint: depth_of(name_raw) as usize,
        enclosed_name,
        encrypted,
        has_abs: absolute_name(name_raw),
        has_parent_components: has_parent_component(name_raw),
        invalid_utf8: !valid_utf8(name_raw),
        name_raw,
        ratio: Ratio { uncompressed, compressed },
        symlink: symlink_mode(unix_mode),
        symlink_target: match payload {
            Some(t) => if wants_target(unix_mode, uncompressed) && t.len() > 0 {
                Some(t)
            } else {
                None
            },
            None => None,
        },
        uncompressed_size: uncompressed,
        unix_mode,
    }
}

impl EntryView {
    /// Whether the builder needs the entry's payload as text: the entry is a
    /// symbolic link of at most `LINK_TARGET_READ_LIMIT` bytes.
    pub fn wants_link_target(meta: &EntryMetadata) -> (r: bool)
        ensures
            r == wants_target(meta.unix_mode, meta.uncompressed_size),
    {
        is_symlink_unix_mode(meta.unix_mode) && meta.uncompressed_size <= LINK_TARGET_READ_LIMIT
    }

    /// Builds the snapshot of one entry. `payload` is the text read from the
    /// entry's payload; it is used as the link target only when the entry
    /// wants one and the text is not empty.
    pub fn from_entry(meta: EntryMetadata, payload: Option<String>) -> (r: EntryView)
        ensures
            r@ == entry_model(metadata_facts(meta), text_view(payload)),
    {
        let (name_raw, utf8) = name_raw_and_utf8(meta.name_raw.as_slice());
        let invalid_utf8 = utf8.is_none();
        let has_abs = is_absolute_path_bytes(name_raw.as_slice());
        let has_parent = has_parent_components_bytes(name_raw.as_slice());
        let depth_hint = count_path_components_bytes(name_raw.as_slice());
        let ratio = compression_ratio(meta.compressed_size, meta.uncompressed_size);
        let symlink = is_symlink_unix_mode(meta.unix_mode);
        let wants = Self::wants_link_target(&meta);
        let mut symlink_target: Option<String> = None;
        if wants {
            if let Some(t) = payload {
                if !t.as_str().is_empty() {
                    symlink_target = Some(t);
                }
            }
        }
        EntryView {
            compressed_size: meta.compressed_size,
            depth_hint,
            enclosed_name: meta.enclosed_name,
            encrypted: meta.encrypted,
            has_abs,
            has_parent_components: has_parent,
            invalid_utf8,
            name_raw,
            ratio,
            symlink,
            symlink_target,
            uncompressed_size: meta.uncompressed_size,
            unix_mode: meta.unix_mode,
        }
    }
}

} // verus!
