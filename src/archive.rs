//! Reading an archive held in memory through the `zip` crate. Each function
//! here makes one kind of call into that crate and is taken on trust.

use std::io::Cursor;

use vstd::prelude::*;
use zip::result::ZipError;
use zip::ZipArchive;

use crate::entry_view::{metadata_facts, text_view, EntryMetadata};

verus! {

#[verifier::external_type_specification]
#[verifier::external_body]
#[verifier::reject_recursive_types(R)]
pub struct ExZipArchive<R>(ZipArchive<R>);

#[verifier::external_type_specification]
#[verifier::external_body]
#[verifier::reject_recursive_types(T)]
pub struct ExCursor<T>(Cursor<T>);

#[verifier::external_type_specification]
#[verifier::external_body]
pub struct ExZipError(ZipError);

/// The class of a failure reported by the archive reader.
#[derive(Clone, Copy, Debug, PartialEq, Eq, Structural)]
pub enum ArchiveFault {
    /// Reading the underlying bytes failed.
    Io,
    /// The container is truncated or inconsistent.
    InvalidArchive,
    /// A feature the reader does not support (including encrypted entries).
    UnsupportedArchive,
    /// No entry at the index asked for.
    FileNotFound,
    /// A wrong password.
    InvalidPassword,
    /// Any other failure.
    Other,
}

/// The number of entries `zip::ZipArchive` lists for an archive held in
/// `bytes`, or `None` when it cannot open it.
pub uninterp spec fn zip_entry_count(bytes: Seq<u8>) -> Option<nat>;

/// The metadata `zip` reports for the entry at `index` of the archive held in
/// `bytes` (raw name, mangled name, stored size, expanded size, encryption
/// flag, POSIX mode), or `None` when the entry cannot be read.
pub uninterp spec fn zip_entry_meta(bytes: Seq<u8>, index: int) -> Option<
    (Seq<u8>, Seq<char>, u64, u64, bool, Option<u32>),
>;

/// The decoded payload of the entry at `index` of the archive held in
/// `bytes`, read as text, or `None` when it cannot be read as text.
pub uninterp spec fn zip_entry_text(bytes: Seq<u8>, index: int) -> Option<Seq<char>>;

/// An archive opened from bytes held in memory. The bytes are kept as a ghost
/// so that what is read from the archive can be stated over them; the only
/// way to make one is `ArchiveReader::open`.
pub struct ArchiveReader {
    archive: ZipArchive<Cursor<Vec<u8>>>,
    bytes: Ghost<Seq<u8>>,
}

impl ArchiveReader {
    /// The bytes the archive was opened from.
    pub closed spec fn source(&self) -> Seq<u8> {
        self.bytes@
    }

    /// Opens the archive held in `bytes`: `Ok` exactly when `zip` can.
    pub fn open(bytes: Vec<u8>) -> (r: Result<ArchiveReader, ZipError>)
        ensures
            r.is_ok() == zip_entry_count(bytes@).is_some(),
            r matches Ok(a) ==> a.source() == bytes@,
    {
        let ghost b = bytes@;
        match open_archive(bytes) {
            Ok(archive) => Ok(ArchiveReader { archive, bytes: Ghost(b) }),
            Err(e) => Err(e),
        }
    }
}

/// Relies on `zip::ZipArchive::new`: parses the central directory of the
/// bytes; whether it succeeds depends on the bytes alone.
#[verifier::external_body]
fn open_archive(bytes: Vec<u8>) -> (r: Result<ZipArchive<Cursor<Vec<u8>>>, ZipError>)
    ensures
        r.is_ok() == zip_entry_count(bytes@).is_some(),
{
    ZipArchive::new(Cursor::new(bytes))
}

/// Relies on `zip::ZipArchive::len`: the number of entries listed in the
/// central directory the archive was opened from.
#[verifier::external_body]
pub(crate) fn archive_len(src: &ArchiveReader) -> (r: usize)
    ensures
        zip_entry_count(src.source()) == Some(r as nat),
{
    src.archive.len()
}

/// Relies on `zip::ZipArchive::by_index_raw`, which finds an entry without
/// decrypting or inflating it, and the metadata getters of the entry it
/// returns (`name_raw`, `mangled_name`, `compressed_size`, `size`,
/// `encrypted`, `unix_mode`).
#[verifier::external_body]
pub(crate) fn entry_metadata(src: &mut ArchiveReader, index: usize) -> (r: Result<
    EntryMetadata,
    ZipError,
>)
    ensures
        final(src).source() == old(src).source(),
        r.is_ok() == zip_entry_meta(old(src).source(), index as int).is_some(),
        r matches Ok(m) ==> zip_entry_meta(old(src).source(), index as int) == Some(
            metadata_facts(m),
        ),
{
    let entry = src.archive.by_index_raw(index)?;
    Ok(
        EntryMetadata {
            name_raw: entry.name_raw().to_vec(),
            enclosed_name: entry.mangled_name().to_string_lossy().into_owned(),
            compressed_size: entry.compressed_size(),
            uncompressed_size: entry.size(),
            encrypted: entry.encrypted(),
            unix_mode: entry.unix_mode(),
        },
    )
}

/// Relies on `zip::ZipArchive::by_index` and `Read::read_to_string` on the
/// entry: the entry's decoded payload as text; `None` when the entry cannot
/// be opened or its payload cannot be read as text.
#[verifier::external_body]
pub(crate) fn entry_text(src: &mut ArchiveReader, index: usize) -> (r: Option<String>)
    ensures
        final(src).source() == old(src).source(),
        text_view(r) == zip_entry_text(old(src).source(), index as int),
{
    let mut entry = src.archive.by_index(index).ok()?;
    let mut text = String::new();
    std::io::Read::read_to_string(&mut entry, &mut text).ok()?;
    Some(text)
}

/// Relies on the variants of `zip::result::ZipError`, one arm each.
#[verifier::external_body]
pub(crate) fn fault_of(e: &ZipError) -> (r: ArchiveFault) {
    match e {
        ZipError::Io(_) => ArchiveFault::Io,
        ZipError::InvalidArchive(_) => ArchiveFault::InvalidArchive,
        ZipError::UnsupportedArchive(_) => ArchiveFault::UnsupportedArchive,
        ZipError::FileNotFound => ArchiveFault::FileNotFound,
        ZipError::InvalidPassword => ArchiveFault::InvalidPassword,
        _ => ArchiveFault::Other,
    }
}

/// Relies on the `Display` text of `zip::result::ZipError`.
#[verifier::external_body]
pub(crate) fn fault_message(e: &ZipError) -> (r: String) {
    e.to_string()
}

} // verus!
