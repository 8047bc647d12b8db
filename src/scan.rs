//! The scan: open the archive, let the handlers see every entry in order,
//! finish them, and hand back the report.

use vstd::prelude::*;

use crate::archive::{
    archive_len, entry_metadata, entry_text, fault_message, fault_of, zip_entry_count,
    zip_entry_meta, zip_entry_text, ArchiveFault, ArchiveReader,
};
use crate::entry_view::{entry_model, EntryModel, EntryView};
use crate::pipeline::{
    audit_pass, audit_result, begin_all, default_handlers, default_states, finish_all,
    lemma_audit_pass_count, process_entry, states, BuiltinHandler, EntryAuditHandler,
};
use crate::report::ZipAuditReport;

verus! {

/// Why a scan stopped without a report.
#[derive(Clone, Debug)]
pub enum AuditError {
    /// The archive could not be opened.
    Open { fault: ArchiveFault, message: String },
    /// The entry at `index` could not be read.
    Entry { index: usize, fault: ArchiveFault, message: String },
}

impl AuditError {
    /// The class of the reader's failure.
    pub fn fault(&self) -> (r: ArchiveFault)
        ensures
            r == match self {
                AuditError::Open { fault, .. } => *fault,
                AuditError::Entry { fault, .. } => *fault,
            },
    {
        match self {
            AuditError::Open { fault, .. } => *fault,
            AuditError::Entry { fault, .. } => *fault,
        }
    }

    /// The reader's description of the failure.
    pub fn message(&self) -> (r: String)
        ensures
            r@ == match self {
                AuditError::Open { message, .. } => message@,
                AuditError::Entry { message, .. } => message@,
            },
    {
        match self {
            AuditError::Open { message, .. } => message.clone(),
            AuditError::Entry { message, .. } => message.clone(),
        }
    }
}

/// The entry at `i` of the archive held in `b` can be read.
pub open spec fn entry_readable(b: Seq<u8>, i: int) -> bool {
    zip_entry_meta(b, i).is_some()
}

/// Every one of the `n` entries can be read.
pub open spec fn all_readable(b: Seq<u8>, n: nat) -> bool {
    forall|i: int| 0 <= i < n ==> #[trigger] entry_readable(b, i)
}

/// `k` is the first of the `n` entries that cannot be read.
pub open spec fn first_unreadable(b: Seq<u8>, n: nat, k: int) -> bool {
    &&& 0 <= k < n
    &&& !entry_readable(b, k)
    &&& forall|j: int| 0 <= j < k ==> #[trigger] entry_readable(b, j)
}

/// The snapshot of the entry at `i` of the archive held in `b`.
pub open spec fn archive_entry(b: Seq<u8>, i: int) -> EntryModel {
    entry_model(zip_entry_meta(b, i).unwrap(), zip_entry_text(b, i))
}

/// The snapshots of the first `n` entries, in archive order.
pub open spec fn archive_entries(b: Seq<u8>, n: nat) -> Seq<EntryModel> {
    Seq::new(n, |i: int| archive_entry(b, i))
}

/// What a scan of the bytes `b` with handlers whose states are `hs` ends in.
pub open spec fn scan_outcome<H: EntryAuditHandler>(
    b: Seq<u8>,
    hs: Seq<H::V>,
    r: Result<ZipAuditReport, AuditError>,
) -> bool {
    match zip_entry_count(b) {
        None => r is Err && r->Err_0 is Open,
        Some(n) => {
            &&& r.is_ok() == all_readable(b, n)
            &&& r matches Ok(report) ==> report@ == audit_result::<H>(hs, archive_entries(b, n))
            &&& r matches Err(e) ==> match e {
                AuditError::Entry { index, .. } => first_unreadable(b, n, index as int),
                AuditError::Open { .. } => false,
            }
        },
    }
}

/// Scans the archive held in `bytes` with the given handlers.
///
/// An archive that cannot be opened gives `AuditError::Open`. Otherwise the
/// handlers begin, see every entry's snapshot in archive order (each entry is
/// counted before it is visited) and finish, and the report is the one
/// `audit_entries` gives for those snapshots; the first entry that cannot be
/// read stops the scan with `AuditError::Entry` for its index.
pub fn zip_audit_with_handlers<H: EntryAuditHandler>(bytes: Vec<u8>, handlers: Vec<H>) -> (r: Result<
    ZipAuditReport,
    AuditError,
>)
    ensures
        scan_outcome::<H>(bytes@, states(handlers@), r),
{
    let ghost hs0 = states(handlers@);
    let ghost b = bytes@;
    let mut pipeline = handlers;
    let mut report = ZipAuditReport::new();
    let mut zip = match ArchiveReader::open(bytes) {
        Ok(z) => z,
        Err(e) => {
            return Err(AuditError::Open { fault: fault_of(&e), message: fault_message(&e) });
        },
    };
    let n = archive_len(&zip);
    begin_all(&mut pipeline, n);
    let mut i: usize = 0;
    while i < n
        invariant
            i <= n,
            b == bytes@,
            hs0 == states(handlers@),
            zip.source() == b,
            zip_entry_count(b) == Some(n as nat),
            forall|j: int| 0 <= j < i ==> #[trigger] entry_readable(b, j),
            (states(pipeline@), report@) == audit_pass::<H>(hs0, archive_entries(b, i as nat)),
        decreases n - i,
    {
        let meta = match entry_metadata(&mut zip, i) {
            Ok(m) => m,
            Err(e) => {
                let fault = fault_of(&e);
                assert(!entry_readable(b, i as int));
                assert(!all_readable(b, n as nat));
                if fault == ArchiveFault::InvalidArchive {
                    report.truncated_or_mismatch = true;
                }
                assert(first_unreadable(b, n as nat, i as int));
                return Err(AuditError::Entry { index: i, fault, message: fault_message(&e) });
            },
        };
        let payload = if EntryView::wants_link_target(&meta) {
            entry_text(&mut zip, i)
        } else {
            None
        };
        let ghost text = zip_entry_text(b, i as int);
        let view = EntryView::from_entry(meta, payload);
        proof {
            lemma_audit_pass_count::<H>(hs0, archive_entries(b, i as nat));
            assert(archive_entries(b, (i + 1) as nat).drop_last() =~= archive_entries(b, i as nat));
            assert(view@ == archive_entry(b, i as int));
        }
        process_entry(&mut pipeline, &view, &mut report);
        i = i + 1;
    }
    finish_all(&mut pipeline, &mut report);
    Ok(report)
}

/// Scans the archive held in `bytes` with the default handlers.
pub fn zip_audit(bytes: Vec<u8>) -> (r: Result<ZipAuditReport, AuditError>)
    ensures
        scan_outcome::<BuiltinHandler>(bytes@, default_states(), r),
{
    zip_audit_with_handlers(bytes, default_handlers())
}

} // verus!
