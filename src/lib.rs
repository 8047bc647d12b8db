//! Read-only risk assessment of ZIP archives: path-safety predicates on raw
//! entry names, per-entry snapshots, an ordered pipeline of analysis handlers
//! and the aggregate report they fill.

pub mod archive;
pub mod entry_view;
pub mod file_utils;
pub mod handlers;
pub mod laws;
pub mod path_safety;
pub mod pipeline;
pub mod report;
pub mod reserved_names;
pub mod scan;

pub use archive::ArchiveFault;
pub use entry_view::{
    compression_ratio, is_symlink_unix_mode, name_raw_and_utf8, EntryMetadata, EntryView,
};
pub use file_utils::{has_zip_signature, make_relative_path, path_as_string};
pub use handlers::{
    DuplicatesHandler, EncryptionHandler, NamesHandler, PathHandler, RatiosHandler,
    RecommendationsHandler, SymlinksHandler,
};
pub use path_safety::{
    contains_control_chars, count_path_components_bytes, depth_hint_bytes,
    has_parent_components_bytes, is_absolute_path_bytes, is_within_root,
    path_is_extremely_long,
};
pub use pipeline::{audit_entries, default_handlers, BuiltinHandler, EntryAuditHandler};
pub use report::{Ratio, SuspiciousEntry, SuspiciousReason, ZipAuditReport};
pub use reserved_names::is_windows_reserved_name;
pub use scan::{zip_audit, zip_audit_with_handlers, AuditError};
