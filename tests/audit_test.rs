use std::io::{Cursor, Write};

use zip::unstable::write::FileOptionsExt;
use zip::write::SimpleFileOptions;
use zip::{CompressionMethod, ZipWriter};
use zip_extensions::{
    audit_entries, compression_ratio, contains_control_chars, default_handlers, depth_hint_bytes,
    has_parent_components_bytes, has_zip_signature, is_absolute_path_bytes,
    is_symlink_unix_mode, is_windows_reserved_name, is_within_root, make_relative_path,
    name_raw_and_utf8, path_as_string, path_is_extremely_long, zip_audit,
    zip_audit_with_handlers, ArchiveFault, AuditError, BuiltinHandler, DuplicatesHandler,
    EntryMetadata, EntryView, RatiosHandler, SuspiciousReason, ZipAuditReport,
};

fn meta(name: &str, compressed: u64, uncompressed: u64) -> EntryMetadata {
    EntryMetadata {
        name_raw: name.as_bytes().to_vec(),
        enclosed_name: name.to_string(),
        compressed_size: compressed,
        uncompressed_size: uncompressed,
        encrypted: false,
        unix_mode: None,
    }
}

fn view(name: &str, compressed: u64, uncompressed: u64) -> EntryView {
    EntryView::from_entry(meta(name, compressed, uncompressed), None)
}

fn audit(views: Vec<EntryView>) -> ZipAuditReport {
    audit_entries(&views, default_handlers())
}

fn reasons(report: &ZipAuditReport) -> Vec<(String, SuspiciousReason)> {
    report
        .suspicious_entries
        .iter()
        .map(|e| (e.name.clone(), e.reason))
        .collect()
}

fn archive(files: &[(&str, &[u8])]) -> Vec<u8> {
    let mut w = ZipWriter::new(Cursor::new(Vec::new()));
    let options = SimpleFileOptions::default().compression_method(CompressionMethod::Stored);
    for (name, data) in files {
        w.start_file(*name, options).unwrap();
        w.write_all(data).unwrap();
    }
    w.finish().unwrap().into_inner()
}

#[test]
fn ratio_is_exact_quotient_or_infinite() {
    let r = compression_ratio(10, 50000);
    assert_eq!((r.compressed, r.uncompressed), (10, 50000));
    assert!(r.is_finite());
    assert_eq!(r.scaled_value(), 5000 * 1_000_000_000);
    assert!(!compression_ratio(0, 7).is_finite());
    assert!(!compression_ratio(0, 0).is_finite());
    assert_eq!(compression_ratio(3, 1).scaled_value(), 333_333_333);
}

#[test]
fn avg_ratio_is_running_mean_of_finite_ratios() {
    let report = audit(vec![view("a", 10, 20), view("b", 10, 40)]);
    assert_eq!(report.entry_count, 2);
    assert_eq!(report.avg_ratio, 3_000_000_000);
    let report = audit(vec![view("a", 1, 1), view("b", 1, 2), view("c", 1, 6)]);
    assert_eq!(report.avg_ratio, 3_000_000_000);
}

#[test]
fn avg_ratio_skips_infinite_ratio_but_counts_entry() {
    let report = audit(vec![view("a", 10, 20), view("empty", 0, 0)]);
    assert_eq!(report.avg_ratio, 2_000_000_000);
    // The divisor is the number of entries seen, infinite ones included.
    let report = audit(vec![view("empty", 0, 0), view("b", 1, 2)]);
    assert_eq!(report.avg_ratio, 1_000_000_000);
    assert!(report.max_ratio.compressed == 0);
}

#[test]
fn depth_hint_values() {
    assert_eq!(depth_hint_bytes(b""), 0);
    assert_eq!(depth_hint_bytes(b"file"), 1);
    assert_eq!(depth_hint_bytes(b"a/b/c"), 3);
    assert_eq!(depth_hint_bytes(b"a//b///c"), 3);
    assert_eq!(depth_hint_bytes(b"/a/b/"), 2);
    assert_eq!(depth_hint_bytes(b"///"), 0);
}

#[test]
fn absolute_values() {
    assert!(!is_absolute_path_bytes(b""));
    assert!(is_absolute_path_bytes(b"/"));
    assert!(is_absolute_path_bytes(b"C:/x"));
    assert!(!is_absolute_path_bytes(b"C:x"));
    assert!(is_absolute_path_bytes(b"\\\\server\\share"));
    assert!(is_absolute_path_bytes(b"z:\\"));
    assert!(!is_absolute_path_bytes(b"1:/x"));
}

#[test]
fn parent_component_values() {
    assert!(!has_parent_components_bytes(b".."));
    assert!(has_parent_components_bytes(b"../a"));
    assert!(!has_parent_components_bytes(b"a..b/c"));
    assert!(has_parent_components_bytes(b"x/y/..\\"));
}

#[test]
fn reserved_name_values() {
    for name in ["CON", "con", "NUL.txt", "lpt9.tar.gz", "CON...", "COM¹"] {
        assert!(is_windows_reserved_name(name), "{}", name);
    }
    for name in ["CONSOLE", "LPT10", "COM0", "COM", "AUX1"] {
        assert!(!is_windows_reserved_name(name), "{}", name);
    }
}

#[test]
fn long_names_and_control_chars() {
    assert!(!path_is_extremely_long(&[b'a'; 255]));
    assert!(path_is_extremely_long(&[b'a'; 256]));
    let deep = "a/".repeat(41);
    assert!(path_is_extremely_long(deep.as_bytes()));
    let shallow = "a/".repeat(40);
    assert!(!path_is_extremely_long(shallow.as_bytes()));
    assert!(contains_control_chars(b"a\x1fb"));
    assert!(contains_control_chars(b"a\x7f"));
    assert!(!contains_control_chars(b"a b~"));
}

#[test]
fn symlink_mode_and_root_checks() {
    assert!(is_symlink_unix_mode(Some(0o120777)));
    assert!(!is_symlink_unix_mode(Some(0o100644)));
    assert!(!is_symlink_unix_mode(None));
    assert!(is_within_root("sub/file"));
    assert!(!is_within_root("../../etc/passwd"));
    assert!(!is_within_root("/etc/passwd"));
}

#[test]
fn raw_name_text_decoding() {
    let (raw, text) = name_raw_and_utf8(b"ok.txt");
    assert_eq!(raw, b"ok.txt".to_vec());
    assert_eq!(text.as_deref(), Some("ok.txt"));
    let (raw, text) = name_raw_and_utf8(&[0x66, 0xff, 0x6f]);
    assert_eq!(raw, vec![0x66, 0xff, 0x6f]);
    assert_eq!(text, None);
}

#[test]
fn snapshot_from_metadata() {
    let v = EntryView::from_entry(meta("../a//b", 4, 8), Some("ignored".to_string()));
    assert!(v.has_parent_components);
    assert!(!v.has_abs);
    assert_eq!(v.depth_hint, 3);
    assert!(!v.invalid_utf8);
    assert!(!v.symlink);
    assert_eq!(v.symlink_target, None);
    let mut m = meta("link", 5, 5);
    m.unix_mode = Some(0o120777);
    let v = EntryView::from_entry(m.clone(), Some("target".to_string()));
    assert!(v.symlink);
    assert_eq!(v.symlink_target.as_deref(), Some("target"));
    let v = EntryView::from_entry(m.clone(), Some(String::new()));
    assert_eq!(v.symlink_target, None);
    m.uncompressed_size = 8193;
    let v = EntryView::from_entry(m, Some("target".to_string()));
    assert_eq!(v.symlink_target, None);
}

#[test]
fn duplicate_name_recorded_once() {
    let report = audit(vec![view("dir/a.txt", 5, 5), view("dir/a.txt", 5, 5)]);
    assert_eq!(report.entry_count, 2);
    assert_eq!(report.duplicate_names, vec!["dir/a.txt".to_string()]);
    let report = audit(vec![view("x", 1, 1), view("x", 1, 1), view("x", 1, 1)]);
    assert_eq!(report.duplicate_names.len(), 2);
}

#[test]
fn huge_ratio_flagged_and_advised() {
    let report = audit(vec![view("bomb.bin", 10, 50000)]);
    assert_eq!(
        reasons(&report),
        vec![(
            "bomb.bin".to_string(),
            SuspiciousReason::HugeRatio { compressed: 10, uncompressed: 50000 }
        )]
    );
    assert_eq!(
        report.recommendations,
        vec!["Limit max compression ratio (500 recommended).".to_string()]
    );
    assert_eq!(report.max_ratio.uncompressed, 50000);
    assert_eq!(report.max_ratio.compressed, 10);
    let calm = audit(vec![view("ok.bin", 10, 10000)]);
    assert!(calm.suspicious_entries.is_empty());
    assert!(calm.recommendations.is_empty());
}

#[test]
fn zero_compressed_but_large_flagged() {
    let report = audit(vec![view("zero.bin", 0, 2_000_000)]);
    let found = reasons(&report);
    assert!(found.contains(&("zero.bin".to_string(), SuspiciousReason::ZeroCompressedButLarge)));
    assert!(found.contains(&(
        "zero.bin".to_string(),
        SuspiciousReason::HugeRatio { compressed: 0, uncompressed: 2_000_000 }
    )));
    let small = audit(vec![view("zero.bin", 0, 1_048_576)]);
    assert!(!reasons(&small)
        .iter()
        .any(|(_, r)| *r == SuspiciousReason::ZeroCompressedButLarge));
}

#[test]
fn escaping_symlink_counted() {
    let mut m = meta("link", 16, 16);
    m.unix_mode = Some(0o120777);
    let v = EntryView::from_entry(m, Some("../../etc/passwd".to_string()));
    let report = audit(vec![v]);
    assert!(report.has_symlinks);
    assert_eq!(report.symlinks_point_outside_root, 1);
    let mut m = meta("inner", 8, 8);
    m.unix_mode = Some(0o120777);
    let v = EntryView::from_entry(m, Some("sub/file".to_string()));
    let report = audit(vec![v]);
    assert!(report.has_symlinks);
    assert_eq!(report.symlinks_point_outside_root, 0);
}

#[test]
fn names_findings_in_handler_order() {
    let long = format!("{}CON", "d/".repeat(41));
    let report = audit(vec![view("a\x01b", 1, 1), view(&long, 1, 1)]);
    assert_eq!(
        reasons(&report),
        vec![
            ("a\x01b".to_string(), SuspiciousReason::ControlCharsInName),
            (long.clone(), SuspiciousReason::ExtremelyLongPath),
            (long, SuspiciousReason::WindowsReservedName),
        ]
    );
    assert_eq!(report.max_depth_hint, 42);
    assert_eq!(report.recommendations, vec!["Limit directory depth during extraction.".to_string()]);
}

#[test]
fn invalid_utf8_name_reported_lossily() {
    let m = EntryMetadata {
        name_raw: vec![0x61, 0xff],
        enclosed_name: "a".to_string(),
        compressed_size: 1,
        uncompressed_size: 1,
        encrypted: false,
        unix_mode: None,
    };
    let report = audit(vec![EntryView::from_entry(m, None)]);
    assert_eq!(reasons(&report), vec![("a\u{fffd}".to_string(), SuspiciousReason::InvalidUtf8)]);
}

#[test]
fn absolute_and_encrypted_entries_advised() {
    let mut m = meta("/etc/x", 1, 1);
    m.encrypted = true;
    let report = audit(vec![EntryView::from_entry(m, None), view("../up", 1, 1)]);
    assert!(report.has_absolute_paths);
    assert!(report.has_parent_components);
    assert!(report.has_encrypted_entries);
    assert_eq!(report.encrypted_entries, vec!["/etc/x".to_string()]);
    assert_eq!(
        report.recommendations,
        vec![
            "Reject ZIPs containing absolute paths.".to_string(),
            "Refuse encrypted entries to prevent password prompts.".to_string(),
        ]
    );
}

#[test]
fn totals_saturate() {
    let report = audit(vec![view("a", u64::MAX, 1), view("b", 5, u64::MAX), view("c", 7, 9)]);
    assert_eq!(report.total_compressed, u64::MAX);
    assert_eq!(report.total_uncompressed, u64::MAX);
}

#[test]
fn custom_pipeline_runs_only_its_handlers() {
    let handlers = vec![
        BuiltinHandler::Duplicates(DuplicatesHandler::new()),
        BuiltinHandler::Ratios(RatiosHandler),
    ];
    let report = audit_entries(&vec![view("a", 10, 50000), view("a", 1, 1)], handlers);
    assert_eq!(report.duplicate_names, vec!["a".to_string()]);
    assert_eq!(report.suspicious_entries.len(), 1);
    assert!(report.recommendations.is_empty());
}

#[test]
fn scan_of_real_archive() {
    let bytes = archive(&[("dir/a.txt", b"hello"), ("CON.txt", b"x")]);
    let report = zip_audit(bytes).unwrap();
    assert_eq!(report.entry_count, 2);
    assert_eq!(report.total_uncompressed, 6);
    assert_eq!(report.total_compressed, 6);
    assert_eq!(report.max_depth_hint, 2);
    assert_eq!(
        reasons(&report),
        vec![("CON.txt".to_string(), SuspiciousReason::WindowsReservedName)]
    );
}

#[test]
fn scan_reads_symlink_target() {
    let mut w = ZipWriter::new(Cursor::new(Vec::new()));
    let options = SimpleFileOptions::default().compression_method(CompressionMethod::Stored);
    w.add_symlink("evil", "../../etc/passwd", options).unwrap();
    w.add_symlink("fine", "sub/file", options).unwrap();
    let bytes = w.finish().unwrap().into_inner();
    let report = zip_audit(bytes).unwrap();
    assert!(report.has_symlinks);
    assert_eq!(report.symlinks_point_outside_root, 1);
}

#[test]
fn scan_uses_sanitized_names() {
    let bytes = archive(&[("../up/x.txt", b"1"), ("/abs.txt", b"2")]);
    let report = zip_audit(bytes).unwrap();
    assert!(report.has_parent_components);
    assert!(report.has_absolute_paths);
    assert!(report.recommendations.contains(&"Reject ZIPs containing absolute paths.".to_string()));
}

#[test]
fn scan_twice_gives_same_report() {
    let bytes = archive(&[("a", b"aaaa"), ("b/c", b""), ("NUL", b"z")]);
    let r1 = zip_audit(bytes.clone()).unwrap();
    let r2 = zip_audit_with_handlers(bytes, default_handlers()).unwrap();
    assert_eq!(format!("{:?}", r1), format!("{:?}", r2));
}

#[test]
fn scan_of_garbage_fails_to_open() {
    let err = zip_audit(b"definitely not an archive".to_vec()).unwrap_err();
    assert!(matches!(err, AuditError::Open { .. }));
    assert_eq!(err.fault(), ArchiveFault::InvalidArchive);
    assert!(err.message().starts_with("invalid Zip archive"));
}

#[test]
fn scan_of_empty_archive() {
    let report = zip_audit(archive(&[])).unwrap();
    assert_eq!(report.entry_count, 0);
    assert_eq!(report.avg_ratio, 0);
    assert!(report.recommendations.is_empty());
}

#[test]
fn relative_path_and_joining() {
    let c = |s: &[&str]| s.iter().map(|p| p.as_bytes().to_vec()).collect::<Vec<_>>();
    assert_eq!(make_relative_path(&c(&["/", "r"]), &c(&["/", "r", "a", "b"])), Some(2));
    assert_eq!(make_relative_path(&c(&["/", "r"]), &c(&["/", "s", "a"])), None);
    assert_eq!(make_relative_path(&c(&["/", "r", "x"]), &c(&["/", "r"])), None);
    let parts = vec!["a".to_string(), "b".to_string(), "c.txt".to_string()];
    assert_eq!(path_as_string(&parts), "a/b/c.txt");
    assert_eq!(path_as_string(&Vec::new()), "");
}

#[test]
fn zip_signature_check() {
    assert!(has_zip_signature(&[0x50, 0x4b, 0x03, 0x04]));
    assert!(has_zip_signature(&[0x50, 0x4b, 0x05, 0x06]));
    assert!(!has_zip_signature(&[0x50, 0x4b, 0x00, 0x00]));
    assert!(!has_zip_signature(&[0x50, 0x4b, 0x03]));
    assert!(!has_zip_signature(&[0x51, 0x4b, 0x03, 0x04]));
}

#[test]
fn scan_reports_encrypted_entries() {
    let mut w = ZipWriter::new(Cursor::new(Vec::new()));
    let options = SimpleFileOptions::default()
        .compression_method(CompressionMethod::Stored)
        .with_deprecated_encryption(b"secret");
    w.start_file("secret.txt", options).unwrap();
    w.write_all(b"hidden").unwrap();
    let bytes = w.finish().unwrap().into_inner();
    let report = zip_audit(bytes).unwrap();
    assert!(report.has_encrypted_entries);
    assert_eq!(report.encrypted_entries, vec!["secret.txt".to_string()]);
    assert!(report
        .recommendations
        .contains(&"Refuse encrypted entries to prevent password prompts.".to_string()));
}

#[test]
fn scan_with_no_handlers_only_counts() {
    let bytes = archive(&[("a", b"aaaa"), ("b", b"bb")]);
    let report = zip_audit_with_handlers::<BuiltinHandler>(bytes, Vec::new()).unwrap();
    assert_eq!(report.entry_count, 2);
    assert_eq!(report.total_uncompressed, 0);
    assert!(report.suspicious_entries.is_empty());
}

