//! The analysis handlers. Each reads one entry snapshot and writes into the
//! shared report; `EntryAuditHandler` runs any of them in a pipeline.

use vstd::prelude::*;
use vstd::utf8::encode_utf8;

use crate::entry_view::{lossy_text, lossy_utf8, EntryModel, EntryView};
use crate::path_safety::{
    absolute_name, contains_control_chars, extremely_long, has_control_byte,
    has_parent_component, is_within_root, path_is_extremely_long,
};
use crate::report::{
    ReportModel, SuspiciousReason, ZipAuditReport, DEPTH_RECOMMENDATION_LIMIT,
    MAX_SUSPICIOUS_RATIO, ZERO_COMPRESSED_LIMIT,
};
use crate::reserved_names::{is_windows_reserved_name, reserved_name};

verus! {

pub open spec fn push_if<T>(s: Seq<T>, cond: bool, item: T) -> Seq<T> {
    if cond {
        s.push(item)
    } else {
        s
    }
}

pub open spec fn saturating_sum(a: u64, b: u64) -> u64 {
    if a + b > u64::MAX {
        u64::MAX
    } else {
        (a + b) as u64
    }
}

/// One step of the incremental mean `avg + (x - avg) / n`, rounded toward
/// `avg`.
pub open spec fn running_mean_step(avg: int, x: int, n: int) -> int {
    if x >= avg {
        avg + (x - avg) / n
    } else {
        avg - (avg - x) / n
    }
}

/// The link target, read as a relative path, leaves the extraction root.
pub open spec fn target_escapes(t: Seq<char>) -> bool {
    absolute_name(encode_utf8(t)) || has_parent_component(encode_utf8(t))
}

/// Path handler: absolute and parent flags, deepest name, undecodable names.
pub open spec fn path_step(v: EntryModel, m: ReportModel) -> ReportModel {
    ReportModel {
        has_absolute_paths: m.has_absolute_paths || v.has_abs,
        has_parent_components: m.has_parent_components || v.has_parent_components,
        max_depth_hint: if v.depth_hint > m.max_depth_hint {
            v.depth_hint
        } else {
            m.max_depth_hint
        },
        suspicious_entries: push_if(
            m.suspicious_entries,
            v.invalid_utf8,
            (lossy_text(v.name_raw), SuspiciousReason::InvalidUtf8),
        ),
        ..m
    }
}

/// Ratios handler: saturating size totals, running mean and maximum of the
/// ratios, and the two size findings.
pub open spec fn ratios_step(v: EntryModel, m: ReportModel) -> ReportModel {
    ReportModel {
        total_compressed: saturating_sum(m.total_compressed, v.compressed_size),
        total_uncompressed: saturating_sum(m.total_uncompressed, v.uncompressed_size),
        avg_ratio: if v.ratio.is_infinite() {
            m.avg_ratio
        } else {
            running_mean_step(m.avg_ratio as int, v.ratio.scaled(), m.entry_count as int) as u128
        },
        max_ratio: if v.ratio.greater_than(m.max_ratio) {
            v.ratio
        } else {
            m.max_ratio
        },
        suspicious_entries: push_if(
            push_if(
                m.suspicious_entries,
                v.ratio.exceeds(MAX_SUSPICIOUS_RATIO as int),
                (
                    v.enclosed_name,
                    SuspiciousReason::HugeRatio {
                        compressed: v.compressed_size,
                        uncompressed: v.uncompressed_size,
                    },
                ),
            ),
            v.compressed_size == 0 && v.uncompressed_size > ZERO_COMPRESSED_LIMIT,
            (v.enclosed_name, SuspiciousReason::ZeroCompressedButLarge),
        ),
        ..m
    }
}

/// Names handler: long names, control characters, device names, in that
/// order.
pub open spec fn names_step(v: EntryModel, m: ReportModel) -> ReportModel {
    ReportModel {
        suspicious_entries: push_if(
            push_if(
                push_if(
                    m.suspicious_entries,
                    extremely_long(v.name_raw),
                    (v.enclosed_name, SuspiciousReason::ExtremelyLongPath),
                ),
                has_control_byte(v.name_raw),
                (v.enclosed_name, SuspiciousReason::ControlCharsInName),
            ),
            reserved_name(encode_utf8(v.enclosed_name)),
            (v.enclosed_name, SuspiciousReason::WindowsReservedName),
        ),
        ..m
    }
}

/// Encryption handler: records encrypted entries.
pub open spec fn encryption_step(v: EntryModel, m: ReportModel) -> ReportModel {
    if v.encrypted {
        ReportModel {
            encrypted_entries: m.encrypted_entries.push(v.enclosed_name),
            has_encrypted_entries: true,
            ..m
        }
    } else {
        m
    }
}

/// Duplicates handler: `seen` holds the names met so far, each once.
pub open spec fn duplicates_step(seen: Seq<Seq<char>>, v: EntryModel, m: ReportModel) -> (
    Seq<Seq<char>>,
    ReportModel,
) {
    if seen.contains(v.enclosed_name) {
        (seen, ReportModel { duplicate_names: m.duplicate_names.push(v.enclosed_name), ..m })
    } else {
        (seen.push(v.enclosed_name), m)
    }
}

/// Symlinks handler: the link flag, and a count (saturating) of links whose
/// captured target leaves the root.
pub open spec fn symlinks_step(v: EntryModel, m: ReportModel) -> ReportModel {
    if v.symlink {
        ReportModel {
            has_symlinks: true,
            symlinks_point_outside_root: match v.symlink_target {
                Some(t) => if target_escapes(t) && m.symlinks_point_outside_root < usize::MAX {
                    (m.symlinks_point_outside_root + 1) as usize
                } else {
                    m.symlinks_point_outside_root
                },
                None => m.symlinks_point_outside_root,
            },
            ..m
        }
    } else {
        m
    }
}

pub open spec fn absolute_paths_advice() -> Seq<char> {
    "Reject ZIPs containing absolute paths."@
}

pub open spec fn ratio_advice() -> Seq<char> {
    "Limit max compression ratio (500 recommended)."@
}

pub open spec fn encryption_advice() -> Seq<char> {
    "Refuse encrypted entries to prevent password prompts."@
}

pub open spec fn depth_advice() -> Seq<char> {
    "Limit directory depth during extraction."@
}

/// Recommendations handler, at the end of the pass.
pub open spec fn recommendations_step(m: ReportModel) -> ReportModel {
    ReportModel {
        recommendations: push_if(
            push_if(
                push_if(
                    push_if(m.recommendations, m.has_absolute_paths, absolute_paths_advice()),
                    m.max_ratio.exceeds(MAX_SUSPICIOUS_RATIO as int),
                    ratio_advice(),
                ),
                m.has_encrypted_entries,
                encryption_advice(),
            ),
            m.max_depth_hint > DEPTH_RECOMMENDATION_LIMIT,
            depth_advice(),
        ),
        ..m
    }
}

/// Tracks absolute paths, parent steps, depth and undecodable names.
pub struct PathHandler;

impl PathHandler {
    pub fn visit(&self, view: &EntryView, report: &mut ZipAuditReport)
        ensures
            final(report)@ == path_step(view@, old(report)@),
    {
        if view.has_abs {
            report.has_absolute_paths = true;
        }
        if view.has_parent_components {
            report.has_parent_components = true;
        }
        if view.depth_hint > report.max_depth_hint {
            report.max_depth_hint = view.depth_hint;
        }
        if view.invalid_utf8 {
            let name = lossy_utf8(view.name_raw.as_slice());
            report.trace_suspicious(name, SuspiciousReason::InvalidUtf8);
        }
    }
}

/// Tracks sizes and compression ratios, and flags zip-bomb shapes.
pub struct RatiosHandler;

impl RatiosHandler {
    pub fn visit(&self, view: &EntryView, report: &mut ZipAuditReport)
        requires
            view.ratio.is_infinite() || old(report).entry_count >= 1,
        ensures
            final(report)@ == ratios_step(view@, old(report)@),
    {
        report.total_compressed = report.total_compressed.saturating_add(view.compressed_size);
        report.total_uncompressed = report.total_uncompressed.saturating_add(
            view.uncompressed_size,
        );
        if view.ratio.is_finite() {
            let x = view.ratio.scaled_value();
            let n = report.entry_count as u128;
            let avg = report.avg_ratio;
            if x >= avg {
                assert((x - avg) / (n as int) <= x - avg) by (nonlinear_arith)
                    requires
                        n >= 1,
                        x >= avg,
                ;
                report.avg_ratio = avg + (x - avg) / n;
            } else {
                assert((avg - x) / (n as int) <= avg - x) by (nonlinear_arith)
                    requires
                        n >= 1,
                        avg > x,
                ;
                report.avg_ratio = avg - (avg - x) / n;
            }
        }
        if view.ratio.is_greater_than(&report.max_ratio) {
            report.max_ratio = view.ratio;
        }
        if view.ratio.exceeds_whole(MAX_SUSPICIOUS_RATIO) {
            report.trace_suspicious(
                view.enclosed_name.clone(),
                SuspiciousReason::HugeRatio {
                    compressed: view.compressed_size,
                    uncompressed: view.uncompressed_size,
                },
            );
        }
        if view.compressed_size == 0 && view.uncompressed_size > ZERO_COMPRESSED_LIMIT {
            report.trace_suspicious(
                view.enclosed_name.clone(),
                SuspiciousReason::ZeroCompressedButLarge,
            );
        }
    }
}

/// Flags odd or platform-incompatible names.
pub struct NamesHandler;

impl NamesHandler {
    pub fn visit(&self, view: &EntryView, report: &mut ZipAuditReport)
        ensures
            final(report)@ == names_step(view@, old(report)@),
    {
        Self::detect_long_name(view, report);
        Self::detect_control_chars(view, report);
        Self::detect_windows_reserved_name(view, report);
    }

    fn detect_long_name(view: &EntryView, report: &mut ZipAuditReport)
        ensures
            final(report)@ == (ReportModel {
                suspicious_entries: push_if(
                    old(report)@.suspicious_entries,
                    extremely_long(view.name_raw@),
                    (view.enclosed_name@, SuspiciousReason::ExtremelyLongPath),
                ),
                ..old(report)@
            }),
    {
        if path_is_extremely_long(view.name_raw.as_slice()) {
            report.trace_suspicious(
                view.enclosed_name.clone(),
                SuspiciousReason::ExtremelyLongPath,
            );
        }
    }

    fn detect_control_chars(view: &EntryView, report: &mut ZipAuditReport)
        ensures
            final(report)@ == (ReportModel {
                suspicious_entries: push_if(
                    old(report)@.suspicious_entries,
                    has_control_byte(view.name_raw@),
                    (view.enclosed_name@, SuspiciousReason::ControlCharsInName),
                ),
                ..old(report)@
            }),
    {
        if contains_control_chars(view.name_raw.as_slice()) {
            report.trace_suspicious(
                view.enclosed_name.clone(),
                SuspiciousReason::ControlCharsInName,
            );
        }
    }

    fn detect_windows_reserved_name(view: &EntryView, report: &mut ZipAuditReport)
        ensures
            final(report)@ == (ReportModel {
                suspicious_entries: push_if(
                    old(report)@.suspicious_entries,
                    reserved_name(encode_utf8(view.enclosed_name@)),
                    (view.enclosed_name@, SuspiciousReason::WindowsReservedName),
                ),
                ..old(report)@
            }),
    {
        if is_windows_reserved_name(view.enclosed_name.as_str()) {
            report.trace_suspicious(
                view.enclosed_name.clone(),
                SuspiciousReason::WindowsReservedName,
            );
        }
    }
}

/// Records encrypted entries.
pub struct EncryptionHandler;

impl EncryptionHandler {
    pub fn visit(&self, view: &EntryView, report: &mut ZipAuditReport)
        ensures
            final(report)@ == encryption_step(view@, old(report)@),
    {
        if view.encrypted {
            report.trace_encrypted(view.enclosed_name.clone());
        }
    }
}

/// Records names met more than once. Holds the names seen so far, so each
/// scan needs a fresh one.
pub struct DuplicatesHandler {
    seen: Vec<String>,
}

impl View for DuplicatesHandler {
    type V = Seq<Seq<char>>;

    closed spec fn view(&self) -> Seq<Seq<char>> {
        self.seen@.map_values(|s: String| s@)
    }
}

impl DuplicatesHandler {
    /// Each name is held once.
    #[verifier::type_invariant]
    spec fn names_unique(&self) -> bool {
        self@.no_duplicates()
    }

    /// A handler that has seen no name.
    pub fn new() -> (r: Self)
        ensures
            r@ == Seq::<Seq<char>>::empty(),
    {
        let r = DuplicatesHandler { seen: Vec::new() };
        assert(r@ =~= Seq::<Seq<char>>::empty());
        r
    }

    fn has_seen(&self, name: &String) -> (r: bool)
        ensures
            r == self@.contains(name@),
    {
        let mut i: usize = 0;
        while i < self.seen.len()
            invariant
                i <= self.seen@.len(),
                self@ == self.seen@.map_values(|s: String| s@),
                forall|j: int| 0 <= j < i ==> self@[j] != name@,
            decreases self.seen@.len() - i,
        {
            if self.seen[i] == *name {
                assert(self@[i as int] == name@);
                return true;
            }
            i = i + 1;
        }
        false
    }

    pub fn visit(&mut self, view: &EntryView, report: &mut ZipAuditReport)
        ensures
            (final(self)@, final(report)@) == duplicates_step(old(self)@, view@, old(report)@),
    {
        if self.has_seen(&view.enclosed_name) {
            report.trace_duplicate(view.enclosed_name.clone());
        } else {
            let name = view.enclosed_name.clone();
            proof {
                use_type_invariant(&*self);
                crate::report::lemma_map_push(self.seen@, name, |s: String| s@);
                let grown = self@.push(name@);
                assert forall|i: int, j: int|
                    0 <= i < grown.len() && 0 <= j < grown.len() && i != j implies grown[i]
                    != grown[j] by {
                    if i < self@.len() && j < self@.len() {
                        assert(grown[i] == self@[i] && grown[j] == self@[j]);
                    } else if i < self@.len() {
                        assert(grown[i] == self@[i]);
                    } else if j < self@.len() {
                        assert(grown[j] == self@[j]);
                    }
                }
            }
            let mut taken = DuplicatesHandler::new();
            std::mem::swap(self, &mut taken);
            let DuplicatesHandler { mut seen } = taken;
            seen.push(name);
            *self = DuplicatesHandler { seen };
        }
    }
}

impl Default for DuplicatesHandler {
    fn default() -> (r: Self)
        ensures
            r@ == Seq::<Seq<char>>::empty(),
    {
        Self::new()
    }
}

/// Flags symbolic links and counts those whose target leaves the root.
pub struct SymlinksHandler;

impl SymlinksHandler {
    pub fn visit(&self, view: &EntryView, report: &mut ZipAuditReport)
        ensures
            final(report)@ == symlinks_step(view@, old(report)@),
    {
        if view.symlink {
            report.has_symlinks = true;
            if let Some(t) = &view.symlink_target {
                if !is_within_root(t.as_str()) {
                    report.symlinks_point_outside_root =
                        report.symlinks_point_outside_root.saturating_add(1);
                }
            }
        }
    }
}

/// Adds advice once all entries have been seen.
pub struct RecommendationsHandler;

impl RecommendationsHandler {
    pub fn visit(&self, view: &EntryView, report: &mut ZipAuditReport)
        ensures
            final(report)@ == old(report)@,
    {
    }

    pub fn finish(&self, report: &mut ZipAuditReport)
        ensures
            final(report)@ == recommendations_step(old(report)@),
    {
        proof {
            reveal_strlit("Reject ZIPs containing absolute paths.");
            reveal_strlit("Limit max compression ratio (500 recommended).");
            reveal_strlit("Refuse encrypted entries to prevent password prompts.");
            reveal_strlit("Limit directory depth during extraction.");
        }
        if report.has_absolute_paths {
            report.recommend("Reject ZIPs containing absolute paths.".to_owned());
        }
        if report.max_ratio.exceeds_whole(MAX_SUSPICIOUS_RATIO) {
            report.recommend("Limit max compression ratio (500 recommended).".to_owned());
        }
        if report.has_encrypted_entries {
            report.recommend("Refuse encrypted entries to prevent password prompts.".to_owned());
        }
        if report.max_depth_hint > DEPTH_RECOMMENDATION_LIMIT {
            report.recommend("Limit directory depth during extraction.".to_owned());
        }
    }
}

} // verus!
