//! Properties of a whole pass of the default handlers, proved over the
//! specification that the executable pipeline meets.

use vstd::prelude::*;

use crate::archive::{zip_entry_count, zip_entry_meta, zip_entry_text};
use crate::entry_view::{wants_target, EntryModel};
use crate::scan::{archive_entries, archive_entry, entry_readable, scan_outcome, AuditError};
use crate::handlers::{
    duplicates_step, encryption_step, names_step, path_step, ratio_advice, ratios_step,
    running_mean_step, symlinks_step, target_escapes,
};
use crate::pipeline::{
    audit_pass, audit_result, default_states, entry_step, pipeline_finish,
    handler_visit, pipeline_visit, BuiltinHandler, HandlerState,
};
use crate::report::{empty_report, ReportModel, SuspiciousReason, ZipAuditReport, RATIO_SCALE};

verus! {

/// The seven default handlers in their order, whatever names the duplicates
/// handler has seen.
pub open spec fn default_shape(hs: Seq<HandlerState>) -> bool {
    &&& hs.len() == 7
    &&& hs[0] == HandlerState::Path
    &&& hs[1] == HandlerState::Ratios
    &&& hs[2] == HandlerState::Names
    &&& hs[3] == HandlerState::Encryption
    &&& hs[4] is Duplicates
    &&& hs[5] == HandlerState::Symlinks
    &&& hs[6] == HandlerState::Recommendations
}

/// The incremental mean after the values `xs`, the `k`-th dividing by `k`.
pub open spec fn mean_after(xs: Seq<int>) -> int
    decreases xs.len(),
{
    if xs.len() == 0 {
        0
    } else {
        running_mean_step(mean_after(xs.drop_last()), xs.last(), xs.len() as int)
    }
}

pub open spec fn seq_sum(xs: Seq<int>) -> int
    decreases xs.len(),
{
    if xs.len() == 0 {
        0
    } else {
        seq_sum(xs.drop_last()) + xs.last()
    }
}

/// The entries' ratios in units of `1 / RATIO_SCALE`.
pub open spec fn scaled_ratios(vs: Seq<EntryModel>) -> Seq<int> {
    vs.map_values(|v: EntryModel| v.ratio.scaled())
}

pub open spec fn max_scaled() -> int {
    u64::MAX as int * RATIO_SCALE as int
}

/// Finite ratios, scaled, lie between 0 and `max_scaled()`.
proof fn lemma_scaled_ratios_in_range(vs: Seq<EntryModel>)
    requires
        forall|i: int| 0 <= i < vs.len() ==> !(#[trigger] vs[i]).ratio.is_infinite(),
    ensures
        forall|i: int|
            0 <= i < vs.len() ==> 0 <= #[trigger] scaled_ratios(vs)[i] <= max_scaled(),
{
    let xs = scaled_ratios(vs);
    assert forall|i: int| 0 <= i < xs.len() implies 0 <= #[trigger] xs[i] <= max_scaled() by {
        let w = vs[i];
        assert(!w.ratio.is_infinite());
        assert(w.ratio.uncompressed * RATIO_SCALE <= max_scaled()) by (nonlinear_arith)
            requires
                w.ratio.uncompressed <= u64::MAX,
        ;
        vstd::arithmetic::div_mod::lemma_div_is_ordered_by_denominator(
            w.ratio.uncompressed * RATIO_SCALE,
            1,
            w.ratio.compressed as int,
        );
        vstd::arithmetic::div_mod::lemma_div_pos_is_pos(
            w.ratio.uncompressed * RATIO_SCALE,
            w.ratio.compressed as int,
        );
    }
}

proof fn lemma_step_between(a: int, x: int, n: int)
    requires
        n >= 1,
    ensures
        x >= a ==> a <= running_mean_step(a, x, n) <= x,
        x < a ==> x <= running_mean_step(a, x, n) <= a,
        2 * (n * running_mean_step(a, x, n) - (n - 1) * a - x) <= 2 * (n - 1),
        2 * (n * running_mean_step(a, x, n) - (n - 1) * a - x) >= -2 * (n - 1),
{
    if x >= a {
        let d = x - a;
        vstd::arithmetic::div_mod::lemma_fundamental_div_mod(d, n);
        vstd::arithmetic::div_mod::lemma_mod_pos_bound(d, n);
        assert(d / n <= d) by (nonlinear_arith)
            requires
                d == n * (d / n) + d % n,
                0 <= d % n < n,
                d >= 0,
                n >= 1,
        ;
        let q = d / n;
        assert(n * (a + q) - (n - 1) * a - x == n * q - d) by (nonlinear_arith)
            requires
                d == x - a,
        ;
    } else {
        let d = a - x;
        vstd::arithmetic::div_mod::lemma_fundamental_div_mod(d, n);
        vstd::arithmetic::div_mod::lemma_mod_pos_bound(d, n);
        assert(d / n <= d) by (nonlinear_arith)
            requires
                d == n * (d / n) + d % n,
                0 <= d % n < n,
                d > 0,
                n >= 1,
        ;
        let q = d / n;
        assert(n * (a - q) - (n - 1) * a - x == d - n * q) by (nonlinear_arith)
            requires
                d == a - x,
        ;
    }
}

/// The incremental mean stays within the range of the values and is within
/// `n(n-1)/2` units of the exact mean once multiplied by `n`.
pub proof fn lemma_mean_after_bound(xs: Seq<int>)
    requires
        forall|i: int| 0 <= i < xs.len() ==> 0 <= #[trigger] xs[i] <= max_scaled(),
    ensures
        0 <= mean_after(xs) <= max_scaled(),
        2 * (xs.len() * mean_after(xs) - seq_sum(xs)) <= xs.len() * (xs.len() - 1),
        2 * (xs.len() * mean_after(xs) - seq_sum(xs)) >= -(xs.len() * (xs.len() - 1)),
    decreases xs.len(),
{
    if xs.len() > 0 {
        let ys = xs.drop_last();
        let n = xs.len() as int;
        lemma_mean_after_bound(ys);
        let a = mean_after(ys);
        lemma_step_between(a, xs.last(), n);
        assert(2 * (n * mean_after(xs) - seq_sum(xs)) == 2 * (n * mean_after(xs) - (n - 1) * a
            - xs.last()) + 2 * ((n - 1) * a - seq_sum(ys)));
        assert(n * (n - 1) == (n - 1) * (n - 2) + 2 * (n - 1)) by (nonlinear_arith);
    }
}

proof fn lemma_default_visit(hs: Seq<HandlerState>, v: EntryModel, m: ReportModel)
    requires
        default_shape(hs),
    ensures
        default_shape(pipeline_visit::<BuiltinHandler>(hs, v, m).0),
        pipeline_visit::<BuiltinHandler>(hs, v, m).1.avg_ratio == ratios_step(v, m).avg_ratio,
        pipeline_visit::<BuiltinHandler>(hs, v, m).1.entry_count == m.entry_count,
{
    lemma_default_visit_exact(hs, v, m);
}

proof fn lemma_default_finish(hs: Seq<HandlerState>, m: ReportModel)
    requires
        default_shape(hs),
    ensures
        pipeline_finish::<BuiltinHandler>(hs, m).avg_ratio == m.avg_ratio,
        pipeline_finish::<BuiltinHandler>(hs, m).entry_count == m.entry_count,
{
    lemma_default_finish_is_advice(hs, m);
}

proof fn lemma_default_pass(vs: Seq<EntryModel>)
    requires
        vs.len() <= u64::MAX,
        forall|i: int| 0 <= i < vs.len() ==> !(#[trigger] vs[i]).ratio.is_infinite(),
    ensures
        default_shape(audit_pass::<BuiltinHandler>(default_states(), vs).0),
        audit_pass::<BuiltinHandler>(default_states(), vs).1.entry_count == vs.len(),
        audit_pass::<BuiltinHandler>(default_states(), vs).1.avg_ratio == mean_after(scaled_ratios(vs)),
    decreases vs.len(),
{
    let xs = scaled_ratios(vs);
    if vs.len() == 0 {
        assert(default_shape(default_states()));
    } else {
        let us = vs.drop_last();
        lemma_default_pass(us);
        assert(xs.drop_last() =~= scaled_ratios(us));
        let (hs1, m1) = audit_pass::<BuiltinHandler>(default_states(), us);
        let m1c = ReportModel { entry_count: (m1.entry_count + 1) as u64, ..m1 };
        lemma_default_visit(hs1, vs.last(), m1c);
        let v = vs.last();
        assert(!v.ratio.is_infinite()) by {
            assert(v == vs[vs.len() - 1]);
        }
        lemma_scaled_ratios_in_range(vs);
        lemma_mean_after_bound(xs);
        assert(xs.last() == v.ratio.scaled());
    }
}

/// The running mean: after a pass of the default handlers over entries whose
/// ratios are all finite, `avg_ratio` times the entry count differs from the
/// sum of the scaled ratios by at most `n(n-1)/2` units, where `n` is the
/// number of entries.
pub proof fn lemma_avg_ratio_tracks_mean(vs: Seq<EntryModel>)
    requires
        vs.len() <= u64::MAX,
        forall|i: int| 0 <= i < vs.len() ==> !(#[trigger] vs[i]).ratio.is_infinite(),
    ensures
        ({
            let n = vs.len() as int;
            let d = n * audit_result::<BuiltinHandler>(default_states(), vs).avg_ratio - seq_sum(scaled_ratios(vs));
            2 * d <= n * (n - 1) && -(n * (n - 1)) <= 2 * d
        }),
{
    lemma_default_pass(vs);
    let (hs1, m1) = audit_pass::<BuiltinHandler>(default_states(), vs);
    lemma_default_finish(hs1, m1);
    let xs = scaled_ratios(vs);
    lemma_scaled_ratios_in_range(vs);
    lemma_mean_after_bound(xs);
}

/// An entry with an infinite ratio leaves `avg_ratio` as it was.
pub proof fn lemma_infinite_ratio_keeps_avg(hs: Seq<HandlerState>, v: EntryModel, m: ReportModel)
    requires
        default_shape(hs),
        v.ratio.is_infinite(),
    ensures
        entry_step::<BuiltinHandler>(hs, v, m).1.avg_ratio == m.avg_ratio,
{
    lemma_default_visit(hs, v, ReportModel { entry_count: (m.entry_count + 1) as u64, ..m });
}

pub open spec fn dup_seen(h: HandlerState) -> Seq<Seq<char>> {
    match h {
        HandlerState::Duplicates(seen) => seen,
        _ => Seq::empty(),
    }
}

/// What the default handlers do to the report and to themselves on one visit.
pub open spec fn default_visit(hs: Seq<HandlerState>, v: EntryModel, m: ReportModel) -> (
    Seq<HandlerState>,
    ReportModel,
) {
    let m4 = encryption_step(v, names_step(v, ratios_step(v, path_step(v, m))));
    let (seen, m5) = duplicates_step(dup_seen(hs[4]), v, m4);
    (hs.update(4, HandlerState::Duplicates(seen)), symlinks_step(v, m5))
}

proof fn lemma_visit_cons(hs: Seq<HandlerState>, v: EntryModel, m: ReportModel)
    requires
        hs.len() > 0,
    ensures
        pipeline_visit::<BuiltinHandler>(hs, v, m) == (
            seq![handler_visit(hs[0], v, m).0] + pipeline_visit::<BuiltinHandler>(
                hs.drop_first(),
                v,
                handler_visit(hs[0], v, m).1,
            ).0,
            pipeline_visit::<BuiltinHandler>(hs.drop_first(), v, handler_visit(hs[0], v, m).1).1,
        ),
{
}

proof fn lemma_default_visit_exact(hs: Seq<HandlerState>, v: EntryModel, m: ReportModel)
    requires
        default_shape(hs),
    ensures
        pipeline_visit::<BuiltinHandler>(hs, v, m) == default_visit(hs, v, m),
{
    let t1 = hs.drop_first();
    let t2 = t1.drop_first();
    let t3 = t2.drop_first();
    let t4 = t3.drop_first();
    let t5 = t4.drop_first();
    let t6 = t5.drop_first();
    let t7 = t6.drop_first();
    let m1 = path_step(v, m);
    let m2 = ratios_step(v, m1);
    let m3 = names_step(v, m2);
    let m4 = encryption_step(v, m3);
    let (seen, m5) = duplicates_step(dup_seen(hs[4]), v, m4);
    let m6 = symlinks_step(v, m5);
    assert(t7.len() == 0);
    assert(pipeline_visit::<BuiltinHandler>(t7, v, m6) == (t7, m6));
    lemma_visit_cons(t6, v, m6);
    lemma_visit_cons(t5, v, m5);
    lemma_visit_cons(t4, v, m4);
    lemma_visit_cons(t3, v, m3);
    lemma_visit_cons(t2, v, m2);
    lemma_visit_cons(t1, v, m1);
    lemma_visit_cons(hs, v, m);
    assert(pipeline_visit::<BuiltinHandler>(hs, v, m).0 =~= hs.update(4, HandlerState::Duplicates(seen)));
}

/// Finishing the default handlers only appends recommendations.
proof fn lemma_default_finish_is_advice(hs: Seq<HandlerState>, m: ReportModel)
    requires
        default_shape(hs),
    ensures
        pipeline_finish::<BuiltinHandler>(hs, m) == crate::handlers::recommendations_step(m),
{
    reveal_with_fuel(pipeline_finish, 8);
    assert(hs.drop_first().drop_first().drop_first().drop_first().drop_first().drop_first().drop_first().len() == 0);
}

/// The first entry of a pass.
proof fn lemma_first_entry(v: EntryModel)
    ensures
        audit_pass::<BuiltinHandler>(default_states(), seq![v]) == default_visit(
            default_states(),
            v,
            ReportModel { entry_count: 1, ..empty_report() },
        ),
{
    let m0 = ReportModel { entry_count: 1, ..empty_report() };
    assert(seq![v].drop_last() =~= Seq::<EntryModel>::empty());
    assert(audit_pass::<BuiltinHandler>(default_states(), Seq::<EntryModel>::empty()) == (
        default_states(),
        empty_report(),
    ));
    assert(seq![v].last() == v);
    assert(audit_pass::<BuiltinHandler>(default_states(), seq![v]) == entry_step::<BuiltinHandler>(default_states(), v, empty_report()));
    assert(entry_step::<BuiltinHandler>(default_states(), v, empty_report()) == pipeline_visit::<BuiltinHandler>(default_states(), v, m0));
    assert(default_shape(default_states()));
    lemma_default_visit_exact(default_states(), v, m0);
}

/// A ratio above the threshold: an archive whose one entry stores 10 bytes
/// that expand to 50000 gets a `HugeRatio { 10, 50000 }` finding and the
/// advice to cap the compression ratio.
pub proof fn lemma_huge_ratio_flagged(v: EntryModel)
    requires
        v.compressed_size == 10,
        v.uncompressed_size == 50000,
        v.ratio == (crate::report::Ratio { uncompressed: 50000, compressed: 10 }),
    ensures
        audit_result::<BuiltinHandler>(default_states(), seq![v]).suspicious_entries.contains(
            (v.enclosed_name, SuspiciousReason::HugeRatio { compressed: 10, uncompressed: 50000 }),
        ),
        audit_result::<BuiltinHandler>(default_states(), seq![v]).recommendations.contains(ratio_advice()),
{
    lemma_first_entry(v);
    let (hs1, m1) = audit_pass::<BuiltinHandler>(default_states(), seq![v]);
    assert(default_shape(hs1));
    lemma_default_finish_is_advice(hs1, m1);
    let m0 = ReportModel { entry_count: 1, ..empty_report() };
    let k = path_step(v, m0).suspicious_entries.len() as int;
    let item = (v.enclosed_name, SuspiciousReason::HugeRatio { compressed: 10, uncompressed: 50000 });
    assert(audit_result::<BuiltinHandler>(default_states(), seq![v]).suspicious_entries[k] == item);
    let r = audit_result::<BuiltinHandler>(default_states(), seq![v]).recommendations;
    assert(m1.max_ratio == v.ratio);
    assert(m1.recommendations.len() == 0);
    if m1.has_absolute_paths {
        assert(r[1] == ratio_advice());
    } else {
        assert(r[0] == ratio_advice());
    }
}

/// Nothing stored, two million bytes declared: a `ZeroCompressedButLarge`
/// finding.
pub proof fn lemma_zero_compressed_flagged(v: EntryModel)
    requires
        v.compressed_size == 0,
        v.uncompressed_size == 2000000,
        v.ratio == (crate::report::Ratio { uncompressed: 2000000, compressed: 0 }),
    ensures
        audit_result::<BuiltinHandler>(default_states(), seq![v]).suspicious_entries.contains(
            (v.enclosed_name, SuspiciousReason::ZeroCompressedButLarge),
        ),
{
    lemma_first_entry(v);
    let (hs1, m1) = audit_pass::<BuiltinHandler>(default_states(), seq![v]);
    assert(default_shape(hs1));
    lemma_default_finish_is_advice(hs1, m1);
    let m0 = ReportModel { entry_count: 1, ..empty_report() };
    let k = path_step(v, m0).suspicious_entries.len() as int;
    assert(audit_result::<BuiltinHandler>(default_states(), seq![v]).suspicious_entries[k + 1] == (
        v.enclosed_name,
        SuspiciousReason::ZeroCompressedButLarge,
    ));
}

/// A link whose captured target leaves the root: the link flag is set and the
/// count of escaping links is one.
pub proof fn lemma_escaping_link_counted(v: EntryModel)
    requires
        v.symlink,
        v.symlink_target matches Some(t) && target_escapes(t),
    ensures
        audit_result::<BuiltinHandler>(default_states(), seq![v]).has_symlinks,
        audit_result::<BuiltinHandler>(default_states(), seq![v]).symlinks_point_outside_root == 1,
{
    lemma_first_entry(v);
    let (hs1, m1) = audit_pass::<BuiltinHandler>(default_states(), seq![v]);
    assert(default_shape(hs1));
    lemma_default_finish_is_advice(hs1, m1);
}

/// Duplicate names: with two entries of the same name, the name is recorded
/// once, for the second entry, and both entries are counted.
pub proof fn lemma_duplicate_recorded_once(v1: EntryModel, v2: EntryModel)
    requires
        v1.enclosed_name == v2.enclosed_name,
    ensures
        audit_result::<BuiltinHandler>(default_states(), seq![v1, v2]).duplicate_names == seq![v2.enclosed_name],
        audit_result::<BuiltinHandler>(default_states(), seq![v1, v2]).entry_count == 2,
{
    lemma_first_entry(v1);
    assert(seq![v1, v2].drop_last() =~= seq![v1]);
    let (hs1, m1) = audit_pass::<BuiltinHandler>(default_states(), seq![v1]);
    assert(default_shape(hs1));
    assert(m1.duplicate_names =~= Seq::<Seq<char>>::empty());
    assert(dup_seen(hs1[4]) =~= seq![v1.enclosed_name]);
    let m1c = ReportModel { entry_count: (m1.entry_count + 1) as u64, ..m1 };
    lemma_default_visit_exact(hs1, v2, m1c);
    let (hs2, m2) = audit_pass::<BuiltinHandler>(default_states(), seq![v1, v2]);
    assert(default_shape(hs2));
    lemma_default_finish_is_advice(hs2, m2);
    assert(dup_seen(hs1[4]).contains(v2.enclosed_name)) by {
        assert(dup_seen(hs1[4])[0] == v2.enclosed_name);
    }
    assert(m2.duplicate_names =~= seq![v2.enclosed_name]);
}

/// A scan is repeatable: two scans of the same bytes with fresh default
/// handlers both succeed or both fail, and when they succeed their reports
/// are equal.
pub proof fn lemma_scan_repeatable(
    b: Seq<u8>,
    r1: Result<ZipAuditReport, AuditError>,
    r2: Result<ZipAuditReport, AuditError>,
)
    requires
        scan_outcome::<BuiltinHandler>(b, default_states(), r1),
        scan_outcome::<BuiltinHandler>(b, default_states(), r2),
    ensures
        r1.is_ok() == r2.is_ok(),
        r1 is Ok ==> r1->Ok_0@ == r2->Ok_0@,
{
}

proof fn lemma_one_entry(b: Seq<u8>)
    requires
        zip_entry_count(b) == Some(1nat),
    ensures
        archive_entries(b, 1) == seq![archive_entry(b, 0)],
{
    assert(archive_entries(b, 1) =~= seq![archive_entry(b, 0)]);
}

/// Scanning an archive of two readable entries with the same enclosed name
/// succeeds, records the name once and counts two entries.
pub proof fn lemma_scan_duplicate(b: Seq<u8>, r: Result<ZipAuditReport, AuditError>)
    requires
        zip_entry_count(b) == Some(2nat),
        entry_readable(b, 0),
        entry_readable(b, 1),
        zip_entry_meta(b, 0).unwrap().1 == zip_entry_meta(b, 1).unwrap().1,
        scan_outcome::<BuiltinHandler>(b, default_states(), r),
    ensures
        r is Ok,
        r->Ok_0@.duplicate_names == seq![zip_entry_meta(b, 1).unwrap().1],
        r->Ok_0@.entry_count == 2,
{
    assert(archive_entries(b, 2) =~= seq![archive_entry(b, 0), archive_entry(b, 1)]);
    lemma_duplicate_recorded_once(archive_entry(b, 0), archive_entry(b, 1));
}

/// Scanning an archive whose one readable entry stores 10 bytes that expand
/// to 50000 succeeds with a `HugeRatio { 10, 50000 }` finding and the ratio
/// advice.
pub proof fn lemma_scan_huge_ratio(b: Seq<u8>, r: Result<ZipAuditReport, AuditError>)
    requires
        zip_entry_count(b) == Some(1nat),
        entry_readable(b, 0),
        zip_entry_meta(b, 0).unwrap().2 == 10,
        zip_entry_meta(b, 0).unwrap().3 == 50000,
        scan_outcome::<BuiltinHandler>(b, default_states(), r),
    ensures
        r is Ok,
        r->Ok_0@.suspicious_entries.contains(
            (
                zip_entry_meta(b, 0).unwrap().1,
                SuspiciousReason::HugeRatio { compressed: 10, uncompressed: 50000 },
            ),
        ),
        r->Ok_0@.recommendations.contains(ratio_advice()),
{
    lemma_one_entry(b);
    lemma_huge_ratio_flagged(archive_entry(b, 0));
}

/// Scanning an archive whose one readable entry declares nothing stored and
/// two million bytes expanded succeeds with a `ZeroCompressedButLarge`
/// finding.
pub proof fn lemma_scan_zero_compressed(b: Seq<u8>, r: Result<ZipAuditReport, AuditError>)
    requires
        zip_entry_count(b) == Some(1nat),
        entry_readable(b, 0),
        zip_entry_meta(b, 0).unwrap().2 == 0,
        zip_entry_meta(b, 0).unwrap().3 == 2000000,
        scan_outcome::<BuiltinHandler>(b, default_states(), r),
    ensures
        r is Ok,
        r->Ok_0@.suspicious_entries.contains(
            (zip_entry_meta(b, 0).unwrap().1, SuspiciousReason::ZeroCompressedButLarge),
        ),
{
    lemma_one_entry(b);
    lemma_zero_compressed_flagged(archive_entry(b, 0));
}

/// Scanning an archive whose one readable entry is a small link whose target
/// text leaves the root succeeds, flags links, and counts one escaping link.
pub proof fn lemma_scan_escaping_link(b: Seq<u8>, r: Result<ZipAuditReport, AuditError>)
    requires
        zip_entry_count(b) == Some(1nat),
        entry_readable(b, 0),
        wants_target(zip_entry_meta(b, 0).unwrap().5, zip_entry_meta(b, 0).unwrap().3),
        zip_entry_text(b, 0) matches Some(t) && target_escapes(t),
        scan_outcome::<BuiltinHandler>(b, default_states(), r),
    ensures
        r is Ok,
        r->Ok_0@.has_symlinks,
        r->Ok_0@.symlinks_point_outside_root == 1,
{
    lemma_one_entry(b);
    let t = zip_entry_text(b, 0).unwrap();
    if t.len() == 0 {
        assert(t =~= Seq::<char>::empty());
        assert(vstd::utf8::encode_utf8(t) =~= Seq::<u8>::empty());
    }
    lemma_escaping_link_counted(archive_entry(b, 0));
}

} // verus!
