//! An ordered pipeline of handlers and the single pass that drives it over a
//! sequence of entry snapshots.

use vstd::prelude::*;

use crate::entry_view::{EntryModel, EntryView};
use crate::handlers::{
    duplicates_step, encryption_step, names_step, path_step, ratios_step, recommendations_step,
    symlinks_step, DuplicatesHandler, EncryptionHandler, NamesHandler, PathHandler,
    RatiosHandler, RecommendationsHandler, SymlinksHandler,
};
use crate::report::{empty_report, ReportModel, ZipAuditReport};

verus! {

/// A handler as the pipeline's specification sees it: its kind, and for the
/// duplicates handler the names it has seen.
pub enum HandlerState {
    Path,
    Ratios,
    Names,
    Encryption,
    Duplicates(Seq<Seq<char>>),
    Symlinks,
    Recommendations,
}

/// A pluggable analysis run for each entry of a scan. Its state is seen
/// through its view; `visit_spec` and `finish_spec` say what its two
/// operations do to that state and to the report. `BuiltinHandler` implements
/// it for the seven handlers of this library; a caller adds an analysis by
/// implementing it for a type of its own and passing a list of that type to
/// `audit_entries` or `zip_audit_with_handlers`.
pub trait EntryAuditHandler: View + Sized {
    /// The state after visiting entry `v` and the report it leaves.
    spec fn visit_spec(state: Self::V, v: EntryModel, m: ReportModel) -> (Self::V, ReportModel);

    /// The report once the handler has finished.
    spec fn finish_spec(state: Self::V, m: ReportModel) -> ReportModel;

    /// Counting entries is the scan's business: a visit leaves the count.
    proof fn lemma_visit_keeps_count(state: Self::V, v: EntryModel, m: ReportModel)
        ensures
            Self::visit_spec(state, v, m).1.entry_count == m.entry_count,
    ;

    /// Called once before the pass with the number of entries.
    fn begin(&mut self, zip_len: usize)
        ensures
            final(self)@ == old(self)@,
    ;

    /// Called once per entry, after the entry has been counted.
    fn visit(&mut self, view: &EntryView, report: &mut ZipAuditReport)
        requires
            old(report).entry_count >= 1,
        ensures
            (final(self)@, final(report)@) == Self::visit_spec(old(self)@, view@, old(report)@),
    ;

    /// Called once after the last entry.
    fn finish(&mut self, report: &mut ZipAuditReport)
        ensures
            final(self)@ == old(self)@,
            final(report)@ == Self::finish_spec(old(self)@, old(report)@),
    ;
}

/// One of the seven built-in handlers.
pub enum BuiltinHandler {
    Path(PathHandler),
    Ratios(RatiosHandler),
    Names(NamesHandler),
    Encryption(EncryptionHandler),
    Duplicates(DuplicatesHandler),
    Symlinks(SymlinksHandler),
    Recommendations(RecommendationsHandler),
}

impl View for BuiltinHandler {
    type V = HandlerState;

    open spec fn view(&self) -> HandlerState {
        match self {
            BuiltinHandler::Path(_) => HandlerState::Path,
            BuiltinHandler::Ratios(_) => HandlerState::Ratios,
            BuiltinHandler::Names(_) => HandlerState::Names,
            BuiltinHandler::Encryption(_) => HandlerState::Encryption,
            BuiltinHandler::Duplicates(d) => HandlerState::Duplicates(d@),
            BuiltinHandler::Symlinks(_) => HandlerState::Symlinks,
            BuiltinHandler::Recommendations(_) => HandlerState::Recommendations,
        }
    }
}

/// One handler's visit of one entry.
pub open spec fn handler_visit(h: HandlerState, v: EntryModel, m: ReportModel) -> (
    HandlerState,
    ReportModel,
) {
    match h {
        HandlerState::Path => (h, path_step(v, m)),
        HandlerState::Ratios => (h, ratios_step(v, m)),
        HandlerState::Names => (h, names_step(v, m)),
        HandlerState::Encryption => (h, encryption_step(v, m)),
        HandlerState::Duplicates(seen) => {
            let (seen2, m2) = duplicates_step(seen, v, m);
            (HandlerState::Duplicates(seen2), m2)
        },
        HandlerState::Symlinks => (h, symlinks_step(v, m)),
        HandlerState::Recommendations => (h, m),
    }
}

/// One handler's work once all entries have been seen.
pub open spec fn handler_finish(h: HandlerState, m: ReportModel) -> ReportModel {
    match h {
        HandlerState::Recommendations => recommendations_step(m),
        _ => m,
    }
}

/// Every handler visits the entry, first to last.
pub open spec fn pipeline_visit<H: EntryAuditHandler>(hs: Seq<H::V>, v: EntryModel, m: ReportModel) -> (
    Seq<H::V>,
    ReportModel,
)
    decreases hs.len(),
{
    if hs.len() == 0 {
        (hs, m)
    } else {
        let (h0, m1) = H::visit_spec(hs[0], v, m);
        let (rest, m2) = pipeline_visit::<H>(hs.drop_first(), v, m1);
        (seq![h0] + rest, m2)
    }
}

/// Every handler finishes, first to last.
pub open spec fn pipeline_finish<H: EntryAuditHandler>(hs: Seq<H::V>, m: ReportModel) -> ReportModel
    decreases hs.len(),
{
    if hs.len() == 0 {
        m
    } else {
        pipeline_finish::<H>(hs.drop_first(), H::finish_spec(hs[0], m))
    }
}

/// An entry is counted, then visited by the pipeline.
pub open spec fn entry_step<H: EntryAuditHandler>(hs: Seq<H::V>, v: EntryModel, m: ReportModel) -> (
    Seq<H::V>,
    ReportModel,
) {
    pipeline_visit::<H>(hs, v, ReportModel { entry_count: (m.entry_count + 1) as u64, ..m })
}

/// The handlers and the report after the entries `vs`, in order, starting
/// from an empty report.
pub open spec fn audit_pass<H: EntryAuditHandler>(hs: Seq<H::V>, vs: Seq<EntryModel>) -> (
    Seq<H::V>,
    ReportModel,
)
    decreases vs.len(),
{
    if vs.len() == 0 {
        (hs, empty_report())
    } else {
        let (hs1, m1) = audit_pass::<H>(hs, vs.drop_last());
        entry_step::<H>(hs1, vs.last(), m1)
    }
}

/// The finished report of a pass over `vs`.
pub open spec fn audit_result<H: EntryAuditHandler>(hs: Seq<H::V>, vs: Seq<EntryModel>) -> ReportModel {
    let (hs1, m1) = audit_pass::<H>(hs, vs);
    pipeline_finish::<H>(hs1, m1)
}

pub open spec fn states<H: View>(hs: Seq<H>) -> Seq<H::V> {
    hs.map_values(|h: H| h@)
}

/// The seven default handlers, in their fixed order.
pub open spec fn default_states() -> Seq<HandlerState> {
    seq![
        HandlerState::Path,
        HandlerState::Ratios,
        HandlerState::Names,
        HandlerState::Encryption,
        HandlerState::Duplicates(Seq::empty()),
        HandlerState::Symlinks,
        HandlerState::Recommendations,
    ]
}

proof fn lemma_pipeline_visit_len<H: EntryAuditHandler>(hs: Seq<H::V>, v: EntryModel, m: ReportModel)
    ensures
        pipeline_visit::<H>(hs, v, m).0.len() == hs.len(),
    decreases hs.len(),
{
    if hs.len() > 0 {
        let (h0, m1) = H::visit_spec(hs[0], v, m);
        lemma_pipeline_visit_len::<H>(hs.drop_first(), v, m1);
    }
}

impl EntryAuditHandler for BuiltinHandler {
    open spec fn visit_spec(state: HandlerState, v: EntryModel, m: ReportModel) -> (
        HandlerState,
        ReportModel,
    ) {
        handler_visit(state, v, m)
    }

    open spec fn finish_spec(state: HandlerState, m: ReportModel) -> ReportModel {
        handler_finish(state, m)
    }

    proof fn lemma_visit_keeps_count(state: HandlerState, v: EntryModel, m: ReportModel) {
    }

    fn begin(&mut self, zip_len: usize) {
    }

    fn visit(&mut self, view: &EntryView, report: &mut ZipAuditReport) {
        match self {
            BuiltinHandler::Path(h) => h.visit(view, report),
            BuiltinHandler::Ratios(h) => h.visit(view, report),
            BuiltinHandler::Names(h) => h.visit(view, report),
            BuiltinHandler::Encryption(h) => h.visit(view, report),
            BuiltinHandler::Duplicates(h) => h.visit(view, report),
            BuiltinHandler::Symlinks(h) => h.visit(view, report),
            BuiltinHandler::Recommendations(h) => h.visit(view, report),
        }
    }

    fn finish(&mut self, report: &mut ZipAuditReport) {
        match self {
            BuiltinHandler::Recommendations(h) => h.finish(report),
            _ => {},
        }
    }
}

/// The default pipeline: path, ratios, names, encryption, duplicates,
/// symlinks, recommendations. The duplicates handler starts empty.
pub fn default_handlers() -> (r: Vec<BuiltinHandler>)
    ensures
        states(r@) == default_states(),
{
    let r = vec![
        BuiltinHandler::Path(PathHandler),
        BuiltinHandler::Ratios(RatiosHandler),
        BuiltinHandler::Names(NamesHandler),
        BuiltinHandler::Encryption(EncryptionHandler),
        BuiltinHandler::Duplicates(DuplicatesHandler::new()),
        BuiltinHandler::Symlinks(SymlinksHandler),
        BuiltinHandler::Recommendations(RecommendationsHandler),
    ];
    assert(states(r@) =~= default_states());
    r
}

/// Tells every handler how many entries are coming.
pub fn begin_all<H: EntryAuditHandler>(handlers: &mut Vec<H>, zip_len: usize)
    ensures
        states(final(handlers)@) == states(old(handlers)@),
{
    let ghost orig = states(handlers@);
    let mut i: usize = 0;
    while i < handlers.len()
        invariant
            i <= handlers@.len(),
            states(handlers@) == orig,
        decreases handlers@.len() - i,
    {
        handlers[i].begin(zip_len);
        assert(states(handlers@) =~= orig);
        i = i + 1;
    }
}

/// Every handler visits `view`, first to last.
pub fn visit_all<H: EntryAuditHandler>(handlers: &mut Vec<H>, view: &EntryView, report: &mut ZipAuditReport)
    requires
        old(report).entry_count >= 1,
    ensures
        (states(final(handlers)@), final(report)@) == pipeline_visit::<H>(
            states(old(handlers)@),
            view@,
            old(report)@,
        ),
{
    let ghost orig = states(handlers@);
    let ghost target = pipeline_visit::<H>(orig, view@, report@);
    let ghost count = report.entry_count;
    proof {
        lemma_pipeline_visit_len::<H>(orig, view@, report@);
        assert(orig.subrange(0, orig.len() as int) =~= orig);
    }
    let mut i: usize = 0;
    while i < handlers.len()
        invariant
            i <= handlers@.len() == orig.len(),
            report.entry_count == count >= 1,
            target.0.len() == orig.len(),
            states(handlers@).subrange(0, i as int) == target.0.subrange(0, i as int),
            states(handlers@).subrange(i as int, orig.len() as int) == orig.subrange(
                i as int,
                orig.len() as int,
            ),
            pipeline_visit::<H>(orig.subrange(i as int, orig.len() as int), view@, report@) == (
                target.0.subrange(i as int, orig.len() as int),
                target.1,
            ),
        decreases handlers@.len() - i,
    {
        let ghost rest = orig.subrange(i as int, orig.len() as int);
        let ghost before = report@;
        assert(rest[0] == handlers@[i as int]@) by {
            assert(states(handlers@).subrange(i as int, orig.len() as int)[0] == states(
                handlers@,
            )[i as int]);
        }
        handlers[i].visit(view, report);
        proof {
            assert(rest.drop_first() =~= orig.subrange(i + 1, orig.len() as int));
            let (h0, m1) = H::visit_spec(rest[0], view@, before);
            H::lemma_visit_keeps_count(rest[0], view@, before);
            let (tail, m2) = pipeline_visit::<H>(rest.drop_first(), view@, m1);
            assert(target.0.subrange(i as int, orig.len() as int) == seq![h0] + tail);
            assert(target.0.subrange(i + 1, orig.len() as int) =~= target.0.subrange(
                i as int,
                orig.len() as int,
            ).drop_first());
            assert(target.0[i as int] == target.0.subrange(i as int, orig.len() as int)[0]);
            assert(states(handlers@).subrange(0, i + 1) =~= target.0.subrange(0, i + 1));
            assert(states(handlers@).subrange(i + 1, orig.len() as int) =~= orig.subrange(
                i + 1,
                orig.len() as int,
            ));
        }
        i = i + 1;
    }
    proof {
        assert(states(handlers@) =~= states(handlers@).subrange(0, orig.len() as int));
        assert(target.0 =~= target.0.subrange(0, orig.len() as int));
        assert(orig.subrange(orig.len() as int, orig.len() as int) =~= Seq::<H::V>::empty());
    }
}

/// Every handler finishes, first to last.
pub fn finish_all<H: EntryAuditHandler>(handlers: &mut Vec<H>, report: &mut ZipAuditReport)
    ensures
        states(final(handlers)@) == states(old(handlers)@),
        final(report)@ == pipeline_finish::<H>(states(old(handlers)@), old(report)@),
{
    let ghost orig = states(handlers@);
    let ghost target = pipeline_finish::<H>(orig, report@);
    assert(orig.subrange(0, orig.len() as int) =~= orig);
    let mut i: usize = 0;
    while i < handlers.len()
        invariant
            i <= handlers@.len() == orig.len(),
            states(handlers@) == orig,
            pipeline_finish::<H>(orig.subrange(i as int, orig.len() as int), report@) == target,
        decreases handlers@.len() - i,
    {
        let ghost rest = orig.subrange(i as int, orig.len() as int);
        assert(rest.drop_first() =~= orig.subrange(i + 1, orig.len() as int));
        assert(rest[0] == handlers@[i as int]@);
        handlers[i].finish(report);
        assert(states(handlers@) =~= orig);
        i = i + 1;
    }
}

proof fn lemma_pipeline_visit_keeps_count<H: EntryAuditHandler>(
    hs: Seq<H::V>,
    v: EntryModel,
    m: ReportModel,
)
    ensures
        pipeline_visit::<H>(hs, v, m).1.entry_count == m.entry_count,
    decreases hs.len(),
{
    if hs.len() > 0 {
        let (h0, m1) = H::visit_spec(hs[0], v, m);
        H::lemma_visit_keeps_count(hs[0], v, m);
        lemma_pipeline_visit_keeps_count::<H>(hs.drop_first(), v, m1);
    }
}

/// A pass over `vs` counts each entry once.
pub proof fn lemma_audit_pass_count<H: EntryAuditHandler>(hs: Seq<H::V>, vs: Seq<EntryModel>)
    requires
        vs.len() <= u64::MAX,
    ensures
        audit_pass::<H>(hs, vs).1.entry_count == vs.len(),
    decreases vs.len(),
{
    if vs.len() > 0 {
        lemma_audit_pass_count::<H>(hs, vs.drop_last());
        let (hs1, m1) = audit_pass::<H>(hs, vs.drop_last());
        lemma_pipeline_visit_keeps_count::<H>(
            hs1,
            vs.last(),
            ReportModel { entry_count: (m1.entry_count + 1) as u64, ..m1 },
        );
    }
}

/// Counts one entry, then lets every handler visit it.
pub fn process_entry<H: EntryAuditHandler>(
    handlers: &mut Vec<H>,
    view: &EntryView,
    report: &mut ZipAuditReport,
)
    requires
        old(report).entry_count < u64::MAX,
    ensures
        (states(final(handlers)@), final(report)@) == entry_step::<H>(
            states(old(handlers)@),
            view@,
            old(report)@,
        ),
{
    report.entry_count = report.entry_count + 1;
    visit_all(handlers, view, report);
}

pub open spec fn models(vs: Seq<EntryView>) -> Seq<EntryModel> {
    vs.map_values(|v: EntryView| v@)
}

/// Runs the handlers over the snapshots in order, from an empty report:
/// `begin` on each handler, then for each entry a count and a visit by every
/// handler, then `finish` on each handler.
pub fn audit_entries<H: EntryAuditHandler>(views: &Vec<EntryView>, handlers: Vec<H>) -> (r:
    ZipAuditReport)
    ensures
        r@ == audit_result::<H>(states(handlers@), models(views@)),
{
    let ghost hs0 = states(handlers@);
    let ghost ms = models(views@);
    let mut handlers = handlers;
    let mut report = ZipAuditReport::new();
    begin_all(&mut handlers, views.len());
    let mut i: usize = 0;
    while i < views.len()
        invariant
            i <= views@.len(),
            ms == models(views@),
            (states(handlers@), report@) == audit_pass::<H>(hs0, ms.subrange(0, i as int)),
        decreases views@.len() - i,
    {
        proof {
            lemma_audit_pass_count::<H>(hs0, ms.subrange(0, i as int));
            assert(ms.subrange(0, i + 1).drop_last() =~= ms.subrange(0, i as int));
        }
        process_entry(&mut handlers, &views[i], &mut report);
        i = i + 1;
    }
    assert(ms.subrange(0, views@.len() as int) =~= ms);
    finish_all(&mut handlers, &mut report);
    report
}

} // verus!
