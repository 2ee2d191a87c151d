//! What is done with the live markers of a body once its liveness is known.

use vstd::prelude::*;

use crate::kinds::Register;
use crate::liveness::{
    byte_triple, compute_per_marker_liveness, labelled, live_before, liveness_triple,
    liveness_triple_from_reads, markers_from,
};
use crate::lowerer::{Prebuild, prebuild_view, prebuild_views, PrebuildItem, PrebuildView};
use crate::ops::{
    Banked, ControlFlowClass, copy_list, copy_stmt, Instr, Label, meta_views, OpMeta, OpMetaView,
    Stmt, stmt_view, stmt_views, StmtView,
};
use crate::ordset::{in_order, law_in_order_lists_registers, lemma_in_order, OrdSet};

verus! {

// ── Annotation ───────────────────────────────────────────────────────

/// The body with, at each live marker, the registers that are alive there.
pub open spec fn annotated<'a>(ops: Seq<OpMetaView<'a>>) -> Seq<OpMetaView<'a>> {
    Seq::new(
        ops.len(),
        |i: int|
            if ops[i].control is LiveMarker {
                OpMetaView { reads: in_order(live_before(ops, i)), ..ops[i] }
            } else {
                ops[i]
            },
    )
}

/// Where the markers from `i` on stand among all markers.
proof fn lemma_next_marker<'a>(ops: Seq<OpMetaView<'a>>, i: int, next: int)
    requires
        0 <= i < ops.len(),
        0 <= next <= markers_from(ops, 0).len(),
        markers_from(ops, 0).skip(next) == markers_from(ops, i),
    ensures
        ops[i].control is LiveMarker ==> {
            &&& next < markers_from(ops, 0).len()
            &&& markers_from(ops, 0)[next] == i
            &&& markers_from(ops, 0).skip(next + 1) == markers_from(ops, i + 1)
        },
        !(ops[i].control is LiveMarker) ==> markers_from(ops, 0).skip(next) == markers_from(
            ops,
            i + 1,
        ),
{
    let all = markers_from(ops, 0);
    if ops[i].control is LiveMarker {
        assert(all.skip(next)[0] == i);
        assert(all.skip(next + 1) =~= all.skip(next).skip(1));
        assert(markers_from(ops, i).skip(1) =~= markers_from(ops, i + 1));
    }
}

/// Writes down at each live marker what is alive there.
pub fn annotate_live_markers_with_liveness<'a>(op_metadata: &mut Vec<OpMeta<'a>>)
    requires
        labelled(meta_views(old(op_metadata)@)),
    ensures
        meta_views(final(op_metadata)@) == annotated(meta_views(old(op_metadata)@)),
{
    let ghost ops = meta_views(op_metadata@);
    let live_sets = compute_per_marker_liveness(op_metadata);
    let count: usize = live_sets.len();
    let mut next: usize = 0;
    let mut out: Vec<OpMeta<'a>> = Vec::new();
    let mut i: usize = 0;
    assert(markers_from(ops, 0).skip(0) =~= markers_from(ops, 0));
    while i < op_metadata.len()
        invariant
            ops == meta_views(op_metadata@),
            i <= ops.len(),
            next <= markers_from(ops, 0).len(),
            count == live_sets@.len(),
            live_sets@.len() == markers_from(ops, 0).len(),
            forall|k: int|
                0 <= k < live_sets@.len() ==> (#[trigger] live_sets@[k]).wf() && live_sets@[k]@
                    == live_before(ops, markers_from(ops, 0)[k]),
            markers_from(ops, 0).skip(next as int) == markers_from(ops, i as int),
            out@.len() == i,
            forall|k: int| 0 <= k < i ==> (#[trigger] out@[k])@ == annotated(ops)[k],
        decreases ops.len() - i,
    {
        proof {
            lemma_next_marker(ops, i as int, next as int);
        }
        let mut meta = op_metadata[i].copied();
        assert(ops[i as int] == op_metadata@[i as int]@);
        if let ControlFlowClass::LiveMarker = meta.control {
            let set = &live_sets[next];
            assert(live_sets@[next as int].wf());
            proof {
                lemma_in_order(set.items@);
            }
            meta.reads = copy_list(&set.items);
            next = next + 1;
        }
        out.push(meta);
        i = i + 1;
    }
    assert(meta_views(out@) =~= annotated(ops));
    *op_metadata = out;
}

// ── Prebuild steps ───────────────────────────────────────────────────

/// The steps that register the markers from `i` on.
pub open spec fn marker_steps<'a>(ops: Seq<OpMetaView<'a>>, i: int) -> Seq<PrebuildView<'a>>
    decreases ops.len() - i,
{
    if 0 <= i < ops.len() {
        if ops[i].control is LiveMarker {
            seq![PrebuildItem::Triple(ops[i].live_condition, byte_triple(ops[i].reads))]
                + marker_steps(ops, i + 1)
        } else {
            marker_steps(ops, i + 1)
        }
    } else {
        seq![]
    }
}

/// The steps of a body: those of its own markers, then those of the helpers
/// that it inlines.
pub fn liveness_prebuild<'a>(op_metadata: &Vec<OpMeta<'a>>, inline_prebuild: Vec<Prebuild<'a>>) -> (r:
    Vec<Prebuild<'a>>)
    ensures
        prebuild_views(r@) == marker_steps(meta_views(op_metadata@), 0) + prebuild_views(
            inline_prebuild@,
        ),
{
    let ghost ops = meta_views(op_metadata@);
    let mut out: Vec<Prebuild<'a>> = Vec::new();
    let mut i: usize = 0;
    assert(prebuild_views(out@) + marker_steps(ops, 0) =~= marker_steps(ops, 0));
    while i < op_metadata.len()
        invariant
            ops == meta_views(op_metadata@),
            i <= ops.len(),
            prebuild_views(out@) + marker_steps(ops, i as int) == marker_steps(ops, 0),
        decreases ops.len() - i,
    {
        let meta = &op_metadata[i];
        assert(ops[i as int] == meta@);
        if let ControlFlowClass::LiveMarker = meta.control {
            let (live_i, live_r, live_f) = liveness_triple_from_reads(meta.reads.as_slice());
            let ghost before = prebuild_views(out@);
            let step: Prebuild<'a> = PrebuildItem::Triple(
                meta.live_condition,
                Banked { i: live_i, r: live_r, f: live_f },
            );
            out.push(step);
            assert(prebuild_views(out@) =~= before + seq![prebuild_view(step)]);
            assert(prebuild_views(out@) + marker_steps(ops, i + 1) =~= before + marker_steps(
                ops,
                i as int,
            ));
        }
        i = i + 1;
    }
    assert(prebuild_views(out@) =~= marker_steps(ops, 0));
    let ghost own = out@;
    let ghost inlined = inline_prebuild@;
    let mut inline_prebuild = inline_prebuild;
    out.append(&mut inline_prebuild);
    assert(prebuild_views(out@) =~= prebuild_views(own) + prebuild_views(inlined));
    out
}

// ── Repeated markers ─────────────────────────────────────────────────

/// What stands at a place of a body whose repeated markers were removed.
pub enum Kept {
    /// What stood at this place.
    At(int),
    /// One marker for those in this range.
    Merged(int, int),
}

/// End of the run of markers and labels that starts at `i`.
pub open spec fn run_end<'a>(ops: Seq<OpMetaView<'a>>, i: int) -> int
    decreases ops.len() - i,
{
    if 0 <= i < ops.len() && (ops[i].control is LiveMarker || ops[i].control is LabelDef) {
        run_end(ops, i + 1)
    } else {
        i
    }
}

/// The labels in a range.
pub open spec fn labels_in<'a>(ops: Seq<OpMetaView<'a>>, i: int, j: int) -> Seq<Kept>
    decreases j - i,
{
    if i >= j {
        seq![]
    } else if ops[i].control is LabelDef {
        seq![Kept::At(i)] + labels_in(ops, i + 1, j)
    } else {
        labels_in(ops, i + 1, j)
    }
}

/// What becomes of the run that starts with the marker at `i`. Its markers are
/// merged behind its labels, unless none of them is sure to be emitted.
pub open spec fn run_kept<'a>(ops: Seq<OpMetaView<'a>>, i: int, j: int) -> Seq<Kept> {
    if !has_marker(ops, i + 1, j) {
        labels_in(ops, i + 1, j).push(Kept::At(i))
    } else if !has_sure_marker(ops, i, j) {
        Seq::new((j - i) as nat, |n: int| Kept::At(i + n))
    } else {
        labels_in(ops, i + 1, j).push(Kept::Merged(i, j))
    }
}

pub open spec fn has_marker<'a>(ops: Seq<OpMetaView<'a>>, i: int, j: int) -> bool {
    exists|k: int| i <= k < j && (#[trigger] ops[k]).control is LiveMarker
}

/// Whether a marker in the range is emitted without a condition.
pub open spec fn has_sure_marker<'a>(ops: Seq<OpMetaView<'a>>, i: int, j: int) -> bool {
    exists|k: int|
        i <= k < j && (#[trigger] ops[k]).control is LiveMarker && ops[k].live_condition is None
}

pub proof fn lemma_run_end<'a>(ops: Seq<OpMetaView<'a>>, i: int)
    requires
        0 <= i <= ops.len(),
    ensures
        i <= run_end(ops, i) <= ops.len(),
    decreases ops.len() - i,
{
    if i < ops.len() {
        lemma_run_end(ops, i + 1);
    }
}

/// What stands in the body without repeated markers, from `i` on.
pub open spec fn kept_from<'a>(ops: Seq<OpMetaView<'a>>, i: int) -> Seq<Kept>
    decreases ops.len() - i,
    via kept_from_decreases
{
    if 0 <= i < ops.len() {
        if ops[i].control is LiveMarker {
            let j = run_end(ops, i + 1);
            run_kept(ops, i, j) + kept_from(ops, j)
        } else {
            seq![Kept::At(i)] + kept_from(ops, i + 1)
        }
    } else {
        seq![]
    }
}

#[via_fn]
proof fn kept_from_decreases<'a>(ops: Seq<OpMetaView<'a>>, i: int) {
    if 0 <= i < ops.len() {
        lemma_run_end(ops, i + 1);
    }
}

/// The registers that some marker in the range keeps alive.
pub open spec fn range_reads<'a>(ops: Seq<OpMetaView<'a>>, i: int, j: int) -> Set<Register>
    decreases j - i,
{
    if i >= j {
        Set::empty()
    } else if ops[j - 1].control is LiveMarker {
        range_reads(ops, i, j - 1).union(ops[j - 1].reads.to_set())
    } else {
        range_reads(ops, i, j - 1)
    }
}

/// The labels that some marker in the range keeps alive.
pub open spec fn range_labels<'a>(ops: Seq<OpMetaView<'a>>, i: int, j: int) -> Set<Label>
    decreases j - i,
{
    if i >= j {
        Set::empty()
    } else if ops[j - 1].control is LiveMarker {
        range_labels(ops, i, j - 1).union(ops[j - 1].live_target_labels.to_set())
    } else {
        range_labels(ops, i, j - 1)
    }
}

pub open spec fn kept_meta<'a>(ops: Seq<OpMetaView<'a>>, k: Kept) -> OpMetaView<'a> {
    match k {
        Kept::At(i) => ops[i],
        Kept::Merged(i, j) => OpMetaView::live_with(
            in_order(range_reads(ops, i, j)),
            in_order(range_labels(ops, i, j)),
        ),
    }
}

pub open spec fn kept_stmt<'a>(stmts: Seq<StmtView<'a>>, k: Kept) -> StmtView<'a> {
    match k {
        Kept::At(i) => stmts[i],
        Kept::Merged(i, j) => stmts[i],
    }
}

/// The descriptions of the body without repeated markers.
pub open spec fn collapsed_metas<'a>(ops: Seq<OpMetaView<'a>>) -> Seq<OpMetaView<'a>> {
    kept_from(ops, 0).map_values(|k: Kept| kept_meta(ops, k))
}

/// The statements of the body without repeated markers.
pub open spec fn collapsed_stmts<'a>(ops: Seq<OpMetaView<'a>>, stmts: Seq<StmtView<'a>>) -> Seq<
    StmtView<'a>,
> {
    kept_from(ops, 0).map_values(|k: Kept| kept_stmt(stmts, k))
}

/// What was kept so far, as lists and as a plan.
struct Collapse<'a> {
    metas: Vec<OpMeta<'a>>,
    stmts: Vec<Stmt<'a>>,
    plan: Ghost<Seq<Kept>>,
}

impl<'a> Collapse<'a> {
    spec fn follows(&self, ops: Seq<OpMetaView<'a>>, stmts: Seq<StmtView<'a>>) -> bool {
        &&& meta_views(self.metas@) == self.plan@.map_values(|k: Kept| kept_meta(ops, k))
        &&& stmt_views(self.stmts@) == self.plan@.map_values(|k: Kept| kept_stmt(stmts, k))
    }

    fn push(
        &mut self,
        meta: OpMeta<'a>,
        stmt: Stmt<'a>,
        Ghost(k): Ghost<Kept>,
        Ghost(ops): Ghost<Seq<OpMetaView<'a>>>,
        Ghost(stmts): Ghost<Seq<StmtView<'a>>>,
    )
        requires
            old(self).follows(ops, stmts),
            meta@ == kept_meta(ops, k),
            stmt_view(stmt) == kept_stmt(stmts, k),
        ensures
            final(self).follows(ops, stmts),
            final(self).plan@ == old(self).plan@.push(k),
    {
        let ghost before = *self;
        self.metas.push(meta);
        self.stmts.push(stmt);
        self.plan = Ghost(self.plan@.push(k));
        assert(meta_views(self.metas@) =~= meta_views(before.metas@).push(meta@));
        assert(stmt_views(self.stmts@) =~= stmt_views(before.stmts@).push(stmt_view(stmt)));
        assert(self.plan@.map_values(|k: Kept| kept_meta(ops, k)) =~= before.plan@.map_values(
            |k: Kept| kept_meta(ops, k),
        ).push(meta@));
        assert(self.plan@.map_values(|k: Kept| kept_stmt(stmts, k)) =~= before.plan@.map_values(
            |k: Kept| kept_stmt(stmts, k),
        ).push(stmt_view(stmt)));
    }

    fn keep(&mut self, op_metadata: &Vec<OpMeta<'a>>, statements: &Vec<Stmt<'a>>, k: usize)
        requires
            op_metadata@.len() == statements@.len(),
            k < op_metadata@.len(),
            old(self).follows(meta_views(op_metadata@), stmt_views(statements@)),
        ensures
            final(self).follows(meta_views(op_metadata@), stmt_views(statements@)),
            final(self).plan@ == old(self).plan@.push(Kept::At(k as int)),
    {
        self.push(
            op_metadata[k].copied(),
            copy_stmt(&statements[k]),
            Ghost(Kept::At(k as int)),
            Ghost(meta_views(op_metadata@)),
            Ghost(stmt_views(statements@)),
        );
    }

    /// Keeps the labels between `from` and `to`.
    fn keep_labels(
        &mut self,
        op_metadata: &Vec<OpMeta<'a>>,
        statements: &Vec<Stmt<'a>>,
        from: usize,
        to: usize,
    )
        requires
            op_metadata@.len() == statements@.len(),
            from <= to <= op_metadata@.len(),
            old(self).follows(meta_views(op_metadata@), stmt_views(statements@)),
        ensures
            final(self).follows(meta_views(op_metadata@), stmt_views(statements@)),
            final(self).plan@ == old(self).plan@ + labels_in(
                meta_views(op_metadata@),
                from as int,
                to as int,
            ),
    {
        let ghost ops = meta_views(op_metadata@);
        let ghost whole = old(self).plan@ + labels_in(ops, from as int, to as int);
        let mut k: usize = from;
        while k < to
            invariant
                op_metadata@.len() == statements@.len(),
                from <= k <= to <= op_metadata@.len(),
                ops == meta_views(op_metadata@),
                self.follows(ops, stmt_views(statements@)),
                self.plan@ + labels_in(ops, k as int, to as int) == whole,
            decreases to - k,
        {
            assert(ops[k as int] == op_metadata@[k as int]@);
            let ghost before = self.plan@;
            if let ControlFlowClass::LabelDef = op_metadata[k].control {
                self.keep(op_metadata, statements, k);
                assert(self.plan@ + labels_in(ops, k + 1, to as int) =~= before + labels_in(
                    ops,
                    k as int,
                    to as int,
                ));
            }
            k = k + 1;
        }
        assert(self.plan@ =~= whole);
    }
}

/// One marker for those between `from` and `to`.
fn merged_marker<'a>(op_metadata: &Vec<OpMeta<'a>>, from: usize, to: usize) -> (r: OpMeta<'a>)
    requires
        from <= to <= op_metadata@.len(),
    ensures
        r@ == kept_meta(meta_views(op_metadata@), Kept::Merged(from as int, to as int)),
{
    let ghost ops = meta_views(op_metadata@);
    let mut reads: OrdSet<Register> = OrdSet::new();
    let mut labels: OrdSet<Label> = OrdSet::new();
    let mut k: usize = from;
    while k < to
        invariant
            from <= k <= to <= op_metadata@.len(),
            ops == meta_views(op_metadata@),
            reads.wf(),
            labels.wf(),
            reads@ == range_reads(ops, from as int, k as int),
            labels@ == range_labels(ops, from as int, k as int),
        decreases to - k,
    {
        assert(ops[k as int] == op_metadata@[k as int]@);
        if let ControlFlowClass::LiveMarker = op_metadata[k].control {
            reads.add_list(op_metadata[k].reads.as_slice());
            labels.add_list(op_metadata[k].live_target_labels.as_slice());
        }
        k = k + 1;
    }
    proof {
        lemma_in_order(reads.items@);
        lemma_in_order(labels.items@);
    }
    OpMeta::live_marker_with(reads.items, labels.items)
}

/// End of the run that starts with the marker before `from`; whether it holds
/// another marker; whether one of its markers, the first included, has no
/// condition.
fn scan_run<'a>(op_metadata: &Vec<OpMeta<'a>>, first: usize) -> (r: (usize, bool, bool))
    requires
        first < op_metadata@.len(),
        op_metadata@[first as int]@.control is LiveMarker,
    ensures
        r.0 == run_end(meta_views(op_metadata@), first + 1),
        first < r.0 <= op_metadata@.len(),
        r.1 == has_marker(meta_views(op_metadata@), first + 1, r.0 as int),
        r.2 == has_sure_marker(meta_views(op_metadata@), first as int, r.0 as int),
{
    let ghost ops = meta_views(op_metadata@);
    assert(ops[first as int] == op_metadata@[first as int]@);
    let count: usize = op_metadata.len();
    let mut more = false;
    let mut sure = op_metadata[first].live_condition.is_none();
    let mut k: usize = first + 1;
    proof {
        lemma_run_end(ops, first + 1);
        if sure {
            assert(has_sure_marker(ops, first as int, k as int));
        }
    }
    while k < count
        invariant_except_break
            run_end(ops, first + 1) == run_end(ops, k as int),
        invariant
            first < k <= count,
            count == op_metadata@.len(),
            ops == meta_views(op_metadata@),
            more == has_marker(ops, first + 1, k as int),
            sure == has_sure_marker(ops, first as int, k as int),
        ensures
            k == run_end(ops, first + 1),
        decreases op_metadata@.len() - k,
    {
        assert(ops[k as int] == op_metadata@[k as int]@);
        match op_metadata[k].control {
            ControlFlowClass::LiveMarker => {
                let ghost was = sure;
                more = true;
                if op_metadata[k].live_condition.is_none() {
                    sure = true;
                }
                proof {
                    assert(ops[k as int].control is LiveMarker);
                    if was {
                        let w = choose|w: int|
                            first <= w < k && (#[trigger] ops[w]).control is LiveMarker
                                && ops[w].live_condition is None;
                        assert(ops[w].control is LiveMarker);
                    }
                }
            },
            ControlFlowClass::LabelDef => {
                proof {
                    if more {
                        let w = choose|w: int|
                            first + 1 <= w < k && (#[trigger] ops[w]).control is LiveMarker;
                        assert(ops[w].control is LiveMarker);
                    }
                    if sure {
                        let w = choose|w: int|
                            first <= w < k && (#[trigger] ops[w]).control is LiveMarker
                                && ops[w].live_condition is None;
                        assert(ops[w].control is LiveMarker);
                    }
                }
            },
            _ => {
                break;
            },
        }
        k = k + 1;
    }
    (k, more, sure)
}

/// Merges the live markers that stand next to each other.
pub fn remove_repeated_live<'a>(op_metadata: &mut Vec<OpMeta<'a>>, statements: &mut Vec<Stmt<'a>>)
    requires
        old(op_metadata)@.len() == old(statements)@.len(),
    ensures
        meta_views(final(op_metadata)@) == collapsed_metas(meta_views(old(op_metadata)@)),
        stmt_views(final(statements)@) == collapsed_stmts(
            meta_views(old(op_metadata)@),
            stmt_views(old(statements)@),
        ),
{
    let ghost ops = meta_views(op_metadata@);
    let ghost stmts = stmt_views(statements@);
    let mut out = Collapse { metas: Vec::new(), stmts: Vec::new(), plan: Ghost(Seq::empty()) };
    assert(meta_views(out.metas@) =~= out.plan@.map_values(|k: Kept| kept_meta(ops, k)));
    assert(stmt_views(out.stmts@) =~= out.plan@.map_values(|k: Kept| kept_stmt(stmts, k)));
    let mut i: usize = 0;
    assert(out.plan@ + kept_from(ops, 0) =~= kept_from(ops, 0));
    while i < op_metadata.len()
        invariant
            ops == meta_views(op_metadata@),
            stmts == stmt_views(statements@),
            op_metadata@.len() == statements@.len(),
            i <= op_metadata@.len(),
            out.follows(ops, stmts),
            out.plan@ + kept_from(ops, i as int) == kept_from(ops, 0),
        decreases op_metadata@.len() - i,
    {
        assert(ops[i as int] == op_metadata@[i as int]@);
        let ghost before = out.plan@;
        if let ControlFlowClass::LiveMarker = op_metadata[i].control {
            let (end, more, sure) = scan_run(op_metadata, i);
            if !more {
                out.keep_labels(op_metadata, statements, i + 1, end);
                out.keep(op_metadata, statements, i);
            } else if !sure {
                let mut k: usize = i;
                assert(out.plan@ =~= before + Seq::new(0, |n: int| Kept::At(i + n)));
                while k < end
                    invariant
                        ops == meta_views(op_metadata@),
                        stmts == stmt_views(statements@),
                        op_metadata@.len() == statements@.len(),
                        i <= k <= end <= op_metadata@.len(),
                        out.follows(ops, stmts),
                        out.plan@ == before + Seq::new((k - i) as nat, |n: int| Kept::At(i + n)),
                    decreases end - k,
                {
                    out.keep(op_metadata, statements, k);
                    k = k + 1;
                    assert(out.plan@ =~= before + Seq::new((k - i) as nat, |n: int| Kept::At(i + n)));
                }
            } else {
                out.keep_labels(op_metadata, statements, i + 1, end);
                out.push(
                    merged_marker(op_metadata, i, end),
                    copy_stmt(&statements[i]),
                    Ghost(Kept::Merged(i as int, end as int)),
                    Ghost(ops),
                    Ghost(stmts),
                );
            }
            assert(out.plan@ =~= before + run_kept(ops, i as int, end as int));
            assert(out.plan@ + kept_from(ops, end as int) =~= before + kept_from(ops, i as int));
            i = end;
        } else {
            out.keep(op_metadata, statements, i);
            assert(out.plan@ + kept_from(ops, i + 1) =~= before + kept_from(ops, i as int));
            i = i + 1;
        }
    }
    assert(out.plan@ =~= kept_from(ops, 0));
    *op_metadata = out.metas;
    *statements = out.stmts;
}

// ── Statements of the markers ────────────────────────────────────────

/// The statements with, for each live marker, one that names the registers
/// alive there.
pub open spec fn with_triples<'a>(ops: Seq<OpMetaView<'a>>, stmts: Seq<StmtView<'a>>) -> Seq<
    StmtView<'a>,
> {
    Seq::new(
        stmts.len(),
        |i: int|
            if ops[i].control is LiveMarker {
                Instr::Live {
                    condition: ops[i].live_condition,
                    triple: byte_triple(in_order(live_before(ops, i))),
                }
            } else {
                stmts[i]
            },
    )
}

/// Gives each live marker a statement that names the registers alive there.
pub fn rewrite_live_marker_statements_with_triples<'a>(
    op_metadata: &Vec<OpMeta<'a>>,
    statements: &mut Vec<Stmt<'a>>,
)
    requires
        op_metadata@.len() == old(statements)@.len(),
        labelled(meta_views(op_metadata@)),
    ensures
        stmt_views(final(statements)@) == with_triples(
            meta_views(op_metadata@),
            stmt_views(old(statements)@),
        ),
{
    let ghost ops = meta_views(op_metadata@);
    let ghost start = stmt_views(statements@);
    let live_sets = compute_per_marker_liveness(op_metadata);
    let count: usize = live_sets.len();
    let mut next: usize = 0;
    let mut i: usize = 0;
    assert(markers_from(ops, 0).skip(0) =~= markers_from(ops, 0));
    while i < op_metadata.len()
        invariant
            ops == meta_views(op_metadata@),
            start.len() == ops.len(),
            statements@.len() == ops.len(),
            i <= ops.len(),
            next <= markers_from(ops, 0).len(),
            count == live_sets@.len(),
            live_sets@.len() == markers_from(ops, 0).len(),
            forall|k: int|
                0 <= k < live_sets@.len() ==> (#[trigger] live_sets@[k]).wf() && live_sets@[k]@
                    == live_before(ops, markers_from(ops, 0)[k]),
            markers_from(ops, 0).skip(next as int) == markers_from(ops, i as int),
            forall|k: int|
                0 <= k < i ==> stmt_view(#[trigger] statements@[k]) == with_triples(ops, start)[k],
            forall|k: int| i <= k < ops.len() ==> stmt_view(#[trigger] statements@[k]) == start[k],
        decreases ops.len() - i,
    {
        proof {
            lemma_next_marker(ops, i as int, next as int);
        }
        assert(ops[i as int] == op_metadata@[i as int]@);
        assert(stmt_view(statements@[i as int]) == start[i as int]);
        if let ControlFlowClass::LiveMarker = op_metadata[i].control {
            assert(live_sets@[next as int].wf());
            let (live_i, live_r, live_f) = liveness_triple(&live_sets[next]);
            let stmt: Stmt<'a> = Instr::Live {
                condition: op_metadata[i].live_condition,
                triple: Banked { i: live_i, r: live_r, f: live_f },
            };
            statements.set(i, stmt);
            next = next + 1;
        }
        i = i + 1;
    }
    assert(stmt_views(statements@) =~= with_triples(ops, start));
}

// ── Laws ─────────────────────────────────────────────────────────────

/// Whether two markers, one right behind the other, both have a condition.
pub open spec fn may_touch<'a>(a: OpMetaView<'a>, b: OpMetaView<'a>) -> bool {
    a.control is LiveMarker && b.control is LiveMarker ==> a.live_condition is Some
        && b.live_condition is Some
}

/// Whether, where two markers stand next to each other, both have a condition.
pub open spec fn markers_apart<'a>(v: Seq<OpMetaView<'a>>) -> bool {
    forall|n: int, m: int|
        0 <= n && m == n + 1 && m < v.len() ==> #[trigger] may_touch(v[n], v[m])
}

pub open spec fn kept_metas<'a>(ops: Seq<OpMetaView<'a>>, plan: Seq<Kept>) -> Seq<OpMetaView<'a>> {
    plan.map_values(|k: Kept| kept_meta(ops, k))
}

proof fn lemma_apart_joins<'a>(a: Seq<OpMetaView<'a>>, b: Seq<OpMetaView<'a>>)
    requires
        markers_apart(a),
        markers_apart(b),
        b.len() > 0 ==> !(b[0].control is LiveMarker),
    ensures
        markers_apart(a + b),
{
    let c = a + b;
    assert forall|n: int, m: int| 0 <= n && m == n + 1 && m < c.len() implies #[trigger] may_touch(
        c[n],
        c[m],
    ) by {
        if m < a.len() {
            assert(may_touch(a[n], a[m]));
        } else if m == a.len() {
            assert(c[m] == b[0]);
        } else {
            assert(may_touch(b[n - a.len()], b[m - a.len()]));
        }
    }
}

pub proof fn lemma_labels_hold_no_marker<'a>(ops: Seq<OpMetaView<'a>>, i: int, j: int)
    ensures
        forall|n: int|
            0 <= n < labels_in(ops, i, j).len() ==> !((#[trigger] kept_metas(
                ops,
                labels_in(ops, i, j),
            )[n]).control is LiveMarker),
    decreases j - i,
{
    if i < j {
        lemma_labels_hold_no_marker(ops, i + 1, j);
        let rest = labels_in(ops, i + 1, j);
        let all = labels_in(ops, i, j);
        assert forall|n: int| 0 <= n < all.len() implies !((#[trigger] kept_metas(
            ops,
            all,
        )[n]).control is LiveMarker) by {
            if ops[i].control is LabelDef {
                if n > 0 {
                    assert(all[n] == rest[n - 1]);
                    assert(!(kept_metas(ops, rest)[n - 1].control is LiveMarker));
                }
            } else {
                assert(!(kept_metas(ops, rest)[n].control is LiveMarker));
            }
        }
    }
}

pub proof fn lemma_run_end_stops<'a>(ops: Seq<OpMetaView<'a>>, i: int)
    requires
        0 <= i <= ops.len(),
    ensures
        ({
            let j = run_end(ops, i);
            j < ops.len() ==> !(ops[j].control is LiveMarker) && !(ops[j].control is LabelDef)
        }),
    decreases ops.len() - i,
{
    if i < ops.len() && (ops[i].control is LiveMarker || ops[i].control is LabelDef) {
        lemma_run_end_stops(ops, i + 1);
    }
}

proof fn lemma_kept_apart<'a>(ops: Seq<OpMetaView<'a>>, i: int)
    requires
        0 <= i <= ops.len(),
    ensures
        markers_apart(kept_metas(ops, kept_from(ops, i))),
        i < ops.len() && !(ops[i].control is LiveMarker) ==> {
            &&& kept_from(ops, i).len() > 0
            &&& !(kept_metas(ops, kept_from(ops, i))[0].control is LiveMarker)
        },
    decreases ops.len() - i,
{
    if i < ops.len() {
        if ops[i].control is LiveMarker {
            lemma_run_end(ops, i + 1);
            let j = run_end(ops, i + 1);
            lemma_run_end_stops(ops, i + 1);
            lemma_kept_apart(ops, j);
            lemma_labels_hold_no_marker(ops, i + 1, j);
            let run = run_kept(ops, i, j);
            let a = kept_metas(ops, run);
            let b = kept_metas(ops, kept_from(ops, j));
            assert(kept_metas(ops, kept_from(ops, i)) =~= a + b);
            assert(markers_apart(a)) by {
                let labels = labels_in(ops, i + 1, j);
                assert forall|n: int, m: int|
                    0 <= n && m == n + 1 && m < a.len() implies #[trigger] may_touch(a[n], a[m]) by {
                    if has_marker(ops, i + 1, j) && !has_sure_marker(ops, i, j) {
                        assert(a[n] == ops[i + n] && a[m] == ops[i + m]);
                    } else {
                        assert(n < labels.len());
                        assert(run[n] == labels[n]);
                        assert(kept_metas(ops, labels)[n] == a[n]);
                    }
                }
            }
            lemma_apart_joins(a, b);
        } else {
            lemma_kept_apart(ops, i + 1);
            let rest = kept_metas(ops, kept_from(ops, i + 1));
            let all = kept_metas(ops, kept_from(ops, i));
            assert(all =~= seq![ops[i]] + rest);
            assert forall|n: int, m: int|
                0 <= n && m == n + 1 && m < all.len() implies #[trigger] may_touch(all[n], all[m]) by {
                if n > 0 {
                    assert(may_touch(rest[n - 1], rest[m - 1]));
                }
            }
        }
    }
}

/// After repeated markers were merged, only markers with conditions stand next to
/// each other.
pub proof fn law_no_repeated_markers<'a>(ops: Seq<OpMetaView<'a>>)
    ensures
        markers_apart(collapsed_metas(ops)),
{
    lemma_kept_apart(ops, 0);
    assert(collapsed_metas(ops) =~= kept_metas(ops, kept_from(ops, 0)));
}

/// A merged marker keeps every register that one of its markers keeps, and no
/// other.
pub proof fn law_merged_marker_keeps_registers<'a>(
    ops: Seq<OpMetaView<'a>>,
    i: int,
    j: int,
    r: Register,
)
    requires
        0 <= i <= j <= ops.len(),
    ensures
        kept_meta(ops, Kept::Merged(i, j)).reads.contains(r) <==> exists|k: int|
            i <= k < j && (#[trigger] ops[k]).control is LiveMarker && ops[k].reads.contains(r),
{
    let all = range_reads(ops, i, j);
    law_in_order_lists_registers(all);
    assert(in_order(all).contains(r) == in_order(all).to_set().contains(r));
    lemma_range_reads(ops, i, j, r);
}

proof fn lemma_range_reads<'a>(ops: Seq<OpMetaView<'a>>, i: int, j: int, r: Register)
    requires
        0 <= i <= j <= ops.len(),
    ensures
        range_reads(ops, i, j).contains(r) <==> exists|k: int|
            i <= k < j && (#[trigger] ops[k]).control is LiveMarker && ops[k].reads.contains(r),
    decreases j - i,
{
    if i < j {
        lemma_range_reads(ops, i, j - 1, r);
        if range_reads(ops, i, j).contains(r) {
            if ops[j - 1].control is LiveMarker && ops[j - 1].reads.to_set().contains(r) {
                assert(ops[j - 1].reads.contains(r));
            }
        }
        if exists|k: int|
            i <= k < j && (#[trigger] ops[k]).control is LiveMarker && ops[k].reads.contains(r) {
            let k = choose|k: int|
                i <= k < j && (#[trigger] ops[k]).control is LiveMarker && ops[k].reads.contains(r);
            if k == j - 1 {
                assert(ops[j - 1].reads.to_set().contains(r));
            }
        }
    }
}

/// The registers that are written down at a marker are those that are alive there.
pub proof fn law_annotation_lists_what_is_alive<'a>(ops: Seq<OpMetaView<'a>>, i: int, r: Register)
    requires
        0 <= i < ops.len(),
        ops[i].control is LiveMarker,
    ensures
        annotated(ops)[i].reads.contains(r) <==> live_before(ops, i).contains(r),
{
    law_in_order_lists_registers(live_before(ops, i));
    assert(in_order(live_before(ops, i)).contains(r) == in_order(
        live_before(ops, i),
    ).to_set().contains(r));
}

} // verus!
