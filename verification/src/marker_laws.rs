//! What annotating live markers and merging repeated ones promise of a body.

use vstd::prelude::*;

use crate::liveness::{
    accounts_for, alive_from, label_liveness, LabelSets, lemma_label_liveness_least, live_before,
    transfer,
};
use crate::markers::{
    annotated, collapsed_metas, collapsed_stmts, has_marker, has_sure_marker, Kept, kept_from,
    kept_metas, labels_in, lemma_labels_hold_no_marker, lemma_run_end, lemma_run_end_stops, run_end,
    run_kept,
};
use crate::ops::{Label, OpMetaView, StmtView};
use crate::ordset::law_in_order_lists_registers;

verus! {

// ── Annotation ───────────────────────────────────────────────────────

/// With the liveness of the body itself, an annotated body has the same registers
/// alive everywhere.
proof fn lemma_annotated_alive<'a>(ops: Seq<OpMetaView<'a>>, i: int)
    requires
        0 <= i <= ops.len(),
    ensures
        alive_from(annotated(ops), label_liveness(ops), i) == live_before(ops, i),
    decreases ops.len() - i,
{
    if i < ops.len() {
        lemma_annotated_alive(ops, i + 1);
        if ops[i].control is LiveMarker {
            law_in_order_lists_registers(live_before(ops, i));
            let m = label_liveness(ops);
            let after = live_before(ops, i + 1);
            assert(transfer(annotated(ops)[i], m, after) =~= transfer(ops[i], m, after));
        }
    }
}

/// An annotated body has no fewer registers alive than the body.
proof fn lemma_annotated_covers<'a>(ops: Seq<OpMetaView<'a>>, m: LabelSets, i: int)
    requires
        0 <= i <= ops.len(),
    ensures
        alive_from(ops, m, i).subset_of(alive_from(annotated(ops), m, i)),
    decreases ops.len() - i,
{
    if i < ops.len() {
        lemma_annotated_covers(ops, m, i + 1);
        if ops[i].control is LiveMarker {
            law_in_order_lists_registers(live_before(ops, i));
            assert(ops[i].reads.to_set().subset_of(annotated(ops)[i].reads.to_set()));
        }
    }
}

proof fn lemma_annotated_labels<'a>(ops: Seq<OpMetaView<'a>>)
    ensures
        label_liveness(annotated(ops)) == label_liveness(ops),
{
    let with_reads = annotated(ops);
    let plain = label_liveness(ops);
    let other = label_liveness(with_reads);
    lemma_label_liveness_least(ops);
    lemma_label_liveness_least(with_reads);
    assert(accounts_for(with_reads, plain)) by {
        assert forall|i: int|
            0 <= i < with_reads.len() && (
            #[trigger] with_reads[i]).control is LabelDef implies match with_reads[i].target_label {
            Some(l) => alive_from(with_reads, plain, i + 1).subset_of(plain(l)),
            None => true,
        } by {
            lemma_annotated_alive(ops, i + 1);
            assert(ops[i].control is LabelDef);
        }
    }
    assert(accounts_for(ops, other)) by {
        assert forall|i: int| 0 <= i < ops.len() && (
        #[trigger] ops[i]).control is LabelDef implies match ops[i].target_label {
            Some(l) => alive_from(ops, other, i + 1).subset_of(other(l)),
            None => true,
        } by {
            lemma_annotated_covers(ops, other, i + 1);
            assert(with_reads[i].control is LabelDef);
        }
    }
    assert forall|l: Label| #[trigger] other(l) == plain(l) by {
        assert(other(l).subset_of(plain(l)));
        assert(plain(l).subset_of(other(l)));
        assert(other(l) =~= plain(l));
    }
    assert(other =~= plain);
}

/// To annotate a body changes nothing of what is alive in it.
pub proof fn law_annotation_keeps_liveness<'a>(ops: Seq<OpMetaView<'a>>, i: int)
    requires
        0 <= i <= ops.len(),
    ensures
        live_before(annotated(ops), i) == live_before(ops, i),
{
    lemma_annotated_labels(ops);
    lemma_annotated_alive(ops, i);
}

/// To annotate a body again changes nothing.
pub proof fn law_annotating_twice_changes_nothing<'a>(ops: Seq<OpMetaView<'a>>)
    ensures
        annotated(annotated(ops)) == annotated(ops),
{
    assert forall|i: int| 0 <= i < ops.len() implies annotated(annotated(ops))[i] == annotated(
        ops,
    )[i] by {
        law_annotation_keeps_liveness(ops, i);
    }
    assert(annotated(annotated(ops)) =~= annotated(ops));
}

// ── Runs of markers and labels ───────────────────────────────────────

/// Whether an operation can belong to a run: it is a marker or a label.
pub open spec fn in_run<'a>(op: OpMetaView<'a>) -> bool {
    op.control is LiveMarker || op.control is LabelDef
}

/// Whether two places are of one run: everything from one to the other is a marker
/// or a label.
pub open spec fn same_run<'a>(v: Seq<OpMetaView<'a>>, p: int, q: int) -> bool {
    forall|k: int| (p <= k <= q || q <= k <= p) ==> in_run(#[trigger] v[k])
}

/// Whether no run from `i` on has anything to merge: from its first marker on, it is
/// that marker alone, or has more than one marker and each with a condition.
pub open spec fn settled_from<'a>(v: Seq<OpMetaView<'a>>, i: int) -> bool
    decreases v.len() - i,
    via settled_from_decreases
{
    if 0 <= i < v.len() {
        if v[i].control is LiveMarker {
            let j = run_end(v, i + 1);
            &&& j == i + 1 || (has_marker(v, i + 1, j) && !has_sure_marker(v, i, j))
            &&& settled_from(v, j)
        } else {
            settled_from(v, i + 1)
        }
    } else {
        true
    }
}

#[via_fn]
proof fn settled_from_decreases<'a>(v: Seq<OpMetaView<'a>>, i: int) {
    if 0 <= i < v.len() {
        lemma_run_end(v, i + 1);
    }
}

proof fn lemma_run_holds<'a>(v: Seq<OpMetaView<'a>>, i: int)
    requires
        0 <= i <= v.len(),
    ensures
        forall|k: int| i <= k < run_end(v, i) ==> in_run(#[trigger] v[k]),
    decreases v.len() - i,
{
    if i < v.len() && in_run(v[i]) {
        lemma_run_holds(v, i + 1);
    }
}

proof fn lemma_run_reaches<'a>(v: Seq<OpMetaView<'a>>, i: int, j: int)
    requires
        0 <= i <= j <= v.len(),
        forall|k: int| i <= k < j ==> in_run(#[trigger] v[k]),
    ensures
        run_end(v, i) == run_end(v, j),
    decreases j - i,
{
    if i < j {
        assert(in_run(v[i]));
        lemma_run_reaches(v, i + 1, j);
    }
}

proof fn lemma_run_end_behind<'a>(a: Seq<OpMetaView<'a>>, b: Seq<OpMetaView<'a>>, k: int)
    requires
        0 <= k <= b.len(),
    ensures
        run_end(a + b, a.len() + k) == a.len() + run_end(b, k),
    decreases b.len() - k,
{
    if k < b.len() {
        assert((a + b)[a.len() + k] == b[k]);
        if in_run(b[k]) {
            lemma_run_end_behind(a, b, k + 1);
        }
    }
}

proof fn lemma_settled_behind<'a>(a: Seq<OpMetaView<'a>>, b: Seq<OpMetaView<'a>>, k: int)
    requires
        0 <= k <= b.len(),
        settled_from(b, k),
    ensures
        settled_from(a + b, a.len() + k),
    decreases b.len() - k,
{
    let v = a + b;
    let n = a.len();
    if k < b.len() {
        assert(v[n + k] == b[k]);
        if b[k].control is LiveMarker {
            let j = run_end(b, k + 1);
            lemma_run_end(b, k + 1);
            lemma_run_end_behind(a, b, k + 1);
            lemma_settled_behind(a, b, j);
            if has_marker(b, k + 1, j) {
                let x = choose|x: int| k + 1 <= x < j && (#[trigger] b[x]).control is LiveMarker;
                assert(v[n + x].control is LiveMarker);
                assert(has_marker(v, n + k + 1, n + j));
            }
            if has_sure_marker(v, n + k, n + j) {
                let x = choose|x: int|
                    n + k <= x < n + j && (#[trigger] v[x]).control is LiveMarker
                        && v[x].live_condition is None;
                assert(b[x - n].control is LiveMarker && b[x - n].live_condition is None);
                assert(has_sure_marker(b, k, j));
            }
        } else {
            lemma_settled_behind(a, b, k + 1);
        }
    }
}

/// What stands before the first marker decides nothing.
proof fn lemma_settled_from_marker<'a>(v: Seq<OpMetaView<'a>>, i: int, j: int)
    requires
        0 <= i <= j <= v.len(),
        forall|k: int| i <= k < j ==> !((#[trigger] v[k]).control is LiveMarker),
        settled_from(v, j),
    ensures
        settled_from(v, i),
    decreases j - i,
{
    if i < j {
        assert(!(v[i].control is LiveMarker));
        lemma_settled_from_marker(v, i + 1, j);
    }
}

/// A run whose markers were merged behind its labels is settled.
proof fn lemma_merged_settles<'a>(a: Seq<OpMetaView<'a>>, b: Seq<OpMetaView<'a>>)
    requires
        a.len() > 0,
        a.last().control is LiveMarker,
        forall|k: int| 0 <= k < a.len() - 1 ==> !((#[trigger] a[k]).control is LiveMarker),
        b.len() > 0 ==> !in_run(b[0]),
        settled_from(b, 0),
    ensures
        settled_from(a + b, 0),
{
    let v = a + b;
    let last = a.len() - 1;
    lemma_run_end_behind(a, b, 0);
    lemma_settled_behind(a, b, 0);
    assert(v[last] == a.last());
    assert(settled_from(v, last as int));
    assert forall|k: int| 0 <= k < last implies !((#[trigger] v[k]).control is LiveMarker) by {
        assert(v[k] == a[k]);
    }
    lemma_settled_from_marker(v, 0, last as int);
}

/// A run that was left alone, because every marker has a condition, is settled.
proof fn lemma_conditional_settles<'a>(a: Seq<OpMetaView<'a>>, b: Seq<OpMetaView<'a>>)
    requires
        a.len() > 0,
        a[0].control is LiveMarker,
        forall|k: int| 0 <= k < a.len() ==> in_run(#[trigger] a[k]),
        has_marker(a, 1, a.len() as int),
        !has_sure_marker(a, 0, a.len() as int),
        b.len() > 0 ==> !in_run(b[0]),
        settled_from(b, 0),
    ensures
        settled_from(a + b, 0),
{
    let v = a + b;
    let n = a.len() as int;
    assert forall|k: int| 1 <= k < n implies in_run(#[trigger] v[k]) by {
        assert(v[k] == a[k]);
    }
    lemma_run_reaches(v, 1, n);
    lemma_run_end_behind(a, b, 0);
    lemma_settled_behind(a, b, 0);
    let x = choose|x: int| 1 <= x < n && (#[trigger] a[x]).control is LiveMarker;
    assert(v[x].control is LiveMarker);
    assert(has_marker(v, 1, n));
    if has_sure_marker(v, 0, n) {
        let y = choose|y: int|
            0 <= y < n && (#[trigger] v[y]).control is LiveMarker && v[y].live_condition is None;
        assert(a[y].control is LiveMarker && a[y].live_condition is None);
    }
    assert(v[0] == a[0]);
}

proof fn lemma_kept_settled<'a>(ops: Seq<OpMetaView<'a>>, i: int)
    requires
        0 <= i <= ops.len(),
    ensures
        settled_from(kept_metas(ops, kept_from(ops, i)), 0),
    decreases ops.len() - i,
{
    let out = kept_metas(ops, kept_from(ops, i));
    if i < ops.len() {
        if ops[i].control is LiveMarker {
            let j = run_end(ops, i + 1);
            lemma_run_end(ops, i + 1);
            lemma_run_end_stops(ops, i + 1);
            lemma_run_holds(ops, i + 1);
            lemma_kept_settled(ops, j);
            let run = run_kept(ops, i, j);
            let a = kept_metas(ops, run);
            let b = kept_metas(ops, kept_from(ops, j));
            assert(out =~= a + b);
            if j < ops.len() {
                assert(kept_from(ops, j)[0] == Kept::At(j));
                assert(b[0] == ops[j]);
            }
            if has_marker(ops, i + 1, j) && !has_sure_marker(ops, i, j) {
                assert forall|k: int| 0 <= k < a.len() implies in_run(#[trigger] a[k]) by {
                    assert(a[k] == ops[i + k]);
                }
                let x = choose|x: int|
                    i + 1 <= x < j && (#[trigger] ops[x]).control is LiveMarker;
                assert(a[x - i].control is LiveMarker);
                assert(has_marker(a, 1, a.len() as int));
                if has_sure_marker(a, 0, a.len() as int) {
                    let y = choose|y: int|
                        0 <= y < a.len() && (#[trigger] a[y]).control is LiveMarker
                            && a[y].live_condition is None;
                    assert(ops[i + y] == a[y]);
                    assert(has_sure_marker(ops, i, j));
                }
                lemma_conditional_settles(a, b);
            } else {
                let labels = labels_in(ops, i + 1, j);
                lemma_labels_hold_no_marker(ops, i + 1, j);
                assert forall|k: int| 0 <= k < a.len() - 1 implies !((
                #[trigger] a[k]).control is LiveMarker) by {
                    assert(run[k] == labels[k]);
                    assert(a[k] == kept_metas(ops, labels)[k]);
                }
                lemma_merged_settles(a, b);
            }
        } else {
            lemma_kept_settled(ops, i + 1);
            let rest = kept_metas(ops, kept_from(ops, i + 1));
            assert(out =~= seq![ops[i]] + rest);
            lemma_settled_behind(seq![ops[i]], rest, 0);
            assert(out[0] == ops[i]);
            assert(settled_from(out, 1));
        }
    }
}

proof fn lemma_collapsed_settled<'a>(ops: Seq<OpMetaView<'a>>)
    ensures
        settled_from(collapsed_metas(ops), 0),
{
    lemma_kept_settled(ops, 0);
    assert(collapsed_metas(ops) =~= kept_metas(ops, kept_from(ops, 0)));
}

proof fn lemma_settled_is_kept<'a>(v: Seq<OpMetaView<'a>>, i: int)
    requires
        0 <= i <= v.len(),
        settled_from(v, i),
    ensures
        kept_from(v, i) == Seq::new((v.len() - i) as nat, |n: int| Kept::At(i + n)),
    decreases v.len() - i,
{
    if i < v.len() {
        if v[i].control is LiveMarker {
            let j = run_end(v, i + 1);
            lemma_run_end(v, i + 1);
            lemma_settled_is_kept(v, j);
            if j == i + 1 {
                assert(!has_marker(v, i + 1, j));
            }
        } else {
            lemma_settled_is_kept(v, i + 1);
        }
    }
    assert(kept_from(v, i) =~= Seq::new((v.len() - i) as nat, |n: int| Kept::At(i + n)));
}

/// To remove repeated markers again changes nothing.
pub proof fn law_removing_twice_changes_nothing<'a>(
    ops: Seq<OpMetaView<'a>>,
    stmts: Seq<StmtView<'a>>,
)
    ensures
        collapsed_metas(collapsed_metas(ops)) == collapsed_metas(ops),
        collapsed_stmts(collapsed_metas(ops), collapsed_stmts(ops, stmts)) == collapsed_stmts(
            ops,
            stmts,
        ),
{
    let v = collapsed_metas(ops);
    lemma_collapsed_settled(ops);
    lemma_settled_is_kept(v, 0);
    assert(collapsed_metas(v) =~= v);
    assert(collapsed_stmts(v, collapsed_stmts(ops, stmts)) =~= collapsed_stmts(ops, stmts));
}

proof fn lemma_settled_runs<'a>(v: Seq<OpMetaView<'a>>, i: int, p: int, q: int)
    requires
        0 <= i <= p < q < v.len(),
        settled_from(v, i),
        v[p].control is LiveMarker,
        v[q].control is LiveMarker,
        same_run(v, p, q),
    ensures
        forall|k: int|
            p <= k <= q && (#[trigger] v[k]).control is LiveMarker ==> v[k].live_condition is Some,
    decreases p - i,
{
    if v[i].control is LiveMarker {
        let j = run_end(v, i + 1);
        lemma_run_end(v, i + 1);
        lemma_run_end_stops(v, i + 1);
        if i < p && j <= p {
            lemma_settled_runs(v, j, p, q);
        } else {
            if j <= q {
                assert(in_run(v[j]));
            }
            assert(!has_sure_marker(v, i, j));
        }
    } else {
        lemma_settled_runs(v, i + 1, p, q);
    }
}

/// After repeated markers were removed, two markers with nothing but labels and
/// markers between them are left only where every marker from one to the other has
/// a condition.
pub proof fn law_markers_of_a_run_have_conditions<'a>(ops: Seq<OpMetaView<'a>>, p: int, q: int)
    requires
        0 <= p < q < collapsed_metas(ops).len(),
        collapsed_metas(ops)[p].control is LiveMarker,
        collapsed_metas(ops)[q].control is LiveMarker,
        same_run(collapsed_metas(ops), p, q),
    ensures
        forall|k: int|
            p <= k <= q && (#[trigger] collapsed_metas(ops)[k]).control is LiveMarker
                ==> collapsed_metas(ops)[k].live_condition is Some,
{
    lemma_collapsed_settled(ops);
    lemma_settled_runs(collapsed_metas(ops), 0, p, q);
}

proof fn lemma_settled_single<'a>(v: Seq<OpMetaView<'a>>, i: int, p: int)
    requires
        0 <= i <= p < v.len(),
        settled_from(v, i),
        v[p].control is LiveMarker,
        forall|q: int|
            0 <= q < v.len() && q != p && (#[trigger] v[q]).control is LiveMarker ==> !same_run(
                v,
                p,
                q,
            ),
    ensures
        p + 1 < v.len() ==> !in_run(v[p + 1]),
    decreases p - i,
{
    if v[i].control is LiveMarker {
        let j = run_end(v, i + 1);
        lemma_run_end(v, i + 1);
        lemma_run_end_stops(v, i + 1);
        lemma_run_holds(v, i + 1);
        if i == p {
            if j != p + 1 {
                let q = choose|q: int| p + 1 <= q < j && (#[trigger] v[q]).control is LiveMarker;
                assert(same_run(v, p, q));
            }
        } else if j <= p {
            lemma_settled_single(v, j, p);
        } else {
            assert(same_run(v, p, i));
        }
    } else {
        lemma_settled_single(v, i + 1, p);
    }
}

/// After repeated markers were removed, a marker that is the only one of its run
/// stands last in it: the labels of the run stand before the marker.
pub proof fn law_single_marker_ends_its_run<'a>(ops: Seq<OpMetaView<'a>>, p: int)
    requires
        0 <= p < collapsed_metas(ops).len(),
        collapsed_metas(ops)[p].control is LiveMarker,
        forall|q: int|
            0 <= q < collapsed_metas(ops).len() && q != p && (
            #[trigger] collapsed_metas(ops)[q]).control is LiveMarker ==> !same_run(
                collapsed_metas(ops),
                p,
                q,
            ),
    ensures
        p + 1 < collapsed_metas(ops).len() ==> !in_run(collapsed_metas(ops)[p + 1]),
{
    lemma_collapsed_settled(ops);
    lemma_settled_single(collapsed_metas(ops), 0, p);
}

} // verus!
