//! Liveness of registers at the live markers of a body.

use vstd::prelude::*;

use crate::kinds::{BindingKind, Register};
use crate::ops::{Banked, ControlFlowClass, Label, meta_views, OpMeta, OpMetaView};
use crate::ordset::{
    in_order, increasing, law_in_order_lists_registers, lemma_in_order, OrdSet, Ranked,
};

verus! {

/// What is alive at each label.
pub type LabelSets = spec_fn(Label) -> Set<Register>;

/// What is alive at one of the labels.
pub open spec fn alive_at_labels(m: LabelSets, labels: Seq<Label>) -> Set<Register> {
    Set::new(|r: Register| exists|i: int| 0 <= i < labels.len() && m(#[trigger] labels[i]).contains(r))
}

/// What is alive before an operation, from what is alive after it and at the
/// labels. A definition ends a life and a use begins one.
pub open spec fn transfer<'a>(op: OpMetaView<'a>, m: LabelSets, after: Set<Register>) -> Set<Register> {
    match op.control {
        ControlFlowClass::LiveMarker => after.union(
            alive_at_labels(m, op.live_target_labels),
        ).union(op.reads.to_set()),
        ControlFlowClass::LabelDef => after,
        ControlFlowClass::UnconditionalJump => match op.target_label {
            Some(l) => m(l),
            None => Set::empty(),
        },
        ControlFlowClass::ConditionalGuard => match op.target_label {
            Some(l) => after.union(m(l)).union(op.reads.to_set()),
            None => after.union(op.reads.to_set()),
        },
        ControlFlowClass::Linear => after.difference(op.writes.to_set()).union(op.reads.to_set()),
        ControlFlowClass::Terminal => op.reads.to_set(),
    }
}

/// What is alive before the `i`th operation, given what is alive at the labels.
pub open spec fn alive_from<'a>(ops: Seq<OpMetaView<'a>>, m: LabelSets, i: int) -> Set<Register>
    decreases ops.len() - i,
{
    if 0 <= i < ops.len() {
        transfer(ops[i], m, alive_from(ops, m, i + 1))
    } else {
        Set::empty()
    }
}

/// Whether the sets account for what is alive where their labels stand.
pub open spec fn accounts_for<'a>(ops: Seq<OpMetaView<'a>>, m: LabelSets) -> bool {
    forall|i: int|
        0 <= i < ops.len() && (#[trigger] ops[i]).control is LabelDef ==> match ops[i].target_label {
            Some(l) => alive_from(ops, m, i + 1).subset_of(m(l)),
            None => true,
        }
}

/// What is alive at each label: the least sets that account for themselves.
pub open spec fn label_liveness<'a>(ops: Seq<OpMetaView<'a>>) -> LabelSets {
    |l: Label|
        Set::new(
            |r: Register| forall|m: LabelSets| #[trigger] accounts_for(ops, m) ==> m(l).contains(r),
        )
}

/// What is alive before the `i`th operation.
pub open spec fn live_before<'a>(ops: Seq<OpMetaView<'a>>, i: int) -> Set<Register> {
    alive_from(ops, label_liveness(ops), i)
}

/// The positions of the live markers from the `i`th operation on.
pub open spec fn markers_from<'a>(ops: Seq<OpMetaView<'a>>, i: int) -> Seq<int>
    decreases ops.len() - i,
{
    if 0 <= i < ops.len() {
        if ops[i].control is LiveMarker {
            seq![i] + markers_from(ops, i + 1)
        } else {
            markers_from(ops, i + 1)
        }
    } else {
        seq![]
    }
}

/// Whether every jump and every label has its target.
pub open spec fn labelled<'a>(ops: Seq<OpMetaView<'a>>) -> bool {
    forall|i: int|
        0 <= i < ops.len() && ((#[trigger] ops[i]).control is LabelDef
            || ops[i].control is UnconditionalJump) ==> ops[i].target_label is Some
}

pub open spec fn within(a: LabelSets, b: LabelSets) -> bool {
    forall|l: Label| #[trigger] a(l).subset_of(b(l))
}

/// More at the labels is more everywhere.
pub proof fn lemma_alive_mono<'a>(ops: Seq<OpMetaView<'a>>, a: LabelSets, b: LabelSets, i: int)
    requires
        within(a, b),
    ensures
        alive_from(ops, a, i).subset_of(alive_from(ops, b, i)),
    decreases ops.len() - i,
{
    if 0 <= i < ops.len() {
        lemma_alive_mono(ops, a, b, i + 1);
        lemma_transfer_mono(ops[i], a, b, alive_from(ops, a, i + 1), alive_from(ops, b, i + 1));
    }
}

proof fn lemma_transfer_mono<'a>(
    op: OpMetaView<'a>,
    a: LabelSets,
    b: LabelSets,
    x: Set<Register>,
    y: Set<Register>,
)
    requires
        within(a, b),
        x.subset_of(y),
    ensures
        transfer(op, a, x).subset_of(transfer(op, b, y)),
{
    match op.control {
        ControlFlowClass::LiveMarker => {
            assert forall|r: Register| alive_at_labels(a, op.live_target_labels).contains(r) implies
                alive_at_labels(b, op.live_target_labels).contains(r) by {
                let i = choose|i: int|
                    0 <= i < op.live_target_labels.len() && a(
                        #[trigger] op.live_target_labels[i],
                    ).contains(r);
                assert(a(op.live_target_labels[i]).subset_of(b(op.live_target_labels[i])));
            }
        },
        ControlFlowClass::UnconditionalJump => {
            if let Some(l) = op.target_label {
                assert(a(l).subset_of(b(l)));
            }
        },
        ControlFlowClass::ConditionalGuard => {
            if let Some(l) = op.target_label {
                assert(a(l).subset_of(b(l)));
            }
        },
        _ => {},
    }
}

/// The liveness at the labels accounts for itself, and for nothing more.
pub proof fn lemma_label_liveness_least<'a>(ops: Seq<OpMetaView<'a>>)
    ensures
        accounts_for(ops, label_liveness(ops)),
        forall|m: LabelSets| #[trigger] accounts_for(ops, m) ==> within(label_liveness(ops), m),
{
    let least = label_liveness(ops);
    assert forall|m: LabelSets| #[trigger] accounts_for(ops, m) implies within(least, m) by {
        assert forall|l: Label| #[trigger] least(l).subset_of(m(l)) by {}
    }
    assert forall|i: int| 0 <= i < ops.len() && (#[trigger] ops[i]).control is LabelDef implies match ops[i].target_label {
        Some(l) => alive_from(ops, least, i + 1).subset_of(least(l)),
        None => true,
    } by {
        if let Some(l) = ops[i].target_label {
            assert forall|r: Register| #[trigger]
                alive_from(ops, least, i + 1).contains(r) implies least(l).contains(r) by {
                assert forall|m: LabelSets| #[trigger] accounts_for(ops, m) implies m(l).contains(
                    r,
                ) by {
                    lemma_alive_mono(ops, least, m, i + 1);
                    assert(alive_from(ops, m, i + 1).subset_of(m(l)));
                }
            }
        }
    }
}

// ── Tables of label sets ─────────────────────────────────────────────

/// A table of what is alive at each label that stands in a body.
struct LabelTable {
    labels: Vec<Label>,
    sets: Vec<OrdSet<Register>>,
}

impl LabelTable {
    spec fn wf(&self) -> bool {
        &&& self.labels@.len() == self.sets@.len()
        &&& forall|i: int| 0 <= i < self.sets@.len() ==> (#[trigger] self.sets@[i]).wf()
        &&& forall|i: int, j: int|
            0 <= i < j < self.labels@.len() ==> #[trigger] self.labels@[i] != #[trigger] self.labels@[j]
    }

    spec fn at(&self, l: Label) -> Set<Register> {
        if self.labels@.contains(l) {
            self.sets@[self.labels@.index_of(l)]@
        } else {
            Set::empty()
        }
    }

    spec fn live(&self) -> LabelSets {
        |l: Label| self.at(l)
    }

    /// How many registers the sets hold together.
    spec fn total(&self) -> nat {
        total_len(self.sets@)
    }

    /// Index of a label.
    fn find(&self, l: Label) -> (r: Option<usize>)
        requires
            self.wf(),
        ensures
            match r {
                Some(i) => i < self.labels@.len() && self.labels@[i as int] == l && self.at(l)
                    == self.sets@[i as int]@,
                None => !self.labels@.contains(l) && self.at(l) == Set::<Register>::empty(),
            },
    {
        let mut i: usize = 0;
        while i < self.labels.len()
            invariant
                i <= self.labels@.len(),
                self.wf(),
                forall|j: int| 0 <= j < i ==> self.labels@[j] != l,
            decreases self.labels.len() - i,
        {
            if self.labels[i] == l {
                assert(self.labels@[i as int] == l);
                assert(self.labels@.contains(l));
                let ghost k = self.labels@.index_of(l);
                assert(self.labels@[k] == l);
                assert(k == i) by {
                    if i < k {
                        assert(self.labels@[i as int] != self.labels@[k]);
                    }
                }
                return Some(i);
            }
            i = i + 1;
        }
        None
    }
}

spec fn total_len(sets: Seq<OrdSet<Register>>) -> nat
    decreases sets.len(),
{
    if sets.len() == 0 {
        0
    } else {
        total_len(sets.drop_last()) + sets.last().items@.len()
    }
}

proof fn lemma_total_update(sets: Seq<OrdSet<Register>>, i: int, s: OrdSet<Register>)
    requires
        0 <= i < sets.len(),
    ensures
        total_len(sets.update(i, s)) + sets[i].items@.len() == total_len(sets) + s.items@.len(),
    decreases sets.len(),
{
    if i == sets.len() - 1 {
        assert(sets.update(i, s).drop_last() =~= sets.drop_last());
    } else {
        lemma_total_update(sets.drop_last(), i, s);
        assert(sets.update(i, s).drop_last() =~= sets.drop_last().update(i, s));
    }
}

/// There are only so many registers.
proof fn lemma_register_bound(q: Seq<Register>)
    requires
        increasing(q),
    ensures
        q.len() <= 768,
{
    if q.len() > 768 {
        lemma_rank_at_least(q, q.len() - 1);
        assert(q[q.len() - 1].rank() < 768);
    }
}

proof fn lemma_rank_at_least(q: Seq<Register>, i: int)
    requires
        increasing(q),
        0 <= i < q.len(),
    ensures
        q[i].rank() >= i,
    decreases i,
{
    if i > 0 {
        lemma_rank_at_least(q, i - 1);
        assert(q[i - 1].rank() < q[i].rank());
    }
}

proof fn lemma_total_bound(sets: Seq<OrdSet<Register>>)
    requires
        forall|i: int| 0 <= i < sets.len() ==> (#[trigger] sets[i]).wf(),
    ensures
        total_len(sets) <= 768 * sets.len(),
    decreases sets.len(),
{
    if sets.len() > 0 {
        let rest = sets.drop_last();
        assert forall|i: int| 0 <= i < rest.len() implies (#[trigger] rest[i]).wf() by {
            assert(sets[i].wf());
        }
        lemma_total_bound(rest);
        assert(sets[sets.len() - 1].wf());
        lemma_register_bound(sets.last().items@);
    }
}

/// A table of the labels that stand in the body, with nothing alive yet.
fn empty_table<'a>(op_metadata: &Vec<OpMeta<'a>>) -> (r: LabelTable)
    requires
        labelled(meta_views(op_metadata@)),
    ensures
        r.wf(),
        covers(r, meta_views(op_metadata@), 0),
        forall|l: Label| (#[trigger] r.at(l)) == Set::<Register>::empty(),
{
    let ghost ops = meta_views(op_metadata@);
    let mut table = LabelTable { labels: Vec::new(), sets: Vec::new() };
    let mut i: usize = op_metadata.len();
    while i > 0
        invariant
            i <= op_metadata@.len(),
            ops == meta_views(op_metadata@),
            labelled(ops),
            table.wf(),
            covers(table, ops, i as int),
            forall|j: int| 0 <= j < table.sets@.len() ==> (#[trigger] table.sets@[j])@ == Set::<Register>::empty(),
        decreases i,
    {
        i = i - 1;
        assert(ops[i as int] == op_metadata@[i as int]@);
        if let ControlFlowClass::LabelDef = op_metadata[i].control {
            if let Some(l) = op_metadata[i].target_label {
                if table.find(l).is_none() {
                    let ghost before = table;
                    table.labels.push(l);
                    table.sets.push(OrdSet::new());
                    assert(table.wf()) by {
                        assert forall|a: int, b: int| 0 <= a < b < table.labels@.len() implies
                            #[trigger] table.labels@[a] != #[trigger] table.labels@[b] by {
                            if b == table.labels@.len() - 1 {
                                assert(before.labels@[a] == table.labels@[a]);
                                assert(before.labels@.contains(before.labels@[a]));
                            } else {
                                assert(before.labels@[a] != before.labels@[b]);
                            }
                        }
                    }
                    assert forall|k: int| i < k < ops.len() && (#[trigger] ops[k]).control is LabelDef implies
                        table.labels@.contains(ops[k].target_label->0) by {
                        let x = ops[k].target_label->0;
                        assert(before.labels@.contains(x));
                        let n = choose|n: int| 0 <= n < before.labels@.len() && before.labels@[n] == x;
                        assert(table.labels@[n] == x);
                    }
                    assert(table.labels@[table.labels@.len() - 1] == l);
                }
            }
        }
    }
    assert forall|l: Label| (#[trigger] table.at(l)) == Set::<Register>::empty() by {
        if table.labels@.contains(l) {
            let k = table.labels@.index_of(l);
            assert(table.sets@[k]@ == Set::<Register>::empty());
        }
    }
    table
}

/// Whether the table holds every label that stands at or after `from`.
spec fn covers<'a>(table: LabelTable, ops: Seq<OpMetaView<'a>>, from: int) -> bool {
    forall|k: int|
        from <= k < ops.len() && 0 <= k && (#[trigger] ops[k]).control is LabelDef ==> table.labels@.contains(
            ops[k].target_label->0,
        )
}

/// What is alive before `op`, in place of what is alive after it.
fn step_back<'a>(op: &OpMeta<'a>, table: &LabelTable, alive: &mut OrdSet<Register>)
    requires
        table.wf(),
        old(alive).wf(),
    ensures
        final(alive).wf(),
        final(alive)@ == transfer(op@, table.live(), old(alive)@),
{
    let ghost m = table.live();
    match op.control {
        ControlFlowClass::LiveMarker => {
            let mut k: usize = 0;
            let ghost labels = op.live_target_labels@;
            assert(alive@ =~= old(alive)@.union(alive_at_labels(m, labels.take(0))));
            while k < op.live_target_labels.len()
                invariant
                    k <= labels.len(),
                    labels == op.live_target_labels@,
                    table.wf(),
                    m == table.live(),
                    alive.wf(),
                    alive@ == old(alive)@.union(alive_at_labels(m, labels.take(k as int))),
                decreases op.live_target_labels.len() - k,
            {
                let l = op.live_target_labels[k];
                let ghost before = labels.take(k as int);
                let ghost after = labels.take(k + 1);
                if let Some(n) = table.find(l) {
                    let _ = alive.add_all(&table.sets[n]);
                }
                assert(m(l) == table.at(l));
                assert(alive_at_labels(m, after) =~= alive_at_labels(m, before).union(m(l))) by {
                    assert forall|r: Register| alive_at_labels(m, after).contains(r) implies
                        alive_at_labels(m, before).union(m(l)).contains(r) by {
                        let n = choose|n: int| 0 <= n < after.len() && m(#[trigger] after[n]).contains(r);
                        if n < k {
                            assert(before[n] == after[n]);
                        }
                    }
                    assert forall|r: Register| alive_at_labels(m, before).union(m(l)).contains(r) implies
                        alive_at_labels(m, after).contains(r) by {
                        if m(l).contains(r) {
                            assert(after[k as int] == l);
                        } else {
                            let n = choose|n: int|
                                0 <= n < before.len() && m(#[trigger] before[n]).contains(r);
                            assert(before[n] == after[n]);
                        }
                    }
                }
                assert(alive@ =~= old(alive)@.union(alive_at_labels(m, after)));
                k = k + 1;
            }
            assert(labels.take(labels.len() as int) =~= labels);
            alive.add_list(op.reads.as_slice());
        },
        ControlFlowClass::LabelDef => {},
        ControlFlowClass::UnconditionalJump => {
            match op.target_label {
                Some(l) => {
                    assert(m(l) == table.at(l));
                    match table.find(l) {
                        Some(n) => {
                            assert(table.sets@[n as int].wf());
                            *alive = table.sets[n].copied();
                        },
                        None => {
                            *alive = OrdSet::new();
                        },
                    }
                },
                None => {
                    *alive = OrdSet::new();
                },
            }
        },
        ControlFlowClass::ConditionalGuard => {
            if let Some(l) = op.target_label {
                assert(m(l) == table.at(l));
                if let Some(n) = table.find(l) {
                    let _ = alive.add_all(&table.sets[n]);
                } else {
                    assert(alive@ =~= alive@.union(m(l)));
                }
            }
            alive.add_list(op.reads.as_slice());
        },
        ControlFlowClass::Linear => {
            let mut k: usize = 0;
            let ghost writes = op.writes@;
            assert(alive@ =~= old(alive)@.difference(writes.take(0).to_set()));
            while k < op.writes.len()
                invariant
                    k <= writes.len(),
                    writes == op.writes@,
                    alive.wf(),
                    alive@ == old(alive)@.difference(writes.take(k as int).to_set()),
                decreases op.writes.len() - k,
            {
                let w = op.writes[k];
                let ghost before = writes.take(k as int);
                let ghost after = writes.take(k + 1);
                alive.remove(w);
                assert(after =~= before.push(w));
                assert(after.to_set() =~= before.to_set().insert(w)) by {
                    assert(after[k as int] == w);
                    assert forall|z: Register| before.to_set().contains(z) implies after.to_set().contains(z) by {
                        let n = choose|n: int| 0 <= n < before.len() && before[n] == z;
                        assert(after[n] == z);
                    }
                }
                assert(alive@ =~= old(alive)@.difference(after.to_set()));
                k = k + 1;
            }
            assert(writes.take(writes.len() as int) =~= writes);
            alive.add_list(op.reads.as_slice());
        },
        ControlFlowClass::Terminal => {
            *alive = OrdSet::from_list(op.reads.as_slice());
        },
    }
}

/// One walk over the body from its end: what is found alive where labels stand
/// is added to the table. Says whether something was added.
fn sweep<'a>(op_metadata: &Vec<OpMeta<'a>>, table: &mut LabelTable) -> (changed: bool)
    requires
        old(table).wf(),
        labelled(meta_views(op_metadata@)),
        covers(*old(table), meta_views(op_metadata@), 0),
    ensures
        final(table).wf(),
        final(table).labels@ == old(table).labels@,
        final(table).total() >= old(table).total() + if changed { 1int } else { 0int },
        !changed ==> accounts_for(meta_views(op_metadata@), final(table).live()),
        forall|m: LabelSets|
            #[trigger] accounts_for(meta_views(op_metadata@), m) && within(old(table).live(), m)
                ==> within(final(table).live(), m),
{
    let ghost ops = meta_views(op_metadata@);
    let ghost start = table.live();
    let mut alive: OrdSet<Register> = OrdSet::new();
    let mut changed = false;
    let mut i: usize = op_metadata.len();
    while i > 0
        invariant
            i <= op_metadata@.len(),
            ops == meta_views(op_metadata@),
            start == old(table).live(),
            labelled(ops),
            table.wf(),
            alive.wf(),
            table.labels@ == old(table).labels@,
            covers(*table, ops, 0),
            table.total() >= old(table).total() + if changed { 1int } else { 0int },
            !changed ==> {
                &&& table.live() == start
                &&& alive@ == alive_from(ops, start, i as int)
                &&& forall|k: int|
                    i <= k < ops.len() && (#[trigger] ops[k]).control is LabelDef ==> alive_from(
                        ops,
                        start,
                        k + 1,
                    ).subset_of(start(ops[k].target_label->0))
            },
            forall|m: LabelSets|
                #[trigger] accounts_for(ops, m) && within(start, m) ==> within(table.live(), m)
                    && alive@.subset_of(alive_from(ops, m, i as int)),
        decreases i,
    {
        i = i - 1;
        let op = &op_metadata[i];
        assert(ops[i as int] == op@);
        let ghost before = *table;
        let ghost after_op = alive@;
        if let ControlFlowClass::LabelDef = op.control {
            if let Some(l) = op.target_label {
                if let Some(n) = table.find(l) {
                    let mut set = table.sets[n].copied();
                    assert(table.sets@[n as int].wf());
                    assert(set@ == table.at(l));
                    let added = set.add_all(&alive);
                    proof {
                        lemma_total_update(table.sets@, n as int, set);
                    }
                    table.sets.set(n, set);
                    assert(table.wf());
                    assert forall|x: Label| #[trigger] table.at(x) == (if x == l {
                        before.at(l).union(after_op)
                    } else {
                        before.at(x)
                    }) by {
                        if table.labels@.contains(x) {
                            let k = table.labels@.index_of(x);
                            assert(table.labels@[k] == x);
                            if x == l {
                                assert(k == n) by {
                                    if k < n {
                                        assert(table.labels@[k] != table.labels@[n as int]);
                                    } else if n < k {
                                        assert(table.labels@[n as int] != table.labels@[k]);
                                    }
                                }
                            }
                        } else {
                            assert(table.labels@[n as int] == l);
                        }
                    }
                    proof {
                        if !changed && !added {
                            assert(table.live() =~= start) by {
                                assert forall|x: Label| #[trigger] (table.live())(x) == start(x) by {
                                    assert(table.at(x) =~= before.at(x));
                                    assert((before.live())(x) == before.at(x));
                                }
                            }
                            assert(after_op.subset_of(start(l))) by {
                                assert((before.live())(l) == before.at(l));
                            }
                        }
                        assert forall|m: LabelSets| #[trigger] accounts_for(ops, m) && within(start, m) implies
                            within(table.live(), m) by {
                            assert(alive_from(ops, m, i + 1).subset_of(m(l)));
                            assert forall|x: Label| #[trigger] (table.live())(x).subset_of(m(x)) by {
                                assert((before.live())(x).subset_of(m(x)));
                                assert((before.live())(x) == before.at(x));
                                assert((table.live())(x) == table.at(x));
                            }
                        }
                    }
                    changed = changed || added;
                } else {
                    assert(table.labels@.contains(ops[i as int].target_label->0));
                }
            }
        }
        let ghost seen = *table;
        step_back(op, table, &mut alive);
        proof {
            assert forall|m: LabelSets| #[trigger] accounts_for(ops, m) && within(start, m) implies
                alive@.subset_of(alive_from(ops, m, i as int)) by {
                lemma_transfer_mono(op@, seen.live(), m, after_op, alive_from(ops, m, i + 1));
            }
        }
    }
    proof {
        if !changed {
            assert(accounts_for(ops, table.live()));
        }
    }
    changed
}

/// What is alive at every label that stands in the body.
fn solve_labels<'a>(op_metadata: &Vec<OpMeta<'a>>) -> (r: LabelTable)
    requires
        labelled(meta_views(op_metadata@)),
    ensures
        r.wf(),
        r.live() == label_liveness(meta_views(op_metadata@)),
{
    let ghost ops = meta_views(op_metadata@);
    let mut table = empty_table(op_metadata);
    assert forall|m: LabelSets| #[trigger] accounts_for(ops, m) implies within(table.live(), m) by {
        assert forall|l: Label| #[trigger] (table.live())(l).subset_of(m(l)) by {
            assert(table.at(l) == Set::<Register>::empty());
        }
    }
    proof {
        lemma_total_bound(table.sets@);
    }
    loop
        invariant_except_break
            table.total() <= 768 * table.labels@.len(),
        invariant
            ops == meta_views(op_metadata@),
            labelled(ops),
            table.wf(),
            covers(table, ops, 0),
            forall|m: LabelSets| #[trigger] accounts_for(ops, m) ==> within(table.live(), m),
        ensures
            accounts_for(ops, table.live()),
        decreases 768 * table.labels@.len() - table.total(),
    {
        let changed = sweep(op_metadata, &mut table);
        proof {
            lemma_total_bound(table.sets@);
        }
        if !changed {
            break;
        }
    }
    proof {
        lemma_label_liveness_least(ops);
        let least = label_liveness(ops);
        assert(table.live() =~= least) by {
            assert forall|l: Label| #[trigger] (table.live())(l) == least(l) by {
                assert(within(least, table.live()));
                assert(within(table.live(), least));
                assert(least(l).subset_of((table.live())(l)));
                assert((table.live())(l).subset_of(least(l)));
                assert((table.live())(l) =~= least(l));
            }
        }
    }
    table
}

/// What is alive at every live marker, in the order of the markers.
pub fn compute_per_marker_liveness<'a>(op_metadata: &Vec<OpMeta<'a>>) -> (r: Vec<OrdSet<Register>>)
    requires
        labelled(meta_views(op_metadata@)),
    ensures
        ({
            let ops = meta_views(op_metadata@);
            let markers = markers_from(ops, 0);
            &&& r@.len() == markers.len()
            &&& forall|k: int|
                0 <= k < markers.len() ==> (#[trigger] r@[k]).wf() && r@[k]@ == live_before(
                    ops,
                    markers[k],
                )
        }),
{
    let ghost ops = meta_views(op_metadata@);
    let table = solve_labels(op_metadata);
    let ghost m = table.live();
    let mut alive: OrdSet<Register> = OrdSet::new();
    let mut out: Vec<OrdSet<Register>> = Vec::new();
    let mut i: usize = op_metadata.len();
    while i > 0
        invariant
            i <= op_metadata@.len(),
            ops == meta_views(op_metadata@),
            table.wf(),
            m == table.live(),
            m == label_liveness(ops),
            alive.wf(),
            alive@ == alive_from(ops, m, i as int),
            out@.len() == markers_from(ops, i as int).len(),
            forall|k: int|
                0 <= k < out@.len() ==> (#[trigger] out@[k]).wf() && out@[k]@ == live_before(
                    ops,
                    markers_from(ops, i as int)[k],
                ),
        decreases i,
    {
        i = i - 1;
        let op = &op_metadata[i];
        assert(ops[i as int] == op@);
        step_back(op, &table, &mut alive);
        if let ControlFlowClass::LiveMarker = op.control {
            let ghost before = out@;
            out.insert(0, alive.copied());
            assert forall|k: int| 0 <= k < out@.len() implies (#[trigger] out@[k]).wf() && out@[k]@
                == live_before(ops, markers_from(ops, i as int)[k]) by {
                if k > 0 {
                    assert(out@[k] == before[k - 1]);
                }
            }
        }
    }
    out
}

// ── Banks ────────────────────────────────────────────────────────────

/// The indices of the registers of one bank, in the order of the list.
pub open spec fn bank_bytes(regs: Seq<Register>, kind: BindingKind) -> Seq<u8>
    decreases regs.len(),
{
    if regs.len() == 0 {
        seq![]
    } else if regs.last().kind == kind {
        bank_bytes(regs.drop_last(), kind).push(regs.last().index)
    } else {
        bank_bytes(regs.drop_last(), kind)
    }
}

/// The indices of the registers of each bank, in the order of the list.
pub open spec fn byte_triple(regs: Seq<Register>) -> Banked<Seq<u8>> {
    Banked {
        i: bank_bytes(regs, BindingKind::Int),
        r: bank_bytes(regs, BindingKind::Ref),
        f: bank_bytes(regs, BindingKind::Float),
    }
}

fn bank_of_list(regs: &[Register], kind: BindingKind) -> (r: Vec<u8>)
    ensures
        r@ == bank_bytes(regs@, kind),
{
    let mut out: Vec<u8> = Vec::new();
    let mut i: usize = 0;
    while i < regs.len()
        invariant
            i <= regs.len(),
            out@ == bank_bytes(regs@.take(i as int), kind),
        decreases regs.len() - i,
    {
        assert(regs@.take(i + 1).drop_last() =~= regs@.take(i as int));
        if regs[i].kind == kind {
            out.push(regs[i].index);
        }
        i = i + 1;
    }
    assert(regs@.take(regs@.len() as int) =~= regs@);
    out
}

/// The indices of one bank's registers in the set, in increasing order.
pub fn get_liveness_info(set: &OrdSet<Register>, kind: BindingKind) -> (r: Vec<u8>)
    requires
        set.wf(),
    ensures
        r@ == bank_bytes(in_order(set@), kind),
{
    proof {
        lemma_in_order(set.items@);
    }
    bank_of_list(set.items.as_slice(), kind)
}

/// The indices of each bank's registers in the set, in increasing order.
pub fn liveness_triple(set: &OrdSet<Register>) -> (r: (Vec<u8>, Vec<u8>, Vec<u8>))
    requires
        set.wf(),
    ensures
        (Banked { i: r.0@, r: r.1@, f: r.2@ }) == byte_triple(in_order(set@)),
{
    (
        get_liveness_info(set, BindingKind::Int),
        get_liveness_info(set, BindingKind::Ref),
        get_liveness_info(set, BindingKind::Float),
    )
}

/// The indices of each bank's registers, in the order of the list.
pub fn liveness_triple_from_reads(reads: &[Register]) -> (r: (Vec<u8>, Vec<u8>, Vec<u8>))
    ensures
        (Banked { i: r.0@, r: r.1@, f: r.2@ }) == byte_triple(reads@),
{
    (
        bank_of_list(reads, BindingKind::Int),
        bank_of_list(reads, BindingKind::Ref),
        bank_of_list(reads, BindingKind::Float),
    )
}

/// The bytes of a bank are in increasing order where the registers are.
pub proof fn law_banks_are_sorted(regs: Seq<Register>, kind: BindingKind, i: int, j: int)
    requires
        increasing(regs),
        0 <= i < j < bank_bytes(regs, kind).len(),
    ensures
        bank_bytes(regs, kind)[i] < bank_bytes(regs, kind)[j],
    decreases regs.len(),
{
    let rest = regs.drop_last();
    assert(increasing(rest)) by {
        assert forall|a: int, b: int| 0 <= a < b < rest.len() implies (#[trigger] rest[a]).rank()
            < (#[trigger] rest[b]).rank() by {
            assert(regs[a].rank() < regs[b].rank());
        }
    }
    let before = bank_bytes(rest, kind);
    if regs.last().kind == kind && j == before.len() {
        lemma_bank_member(rest, kind, i);
        let k = choose|k: int|
            0 <= k < rest.len() && (#[trigger] rest[k]).kind == kind && rest[k].index == before[i];
        assert(regs[k].rank() < regs[regs.len() - 1].rank());
    } else {
        law_banks_are_sorted(rest, kind, i, j);
    }
}

/// Each byte of a bank is the index of one of its registers.
proof fn lemma_bank_member(regs: Seq<Register>, kind: BindingKind, i: int)
    requires
        0 <= i < bank_bytes(regs, kind).len(),
    ensures
        exists|k: int|
            0 <= k < regs.len() && (#[trigger] regs[k]).kind == kind && regs[k].index == bank_bytes(
                regs,
                kind,
            )[i],
    decreases regs.len(),
{
    let rest = regs.drop_last();
    let before = bank_bytes(rest, kind);
    if regs.last().kind == kind && i == before.len() {
        assert(regs[regs.len() - 1].kind == kind);
    } else {
        lemma_bank_member(rest, kind, i);
        let k = choose|k: int|
            0 <= k < rest.len() && (#[trigger] rest[k]).kind == kind && rest[k].index == before[i];
        assert(regs[k].kind == kind);
    }
}

/// The bytes of one bank of a triple.
pub open spec fn bank_of(triple: Banked<Seq<u8>>, kind: BindingKind) -> Seq<u8> {
    match kind {
        BindingKind::Int => triple.i,
        BindingKind::Ref => triple.r,
        BindingKind::Float => triple.f,
    }
}

/// A triple loses no register of its list and adds none: it has an index in a bank
/// exactly where that register is in the list, and as many indices as the list has
/// registers.
pub proof fn law_triple_holds_the_registers(regs: Seq<Register>, r: Register)
    ensures
        bank_of(byte_triple(regs), r.kind).contains(r.index) <==> regs.contains(r),
        byte_triple(regs).i.len() + byte_triple(regs).r.len() + byte_triple(regs).f.len()
            == regs.len(),
    decreases regs.len(),
{
    if regs.len() > 0 {
        let rest = regs.drop_last();
        law_triple_holds_the_registers(rest, r);
        let all = bank_bytes(regs, r.kind);
        let before = bank_bytes(rest, r.kind);
        if regs.contains(r) {
            let k = choose|k: int| 0 <= k < regs.len() && regs[k] == r;
            if k < rest.len() {
                assert(rest[k] == r);
                let x = choose|x: int| 0 <= x < before.len() && before[x] == r.index;
                assert(all[x] == r.index);
            } else {
                assert(all[before.len() as int] == r.index);
            }
        }
        if all.contains(r.index) {
            lemma_bank_holds(regs, r);
        }
    } else {
        assert(bank_bytes(regs, r.kind) =~= seq![]);
    }
}

proof fn lemma_bank_holds(regs: Seq<Register>, r: Register)
    requires
        bank_bytes(regs, r.kind).contains(r.index),
    ensures
        regs.contains(r),
{
    let all = bank_bytes(regs, r.kind);
    let x = choose|x: int| 0 <= x < all.len() && all[x] == r.index;
    lemma_bank_member(regs, r.kind, x);
    let k = choose|k: int|
        0 <= k < regs.len() && (#[trigger] regs[k]).kind == r.kind && regs[k].index == all[x];
    assert(regs[k] == r);
}

/// The triple of a set has an index in a bank exactly where that register is in the
/// set.
pub proof fn law_triple_holds_the_set(s: Set<Register>, r: Register)
    ensures
        bank_of(byte_triple(in_order(s)), r.kind).contains(r.index) <==> s.contains(r),
{
    law_in_order_lists_registers(s);
    law_triple_holds_the_registers(in_order(s), r);
    assert(in_order(s).to_set().contains(r) == in_order(s).contains(r));
}

} // verus!
