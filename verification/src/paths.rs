//! What liveness means: a register is alive where some way forward leads to a use
//! of it before a new definition.

use vstd::prelude::*;

use crate::kinds::Register;
use crate::liveness::{
    accounts_for, alive_at_labels, alive_from, label_liveness, LabelSets, lemma_alive_mono,
    lemma_label_liveness_least, live_before, within,
};
use crate::ops::{ControlFlowClass, Label, OpMetaView};

verus! {

/// Whether the operation uses the register.
pub open spec fn uses<'a>(op: OpMetaView<'a>, r: Register) -> bool {
    match op.control {
        ControlFlowClass::LabelDef | ControlFlowClass::UnconditionalJump => false,
        _ => op.reads.contains(r),
    }
}

/// Whether the operation defines the register anew.
pub open spec fn defines<'a>(op: OpMetaView<'a>, r: Register) -> bool {
    op.control is Linear && op.writes.contains(r)
}

/// Whether control can go from the operation to the label. A live marker can ask
/// for what is alive at labels as if it went there.
pub open spec fn goes_to_label<'a>(op: OpMetaView<'a>, l: Label) -> bool {
    match op.control {
        ControlFlowClass::ConditionalGuard | ControlFlowClass::UnconditionalJump => op.target_label
            == Some(l),
        ControlFlowClass::LiveMarker => op.live_target_labels.contains(l),
        _ => false,
    }
}

/// Whether control can go on to the next operation.
pub open spec fn falls_through<'a>(op: OpMetaView<'a>) -> bool {
    !(op.control is UnconditionalJump || op.control is Terminal)
}

/// Whether `j` can come right after `i`.
pub open spec fn follows<'a>(ops: Seq<OpMetaView<'a>>, i: int, j: int) -> bool {
    &&& 0 <= i < ops.len()
    &&& 0 <= j < ops.len()
    &&& (j == i + 1 && falls_through(ops[i])) || (ops[j].control is LabelDef && match ops[j].target_label {
        Some(l) => goes_to_label(ops[i], l),
        None => false,
    })
}

/// Whether a use of the register is reached from `i` in fewer than `n` steps with
/// no definition before it.
pub open spec fn reaches_use<'a>(ops: Seq<OpMetaView<'a>>, r: Register, i: int, n: nat) -> bool
    decreases n,
{
    &&& n > 0
    &&& 0 <= i < ops.len()
    &&& uses(ops[i], r) || (!defines(ops[i], r) && exists|j: int| #[trigger]
        follows(ops, i, j) && reaches_use(ops, r, j, (n - 1) as nat))
}

/// What a set of ways forward makes alive at each label.
pub open spec fn reached_labels<'a>(ops: Seq<OpMetaView<'a>>) -> LabelSets {
    |l: Label|
        Set::new(
            |r: Register|
                exists|j: int, n: nat|
                    0 <= j < ops.len() && (#[trigger] ops[j]).control is LabelDef
                        && ops[j].target_label == Some(l) && #[trigger] reaches_use(ops, r, j, n),
        )
}

/// A way to a use is a witness of life.
proof fn lemma_reaching_is_alive<'a>(ops: Seq<OpMetaView<'a>>, r: Register, i: int, n: nat)
    requires
        reaches_use(ops, r, i, n),
    ensures
        live_before(ops, i).contains(r),
    decreases n,
{
    let m = label_liveness(ops);
    lemma_label_liveness_least(ops);
    let after = alive_from(ops, m, i + 1);
    if uses(ops[i], r) {
        assert(ops[i].reads.to_set().contains(r));
    } else {
        let j = choose|j: int| #[trigger]
            follows(ops, i, j) && reaches_use(ops, r, j, (n - 1) as nat);
        lemma_reaching_is_alive(ops, r, j, (n - 1) as nat);
        if j == i + 1 && falls_through(ops[i]) {
            assert(after.contains(r));
            if ops[i].control is Linear {
                assert(!ops[i].writes.to_set().contains(r));
            }
        } else {
            let l = ops[j].target_label->0;
            assert(ops[j].control is LabelDef);
            assert(alive_from(ops, m, j) == alive_from(ops, m, j + 1));
            assert(alive_from(ops, m, j + 1).subset_of(m(l)));
            assert(m(l).contains(r));
            if ops[i].control is LiveMarker {
                let k = choose|k: int|
                    0 <= k < ops[i].live_target_labels.len() && ops[i].live_target_labels[k] == l;
                assert(m(ops[i].live_target_labels[k]).contains(r));
                assert(alive_at_labels(m, ops[i].live_target_labels).contains(r));
            }
        }
    }
}

/// What is alive under the reached labels is reached.
proof fn lemma_alive_is_reaching<'a>(ops: Seq<OpMetaView<'a>>, r: Register, i: int)
    requires
        0 <= i,
        alive_from(ops, reached_labels(ops), i).contains(r),
    ensures
        exists|n: nat| #[trigger] reaches_use(ops, r, i, n),
    decreases ops.len() - i,
{
    let m = reached_labels(ops);
    let after = alive_from(ops, m, i + 1);
    let op = ops[i];
    if uses(op, r) {
        assert(reaches_use(ops, r, i, 1));
    } else {
        assert(!op.reads.to_set().contains(r) || op.control is LabelDef
            || op.control is UnconditionalJump);
        let by_label = exists|l: Label| #[trigger] goes_to_label(op, l) && m(l).contains(r);
        if by_label {
            let l = choose|l: Label| #[trigger] goes_to_label(op, l) && m(l).contains(r);
            let (j, n) = choose|j: int, n: nat|
                0 <= j < ops.len() && (#[trigger] ops[j]).control is LabelDef
                    && ops[j].target_label == Some(l) && #[trigger] reaches_use(ops, r, j, n);
            assert(follows(ops, i, j));
            assert(!defines(op, r));
            assert(reaches_use(ops, r, i, n + 1));
        } else {
            if op.control is LiveMarker && alive_at_labels(m, op.live_target_labels).contains(r) {
                let k = choose|k: int|
                    0 <= k < op.live_target_labels.len() && m(
                        #[trigger] op.live_target_labels[k],
                    ).contains(r);
                assert(op.live_target_labels.contains(op.live_target_labels[k]));
                assert(goes_to_label(op, op.live_target_labels[k]));
                assert(false);
            }
            if let Some(l) = op.target_label {
                if op.control is ConditionalGuard || op.control is UnconditionalJump {
                    assert(goes_to_label(op, l));
                }
            }
            assert(after.contains(r));
            assert(falls_through(op));
            if op.control is Linear {
                assert(!op.writes.to_set().contains(r));
                if op.writes.contains(r) {
                    assert(op.writes.to_set().contains(r));
                }
            }
            assert(!defines(op, r));
            lemma_alive_is_reaching(ops, r, i + 1);
            let n = choose|n: nat| #[trigger] reaches_use(ops, r, i + 1, n);
            assert(follows(ops, i, i + 1));
            assert(reaches_use(ops, r, i, n + 1));
        }
    }
}

proof fn lemma_reached_labels_account<'a>(ops: Seq<OpMetaView<'a>>)
    ensures
        accounts_for(ops, reached_labels(ops)),
{
    let m = reached_labels(ops);
    assert forall|i: int| 0 <= i < ops.len() && (#[trigger] ops[i]).control is LabelDef implies match ops[i].target_label {
        Some(l) => alive_from(ops, m, i + 1).subset_of(m(l)),
        None => true,
    } by {
        if let Some(l) = ops[i].target_label {
            assert forall|r: Register| #[trigger]
                alive_from(ops, m, i + 1).contains(r) implies m(l).contains(r) by {
                lemma_alive_is_reaching(ops, r, i + 1);
                let n = choose|n: nat| #[trigger] reaches_use(ops, r, i + 1, n);
                assert(follows(ops, i, i + 1));
                assert(reaches_use(ops, r, i, n + 1));
            }
        }
    }
}

/// A register is alive before an operation exactly where some way forward leads
/// to a use of it with no definition in between.
pub proof fn law_alive_means_a_use_is_ahead<'a>(ops: Seq<OpMetaView<'a>>, r: Register, i: int)
    requires
        0 <= i < ops.len(),
    ensures
        live_before(ops, i).contains(r) <==> exists|n: nat| #[trigger] reaches_use(ops, r, i, n),
{
    if live_before(ops, i).contains(r) {
        lemma_reached_labels_account(ops);
        lemma_label_liveness_least(ops);
        assert(within(label_liveness(ops), reached_labels(ops)));
        lemma_alive_mono(ops, label_liveness(ops), reached_labels(ops), i);
        lemma_alive_is_reaching(ops, r, i);
    }
    if exists|n: nat| #[trigger] reaches_use(ops, r, i, n) {
        let n = choose|n: nat| #[trigger] reaches_use(ops, r, i, n);
        lemma_reaching_is_alive(ops, r, i, n);
    }
}

} // verus!
