//! What lowering keeps: it only adds, and what it adds fits together.

use vstd::prelude::*;

use crate::ast::Expr;
use crate::kinds::Binding;
use crate::liveness::labelled;
use crate::lower_spec::Branch;
use crate::lowerer::{aligned, LowerState, next_u16, Reject, Slot};
use crate::ops::{Instr, Label, LiveMarkerCondition, Op, OpKind, OpMetaView, StmtView};

verus! {

/// Whether every statement has its description and every jump its target.
pub open spec fn sound<'a>(s: LowerState<'a>) -> bool {
    aligned(s) && labelled(s.op_metadata)
}

/// The definition of a label.
pub open spec fn mark<'a>(l: Label) -> StmtView<'a> {
    Instr::Op(Op::MarkLabel(l))
}

/// Whether a statement is no definition of a label.
pub open spec fn no_mark<'a>(stmt: StmtView<'a>) -> bool {
    match stmt {
        Instr::Op(op) => !(op is MarkLabel),
        _ => true,
    }
}

/// Whether the label is defined at `q`.
pub open spec fn marked<'a>(code: Seq<StmtView<'a>>, q: int, l: Label) -> bool {
    0 <= q < code.len() && code[q] == mark(l)
}

/// Whether the labels that the code defines from `start` on are in a range. Where
/// the labels have run out, nothing is said.
pub open spec fn marks_within<'a>(code: Seq<StmtView<'a>>, start: int, lo: u16, hi: u16) -> bool {
    hi < u16::MAX ==> forall|q: int, l: Label| #[trigger]
        marked(code, q, l) && start <= q ==> lo <= l.id < hi
}

/// Whether `t` came from `s` by adding to it. Statements, descriptions and
/// prebuild steps of `s` stand first in `t`; registers and labels that `s` handed
/// out are not handed out again; the labels that are defined in what was added were
/// handed out in between; bound names stay bound; the first rejection stays; and
/// soundness is kept.
#[verifier::opaque]
pub open spec fn grows<'a>(s: LowerState<'a>, t: LowerState<'a>) -> bool {
    &&& t.ctx == s.ctx
    &&& s.statements.is_prefix_of(t.statements)
    &&& s.op_metadata.is_prefix_of(t.op_metadata)
    &&& s.prebuild.is_prefix_of(t.prebuild)
    &&& s.bindings.dom().subset_of(t.bindings.dom())
    &&& s.next_reg <= t.next_reg
    &&& s.next_label <= t.next_label
    &&& marks_within(t.statements, s.statements.len() as int, s.next_label, t.next_label)
    &&& s.rejected is Some ==> t.rejected == s.rejected
    &&& sound(s) ==> sound(t)
}

/// Whether a lowered branch can be added without harm.
pub open spec fn sound_branch<'a>(b: Branch<'a>) -> bool {
    b.0.len() == b.1.len() && labelled(b.1)
}

/// Whether a branch was lowered between two states: it can be added without harm,
/// and the labels that it defines were handed out in between.
#[verifier::opaque]
pub open spec fn branch_between<'a>(s: LowerState<'a>, t: LowerState<'a>, b: Branch<'a>) -> bool {
    sound_branch(b) && marks_within(b.0, 0, s.next_label, t.next_label)
}

/// Whether a label was handed out between two states.
pub open spec fn label_between<'a>(s: LowerState<'a>, t: LowerState<'a>, l: Label) -> bool {
    s.next_label <= l.id && (l.id < t.next_label || t.next_label == u16::MAX)
}

pub broadcast proof fn grows_self<'a>(s: LowerState<'a>)
    ensures
        #[trigger] grows(s, s),
{
    reveal(grows);
}

pub broadcast proof fn grows_further<'a>(a: LowerState<'a>, b: LowerState<'a>, c: LowerState<'a>)
    requires
        #[trigger] grows(a, b),
        #[trigger] grows(b, c),
    ensures
        grows(a, c),
{
    reveal(grows);
    if c.next_label < u16::MAX {
        assert forall|q: int, l: Label| #[trigger]
            marked(c.statements, q, l) && a.statements.len() <= q implies a.next_label <= l.id
            < c.next_label by {
            if q < b.statements.len() {
                assert(b.statements[q] == c.statements[q]);
                assert(marked(b.statements, q, l));
            }
        }
    }
}

/// Labels are never taken back.
pub broadcast proof fn grows_labels<'a>(a: LowerState<'a>, b: LowerState<'a>)
    requires
        #[trigger] grows(a, b),
    ensures
        a.next_label <= b.next_label,
{
    reveal(grows);
}

// ── Steps ────────────────────────────────────────────────────────────

pub broadcast proof fn grows_reject<'a>(s: LowerState<'a>, why: Reject)
    ensures
        grows(s, #[trigger] s.reject(why)),
{
    reveal(grows);
    reveal(LowerState::reject);
}

pub broadcast proof fn grows_bind<'a>(s: LowerState<'a>, name: Seq<char>, b: Binding)
    ensures
        grows(s, #[trigger] s.bind(name, b)),
{
    reveal(grows);
    reveal(LowerState::bind);
}

/// One more statement, with a description whose label is there if it needs one. It
/// defines no label.
pub proof fn grows_push<'a>(s: LowerState<'a>, meta: OpMetaView<'a>, stmt: StmtView<'a>)
    requires
        meta.target_label is None ==> !(meta.control is LabelDef
            || meta.control is UnconditionalJump),
        no_mark(stmt),
    ensures
        grows(s, s.push(meta, stmt)),
{
    reveal(grows);
    reveal(LowerState::push);
    let t = s.push(meta, stmt);
    assert forall|q: int, l: Label| #[trigger]
        marked(t.statements, q, l) implies q < s.statements.len() by {
        assert(t.statements[q] == mark(l));
    }
    if labelled(s.op_metadata) {
        assert forall|i: int|
            0 <= i < t.op_metadata.len() && ((#[trigger] t.op_metadata[i]).control is LabelDef
                || t.op_metadata[i].control is UnconditionalJump) implies t.op_metadata[i].target_label is Some by {
            if i < s.op_metadata.len() {
                assert(t.op_metadata[i] == s.op_metadata[i]);
            }
        }
    }
}

pub broadcast proof fn grows_emit<'a>(
    s: LowerState<'a>,
    kind: OpKind,
    reads: Seq<Slot>,
    writes: Seq<Slot>,
    stmt: StmtView<'a>,
)
    requires
        no_mark(stmt),
    ensures
        grows(s, #[trigger] s.emit(kind, reads, writes, stmt)),
{
    broadcast use grows_reject;

    reveal(LowerState::emit);
    grows_push(
        s,
        OpMetaView::line(kind, crate::lowerer::registers(reads), crate::lowerer::registers(writes)),
        stmt,
    );
}

pub broadcast proof fn grows_emit_op<'a>(
    s: LowerState<'a>,
    kind: OpKind,
    reads: Seq<Slot>,
    writes: Seq<Slot>,
    op: Op<'a>,
)
    requires
        !(op is MarkLabel),
    ensures
        grows(s, #[trigger] s.emit_op(kind, reads, writes, op)),
{
    broadcast use grows_emit;

    reveal(LowerState::emit_op);
}

pub broadcast proof fn grows_aux<'a>(s: LowerState<'a>, op: Op<'a>)
    requires
        !(op is MarkLabel),
    ensures
        grows(s, #[trigger] s.aux(op)),
{
    reveal(LowerState::aux);
    grows_push(s, OpMetaView::auxiliary(), Instr::Op(op));
}

pub broadcast proof fn grows_live<'a>(s: LowerState<'a>)
    ensures
        grows(s, #[trigger] s.live()),
{
    reveal(LowerState::live);
    grows_push(s, OpMetaView::live(), Instr::Op(Op::LivePlaceholder));
}

pub broadcast proof fn grows_live_if<'a>(s: LowerState<'a>, condition: LiveMarkerCondition<'a>)
    ensures
        grows(s, #[trigger] s.live_if(condition)),
{
    reveal(LowerState::live_if);
    grows_push(s, OpMetaView::live_if(condition), Instr::Op(Op::LivePlaceholder));
}

/// A label that was handed out between two states can be defined at the second.
pub broadcast proof fn grows_label_def<'a>(a: LowerState<'a>, b: LowerState<'a>, label: Label)
    requires
        #[trigger] grows(a, b),
        label_between(a, b, label),
    ensures
        grows(a, #[trigger] b.label_def(label)),
{
    reveal(grows);
    reveal(LowerState::label_def);
    reveal(LowerState::push);
    let t = b.label_def(label);
    if labelled(b.op_metadata) {
        assert forall|i: int|
            0 <= i < t.op_metadata.len() && ((#[trigger] t.op_metadata[i]).control is LabelDef
                || t.op_metadata[i].control is UnconditionalJump) implies t.op_metadata[i].target_label is Some by {
            if i < b.op_metadata.len() {
                assert(t.op_metadata[i] == b.op_metadata[i]);
            }
        }
    }
    if t.next_label < u16::MAX {
        assert forall|q: int, l: Label| #[trigger]
            marked(t.statements, q, l) && a.statements.len() <= q implies a.next_label <= l.id
            < t.next_label by {
            if q < b.statements.len() {
                assert(b.statements[q] == t.statements[q]);
                assert(marked(b.statements, q, l));
            } else {
                assert(t.statements[q] == mark::<'a>(label));
            }
        }
    }
}

pub broadcast proof fn grows_jump<'a>(s: LowerState<'a>, label: Label)
    ensures
        grows(s, #[trigger] s.jump(label)),
{
    reveal(LowerState::jump);
    grows_push(s, OpMetaView::jump_to(label), Instr::Op(Op::Jump(label)));
}

pub broadcast proof fn grows_branch<'a>(
    s: LowerState<'a>,
    reads: Seq<Slot>,
    target: Label,
    op: Op<'a>,
)
    requires
        !(op is MarkLabel),
    ensures
        grows(s, #[trigger] s.branch(reads, target, op)),
{
    broadcast use grows_reject;

    reveal(LowerState::branch);
    grows_push(
        s,
        OpMetaView::guard(crate::lowerer::registers(reads), target),
        Instr::Op(op),
    );
}

pub broadcast proof fn grows_guard<'a>(s: LowerState<'a>, cond: u16, target: Label)
    ensures
        grows(s, #[trigger] s.guard(cond, target)),
{
    broadcast use grows_branch;

    reveal(LowerState::guard);
}

pub broadcast proof fn grows_terminal<'a>(s: LowerState<'a>, reads: Seq<Slot>, op: Op<'a>)
    requires
        !(op is MarkLabel),
    ensures
        grows(s, #[trigger] s.terminal(reads, op)),
{
    broadcast use grows_reject;

    reveal(LowerState::terminal);
    grows_push(s, OpMetaView::end(crate::lowerer::registers(reads)), Instr::Op(op));
}

pub broadcast proof fn grows_reg_taken<'a>(s: LowerState<'a>)
    ensures
        grows(s, #[trigger] s.reg_taken()),
{
    reveal(grows);
    reveal(LowerState::reg_taken);
}

pub broadcast proof fn grows_label_taken<'a>(s: LowerState<'a>)
    ensures
        grows(s, #[trigger] s.label_taken()),
        s.label_taken().next_label == next_u16(s.next_label),
{
    reveal(grows);
    reveal(LowerState::label_taken);
}

pub broadcast proof fn grows_prebuild_helper<'a>(s: LowerState<'a>, func: &'a Expr)
    ensures
        grows(s, #[trigger] s.prebuild_helper(func)),
{
    reveal(grows);
    reveal(LowerState::prebuild_helper);
}

/// A branch that was lowered between two states can be added behind them.
pub broadcast proof fn grows_append<'a>(
    a: LowerState<'a>,
    s: LowerState<'a>,
    x: LowerState<'a>,
    y: LowerState<'a>,
    b: Branch<'a>,
)
    requires
        #[trigger] grows(a, s),
        #[trigger] branch_between(x, y, b),
        a.next_label <= x.next_label,
        y.next_label <= s.next_label,
    ensures
        grows(a, #[trigger] s.append(b)),
{
    reveal(grows);
    reveal(branch_between);
    reveal(LowerState::append);
    let t = s.append(b);
    if sound(s) {
        assert forall|i: int|
            0 <= i < t.op_metadata.len() && ((#[trigger] t.op_metadata[i]).control is LabelDef
                || t.op_metadata[i].control is UnconditionalJump) implies t.op_metadata[i].target_label is Some by {
            if i < s.op_metadata.len() {
                assert(t.op_metadata[i] == s.op_metadata[i]);
            } else {
                assert(t.op_metadata[i] == b.1[i - s.op_metadata.len()]);
            }
        }
    }
    if t.next_label < u16::MAX {
        assert forall|q: int, l: Label| #[trigger]
            marked(t.statements, q, l) && a.statements.len() <= q implies a.next_label <= l.id
            < t.next_label by {
            if q < s.statements.len() {
                assert(s.statements[q] == t.statements[q]);
                assert(marked(s.statements, q, l));
            } else {
                assert(b.0[q - s.statements.len()] == t.statements[q]);
                assert(marked(b.0, q - s.statements.len(), l));
            }
        }
    }
}

/// To define a label or to add a branch takes no label.
pub broadcast proof fn label_def_labels<'a>(s: LowerState<'a>, l: Label)
    ensures
        (#[trigger] s.label_def(l)).next_label == s.next_label,
{
    reveal(LowerState::label_def);
    reveal(LowerState::push);
}

pub broadcast proof fn append_labels<'a>(s: LowerState<'a>, b: Branch<'a>)
    ensures
        (#[trigger] s.append(b)).next_label == s.next_label,
{
    reveal(LowerState::append);
}

/// A branch is sound, and the state after it came from the one before.
pub proof fn grows_by_branch<'a>(s: LowerState<'a>, n: LowerState<'a>)
    requires
        grows(s.nested(), n),
    ensures
        grows(s, s.joined(n)),
        grows(s, s.abandoned(n)),
        branch_between(s, s.joined(n), (n.statements, n.op_metadata)),
{
    reveal(grows);
    reveal(branch_between);
    reveal(LowerState::nested);
    reveal(LowerState::joined);
    reveal(LowerState::abandoned);
}

/// What is needed where labels are defined and branches are added.
pub broadcast group group_labels {
    grows_self,
    grows_further,
    grows_labels,
    grows_label_taken,
    grows_label_def,
    grows_append,
    label_def_labels,
    append_labels,
}

pub broadcast group group_steps {
    grows_self,
    grows_further,
    grows_labels,
    grows_reject,
    grows_bind,
    grows_emit,
    grows_emit_op,
    grows_aux,
    grows_live,
    grows_live_if,
    grows_label_def,
    grows_jump,
    grows_branch,
    grows_guard,
    grows_terminal,
    grows_reg_taken,
    grows_label_taken,
    grows_prebuild_helper,
    grows_append,
    label_def_labels,
    append_labels,
}

} // verus!
