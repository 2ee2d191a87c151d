//! What lowering leaves alone: the names that are bound, and the state of the
//! dispatch around it.

use vstd::prelude::*;

use crate::ast::Expr;
use crate::lower_spec::Branch;
use crate::lowerer::{LowerState, Reject, Slot};
use crate::ops::{Label, LiveMarkerCondition, Op, OpKind, OpMetaView, StmtView};

verus! {

/// Whether names, taint, opcode variable and arm bodies are the same in both.
#[verifier::opaque]
pub open spec fn same_scope<'a>(s: LowerState<'a>, t: LowerState<'a>) -> bool {
    &&& t.ctx == s.ctx
    &&& t.bindings == s.bindings
    &&& t.tainted == s.tainted
    &&& t.opcode_var == s.opcode_var
    &&& t.arm_bodies == s.arm_bodies
}

pub broadcast proof fn scope_self<'a>(s: LowerState<'a>)
    ensures
        #[trigger] same_scope(s, s),
{
    reveal(same_scope);
}

pub broadcast proof fn scope_further<'a>(a: LowerState<'a>, b: LowerState<'a>, c: LowerState<'a>)
    requires
        #[trigger] same_scope(a, b),
        #[trigger] same_scope(b, c),
    ensures
        same_scope(a, c),
{
    reveal(same_scope);
}

pub broadcast proof fn scope_reject<'a>(s: LowerState<'a>, why: Reject)
    ensures
        same_scope(s, #[trigger] s.reject(why)),
{
    reveal(same_scope);
    reveal(LowerState::reject);
}

pub broadcast proof fn scope_push<'a>(s: LowerState<'a>, meta: OpMetaView<'a>, stmt: StmtView<'a>)
    ensures
        same_scope(s, #[trigger] s.push(meta, stmt)),
{
    reveal(same_scope);
    reveal(LowerState::push);
}

pub broadcast proof fn scope_emit<'a>(
    s: LowerState<'a>,
    kind: OpKind,
    reads: Seq<Slot>,
    writes: Seq<Slot>,
    stmt: StmtView<'a>,
)
    ensures
        same_scope(s, #[trigger] s.emit(kind, reads, writes, stmt)),
{
    broadcast use {scope_reject, scope_push};

    reveal(LowerState::emit);
}

pub broadcast proof fn scope_emit_op<'a>(
    s: LowerState<'a>,
    kind: OpKind,
    reads: Seq<Slot>,
    writes: Seq<Slot>,
    op: Op<'a>,
)
    ensures
        same_scope(s, #[trigger] s.emit_op(kind, reads, writes, op)),
{
    broadcast use scope_emit;

    reveal(LowerState::emit_op);
}

pub broadcast proof fn scope_aux<'a>(s: LowerState<'a>, op: Op<'a>)
    ensures
        same_scope(s, #[trigger] s.aux(op)),
{
    broadcast use scope_push;

    reveal(LowerState::aux);
}

pub broadcast proof fn scope_live<'a>(s: LowerState<'a>)
    ensures
        same_scope(s, #[trigger] s.live()),
{
    broadcast use scope_push;

    reveal(LowerState::live);
}

pub broadcast proof fn scope_live_if<'a>(s: LowerState<'a>, condition: LiveMarkerCondition<'a>)
    ensures
        same_scope(s, #[trigger] s.live_if(condition)),
{
    broadcast use scope_push;

    reveal(LowerState::live_if);
}

pub broadcast proof fn scope_label_def<'a>(s: LowerState<'a>, label: Label)
    ensures
        same_scope(s, #[trigger] s.label_def(label)),
{
    broadcast use scope_push;

    reveal(LowerState::label_def);
}

pub broadcast proof fn scope_jump<'a>(s: LowerState<'a>, label: Label)
    ensures
        same_scope(s, #[trigger] s.jump(label)),
{
    broadcast use scope_push;

    reveal(LowerState::jump);
}

pub broadcast proof fn scope_guard<'a>(s: LowerState<'a>, cond: u16, target: Label)
    ensures
        same_scope(s, #[trigger] s.guard(cond, target)),
{
    broadcast use {scope_reject, scope_push};

    reveal(LowerState::guard);
    reveal(LowerState::branch);
}

pub broadcast proof fn scope_reg_taken<'a>(s: LowerState<'a>)
    ensures
        same_scope(s, #[trigger] s.reg_taken()),
{
    reveal(same_scope);
    reveal(LowerState::reg_taken);
}

pub broadcast proof fn scope_label_taken<'a>(s: LowerState<'a>)
    ensures
        same_scope(s, #[trigger] s.label_taken()),
{
    reveal(same_scope);
    reveal(LowerState::label_taken);
}

pub broadcast proof fn scope_prebuild_helper<'a>(s: LowerState<'a>, func: &'a Expr)
    ensures
        same_scope(s, #[trigger] s.prebuild_helper(func)),
{
    reveal(same_scope);
    reveal(LowerState::prebuild_helper);
}

pub broadcast proof fn scope_append<'a>(s: LowerState<'a>, b: Branch<'a>)
    ensures
        same_scope(s, #[trigger] s.append(b)),
{
    reveal(same_scope);
    reveal(LowerState::append);
}

/// Whatever a branch binds is forgotten behind it.
pub proof fn scope_of_branch<'a>(s: LowerState<'a>, n: LowerState<'a>)
    ensures
        same_scope(s, s.joined(n)),
        same_scope(s, s.abandoned(n)),
{
    reveal(same_scope);
    reveal(LowerState::joined);
    reveal(LowerState::abandoned);
}

pub broadcast group group_steps {
    scope_self,
    scope_further,
    scope_reject,
    scope_emit,
    scope_emit_op,
    scope_aux,
    scope_live,
    scope_live_if,
    scope_label_def,
    scope_jump,
    scope_guard,
    scope_reg_taken,
    scope_label_taken,
    scope_prebuild_helper,
    scope_append,
}

} // verus!
