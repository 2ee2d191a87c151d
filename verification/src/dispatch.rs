//! The dispatch loop of an interpreter becomes one body: a merge point, the
//! fetch of the opcode, a chain of tests with a call for each arm, and a return.

use vstd::prelude::*;

use crate::analysis::{stmt_modifies, stmt_modifies_jit_state};
use crate::arm_locals::{caller_locals, collect_arm_caller_locals};
use crate::ast::{
    Block, Expr, ExprKind, NodeId, Pat, path_ends_with, path_last_is, Stmt as SourceStmt,
};
use crate::body::{
    GeneratedJitCodeBody, lemma_start_sound, lowered_arm, settle, settled_metas, settled_prebuild,
    settled_stmts, try_generate_jitcode_body_parts_with_caller_bindings,
};
use crate::config::LowererConfig;
use crate::extended_arg::{
    bare_ident, compares_names, expr_bare_ident, grows_inner_while, inner_loop_of, inner_while,
    int_binding, is_recognized_extended_arg_while, stmt_as_inner_while,
};
use crate::fetch::{grows_opcode_fetch, opcode_fetch};
use crate::growth::{
    group_steps, grows, grows_aux, grows_emit, grows_further, grows_jump, grows_label_def,
    grows_label_taken, grows_labels, grows_reject, grows_self, grows_terminal, sound,
};
use crate::growth_forms::{
    grows_config_call_stmt, grows_guard_value, grows_lower_local, grows_lower_stmt, grows_value,
};
use crate::kinds::{Binding, BindingKind};
use crate::layout::{
    CallerLocalLayout, dispatch_arm_inline_call, layout_args, layout_family, layout_views,
    LayoutView, packed_layout,
};
use crate::lower_spec::{config_call_stmt, guard_value, lower_local, lower_stmt, value};
use crate::lowerer::{
    body_views, config_state, int_reg, int_slot, larger, Lowerer, LowerState, max_u16, no_slots,
    one_slot, prebuild_views, Reject, resolved_policy, Slot, slot, Taint, two_slots,
};
use crate::ops::{
    ArmBody, InferenceFailureMode, Instr, Label, LoweredSequence, meta_views, Op, OpKind, PatValue,
    stmt_views,
};
use crate::patterns::{extract_pat_values, is_catch_all_name, is_lowercase_binding_pat, pat_values};
use crate::schema::{
    declared_names, green_types, red_lists, red_types, schema_view, var_lists, VarRole,
};
use crate::search::{block_contains, stmt_contains, stmt_holds, stmts_hold};
use crate::text::lookup;

verus! {

/// What an arm of the dispatch does, as far as it was classified.
#[derive(Clone, Copy, Debug, PartialEq, Eq, Structural)]
pub enum ArmPattern {
    Lowerable,
    Nop,
    AbortPermanent,
    Halt,
    Unsupported,
}

pub struct ClassifiedArm {
    pub pat: Pat,
    pub pattern: ArmPattern,
    pub original_body: Expr,
}

// ── The loop ─────────────────────────────────────────────────────────

/// The body of a loop that holds the node.
pub open spec fn loop_around(stmt: SourceStmt, id: NodeId) -> Option<Block> {
    match stmt {
        SourceStmt::Expr(e, _) => match e.kind {
            ExprKind::While(w) => if stmts_hold(w.body.stmts, 0, id) {
                Some(w.body)
            } else {
                None
            },
            ExprKind::Loop(b) => if stmts_hold(b.stmts, 0, id) {
                Some(b)
            } else {
                None
            },
            _ => None,
        },
        _ => None,
    }
}

/// The body of the first loop from the `i`th statement on that holds the node.
pub open spec fn dispatch_loop(stmts: Seq<SourceStmt>, i: int, id: NodeId) -> Option<Block>
    decreases stmts.len() - i,
{
    if 0 <= i < stmts.len() {
        match loop_around(stmts[i], id) {
            Some(b) => Some(b),
            None => dispatch_loop(stmts, i + 1, id),
        }
    } else {
        None
    }
}

fn loop_body_around(stmt: &SourceStmt, id: NodeId) -> (r: Option<&Block>)
    ensures
        match r {
            Some(b) => loop_around(*stmt, id) == Some(*b),
            None => loop_around(*stmt, id) is None,
        },
{
    match stmt {
        SourceStmt::Expr(e, _) => match &e.kind {
            ExprKind::While(w) => if block_contains(&w.body, id) {
                Some(&w.body)
            } else {
                None
            },
            ExprKind::Loop(b) => if block_contains(b, id) {
                Some(b)
            } else {
                None
            },
            _ => None,
        },
        _ => None,
    }
}

/// The body of the first `while` or `loop` of the block that holds the dispatch
/// match.
pub fn find_dispatch_loop_body(func_block: &Block, target_match: NodeId) -> (r: Option<&Block>)
    ensures
        match r {
            Some(b) => dispatch_loop(func_block.stmts@, 0, target_match) == Some(*b),
            None => dispatch_loop(func_block.stmts@, 0, target_match) is None,
        },
{
    let mut i: usize = 0;
    while i < func_block.stmts.len()
        invariant
            i <= func_block.stmts@.len(),
            dispatch_loop(func_block.stmts@, 0, target_match) == dispatch_loop(
                func_block.stmts@,
                i as int,
                target_match,
            ),
        decreases func_block.stmts.len() - i,
    {
        if let Some(b) = loop_body_around(&func_block.stmts[i], target_match) {
            return Some(b);
        }
        i = i + 1;
    }
    None
}

/// Whether the statement is `jit_merge_point!()`.
pub open spec fn is_merge_point(stmt: SourceStmt) -> bool {
    match stmt {
        SourceStmt::Macro(path) => path_ends_with(path, "jit_merge_point"@),
        _ => false,
    }
}

/// Whether the statement is `jit_merge_point!()`.
pub fn is_jit_merge_point_macro(stmt: &SourceStmt) -> (r: bool)
    ensures
        r == is_merge_point(*stmt),
{
    match stmt {
        SourceStmt::Macro(path) => path_last_is(path, "jit_merge_point"),
        _ => false,
    }
}

/// The statements of the dispatch loop, where it was found.
pub open spec fn loop_stmts_of<'a>(block: &'a Block, dispatch: Option<NodeId>) -> Option<
    &'a Vec<SourceStmt>,
> {
    match dispatch {
        Some(id) => match dispatch_loop(block.stmts@, 0, id) {
            Some(b) => Some(&b.stmts),
            None => None,
        },
        None => None,
    }
}

fn dispatch_loop_stmts(block: &Block, dispatch: Option<NodeId>) -> (r: Option<&Vec<SourceStmt>>)
    ensures
        r == loop_stmts_of(block, dispatch),
{
    match dispatch {
        Some(id) => match find_dispatch_loop_body(block, id) {
            Some(b) => Some(&b.stmts),
            None => None,
        },
        None => None,
    }
}

// ── Before the merge point ───────────────────────────────────────────

/// The `let`s from the `i`th statement up to the merge point.
pub open spec fn pre_merge<'a>(s: LowerState<'a>, stmts: &'a Vec<SourceStmt>, i: int) -> LowerState<
    'a,
>
    decreases stmts.len() - i,
{
    if 0 <= i < stmts.len() && !is_merge_point(stmts[i]) {
        match stmts[i] {
            SourceStmt::Local(l) => pre_merge(lower_local(s, &l).0, stmts, i + 1),
            _ => pre_merge(s, stmts, i + 1),
        }
    } else {
        s
    }
}

/// Each green from the `i`th on is pinned to its current value.
pub open spec fn promote_greens<'a>(s: LowerState<'a>, greens: Seq<Expr>, i: int) -> LowerState<'a>
    decreases greens.len() - i,
{
    if 0 <= i < greens.len() {
        match bare_ident(greens[i]) {
            None => s.reject(Reject::GreenNotIdent),
            Some(name) => match lookup(s.bindings, name@) {
                None => s.reject(Reject::GreenUnbound),
                Some(b) => promote_greens(guard_value(s, b), greens, i + 1),
            },
        }
    } else {
        s
    }
}

/// The merge point, between two live markers.
#[verifier::opaque]
pub open spec fn merge_point<'a>(s: LowerState<'a>, config: LowererConfig) -> LowerState<'a> {
    let s1 = s.live();
    match var_lists(s1.bindings, declared_names(config.greens@), VarRole::Green) {
        Err(why) => s1.reject(why),
        Ok(greens) => match red_lists(s1.bindings, config) {
            Err(why) => s1.reject(why),
            Ok(reds) => s1.emit(
                OpKind::JitMergePoint,
                seq![],
                seq![],
                Instr::JitMergePoint { greens, reds },
            ).live(),
        },
    }
}

impl<'a> Lowerer<'a> {
    /// Binds what the `let`s before the merge point bind. What cannot be lowered
    /// is passed over.
    pub fn bind_pre_merge_point_stmts(&mut self, stmts: &'a Vec<SourceStmt>)
        ensures
            final(self)@ == pre_merge(old(self)@, stmts, 0),
    {
        let mut i: usize = 0;
        while i < stmts.len()
            invariant_except_break
                pre_merge(old(self)@, stmts, 0) == pre_merge(self@, stmts, i as int),
            invariant
                i <= stmts.len(),
            ensures
                self@ == pre_merge(old(self)@, stmts, 0),
            decreases stmts.len() - i,
        {
            if is_jit_merge_point_macro(&stmts[i]) {
                break;
            }
            if let SourceStmt::Local(l) = &stmts[i] {
                let _ = self.lower_local(l);
            }
            i = i + 1;
        }
    }

    /// Pins each declared green to its current value.
    pub fn emit_promote_greens(&mut self, config: &'a LowererConfig)
        ensures
            final(self)@ == promote_greens(old(self)@, config.greens@, 0),
    {
        let mut i: usize = 0;
        while i < config.greens.len()
            invariant
                i <= config.greens@.len(),
                promote_greens(old(self)@, config.greens@, 0) == promote_greens(
                    self@,
                    config.greens@,
                    i as int,
                ),
            decreases config.greens.len() - i,
        {
            match expr_bare_ident(&config.greens[i]) {
                None => {
                    self.reject(Reject::GreenNotIdent);
                    return ;
                },
                Some(name) => match self.bindings.get(name.as_str()) {
                    None => {
                        self.reject(Reject::GreenUnbound);
                        return ;
                    },
                    Some(b) => {
                        self.emit_guard_value(b);
                    },
                },
            }
            i = i + 1;
        }
    }

    fn emit_merge_point(&mut self, config: &'a LowererConfig)
        ensures
            final(self)@ == merge_point(old(self)@, *config),
    {
        proof {
            reveal(merge_point);
        }
        self.emit_live();
        let greens = match self.resolve_greens(config) {
            Err(why) => {
                self.reject(why);
                return ;
            },
            Ok(greens) => greens,
        };
        let reds = match self.resolve_reds(config) {
            Err(why) => {
                self.reject(why);
                return ;
            },
            Ok(reds) => reds,
        };
        self.emit_linear(
            OpKind::JitMergePoint,
            no_slots(),
            no_slots(),
            Instr::JitMergePoint { greens, reds },
        );
        self.emit_live();
    }
}

// ── Between the merge point and the dispatch ─────────────────────────

/// A call statement whose callee has a policy.
#[verifier::opaque]
pub open spec fn policy_call<'a>(s: LowerState<'a>, stmt: &'a SourceStmt) -> (LowerState<'a>, bool) {
    match *stmt {
        SourceStmt::Expr(e, _) => match e.kind {
            ExprKind::Call(c) => if resolved_policy(s.ctx, *c.func) is Some {
                config_call_stmt(s, &e)
            } else {
                (s, false)
            },
            _ => (s, false),
        },
        _ => (s, false),
    }
}

/// A call with a policy, or a statement that changes the interpreter's state, or
/// nothing.
#[verifier::opaque]
pub open spec fn call_or_change<'a>(s: LowerState<'a>, stmt: &'a SourceStmt) -> LowerState<'a> {
    let (s1, r1) = policy_call(s, stmt);
    if r1 || !stmt_modifies(s1.ctx.config, *stmt) {
        s1
    } else {
        lower_stmt(s1, stmt).0
    }
}

/// One statement between the merge point and the dispatch, and whether to go on.
/// An inner loop that is not understood taints the whole dispatch.
#[verifier::opaque]
pub open spec fn pre_dispatch_step<'a>(s: LowerState<'a>, stmt: &'a SourceStmt) -> (
    LowerState<'a>,
    bool,
) {
    let (s1, r1) = opcode_fetch(s, stmt);
    if r1 {
        (s1, true)
    } else {
        match inner_loop_of(*stmt) {
            Some(w) => if !compares_names(*w.cond) {
                (LowerState { tainted: Some(Taint::InnerLoopShape), ..s1 }, false)
            } else {
                match inner_while(s1, &w) {
                    (s2, true) => (s2, true),
                    (s2, false) => (
                        LowerState { tainted: Some(Taint::InnerLoopBody), ..s2 },
                        false,
                    ),
                }
            },
            None => (call_or_change(s1, stmt), true),
        }
    }
}

/// The statements from the `i`th on that stand between the merge point and the
/// dispatch. `seen` says whether the merge point came before them.
pub open spec fn pre_dispatch<'a>(
    s: LowerState<'a>,
    stmts: &'a Vec<SourceStmt>,
    i: int,
    id: NodeId,
    seen: bool,
) -> LowerState<'a>
    decreases stmts.len() - i,
{
    if 0 <= i < stmts.len() && !stmt_holds(stmts[i], id) {
        if is_merge_point(stmts[i]) {
            pre_dispatch(s, stmts, i + 1, id, true)
        } else if !seen {
            pre_dispatch(s, stmts, i + 1, id, seen)
        } else {
            match pre_dispatch_step(s, &stmts[i]) {
                (s1, true) => pre_dispatch(s1, stmts, i + 1, id, seen),
                (s1, false) => s1,
            }
        }
    } else {
        s
    }
}

impl<'a> Lowerer<'a> {
    /// Lowers a call statement whose callee has a policy.
    pub fn try_lower_pre_dispatch_policy_call_stmt(&mut self, stmt: &'a SourceStmt) -> (r: bool)
        ensures
            final(self)@ == policy_call(old(self)@, stmt).0,
            r == policy_call(old(self)@, stmt).1,
    {
        proof {
            reveal(policy_call);
        }
        match stmt {
            SourceStmt::Expr(e, _) => match &e.kind {
                ExprKind::Call(c) => if self.resolve_call_policy(&c.func).is_some() {
                    self.lower_config_call_stmt(e).is_some()
                } else {
                    false
                },
                _ => false,
            },
            _ => false,
        }
    }

    fn lower_call_or_change(&mut self, stmt: &'a SourceStmt)
        ensures
            final(self)@ == call_or_change(old(self)@, stmt),
    {
        proof {
            reveal(call_or_change);
        }
        if self.try_lower_pre_dispatch_policy_call_stmt(stmt) {
            return ;
        }
        if stmt_modifies_jit_state(self.ctx.config, stmt) {
            let _ = self.lower_stmt(stmt);
        }
    }

    fn lower_pre_dispatch_step(&mut self, stmt: &'a SourceStmt) -> (r: bool)
        ensures
            final(self)@ == pre_dispatch_step(old(self)@, stmt).0,
            r == pre_dispatch_step(old(self)@, stmt).1,
    {
        proof {
            reveal(pre_dispatch_step);
        }
        if self.try_lower_opcode_fetch_stmt(stmt) {
            return true;
        }
        match stmt_as_inner_while(stmt) {
            Some(w) => {
                if !is_recognized_extended_arg_while(w) {
                    self.dispatch_tainted_reason = Some(Taint::InnerLoopShape);
                    return false;
                }
                if self.lower_extended_arg_inner_while(w).is_none() {
                    self.dispatch_tainted_reason = Some(Taint::InnerLoopBody);
                    return false;
                }
                true
            },
            None => {
                self.lower_call_or_change(stmt);
                true
            },
        }
    }

    /// Lowers what stands between the merge point and the dispatch.
    pub fn lower_pre_dispatch_stmts(&mut self, stmts: &'a Vec<SourceStmt>, dispatch: NodeId)
        ensures
            final(self)@ == pre_dispatch(old(self)@, stmts, 0, dispatch, false),
    {
        let mut seen = false;
        let mut i: usize = 0;
        while i < stmts.len()
            invariant
                i <= stmts.len(),
                pre_dispatch(old(self)@, stmts, 0, dispatch, false) == pre_dispatch(
                    self@,
                    stmts,
                    i as int,
                    dispatch,
                    seen,
                ),
            decreases stmts.len() - i,
        {
            if stmt_contains(&stmts[i], dispatch) {
                return ;
            }
            if is_jit_merge_point_macro(&stmts[i]) {
                seen = true;
            } else if seen {
                if !self.lower_pre_dispatch_step(&stmts[i]) {
                    return ;
                }
            }
            i = i + 1;
        }
    }
}

// ── The chain ────────────────────────────────────────────────────────

/// The register of the opcode: that of the variable it was fetched into, or of
/// `opcode`.
pub open spec fn opcode_register<'a>(s: LowerState<'a>) -> Option<u16> {
    match s.opcode_var {
        Some(name) => int_binding(s.bindings, name@),
        None => int_binding(s.bindings, "opcode"@),
    }
}

/// The opcode is compared with the values from the `i`th on. Where none is equal,
/// control goes to `skip`. With several values, the first equal one goes to
/// `matched`.
pub open spec fn test_values<'a>(
    s: LowerState<'a>,
    values: Seq<PatValue<'a>>,
    i: int,
    opcode: u16,
    skip: Label,
    matched: Option<Label>,
) -> LowerState<'a>
    decreases values.len() - i,
{
    if 0 <= i < values.len() {
        test_values(
            test_value(s, values[i], i + 1 == values.len(), opcode, skip, matched),
            values,
            i + 1,
            opcode,
            skip,
            matched,
        )
    } else {
        s
    }
}

/// The comparison with one value.
#[verifier::opaque]
pub open spec fn test_value<'a>(
    s: LowerState<'a>,
    v: PatValue<'a>,
    last: bool,
    opcode: u16,
    skip: Label,
    matched: Option<Label>,
) -> LowerState<'a> {
    let c = s.next_reg;
    let s1 = s.reg_taken().emit_op(
        OpKind::LoadConstI,
        seq![],
        seq![int_slot(c)],
        Op::LoadPatValue(c, v),
    );
    let miss = if last {
        skip
    } else {
        s1.fresh_label()
    };
    let s2 = if last {
        s1
    } else {
        s1.label_taken().aux(Op::NewLabel(miss))
    };
    let s3 = s2.branch(
        seq![int_slot(opcode), int_slot(c)],
        miss,
        Op::GotoIfNotIntEq(opcode, c, miss),
    );
    match matched {
        Some(m) => if last {
            s3.jump(m)
        } else {
            s3.jump(m).label_def(miss)
        },
        None => s3,
    }
}

/// The tests of an arm.
#[verifier::opaque]
pub open spec fn arm_tests<'a>(
    s: LowerState<'a>,
    values: Seq<PatValue<'a>>,
    opcode: u16,
    skip: Label,
) -> LowerState<'a> {
    if values.len() > 1 {
        let matched = s.fresh_label();
        test_values(
            s.label_taken().aux(Op::NewLabel(matched)),
            values,
            0,
            opcode,
            skip,
            Some(matched),
        ).label_def(matched)
    } else {
        test_values(s, values, 0, opcode, skip, None)
    }
}

/// The registers that the call of an arm reads.
pub open spec fn layout_slots(layout: Seq<LayoutView>) -> Seq<Slot> {
    Seq::new(layout.len(), |i: int| Slot { kind: layout[i].kind, reg: layout[i].parent_reg })
}

/// The call of an arm's body with the given locals.
#[verifier::opaque]
pub open spec fn call_arm<'a>(s: LowerState<'a>, body: ArmBody, layout: Seq<LayoutView>) -> LowerState<
    'a,
> {
    s.emit(
        OpKind::InlineCall,
        layout_slots(layout),
        seq![],
        Instr::ArmCall { body, family: layout_family(layout), args: layout_args(layout) },
    )
}

/// A lowered arm body is kept; its liveness is registered with the dispatch
/// body's.
#[verifier::opaque]
pub open spec fn keep_arm<'a>(s: LowerState<'a>, t: LowerState<'a>) -> LowerState<'a> {
    LowerState {
        prebuild: s.prebuild + settled_prebuild(t),
        arm_bodies: s.arm_bodies.push((settled_stmts(t), settled_metas(t))),
        ..s
    }
}

/// The arm's call: a lowered body with the locals it uses, or a body that does
/// nothing or gives up.
#[verifier::opaque]
pub open spec fn run_arm<'a>(
    s: LowerState<'a>,
    arm: &'a ClassifiedArm,
    config: &'a LowererConfig,
) -> LowerState<'a> {
    match arm.pattern {
        ArmPattern::Lowerable => {
            let locals = caller_locals(s.bindings, arm.pat, arm.original_body);
            let (t, lowered) = lowered_arm(&arm.original_body, Some(config), locals);
            match t.rejected {
                Some(why) => s.reject(why),
                None => if lowered {
                    call_arm(
                        keep_arm(s, t),
                        ArmBody::Lowered(s.arm_bodies.len() as usize),
                        packed_layout(locals),
                    )
                } else {
                    call_arm(s, ArmBody::Abort, seq![])
                },
            }
        },
        ArmPattern::Nop => call_arm(s, ArmBody::Empty, seq![]),
        ArmPattern::AbortPermanent | ArmPattern::Halt => call_arm(
            s,
            ArmBody::AbortPermanent,
            seq![],
        ),
        ArmPattern::Unsupported => call_arm(s, ArmBody::Abort, seq![]),
    }
}

/// Whether the arm takes every opcode.
pub open spec fn takes_all(pat: Pat) -> bool {
    pat is Wild || is_catch_all_name(pat)
}

/// One arm: its tests, its call, and a jump back to the merge point. An arm that
/// takes every opcode, or whose pattern is not understood, leaves nothing.
#[verifier::opaque]
pub open spec fn dispatch_arm<'a>(
    s: LowerState<'a>,
    arm: &'a ClassifiedArm,
    config: &'a LowererConfig,
    start: Label,
    opcode: u16,
) -> LowerState<'a> {
    if takes_all(arm.pat) {
        s
    } else {
        match pat_values(&arm.pat) {
            None => s,
            Some(values) => {
                let skip = s.fresh_label();
                let s1 = arm_tests(
                    s.label_taken().aux(Op::NewLabel(skip)),
                    values,
                    opcode,
                    skip,
                );
                run_arm(s1, arm, config).live().jump(start).label_def(skip)
            },
        }
    }
}

/// The arms from the `i`th on.
pub open spec fn dispatch_arms<'a>(
    s: LowerState<'a>,
    arms: &'a Vec<ClassifiedArm>,
    i: int,
    config: &'a LowererConfig,
    start: Label,
    opcode: u16,
) -> LowerState<'a>
    decreases arms.len() - i,
{
    if 0 <= i < arms.len() {
        dispatch_arms(
            dispatch_arm(s, &arms[i], config, start, opcode),
            arms,
            i + 1,
            config,
            start,
            opcode,
        )
    } else {
        s
    }
}

/// The chain of arms, which ends at the default label. Without an opcode there is
/// none.
#[verifier::opaque]
pub open spec fn dispatch_chain<'a>(
    s: LowerState<'a>,
    arms: &'a Vec<ClassifiedArm>,
    config: &'a LowererConfig,
    start: Label,
) -> LowerState<'a> {
    let default_label = s.fresh_label();
    let s1 = s.label_taken().aux(Op::NewLabel(default_label));
    match opcode_register(s1) {
        Some(opcode) => dispatch_arms(s1, arms, 0, config, start, opcode).jump(default_label),
        None => s1,
    }
}

impl<'a> Lowerer<'a> {
    fn emit_test_value(
        &mut self,
        v: PatValue<'a>,
        last: bool,
        opcode: u16,
        skip: Label,
        matched: Option<Label>,
    )
        ensures
            final(self)@ == test_value(old(self)@, v, last, opcode, skip, matched),
    {
        proof {
            reveal(test_value);
        }
        let c = self.alloc_reg();
        self.emit_simple(
            OpKind::LoadConstI,
            no_slots(),
            one_slot(int_reg(c)),
            Op::LoadPatValue(c, v),
        );
        let miss = if last {
            skip
        } else {
            let label = self.alloc_label();
            self.emit_aux(Op::NewLabel(label));
            label
        };
        self.emit_branch(
            two_slots(int_reg(opcode), int_reg(c)),
            miss,
            Op::GotoIfNotIntEq(opcode, c, miss),
        );
        if let Some(m) = matched {
            self.emit_jump(m);
            if !last {
                self.emit_label_def(miss);
            }
        }
    }

    fn emit_test_values(
        &mut self,
        values: &Vec<PatValue<'a>>,
        opcode: u16,
        skip: Label,
        matched: Option<Label>,
    )
        ensures
            final(self)@ == test_values(old(self)@, values@, 0, opcode, skip, matched),
    {
        let mut i: usize = 0;
        while i < values.len()
            invariant
                i <= values@.len(),
                test_values(old(self)@, values@, 0, opcode, skip, matched) == test_values(
                    self@,
                    values@,
                    i as int,
                    opcode,
                    skip,
                    matched,
                ),
            decreases values.len() - i,
        {
            self.emit_test_value(values[i], i + 1 == values.len(), opcode, skip, matched);
            i = i + 1;
        }
    }

    fn emit_arm_tests(&mut self, values: &Vec<PatValue<'a>>, opcode: u16, skip: Label)
        ensures
            final(self)@ == arm_tests(old(self)@, values@, opcode, skip),
    {
        proof {
            reveal(arm_tests);
        }
        if values.len() > 1 {
            let matched = self.alloc_label();
            self.emit_aux(Op::NewLabel(matched));
            self.emit_test_values(values, opcode, skip, Some(matched));
            self.emit_label_def(matched);
        } else {
            self.emit_test_values(values, opcode, skip, None);
        }
    }

    fn emit_call_arm(&mut self, body: ArmBody, layout: &Vec<CallerLocalLayout>)
        ensures
            final(self)@ == call_arm(old(self)@, body, layout_views(layout@)),
    {
        proof {
            reveal(call_arm);
        }
        let ghost views = layout_views(layout@);
        let mut reads: Vec<Slot> = Vec::new();
        let mut i: usize = 0;
        while i < layout.len()
            invariant
                views == layout_views(layout@),
                i <= views.len(),
                reads@ == layout_slots(views).take(i as int),
            decreases layout.len() - i,
        {
            reads.push(slot(layout[i].kind, layout[i].parent_reg));
            assert(views[i as int] == layout@[i as int]@);
            assert(layout_slots(views).take(i + 1) =~= layout_slots(views).take(i as int).push(
                layout_slots(views)[i as int],
            ));
            i = i + 1;
        }
        assert(reads@ =~= layout_slots(views));
        let (family, args) = dispatch_arm_inline_call(layout);
        self.emit_linear(
            OpKind::InlineCall,
            reads,
            no_slots(),
            Instr::ArmCall { body, family, args },
        );
    }

    fn emit_plain_arm(&mut self, body: ArmBody)
        ensures
            final(self)@ == call_arm(old(self)@, body, seq![]),
    {
        let none: Vec<CallerLocalLayout> = Vec::new();
        assert(layout_views(none@) =~= seq![]);
        self.emit_call_arm(body, &none);
    }

    fn keep_arm_body(&mut self, body: GeneratedJitCodeBody<'a>, Ghost(t): Ghost<LowerState<'a>>)
        requires
            stmt_views(body.statements@) == settled_stmts(t),
            meta_views(body.op_metadata@) == settled_metas(t),
            prebuild_views(body.liveness_prebuild@) == settled_prebuild(t),
        ensures
            final(self)@ == keep_arm(old(self)@, t),
    {
        proof {
            reveal(keep_arm);
        }
        let ghost before = *self;
        let mut prebuild = body.liveness_prebuild;
        let ghost added = prebuild@;
        self.inline_liveness_prebuild.append(&mut prebuild);
        self.arm_bodies.push(
            LoweredSequence { statements: body.statements, op_metadata: body.op_metadata },
        );
        assert(prebuild_views(self.inline_liveness_prebuild@) =~= prebuild_views(
            before.inline_liveness_prebuild@,
        ) + prebuild_views(added));
        assert(body_views(self.arm_bodies@) =~= body_views(before.arm_bodies@).push(
            (stmt_views(body.statements@), meta_views(body.op_metadata@)),
        ));
    }

    fn emit_arm(&mut self, arm: &'a ClassifiedArm, config: &'a LowererConfig)
        ensures
            final(self)@ == run_arm(old(self)@, arm, config),
    {
        proof {
            reveal(run_arm);
        }
        match arm.pattern {
            ArmPattern::Lowerable => {
                let locals = collect_arm_caller_locals(
                    &arm.original_body,
                    &arm.pat,
                    &self.bindings,
                );
                let ghost names = caller_locals(self@.bindings, arm.pat, arm.original_body);
                let ghost t = lowered_arm(&arm.original_body, Some(config), names).0;
                match try_generate_jitcode_body_parts_with_caller_bindings(
                    &arm.original_body,
                    Some(config),
                    &locals,
                ) {
                    Err(why) => {
                        self.reject(why);
                    },
                    Ok(None) => {
                        self.emit_plain_arm(ArmBody::Abort);
                    },
                    Ok(Some((body, layout))) => {
                        let index: usize = self.arm_bodies.len();
                        self.keep_arm_body(body, Ghost(t));
                        self.emit_call_arm(ArmBody::Lowered(index), &layout);
                    },
                }
            },
            ArmPattern::Nop => {
                self.emit_plain_arm(ArmBody::Empty);
            },
            ArmPattern::AbortPermanent | ArmPattern::Halt => {
                self.emit_plain_arm(ArmBody::AbortPermanent);
            },
            ArmPattern::Unsupported => {
                self.emit_plain_arm(ArmBody::Abort);
            },
        }
    }

    fn emit_dispatch_arm(
        &mut self,
        arm: &'a ClassifiedArm,
        config: &'a LowererConfig,
        start: Label,
        opcode: u16,
    )
        ensures
            final(self)@ == dispatch_arm(old(self)@, arm, config, start, opcode),
    {
        proof {
            reveal(dispatch_arm);
        }
        let wild = match &arm.pat {
            Pat::Wild => true,
            _ => false,
        };
        if wild || is_lowercase_binding_pat(&arm.pat) {
            return ;
        }
        if let Some(values) = extract_pat_values(&arm.pat) {
            let skip = self.alloc_label();
            self.emit_aux(Op::NewLabel(skip));
            self.emit_arm_tests(&values, opcode, skip);
            self.emit_arm(arm, config);
            self.emit_live();
            self.emit_jump(start);
            self.emit_label_def(skip);
        }
    }

    /// The chain of arms. Returns the label of what comes where no arm matches.
    pub fn lower_dispatch_chain(
        &mut self,
        classified_arms: &'a Vec<ClassifiedArm>,
        config: &'a LowererConfig,
        loop_start_label: Label,
    ) -> (r: Label)
        ensures
            r == old(self)@.fresh_label(),
            final(self)@ == dispatch_chain(old(self)@, classified_arms, config, loop_start_label),
    {
        proof {
            reveal(dispatch_chain);
        }
        let default_label = self.alloc_label();
        self.emit_aux(Op::NewLabel(default_label));
        let found = match self.opcode_var_name {
            Some(name) => self.int_binding(name.as_str()),
            None => self.int_binding("opcode"),
        };
        let opcode: u16 = match found {
            Some(opcode) => opcode,
            None => {
                return default_label;
            },
        };
        let ghost s1 = self@;
        let mut i: usize = 0;
        while i < classified_arms.len()
            invariant
                i <= classified_arms.len(),
                dispatch_arms(s1, classified_arms, 0, config, loop_start_label, opcode)
                    == dispatch_arms(
                    self@,
                    classified_arms,
                    i as int,
                    config,
                    loop_start_label,
                    opcode,
                ),
            decreases classified_arms.len() - i,
        {
            self.emit_dispatch_arm(&classified_arms[i], config, loop_start_label, opcode);
            i = i + 1;
        }
        self.emit_jump(default_label);
        default_label
    }
}

// ── The whole body ───────────────────────────────────────────────────

/// Where the lowering of a dispatch starts: at the label of the loop, with the
/// program and the program counter bound.
#[verifier::opaque]
pub open spec fn entry_state<'a>(config: &'a LowererConfig) -> LowerState<'a> {
    let s0 = config_state(Some(config));
    let start = s0.fresh_label();
    let s1 = s0.label_taken().aux(Op::NewLabel(start)).label_def(start).bind(
        "program"@,
        Binding::fixed(BindingKind::Ref, 0),
    ).bind("pc"@, Binding::fixed(BindingKind::Int, 0));
    LowerState { next_reg: max_u16(s1.next_reg, 1), ..s1 }
}

/// The label of the loop.
pub open spec fn loop_label<'a>(config: &'a LowererConfig) -> Label {
    config_state(Some(config)).fresh_label()
}

/// The last expression without a semicolon among the first `n` statements.
pub open spec fn tail_expr(stmts: Seq<SourceStmt>, n: int) -> Option<Expr>
    decreases n,
{
    if 0 < n <= stmts.len() {
        match stmts[n - 1] {
            SourceStmt::Expr(e, false) => Some(e),
            _ => tail_expr(stmts, n - 1),
        }
    } else {
        None
    }
}

/// The return at the end of the dispatch: of the block's value, or of nothing
/// where that cannot be lowered.
#[verifier::opaque]
pub open spec fn final_return<'a>(s: LowerState<'a>, block: &'a Block) -> LowerState<'a> {
    match tail_expr(block.stmts@, block.stmts@.len() as int) {
        Some(e) => match value(s, &e) {
            (s1, Some(b)) => s1.terminal(
                seq![Slot { kind: b.kind, reg: b.reg }],
                Op::Return(b.kind, b.reg),
            ),
            (s1, None) => s1.terminal(seq![], Op::VoidReturn),
        },
        None => s.terminal(seq![], Op::VoidReturn),
    }
}

/// What comes before the merge point.
#[verifier::opaque]
pub open spec fn before_merge<'a>(
    config: &'a LowererConfig,
    block: &'a Block,
    dispatch: Option<NodeId>,
) -> LowerState<'a> {
    let s = entry_state(config);
    match loop_stmts_of(block, dispatch) {
        Some(stmts) => pre_merge(s, stmts, 0),
        None => s,
    }
}

/// The merge point and what comes up to the dispatch.
#[verifier::opaque]
pub open spec fn up_to_dispatch<'a>(
    s: LowerState<'a>,
    config: &'a LowererConfig,
    block: &'a Block,
    dispatch: Option<NodeId>,
) -> LowerState<'a> {
    let s1 = merge_point(promote_greens(s, config.greens@, 0), *config).aux(Op::EnsureEntryRegs);
    match (loop_stmts_of(block, dispatch), dispatch) {
        (Some(stmts), Some(id)) => pre_dispatch(s1, stmts, 0, id, false),
        _ => s1,
    }
}

/// The dispatch and the return.
#[verifier::opaque]
pub open spec fn from_dispatch<'a>(
    s: LowerState<'a>,
    config: &'a LowererConfig,
    block: &'a Block,
    arms: &'a Vec<ClassifiedArm>,
) -> LowerState<'a> {
    final_return(
        dispatch_chain(s, arms, config, loop_label(config)).label_def(s.fresh_label()),
        block,
    )
}

/// The types of the merge point's variables are checked.
#[verifier::opaque]
pub open spec fn with_schemas<'a>(s: LowerState<'a>, config: LowererConfig) -> LowerState<'a> {
    match green_types(s.bindings, config) {
        Err(why) => s.reject(why),
        Ok(_) => match red_types(s.bindings, config) {
            Err(why) => s.reject(why),
            Ok(_) => s,
        },
    }
}

/// The state after a dispatch was lowered, and whether it is free of taint.
pub open spec fn lowered_dispatch<'a>(
    config: &'a LowererConfig,
    block: &'a Block,
    dispatch: Option<NodeId>,
    arms: &'a Vec<ClassifiedArm>,
) -> (LowerState<'a>, bool) {
    let s1 = before_merge(config, block, dispatch);
    if s1.tainted is Some {
        (s1, false)
    } else {
        let s2 = up_to_dispatch(s1, config, block, dispatch);
        if s2.tainted is Some {
            (s2, false)
        } else {
            (with_schemas(from_dispatch(s2, config, block, arms), *config), true)
        }
    }
}

fn tail_expr_of(stmts: &Vec<SourceStmt>) -> (r: Option<&Expr>)
    ensures
        match r {
            Some(e) => tail_expr(stmts@, stmts@.len() as int) == Some(*e),
            None => tail_expr(stmts@, stmts@.len() as int) is None,
        },
{
    let mut n: usize = stmts.len();
    while n > 0
        invariant
            n <= stmts@.len(),
            tail_expr(stmts@, stmts@.len() as int) == tail_expr(stmts@, n as int),
        decreases n,
    {
        if let SourceStmt::Expr(e, semi) = &stmts[n - 1] {
            if !*semi {
                return Some(e);
            }
        }
        n = n - 1;
    }
    None
}

impl<'a> Lowerer<'a> {
    fn new_dispatch(config: &'a LowererConfig) -> (r: Lowerer<'a>)
        ensures
            r@ == entry_state(config),
    {
        proof {
            reveal(entry_state);
        }
        let mut this = Lowerer::new(Some(config));
        let start = this.alloc_label();
        this.emit_aux(Op::NewLabel(start));
        this.emit_label_def(start);
        this.bind("program".to_owned(), Binding::new_fixed(BindingKind::Ref, 0));
        this.bind("pc".to_owned(), Binding::new_fixed(BindingKind::Int, 0));
        this.next_reg = larger(this.next_reg, 1);
        this
    }

    fn lower_up_to_dispatch(
        &mut self,
        config: &'a LowererConfig,
        block: &'a Block,
        dispatch: Option<NodeId>,
    )
        ensures
            final(self)@ == up_to_dispatch(old(self)@, config, block, dispatch),
    {
        proof {
            reveal(up_to_dispatch);
        }
        self.emit_promote_greens(config);
        self.emit_merge_point(config);
        self.emit_aux(Op::EnsureEntryRegs);
        if let Some(stmts) = dispatch_loop_stmts(block, dispatch) {
            if let Some(id) = dispatch {
                self.lower_pre_dispatch_stmts(stmts, id);
            }
        }
    }

    fn lower_final_return(&mut self, block: &'a Block)
        ensures
            final(self)@ == final_return(old(self)@, block),
    {
        proof {
            reveal(final_return);
        }
        match tail_expr_of(&block.stmts) {
            Some(e) => match self.lower_value_expr(e) {
                Some(b) => {
                    self.emit_terminal(one_slot(slot(b.kind, b.reg)), Op::Return(b.kind, b.reg));
                },
                None => {
                    self.emit_terminal(no_slots(), Op::VoidReturn);
                },
            },
            None => {
                self.emit_terminal(no_slots(), Op::VoidReturn);
            },
        }
    }
}

/// What is generated for a dispatch that ended in `s`. A rejection wins over
/// everything, and a taint over a body.
pub open spec fn is_dispatch_body<'a>(
    r: Result<Option<GeneratedJitCodeBody<'a>>, Reject>,
    s: LowerState<'a>,
    clean: bool,
    config: LowererConfig,
) -> bool {
    match r {
        Err(why) => s.rejected == Some(why),
        Ok(None) => s.rejected is None && !clean,
        Ok(Some(b)) => {
            &&& s.rejected is None
            &&& clean
            &&& stmt_views(b.statements@) == settled_stmts(s)
            &&& meta_views(b.op_metadata@) == settled_metas(s)
            &&& prebuild_views(b.liveness_prebuild@) == settled_prebuild(s)
            &&& body_views(b.arm_bodies@) == s.arm_bodies
            &&& green_types(s.bindings, config) == Ok::<Seq<crate::schema::TypedVar>, Reject>(
                schema_view(b.green_schema@),
            )
            &&& red_types(s.bindings, config) == Ok::<Seq<crate::schema::TypedVar>, Reject>(
                schema_view(b.red_schema@),
            )
        },
    }
}

/// The body of a dispatch loop. `dispatch_match` is the match on the opcode,
/// where there is one, and `classified_arms` are its arms.
pub fn lower_dispatch_body<'a>(
    config: &'a LowererConfig,
    func_block: &'a Block,
    dispatch_match: Option<NodeId>,
    classified_arms: &'a Vec<ClassifiedArm>,
) -> (r: Result<Option<GeneratedJitCodeBody<'a>>, Reject>)
    ensures
        ({
            let (s, clean) = lowered_dispatch(config, func_block, dispatch_match, classified_arms);
            is_dispatch_body(r, s, clean, *config)
        }),
{
    let mut lowerer = Lowerer::new_dispatch(config);
    proof {
        reveal(before_merge);
    }
    if let Some(stmts) = dispatch_loop_stmts(func_block, dispatch_match) {
        lowerer.bind_pre_merge_point_stmts(stmts);
    }
    if lowerer.dispatch_tainted_reason.is_some() {
        return match lowerer.rejected {
            Some(why) => Err(why),
            None => Ok(None),
        };
    }
    let ghost s1 = lowerer@;
    lowerer.lower_up_to_dispatch(config, func_block, dispatch_match);
    if lowerer.dispatch_tainted_reason.is_some() {
        return match lowerer.rejected {
            Some(why) => Err(why),
            None => Ok(None),
        };
    }
    let ghost s2 = lowerer@;
    proof {
        reveal(from_dispatch);
        reveal(with_schemas);
        reveal(LowerState::reject);
    }
    let start = loop_start(config);
    let default_label = lowerer.lower_dispatch_chain(classified_arms, config, start);
    lowerer.emit_label_def(default_label);
    lowerer.lower_final_return(func_block);
    let ghost s3 = lowerer@;
    assert(s3 == from_dispatch(s2, config, func_block, classified_arms));
    if let Some(why) = lowerer.rejected {
        return Err(why);
    }
    let green_schema = match lowerer.green_schema(config) {
        Err(why) => {
            return Err(why);
        },
        Ok(v) => v,
    };
    let red_schema = match lowerer.red_schema(config) {
        Err(why) => {
            return Err(why);
        },
        Ok(v) => v,
    };
    proof {
        lemma_dispatch_sound(config, func_block, dispatch_match, classified_arms);
    }
    let mut lowerer = lowerer;
    let mut arm_bodies: Vec<LoweredSequence<'a>> = Vec::new();
    arm_bodies.append(&mut lowerer.arm_bodies);
    assert(body_views(arm_bodies@) =~= s3.arm_bodies);
    let (statements, op_metadata, liveness_prebuild) = settle(lowerer);
    Ok(
        Some(
            GeneratedJitCodeBody {
                statements,
                op_metadata,
                liveness_prebuild,
                green_schema,
                red_schema,
                arm_bodies,
            },
        ),
    )
}

/// The label of the loop.
fn loop_start(config: &LowererConfig) -> (r: Label)
    ensures
        r == loop_label(config),
{
    let mut fresh = Lowerer::new(Some(config));
    fresh.alloc_label()
}

// ── Growth ───────────────────────────────────────────────────────────

proof fn grows_pre_merge<'a>(s: LowerState<'a>, stmts: &'a Vec<SourceStmt>, i: int)
    ensures
        grows(s, pre_merge(s, stmts, i)),
    decreases stmts.len() - i,
{
    broadcast use {grows_self, grows_further};

    if 0 <= i < stmts.len() && !is_merge_point(stmts[i]) {
        if let SourceStmt::Local(l) = stmts[i] {
            grows_lower_local(s, &l);
            grows_pre_merge(lower_local(s, &l).0, stmts, i + 1);
        } else {
            grows_pre_merge(s, stmts, i + 1);
        }
    }
}

proof fn grows_promote_greens<'a>(s: LowerState<'a>, greens: Seq<Expr>, i: int)
    ensures
        grows(s, promote_greens(s, greens, i)),
    decreases greens.len() - i,
{
    broadcast use {grows_self, grows_further, grows_reject, grows_guard_value};

    if 0 <= i < greens.len() {
        if let Some(name) = bare_ident(greens[i]) {
            if let Some(b) = lookup(s.bindings, name@) {
                grows_promote_greens(guard_value(s, b), greens, i + 1);
            }
        }
    }
}

broadcast proof fn grows_merge_point<'a>(s: LowerState<'a>, config: LowererConfig)
    ensures
        grows(s, #[trigger] merge_point(s, config)),
{
    broadcast use group_steps;

    reveal(merge_point);
}

proof fn grows_call_or_change<'a>(s: LowerState<'a>, stmt: &'a SourceStmt)
    ensures
        grows(s, call_or_change(s, stmt)),
{
    broadcast use {grows_self, grows_further};

    reveal(call_or_change);
    reveal(policy_call);
    if let SourceStmt::Expr(e, _) = *stmt {
        grows_config_call_stmt(s, &e);
    }
    grows_lower_stmt(policy_call(s, stmt).0, stmt);
}

proof fn grows_pre_dispatch_step<'a>(s: LowerState<'a>, stmt: &'a SourceStmt)
    ensures
        grows(s, pre_dispatch_step(s, stmt).0),
{
    broadcast use {grows_self, grows_further, grows_opcode_fetch, grows_inner_while};

    reveal(pre_dispatch_step);
    let s1 = opcode_fetch(s, stmt).0;
    grows_call_or_change(s1, stmt);
    if let Some(w) = inner_loop_of(*stmt) {
        let s2 = inner_while(s1, &w).0;
        assert(grows(s, s2));
        reveal(grows);
    }
}

proof fn grows_pre_dispatch<'a>(
    s: LowerState<'a>,
    stmts: &'a Vec<SourceStmt>,
    i: int,
    id: NodeId,
    seen: bool,
)
    ensures
        grows(s, pre_dispatch(s, stmts, i, id, seen)),
    decreases stmts.len() - i,
{
    broadcast use {grows_self, grows_further};

    if 0 <= i < stmts.len() && !stmt_holds(stmts[i], id) {
        if is_merge_point(stmts[i]) {
            grows_pre_dispatch(s, stmts, i + 1, id, true);
        } else if !seen {
            grows_pre_dispatch(s, stmts, i + 1, id, seen);
        } else {
            grows_pre_dispatch_step(s, &stmts[i]);
            grows_pre_dispatch(pre_dispatch_step(s, &stmts[i]).0, stmts, i + 1, id, seen);
        }
    }
}

pub broadcast proof fn grows_test_value<'a>(
    s: LowerState<'a>,
    v: PatValue<'a>,
    last: bool,
    opcode: u16,
    skip: Label,
    matched: Option<Label>,
)
    ensures
        grows(s, #[trigger] test_value(s, v, last, opcode, skip, matched)),
{
    broadcast use group_steps;

    reveal(test_value);
}

pub proof fn grows_test_values<'a>(
    s: LowerState<'a>,
    values: Seq<PatValue<'a>>,
    i: int,
    opcode: u16,
    skip: Label,
    matched: Option<Label>,
)
    ensures
        grows(s, test_values(s, values, i, opcode, skip, matched)),
    decreases values.len() - i,
{
    broadcast use {grows_self, grows_further, grows_test_value};

    if 0 <= i < values.len() {
        grows_test_values(
            test_value(s, values[i], i + 1 == values.len(), opcode, skip, matched),
            values,
            i + 1,
            opcode,
            skip,
            matched,
        );
    }
}

pub broadcast proof fn grows_arm_tests<'a>(
    s: LowerState<'a>,
    values: Seq<PatValue<'a>>,
    opcode: u16,
    skip: Label,
)
    ensures
        grows(s, #[trigger] arm_tests(s, values, opcode, skip)),
{
    broadcast use group_steps;

    reveal(arm_tests);
    let matched = s.fresh_label();
    grows_test_values(
        s.label_taken().aux(Op::NewLabel(matched)),
        values,
        0,
        opcode,
        skip,
        Some(matched),
    );
    grows_test_values(s, values, 0, opcode, skip, None);
}

pub broadcast proof fn grows_run_arm<'a>(
    s: LowerState<'a>,
    arm: &'a ClassifiedArm,
    config: &'a LowererConfig,
)
    ensures
        grows(s, #[trigger] run_arm(s, arm, config)),
{
    broadcast use {grows_self, grows_further, grows_reject, grows_emit};

    reveal(run_arm);
    reveal(call_arm);
    let locals = caller_locals(s.bindings, arm.pat, arm.original_body);
    let t = lowered_arm(&arm.original_body, Some(config), locals).0;
    assert(grows(s, keep_arm(s, t))) by {
        reveal(grows);
        reveal(keep_arm);
    }
}

pub broadcast proof fn grows_dispatch_arm<'a>(
    s: LowerState<'a>,
    arm: &'a ClassifiedArm,
    config: &'a LowererConfig,
    start: Label,
    opcode: u16,
)
    ensures
        grows(s, #[trigger] dispatch_arm(s, arm, config, start, opcode)),
{
    broadcast use {group_steps, grows_arm_tests, grows_run_arm};

    reveal(dispatch_arm);
}

pub proof fn grows_dispatch_arms<'a>(
    s: LowerState<'a>,
    arms: &'a Vec<ClassifiedArm>,
    i: int,
    config: &'a LowererConfig,
    start: Label,
    opcode: u16,
)
    ensures
        grows(s, dispatch_arms(s, arms, i, config, start, opcode)),
    decreases arms.len() - i,
{
    broadcast use {grows_self, grows_further, grows_dispatch_arm};

    if 0 <= i < arms.len() {
        grows_dispatch_arms(
            dispatch_arm(s, &arms[i], config, start, opcode),
            arms,
            i + 1,
            config,
            start,
            opcode,
        );
    }
}

/// The dispatch and the return only add.
pub proof fn grows_from_dispatch<'a>(
    s: LowerState<'a>,
    config: &'a LowererConfig,
    block: &'a Block,
    arms: &'a Vec<ClassifiedArm>,
)
    ensures
        grows(s, from_dispatch(s, config, block, arms)),
{
    broadcast use {
        grows_self,
        grows_further,
        grows_labels,
        grows_label_taken,
        grows_aux,
        grows_jump,
        grows_label_def,
        grows_terminal,
    };

    reveal(from_dispatch);
    reveal(dispatch_chain);
    reveal(final_return);
    let start = loop_label(config);
    let default_label = s.fresh_label();
    let s1 = s.label_taken().aux(Op::NewLabel(default_label));
    if let Some(opcode) = opcode_register(s1) {
        grows_dispatch_arms(s1, arms, 0, config, start, opcode);
    }
    let s2 = dispatch_chain(s, arms, config, start);
    assert(grows(s, s2) && grows(s.label_taken(), s2));
    let s3 = s2.label_def(default_label);
    if let Some(e) = tail_expr(block.stmts@, block.stmts@.len() as int) {
        grows_value(s3, &e);
    }
}

/// What comes before the dispatch only adds.
pub proof fn grows_up_to_dispatch<'a>(
    s: LowerState<'a>,
    config: &'a LowererConfig,
    block: &'a Block,
    dispatch: Option<NodeId>,
)
    ensures
        grows(s, up_to_dispatch(s, config, block, dispatch)),
{
    broadcast use {grows_self, grows_further, grows_aux, grows_merge_point};

    reveal(up_to_dispatch);
    let s0 = promote_greens(s, config.greens@, 0);
    grows_promote_greens(s, config.greens@, 0);
    let s1 = merge_point(s0, *config).aux(Op::EnsureEntryRegs);
    assert(grows(s, s1));
    if let (Some(stmts), Some(id)) = (loop_stmts_of(block, dispatch), dispatch) {
        grows_pre_dispatch(s1, stmts, 0, id, false);
    }
}

/// A lowered dispatch has a description for every statement and a target for
/// every jump.
pub proof fn lemma_dispatch_sound<'a>(
    config: &'a LowererConfig,
    block: &'a Block,
    dispatch: Option<NodeId>,
    arms: &'a Vec<ClassifiedArm>,
)
    ensures
        sound(lowered_dispatch(config, block, dispatch, arms).0),
{
    let s0 = config_state(Some(config));
    lemma_start_sound(Some(config), Some(&config.calls), InferenceFailureMode::ReturnNone);
    let start = s0.fresh_label();
    let e0 = s0.label_taken().aux(Op::NewLabel(start)).label_def(start).bind(
        "program"@,
        Binding::fixed(BindingKind::Ref, 0),
    ).bind("pc"@, Binding::fixed(BindingKind::Int, 0));
    assert(grows(s0, e0)) by {
        broadcast use group_steps;

    }
    assert(sound(entry_state(config))) by {
        reveal(entry_state);
        reveal(grows);
    }
    reveal(before_merge);
    if let Some(stmts) = loop_stmts_of(block, dispatch) {
        grows_pre_merge(entry_state(config), stmts, 0);
    }
    let s1 = before_merge(config, block, dispatch);
    grows_up_to_dispatch(s1, config, block, dispatch);
    let s2 = up_to_dispatch(s1, config, block, dispatch);
    grows_from_dispatch(s2, config, block, arms);
    let s3 = from_dispatch(s2, config, block, arms);
    assert(sound(s1) && sound(s2) && sound(s3)) by {
        reveal(grows);
    }
    assert(sound(with_schemas(s3, *config))) by {
        reveal(with_schemas);
        reveal(LowerState::reject);
    }
}

} // verus!
