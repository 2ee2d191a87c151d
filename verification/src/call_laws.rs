//! What the code of a call hands over and what it leaves.

use vstd::prelude::*;

use crate::ast::{Expr, ExprCall, ExprKind};
use crate::calls::{
    after_macro, bank_pairs, call_result, call_stmt, conditional_call_tail, conditional_value_tail,
    emit_call, inline_args, known_result_tail, macro_target, policy_target, raising_codes,
};
use crate::code_runs::{
    all_fit, held, later, lemma_emitted, lemma_live, lemma_live_if, lemma_ran_both, lemma_ran_none,
    lemma_ran_one, lemma_ran_same, lemma_taken, ran,
};
use crate::config::CallPolicySpec;
use crate::kinds::{Binding, BindingKind};
use crate::lower_spec::{
    call_args, call_value, conditional_call_list, conditional_value_list, config_call_stmt,
    known_result_list, macro_args, shim_call, value,
};
use crate::lowerer::{
    CallMacro, int_slot, LowerState, registers, resolved_policy, Slot, slot_of, slots_of,
};
use crate::machine::{Callee, effect, Event, Machine, World};
use crate::ops::{Banked, CallTarget, Instr, LiveMarkerCondition, Op, OpKind, RegisteredTarget};
use crate::policy::{CallFamily, CallResultKind, policy_shape, RaisingCodes, result_bank};

verus! {

// ── Arguments ────────────────────────────────────────────────────────

/// Bank and value of each argument.
pub open spec fn passed<'a>(m: Machine<'a>, args: Seq<Binding>) -> Seq<(BindingKind, i64)> {
    Seq::new(args.len(), |j: int| (args[j].kind, held(m, args[j])))
}

/// The state before the `j`th expression of a list, where those from the `from`th on
/// are lowered one after the other.
pub open spec fn before_arg<'a>(
    s: LowerState<'a>,
    list: &'a Vec<Expr>,
    from: int,
    j: int,
) -> LowerState<'a>
    decreases j - from,
{
    if from < j <= list.len() {
        value(before_arg(s, list, from, j - 1), &list[j - 1]).0
    } else {
        s
    }
}

/// Whether the bindings are those of the expressions of a list from the `from`th on,
/// each lowered behind the ones before it: there are as many, and in the same order.
pub open spec fn are_values<'a>(
    s: LowerState<'a>,
    list: &'a Vec<Expr>,
    from: int,
    args: Seq<Binding>,
) -> bool {
    &&& args.len() == list.len() - from
    &&& forall|j: int|
        from <= j < list.len() ==> (#[trigger] value(before_arg(s, list, from, j), &list[j])).1
            == Some(args[j - from])
}

proof fn lemma_call_args<'a>(
    s: LowerState<'a>,
    list: &'a Vec<Expr>,
    from: int,
    i: int,
    acc: Seq<Binding>,
)
    requires
        0 <= from <= i <= list.len(),
        call_args(before_arg(s, list, from, i), list, i, acc).1 is Some,
    ensures
        ({
            let (t, args) = call_args(before_arg(s, list, from, i), list, i, acc);
            &&& t == before_arg(s, list, from, list.len() as int)
            &&& args->0.len() == acc.len() + list.len() - i
            &&& args->0.take(acc.len() as int) == acc
            &&& forall|j: int|
                i <= j < list.len() ==> (#[trigger] value(
                    before_arg(s, list, from, j),
                    &list[j],
                )).1 == Some(args->0[acc.len() + j - i])
        }),
    decreases list.len() - i,
{
    let p = before_arg(s, list, from, i);
    let (t, args) = call_args(p, list, i, acc);
    if i < list.len() {
        let (s1, b) = value(p, &list[i]);
        assert(before_arg(s, list, from, i + 1) == s1);
        let next = acc.push(b->0);
        lemma_call_args(s, list, from, i + 1, next);
        let all = args->0;
        assert(all.take(acc.len() as int) =~= all.take(next.len() as int).take(acc.len() as int));
        assert(next.take(acc.len() as int) =~= acc);
        assert(all[acc.len() as int] == all.take(next.len() as int)[acc.len() as int]);
    } else {
        assert(args->0.take(acc.len() as int) =~= acc);
    }
}

/// The arguments of a call are as many as the call has, and the `j`th one is the
/// register of the `j`th expression, which is lowered behind the ones before it.
pub proof fn law_each_argument_is_the_value_of_its_expression<'a>(
    s: LowerState<'a>,
    list: &'a Vec<Expr>,
    from: int,
)
    requires
        0 <= from <= list.len(),
        call_args(s, list, from, seq![]).1 is Some,
    ensures
        ({
            let (t, args) = call_args(s, list, from, seq![]);
            &&& t == before_arg(s, list, from, list.len() as int)
            &&& are_values(s, list, from, args->0)
        }),
{
    lemma_call_args(s, list, from, from, seq![]);
}

/// The arguments of a method call: the receiver comes first.
pub proof fn law_the_receiver_is_the_first_argument<'a>(
    s: LowerState<'a>,
    list: &'a Vec<Expr>,
    receiver: Binding,
)
    requires
        call_args(s, list, 0, seq![receiver]).1 is Some,
    ensures
        ({
            let (t, args) = call_args(s, list, 0, seq![receiver]);
            &&& t == before_arg(s, list, 0, list.len() as int)
            &&& args->0.len() == list.len() + 1
            &&& args->0[0] == receiver
            &&& are_values(s, list, 0, args->0.skip(1))
        }),
{
    lemma_call_args(s, list, 0, 0, seq![receiver]);
    let args = call_args(s, list, 0, seq![receiver]).1->0;
    assert(args.take(1)[0] == args[0]);
    assert forall|j: int| 0 <= j < list.len() implies (#[trigger] value(
        before_arg(s, list, 0, j),
        &list[j],
    )).1 == Some(args.skip(1)[j]) by {
        assert(args.skip(1)[j] == args[1 + j]);
    }
}

proof fn lemma_macro_args<'a>(
    s: LowerState<'a>,
    list: &'a Vec<Expr>,
    i: int,
    mac: CallMacro,
    acc: Seq<Binding>,
)
    requires
        macro_args(s, list, i, mac, acc).1 is Some,
    ensures
        macro_args(s, list, i, mac, acc) == call_args(s, list, i, acc),
    decreases list.len() - i,
{
    if 0 <= i < list.len() {
        let (s1, b) = value(s, &list[i]);
        lemma_macro_args(s1, list, i + 1, mac, acc.push(b->0));
    }
}

/// The arguments of a macro call are lowered like those of a call.
pub proof fn law_macro_arguments_are_call_arguments<'a>(
    s: LowerState<'a>,
    list: &'a Vec<Expr>,
    i: int,
    mac: CallMacro,
)
    requires
        macro_args(s, list, i, mac, seq![]).1 is Some,
    ensures
        macro_args(s, list, i, mac, seq![]) == call_args(s, list, i, seq![]),
{
    lemma_macro_args(s, list, i, mac, seq![]);
}

/// How many of the first `j` arguments are of a bank.
pub open spec fn rank(args: Seq<Binding>, kind: BindingKind, j: int) -> nat
    decreases j,
{
    if 0 < j <= args.len() {
        rank(args, kind, j - 1) + if args[j - 1].kind == kind {
            1nat
        } else {
            0
        }
    } else {
        0
    }
}

proof fn lemma_rank_prefix(args: Seq<Binding>, kind: BindingKind, j: int)
    requires
        0 <= j < args.len(),
    ensures
        rank(args, kind, j) == rank(args.drop_last(), kind, j),
    decreases j,
{
    if j > 0 {
        lemma_rank_prefix(args, kind, j - 1);
        assert(args.drop_last()[j - 1] == args[j - 1]);
    }
}

/// An inline call hands its arguments over bank by bank: in each bank there are as many
/// as the call has of it, and the `j`th argument, which is preceded by so many of its
/// bank, goes to the callee's register of that number.
pub proof fn law_inline_arguments_are_numbered_in_their_bank(
    args: Seq<Binding>,
    kind: BindingKind,
    j: int,
)
    requires
        args.len() < u16::MAX,
    ensures
        bank_pairs(args, kind).len() == rank(args, kind, args.len() as int),
        rank(args, kind, args.len() as int) <= args.len(),
        0 <= j < args.len() && args[j].kind == kind ==> {
            &&& rank(args, kind, j) < bank_pairs(args, kind).len()
            &&& bank_pairs(args, kind)[rank(args, kind, j) as int] == (
                args[j].reg,
                rank(args, kind, j) as u16,
            )
        },
    decreases args.len(),
{
    if args.len() > 0 {
        let n = args.len() - 1;
        let front = args.drop_last();
        law_inline_arguments_are_numbered_in_their_bank(front, kind, j);
        lemma_rank_prefix(args, kind, n);
        if 0 <= j < args.len() {
            lemma_rank_prefix(args, kind, j);
            if j < n {
                assert(front[j] == args[j]);
            }
        }
    }
}

// ── Calls ────────────────────────────────────────────────────────────

proof fn lemma_passed<'a>(m: Machine<'a>, args: Seq<Binding>)
    requires
        all_fit(slots_of(args)),
    ensures
        m.values(registers(slots_of(args))) == passed(m, args),
{
    let regs = registers(slots_of(args));
    assert forall|j: int| 0 <= j < args.len() implies m.values(regs)[j] == passed(m, args)[j] by {
        let slot = slots_of(args)[j];
        assert(slot.reg <= 255);
        assert(slot.reg == args[j].reg);
        assert((slot.reg as u8) as u16 == slot.reg);
    }
    assert(m.values(regs) =~= passed(m, args));
}

/// The code of a call calls the callee with the value of each argument, in order, and
/// puts what it returns into the register of its bank; nothing else happens.
pub proof fn law_call_passes_its_arguments<'a>(
    w: World<'a>,
    s: LowerState<'a>,
    target: CallTarget<'a>,
    family: CallFamily,
    result: CallResultKind,
    args: Seq<Binding>,
    dst: u16,
    m: Machine<'a>,
)
    requires
        emit_call(s, target, family, result, args, dst).rejected is None,
    ensures
        ({
            let t = emit_call(s, target, family, result, args, dst);
            let call = Event::Called(crate::machine::callee(target), passed(m, args));
            &&& later(s, t)
            &&& s.rejected is None
            &&& t.next_reg == s.next_reg
            &&& match result {
                CallResultKind::Void => ran(w, s, t, m, m.does(call)),
                CallResultKind::Int => dst <= 255 && ran(
                    w,
                    s,
                    t,
                    m,
                    m.does(call).with_reg(BindingKind::Int, dst, (w.results)(call, m.events)),
                ),
                CallResultKind::Ref => dst <= 255 && ran(
                    w,
                    s,
                    t,
                    m,
                    m.does(call).with_reg(BindingKind::Ref, dst, (w.results)(call, m.events)),
                ),
                CallResultKind::Float => dst <= 255 && ran(
                    w,
                    s,
                    t,
                    m,
                    m.does(call).with_reg(BindingKind::Float, dst, (w.results)(call, m.events)),
                ),
            }
        }),
{
    reveal(emit_call);
    let reads = slots_of(args);
    let (writes, out) = match result_bank(result) {
        None => (seq![], None),
        Some(bank) => (seq![Slot { kind: bank, reg: dst }], Some(dst)),
    };
    let stmt = Instr::Call { target, family, result, args: registers(reads), dst: out };
    lemma_emitted(s, OpKind::Call, reads, writes, stmt);
    if result_bank(result) is Some {
        assert(writes[0].reg == dst);
    }
    lemma_passed(m, args);
    lemma_ran_none(w, s, s, m);
    lemma_ran_one(w, s, s, emit_call(s, target, family, result, args, dst), stmt, m, m);
}

/// Whether a policy has its callee inlined.
pub open spec fn is_inline(policy: CallPolicySpec) -> bool {
    match policy {
        CallPolicySpec::Explicit(kind) => policy_shape(kind).0 is Inline,
        CallPolicySpec::Infer => false,
    }
}

/// A call in value position, under a declared policy or an inferred one: the callee is
/// called with the value of each argument, in order, and what it returns is in the
/// register handed back. Nothing else happens.
pub proof fn law_call_has_what_the_callee_returns<'a>(
    w: World<'a>,
    s: LowerState<'a>,
    func: &'a Expr,
    args: Seq<Binding>,
    policy: CallPolicySpec,
    reg: u16,
    m: Machine<'a>,
)
    requires
        !is_inline(policy),
        call_result(s, func, args, policy, reg).1 is Some,
        call_result(s, func, args, policy, reg).0.rejected is None,
    ensures
        ({
            let (t, b) = call_result(s, func, args, policy, reg);
            let call = Event::Called(Callee::Func(func), passed(m, args));
            &&& b->0.reg == reg
            &&& later(s, t)
            &&& t.next_reg == s.next_reg
            &&& ran(
                w,
                s,
                t,
                m,
                m.does(call).with_reg(b->0.kind, reg, (w.results)(call, m.events)),
            )
        }),
{
    reveal(call_result);
    let (t, b) = call_result(s, func, args, policy, reg);
    match policy {
        CallPolicySpec::Explicit(kind) => {
            let (family, result, wrapped) = policy_shape(kind);
            law_call_passes_its_arguments(
                w,
                s,
                policy_target(func, wrapped),
                family,
                result,
                args,
                reg,
                m,
            );
        },
        CallPolicySpec::Infer => {
            let reads = slots_of(args);
            let p = s.prebuild_helper(func);
            reveal(LowerState::prebuild_helper);
            let stmt = Instr::InferredIntCall {
                func,
                args: registers(reads),
                dst: reg,
                shape: crate::calls::inline_shape(args),
                inline_args: inline_args(args),
                on_unsupported: s.ctx.inference_failure_mode,
            };
            let u = p.emit(OpKind::Call, reads, seq![int_slot(reg)], stmt);
            let c = LiveMarkerCondition { func, codes: RaisingCodes::ValueCall };
            lemma_live_if(u, c);
            lemma_emitted(p, OpKind::Call, reads, seq![int_slot(reg)], stmt);
            lemma_passed(m, args);
            lemma_ran_none(w, s, p, m);
            lemma_ran_one(w, s, p, u, stmt, m, m);
            let n = effect(w, stmt, m);
            lemma_ran_one(w, s, u, t, Instr::Op(Op::LivePlaceholder), m, n);
        },
    }
}

/// A call in value position whose callee is inlined: the callee's code gets the value
/// of each argument bank by bank, and what it returns is in the register handed back.
pub proof fn law_inline_call_has_what_the_callee_returns<'a>(
    w: World<'a>,
    s: LowerState<'a>,
    func: &'a Expr,
    args: Seq<Binding>,
    policy: CallPolicySpec,
    reg: u16,
    m: Machine<'a>,
)
    requires
        is_inline(policy),
        call_result(s, func, args, policy, reg).1 is Some,
        call_result(s, func, args, policy, reg).0.rejected is None,
        (w.banks)(*func) == call_result(s, func, args, policy, reg).1->0.kind,
    ensures
        ({
            let (t, b) = call_result(s, func, args, policy, reg);
            let call = Event::Inlined(
                func,
                Banked {
                    i: m.handed(BindingKind::Int, bank_pairs(args, BindingKind::Int)),
                    r: m.handed(BindingKind::Ref, bank_pairs(args, BindingKind::Ref)),
                    f: m.handed(BindingKind::Float, bank_pairs(args, BindingKind::Float)),
                },
            );
            &&& b->0.reg == reg
            &&& later(s, t)
            &&& t.next_reg == s.next_reg
            &&& ran(
                w,
                s,
                t,
                m,
                m.does(call).with_reg(b->0.kind, reg, (w.results)(call, m.events)),
            )
        }),
{
    reveal(call_result);
    reveal(inline_args);
    let (t, b) = call_result(s, func, args, policy, reg);
    let reads = slots_of(args);
    let p = s.prebuild_helper(func);
    reveal(LowerState::prebuild_helper);
    let stmt = Instr::InlineCall {
        func,
        shape: crate::calls::inline_shape(args),
        args: inline_args(args),
        dst: reg,
    };
    let writes = seq![Slot { kind: b->0.kind, reg }];
    let u = p.emit(OpKind::InlineCall, reads, writes, stmt);
    lemma_live(u);
    lemma_emitted(p, OpKind::InlineCall, reads, writes, stmt);
    lemma_ran_none(w, s, p, m);
    lemma_ran_one(w, s, p, u, stmt, m, m);
    let n = effect(w, stmt, m);
    lemma_ran_one(w, s, u, t, Instr::Op(Op::LivePlaceholder), m, n);
}

/// A call in statement position calls the callee with the value of each argument, in
/// order. What it returns is dropped: no register that was handed out before changes.
pub proof fn law_call_statement_passes_its_arguments<'a>(
    w: World<'a>,
    s: LowerState<'a>,
    func: &'a Expr,
    args: Seq<Binding>,
    policy: CallPolicySpec,
    m: Machine<'a>,
)
    requires
        call_stmt(s, func, args, policy).1,
        call_stmt(s, func, args, policy).0.rejected is None,
    ensures
        ({
            let t = call_stmt(s, func, args, policy).0;
            let call = Event::Called(Callee::Func(func), passed(m, args));
            &&& later(s, t)
            &&& exists|n: Machine<'a>| #[trigger]
                ran(w, s, t, m, n) && n.events == m.events.push(call)
                    && crate::fetch_laws::keeps(s, m, n) && n.fields == m.fields && n.arrays
                    == m.arrays && n.vable_fields == m.vable_fields && n.vable_items
                    == m.vable_items
        }),
{
    reveal(call_stmt);
    let t = call_stmt(s, func, args, policy).0;
    let call = Event::Called(Callee::Func(func), passed(m, args));
    match policy {
        CallPolicySpec::Explicit(kind) => {
            let (family, result, wrapped) = policy_shape(kind);
            let target = policy_target(func, wrapped);
            if result is Void {
                law_call_passes_its_arguments(w, s, target, family, result, args, 0, m);
                assert(ran(w, s, t, m, m.does(call)));
            } else {
                let reg = s.next_reg;
                let p = s.reg_taken();
                lemma_taken(s);
                law_call_passes_its_arguments(w, p, target, family, result, args, reg, m);
                let v = (w.results)(call, m.events);
                let bank = result_bank(result)->0;
                let n = m.does(call).with_reg(bank, reg, v);
                lemma_ran_same(w, p, t, s, t, m, n);
                assert(ran(w, s, t, m, n));
            }
        },
        CallPolicySpec::Infer => {
            let reads = slots_of(args);
            let stmt = Instr::InferredVoidCall { func, args: registers(reads) };
            lemma_emitted(s, OpKind::Call, reads, seq![], stmt);
            lemma_passed(m, args);
            lemma_ran_none(w, s, s, m);
            lemma_ran_one(w, s, s, t, stmt, m, m);
            assert(ran(w, s, t, m, m.does(call)));
        },
    }
}

/// An I/O call becomes a call of its stand-in with one argument, the integer in the
/// register of the value.
pub proof fn law_stand_in_gets_the_value<'a>(
    w: World<'a>,
    s: LowerState<'a>,
    shim: &'a String,
    b: Binding,
    m: Machine<'a>,
)
    requires
        shim_call(s, shim, b).rejected is None,
    ensures
        later(s, shim_call(s, shim, b)),
        ran(
            w,
            s,
            shim_call(s, shim, b),
            m,
            m.does(Event::Called(Callee::Shim(shim), seq![(BindingKind::Int, m.word(b.reg))])),
        ),
{
    reveal(shim_call);
    let args = seq![Binding::fixed(BindingKind::Int, b.reg)];
    law_call_passes_its_arguments(
        w,
        s,
        CallTarget::Shim(shim),
        CallFamily::Residual,
        CallResultKind::Void,
        args,
        0,
        m,
    );
    assert(passed(m, args) =~= seq![(BindingKind::Int, m.word(b.reg))]);
}

// ── Macro calls ──────────────────────────────────────────────────────

proof fn lemma_after_macro<'a>(
    w: World<'a>,
    s: LowerState<'a>,
    u: LowerState<'a>,
    target: RegisteredTarget<'a>,
    codes: RaisingCodes,
    m: Machine<'a>,
    n: Machine<'a>,
)
    requires
        u.rejected is None ==> ran(w, s, u, m, n),
        after_macro(u, target, codes).rejected is None,
    ensures
        u.rejected is None,
        ran(w, s, after_macro(u, target, codes), m, n),
        later(u, after_macro(u, target, codes)),
        after_macro(u, target, codes).next_reg == u.next_reg,
{
    reveal(after_macro);
    let t = after_macro(u, target, codes);
    if target.check is Some {
        let c = LiveMarkerCondition { func: target.func, codes };
        lemma_live_if(u, c);
        lemma_ran_one(w, s, u, t, Instr::Op(Op::LivePlaceholder), m, n);
    } else if target.slot.raises() {
        lemma_live(u);
        lemma_ran_one(w, s, u, t, Instr::Op(Op::LivePlaceholder), m, n);
    }
}

/// The callee of a macro call is the function that the macro names.
proof fn lemma_macro_callee<'a>(
    s: LowerState<'a>,
    func: &'a Expr,
    mac: CallMacro,
    kind: BindingKind,
    empty: bool,
)
    ensures
        macro_target(s.ctx, func, mac, kind, empty) matches Ok(target) ==> target.func == func,
{
    reveal(macro_target);
}

proof fn lemma_first_fits(first: Slot, rest: Seq<Slot>)
    requires
        all_fit(seq![first] + rest),
    ensures
        all_fit(rest),
        first.reg <= 255,
{
    let all = seq![first] + rest;
    assert(all[0] == first);
    assert forall|i: int| 0 <= i < rest.len() implies (#[trigger] rest[i]).reg <= 255 by {
        assert(all[i + 1] == rest[i]);
    }
}

/// `conditional_call!(condition, func, args...)` calls `func` with the value of each
/// argument, in order, where the condition is not 0, and does nothing where it is.
pub proof fn law_conditional_call_calls_where_its_condition_holds<'a>(
    w: World<'a>,
    s: LowerState<'a>,
    func: &'a Expr,
    cond: u16,
    args: Seq<Binding>,
    m: Machine<'a>,
)
    requires
        conditional_call_tail(s, func, cond, args).1,
        conditional_call_tail(s, func, cond, args).0.rejected is None,
    ensures
        ({
            let t = conditional_call_tail(s, func, cond, args).0;
            &&& later(s, t)
            &&& ran(
                w,
                s,
                t,
                m,
                if m.word(cond) != 0 {
                    m.does(Event::Called(Callee::Func(func), passed(m, args)))
                } else {
                    m
                },
            )
        }),
{
    reveal(conditional_call_tail);
    let mac = CallMacro::ConditionalCall;
    lemma_macro_callee(s, func, mac, BindingKind::Int, args.len() == 0);
    let target = macro_target(s.ctx, func, mac, BindingKind::Int, args.len() == 0)->Ok_0;
    let slots = slots_of(args);
    let reads = seq![int_slot(cond)] + slots;
    let stmt = Instr::ConditionalCall { target, cond, args: registers(slots) };
    let u = s.emit(OpKind::Call, reads, seq![], stmt);
    let n = effect(w, stmt, m);
    if u.rejected is None {
        lemma_emitted(s, OpKind::Call, reads, seq![], stmt);
        lemma_ran_none(w, s, s, m);
        lemma_ran_one(w, s, s, u, stmt, m, m);
    }
    lemma_after_macro(w, s, u, target, raising_codes(mac, BindingKind::Int), m, n);
    lemma_first_fits(int_slot(cond), slots);
    lemma_passed(m, args);
}

/// `conditional_call_elidable!(value, func, args...)` has the value where it is not 0;
/// where it is 0, `func` is called with the value of each argument, in order, and the
/// macro has what it returns. The register handed back is a fresh one.
pub proof fn law_conditional_value_calls_where_its_value_is_zero<'a>(
    w: World<'a>,
    s: LowerState<'a>,
    func: &'a Expr,
    v: Binding,
    args: Seq<Binding>,
    m: Machine<'a>,
)
    requires
        conditional_value_tail(s, func, v, args).1 is Some,
        conditional_value_tail(s, func, v, args).0.rejected is None,
    ensures
        ({
            let (t, r) = conditional_value_tail(s, func, v, args);
            let call = Event::Called(Callee::Func(func), passed(m, args));
            &&& r->0.kind == v.kind
            &&& s.next_reg <= r->0.reg < t.next_reg
            &&& later(s, t)
            &&& ran(
                w,
                s,
                t,
                m,
                if held(m, v) != 0 {
                    m.with_reg(v.kind, r->0.reg, held(m, v))
                } else {
                    m.does(call).with_reg(v.kind, r->0.reg, (w.results)(call, m.events))
                },
            )
        }),
{
    reveal(conditional_value_tail);
    let mac = CallMacro::ConditionalCallElidable;
    let p = s.reg_taken();
    let dst = s.next_reg;
    lemma_taken(s);
    lemma_macro_callee(p, func, mac, v.kind, args.len() == 0);
    let target = macro_target(p.ctx, func, mac, v.kind, args.len() == 0)->Ok_0;
    let slots = slots_of(args);
    let reads = seq![slot_of(v)] + slots;
    let writes = seq![Slot { kind: v.kind, reg: dst }];
    let stmt = Instr::ConditionalCallValue {
        target,
        kind: v.kind,
        value: v.reg,
        args: registers(slots),
        dst,
    };
    let u = p.emit(OpKind::Call, reads, writes, stmt);
    let n = effect(w, stmt, m);
    if u.rejected is None {
        lemma_emitted(p, OpKind::Call, reads, writes, stmt);
        lemma_ran_none(w, s, p, m);
        lemma_ran_one(w, s, p, u, stmt, m, m);
        assert(writes[0].reg == dst);
    }
    lemma_after_macro(w, s, u, target, raising_codes(mac, v.kind), m, n);
    lemma_first_fits(slot_of(v), slots);
    lemma_passed(m, args);
}

/// `record_known_result!(result, func, args...)` records that `func` returns the
/// result for the value of each argument, in order, and does nothing else.
pub proof fn law_known_result_records_its_call<'a>(
    w: World<'a>,
    s: LowerState<'a>,
    func: &'a Expr,
    result: Binding,
    args: Seq<Binding>,
    m: Machine<'a>,
)
    requires
        known_result_tail(s, func, result, args).1,
        known_result_tail(s, func, result, args).0.rejected is None,
    ensures
        ({
            let t = known_result_tail(s, func, result, args).0;
            &&& later(s, t)
            &&& ran(
                w,
                s,
                t,
                m,
                m.does(Event::Known(func, held(m, result), passed(m, args))),
            )
        }),
{
    reveal(known_result_tail);
    let mac = CallMacro::RecordKnownResult;
    lemma_macro_callee(s, func, mac, result.kind, args.len() == 0);
    let target = macro_target(s.ctx, func, mac, result.kind, args.len() == 0)->Ok_0;
    let slots = slots_of(args);
    let reads = seq![slot_of(result)] + slots;
    let stmt = Instr::RecordKnownResult {
        target,
        kind: result.kind,
        result: result.reg,
        args: registers(slots),
    };
    let u = s.emit(OpKind::RecordKnownResult, reads, seq![], stmt);
    let n = effect(w, stmt, m);
    if u.rejected is None {
        lemma_emitted(s, OpKind::RecordKnownResult, reads, seq![], stmt);
        lemma_ran_none(w, s, s, m);
        lemma_ran_one(w, s, s, u, stmt, m, m);
    }
    lemma_after_macro(w, s, u, target, raising_codes(mac, result.kind), m, n);
    lemma_first_fits(slot_of(result), slots);
    lemma_passed(m, args);
}

// ── From source to call ──────────────────────────────────────────────

/// What `f(e1, .., en)` does in value position, whatever its policy says of the
/// callee, unless that is inlined: `e1` to `en` are computed in order, and the callee
/// is called with `n` arguments, of which the `i`th is the register, with its bank, that
/// holds the value of `ei`. What it returns is in a fresh register.
pub proof fn law_call_expression_calls_with_its_arguments<'a>(
    w: World<'a>,
    s: LowerState<'a>,
    e: &'a Expr,
    c: ExprCall,
    policy: CallPolicySpec,
    m: Machine<'a>,
    n: Machine<'a>,
)
    requires
        e.kind == ExprKind::Call(c),
        resolved_policy(s.ctx, *c.func) == Some(policy),
        !is_inline(policy),
        call_value(s, e).1 is Some,
        call_value(s, e).0.rejected is None,
        ran(w, s, before_arg(s, &c.args, 0, c.args.len() as int), m, n),
    ensures
        ({
            let (t, b) = call_value(s, e);
            exists|args: Seq<Binding>| #[trigger]
                are_values(s, &c.args, 0, args) && {
                    let call = Event::Called(Callee::Func(&*c.func), passed(n, args));
                    &&& before_arg(s, &c.args, 0, c.args.len() as int).next_reg <= b->0.reg
                        < t.next_reg
                    &&& ran(
                        w,
                        s,
                        t,
                        m,
                        n.does(call).with_reg(b->0.kind, b->0.reg, (w.results)(call, n.events)),
                    )
                }
        }),
{
    let (s1, args) = call_args(s, &c.args, 0, seq![]);
    lemma_call_value_form(s, e, c, policy);
    law_each_argument_is_the_value_of_its_expression(s, &c.args, 0);
    let (t, b) = call_value(s, e);
    let p = s1.reg_taken();
    lemma_taken(s1);
    law_call_has_what_the_callee_returns(w, p, &*c.func, args->0, policy, s1.next_reg, n);
    assert(s1.next_reg < p.next_reg) by {
        lemma_result_fits(p, &*c.func, args->0, policy, s1.next_reg);
    }
    let call = Event::Called(Callee::Func(&*c.func), passed(n, args->0));
    let end = n.does(call).with_reg(b->0.kind, b->0.reg, (w.results)(call, n.events));
    lemma_ran_same(w, p, t, s1, t, n, end);
    lemma_ran_both(w, s, s1, t, m, n, end);
}

proof fn lemma_call_value_form<'a>(s: LowerState<'a>, e: &'a Expr, c: ExprCall, policy: CallPolicySpec)
    requires
        e.kind == ExprKind::Call(c),
        resolved_policy(s.ctx, *c.func) == Some(policy),
        call_value(s, e).1 is Some,
    ensures
        ({
            let (s1, args) = call_args(s, &c.args, 0, seq![]);
            &&& args is Some
            &&& call_value(s, e) == call_result(
                s1.reg_taken(),
                &*c.func,
                args->0,
                policy,
                s1.next_reg,
            )
        }),
{
}

/// A register that a call writes is one that a byte can hold.
proof fn lemma_result_fits<'a>(
    s: LowerState<'a>,
    func: &'a Expr,
    args: Seq<Binding>,
    policy: CallPolicySpec,
    reg: u16,
)
    requires
        !is_inline(policy),
        call_result(s, func, args, policy, reg).1 is Some,
        call_result(s, func, args, policy, reg).0.rejected is None,
    ensures
        reg <= 255,
{
    reveal(call_result);
    match policy {
        CallPolicySpec::Explicit(kind) => {
            reveal(emit_call);
            let (family, result, wrapped) = policy_shape(kind);
            let reads = slots_of(args);
            let bank = result_bank(result)->0;
            let writes = seq![Slot { kind: bank, reg }];
            let stmt = Instr::Call {
                target: policy_target(func, wrapped),
                family,
                result,
                args: registers(reads),
                dst: Some(reg),
            };
            lemma_emitted(s, OpKind::Call, reads, writes, stmt);
            assert(writes[0].reg == reg);
        },
        CallPolicySpec::Infer => {
            let reads = slots_of(args);
            let p = s.prebuild_helper(func);
            let stmt = Instr::InferredIntCall {
                func,
                args: registers(reads),
                dst: reg,
                shape: crate::calls::inline_shape(args),
                inline_args: inline_args(args),
                on_unsupported: s.ctx.inference_failure_mode,
            };
            let writes = seq![int_slot(reg)];
            let u = p.emit(OpKind::Call, reads, writes, stmt);
            lemma_live_if(u, LiveMarkerCondition { func, codes: RaisingCodes::ValueCall });
            lemma_emitted(p, OpKind::Call, reads, writes, stmt);
            assert(writes[0].reg == reg);
        },
    }
}

/// What `f(e1, .., en);` does in statement position: `e1` to `en` are computed in order,
/// and the callee is called with their values in order.
pub proof fn law_call_statement_calls_with_its_arguments<'a>(
    w: World<'a>,
    s: LowerState<'a>,
    e: &'a Expr,
    c: ExprCall,
    policy: CallPolicySpec,
    m: Machine<'a>,
    n: Machine<'a>,
)
    requires
        e.kind == ExprKind::Call(c),
        resolved_policy(s.ctx, *c.func) == Some(policy),
        config_call_stmt(s, e).1,
        config_call_stmt(s, e).0.rejected is None,
        ran(w, s, before_arg(s, &c.args, 0, c.args.len() as int), m, n),
    ensures
        ({
            let t = config_call_stmt(s, e).0;
            exists|args: Seq<Binding>, end: Machine<'a>|
                #![trigger are_values(s, &c.args, 0, args), ran(w, s, t, m, end)]
                are_values(s, &c.args, 0, args) && ran(w, s, t, m, end) && end.events
                    == n.events.push(Event::Called(Callee::Func(&*c.func), passed(n, args)))
                    && crate::fetch_laws::keeps(
                    before_arg(s, &c.args, 0, c.args.len() as int),
                    n,
                    end,
                )
        }),
{
    let (s1, args) = call_args(s, &c.args, 0, seq![]);
    lemma_call_stmt_form(s, e, c, policy);
    law_each_argument_is_the_value_of_its_expression(s, &c.args, 0);
    let t = config_call_stmt(s, e).0;
    law_call_statement_passes_its_arguments(w, s1, &*c.func, args->0, policy, n);
    let call = Event::Called(Callee::Func(&*c.func), passed(n, args->0));
    let end = choose|x: Machine<'a>| #[trigger]
        ran(w, s1, t, n, x) && x.events == n.events.push(call) && crate::fetch_laws::keeps(
            s1,
            n,
            x,
        ) && x.fields == n.fields && x.arrays == n.arrays && x.vable_fields == n.vable_fields
            && x.vable_items == n.vable_items;
    lemma_ran_both(w, s, s1, t, m, n, end);
}

proof fn lemma_call_stmt_form<'a>(s: LowerState<'a>, e: &'a Expr, c: ExprCall, policy: CallPolicySpec)
    requires
        e.kind == ExprKind::Call(c),
        resolved_policy(s.ctx, *c.func) == Some(policy),
        config_call_stmt(s, e).1,
    ensures
        ({
            let (s1, args) = call_args(s, &c.args, 0, seq![]);
            &&& args is Some
            &&& config_call_stmt(s, e) == call_stmt(s1, &*c.func, args->0, policy)
        }),
{
}

/// The parts of `conditional_call!`: the first one is its condition, the second one its callee, and
/// the others are the callee's arguments, in order.
pub proof fn law_conditional_call_takes_its_parts_in_order<'a>(s: LowerState<'a>, list: &'a Vec<Expr>)
    requires
        conditional_call_list(s, list).1,
    ensures
        ({
            let (s1, x) = value(s, &list[0]);
            let t = before_arg(s1, list, 2, list.len() as int);
            &&& list.len() >= 2
            &&& x is Some
            &&& exists|args: Seq<Binding>| #[trigger]
                are_values(s1, list, 2, args) && conditional_call_list(s, list) == conditional_call_tail(
                    t,
                    &list[1],
                    x->0.reg,
                    args,
                )
        }),
{
    let (s1, x) = value(s, &list[0]);
    let (t, args) = macro_args(s1, list, 2, CallMacro::ConditionalCall, seq![]);
    assert(list.len() >= 2 && x is Some && args is Some && conditional_call_list(s, list)
        == conditional_call_tail(t, &list[1], x->0.reg, args->0));
    lemma_macro_parts(s1, list, CallMacro::ConditionalCall);
}

/// The parts of `conditional_call_elidable!`: the first one is its value, the second one its callee, and
/// the others are the callee's arguments, in order.
pub proof fn law_conditional_value_takes_its_parts_in_order<'a>(s: LowerState<'a>, list: &'a Vec<Expr>)
    requires
        conditional_value_list(s, list).1 is Some,
    ensures
        ({
            let (s1, x) = value(s, &list[0]);
            let t = before_arg(s1, list, 2, list.len() as int);
            &&& list.len() >= 2
            &&& x is Some
            &&& exists|args: Seq<Binding>| #[trigger]
                are_values(s1, list, 2, args) && conditional_value_list(s, list) == conditional_value_tail(
                    t,
                    &list[1],
                    x->0,
                    args,
                )
        }),
{
    let (s1, x) = value(s, &list[0]);
    let (t, args) = macro_args(s1, list, 2, CallMacro::ConditionalCallElidable, seq![]);
    assert(list.len() >= 2 && x is Some && args is Some && conditional_value_list(s, list)
        == conditional_value_tail(t, &list[1], x->0, args->0));
    lemma_macro_parts(s1, list, CallMacro::ConditionalCallElidable);
}

/// The parts of `record_known_result!`: the first one is its result, the second one its callee, and
/// the others are the callee's arguments, in order.
pub proof fn law_known_result_takes_its_parts_in_order<'a>(s: LowerState<'a>, list: &'a Vec<Expr>)
    requires
        known_result_list(s, list).1,
    ensures
        ({
            let (s1, x) = value(s, &list[0]);
            let t = before_arg(s1, list, 2, list.len() as int);
            &&& list.len() >= 2
            &&& x is Some
            &&& exists|args: Seq<Binding>| #[trigger]
                are_values(s1, list, 2, args) && known_result_list(s, list) == known_result_tail(
                    t,
                    &list[1],
                    x->0,
                    args,
                )
        }),
{
    let (s1, x) = value(s, &list[0]);
    let (t, args) = macro_args(s1, list, 2, CallMacro::RecordKnownResult, seq![]);
    assert(list.len() >= 2 && x is Some && args is Some && known_result_list(s, list)
        == known_result_tail(t, &list[1], x->0, args->0));
    lemma_macro_parts(s1, list, CallMacro::RecordKnownResult);
}

proof fn lemma_macro_parts<'a>(s: LowerState<'a>, list: &'a Vec<Expr>, mac: CallMacro)
    requires
        list.len() >= 2,
        macro_args(s, list, 2, mac, seq![]).1 is Some,
    ensures
        ({
            let (t, args) = macro_args(s, list, 2, mac, seq![]);
            t == before_arg(s, list, 2, list.len() as int) && are_values(s, list, 2, args->0)
        }),
{
    lemma_macro_args(s, list, 2, mac, seq![]);
    law_each_argument_is_the_value_of_its_expression(s, list, 2);
}

} // verus!
