//! Values arrive where the callee's code looks for them.

use vstd::prelude::*;

use crate::ast::{Expr, FnArg, Local, Stmt};
use crate::body::{
    arm_state, bind_layout, bind_params, count_params, param_bank, param_layout, param_name,
};
use crate::branch_laws::jump_to;
use crate::call_laws::rank;
use crate::calls::bank_pairs;
use crate::code_runs::{
    added, later, lemma_emitted_op, lemma_jump, lemma_label_def, lemma_live, lemma_ran_op,
    lemma_ran_same, ran,
};
use crate::config::LowererConfig;
use crate::dispatch::{arm_tests, ClassifiedArm, dispatch_arm, run_arm, takes_all};
use crate::extended_arg::fetch_alias;
use crate::fetch::{index_register, load_byte, program_index};
use crate::fetch_laws::{
    has_pc, is_pc_plus, keeps, law_index_register_holds_the_index, pc_reg, same_state,
};
use crate::growth::{mark, marked};
use crate::kinds::{Binding, BindingKind, InlineReturnKind};
use crate::layout::{layout_args, layout_pairs, LayoutView, packed_layout};
use crate::lowerer::{int_slot, LowerState, ref_slot};
use crate::machine::{control, defines, gets, leaves, lemma_step_gets, Machine, step, World};
use crate::ops::{Instr, Label, Op, OpKind};
use crate::patterns::{let_name, pat_values};

verus! {

// ── Arms ─────────────────────────────────────────────────────────────

/// Whether no name stands twice.
pub open spec fn distinct(locals: Seq<(Seq<char>, Binding)>) -> bool {
    forall|i: int, j: int|
        0 <= i < j < locals.len() ==> (#[trigger] locals[i]).0 != (#[trigger] locals[j]).0
}

/// The pairs of a bank.
pub open spec fn pairs_of_bank<T>(b: crate::ops::Banked<T>, kind: BindingKind) -> T {
    match kind {
        BindingKind::Int => b.i,
        BindingKind::Ref => b.r,
        BindingKind::Float => b.f,
    }
}

proof fn lemma_layout_pair(layout: Seq<LayoutView>, j: int)
    requires
        0 <= j < layout.len(),
    ensures
        layout_pairs(layout, layout[j].kind).contains(
            (layout[j].parent_reg, layout[j].callee_reg),
        ),
    decreases layout.len(),
{
    let kind = layout[j].kind;
    let pair = (layout[j].parent_reg, layout[j].callee_reg);
    let all = layout_pairs(layout, kind);
    if j == layout.len() - 1 {
        assert(all.last() == pair);
        assert(all[all.len() - 1] == pair);
    } else {
        let front = layout.drop_last();
        assert(front[j] == layout[j]);
        lemma_layout_pair(front, j);
        let before = layout_pairs(front, kind);
        let p = choose|p: int| 0 <= p < before.len() && before[p] == pair;
        assert(all[p] == pair);
    }
}

proof fn lemma_bound_layout<'a>(s: LowerState<'a>, layout: Seq<LayoutView>, n: int, j: int)
    requires
        0 <= j < n <= layout.len(),
        forall|a: int, b: int|
            0 <= a < b < layout.len() ==> (#[trigger] layout[a]).name != (#[trigger] layout[b]).name,
    ensures
        bind_layout(s, layout, n).bindings.contains_key(layout[j].name),
        bind_layout(s, layout, n).bindings[layout[j].name] == Binding::fixed(
            layout[j].kind,
            layout[j].callee_reg,
        ),
    decreases n,
{
    reveal(LowerState::bind);
    if j < n - 1 {
        lemma_bound_layout(s, layout, n - 1, j);
        assert(layout[j].name != layout[n - 1].name);
    }
}

/// The call of an arm hands each local over, and the arm's code finds it under its
/// name: the caller's register of the local is paired with the register that the name
/// stands for where the lowering of the arm starts, in the bank of the local.
pub proof fn law_each_local_arrives_under_its_name<'a>(
    config: Option<&'a LowererConfig>,
    locals: Seq<(Seq<char>, Binding)>,
    j: int,
)
    requires
        0 <= j < locals.len(),
        distinct(locals),
    ensures
        ({
            let (name, b) = locals[j];
            let inside = arm_state(config, locals).bindings;
            &&& inside.contains_key(name)
            &&& inside[name].kind == b.kind
            &&& pairs_of_bank(layout_args(packed_layout(locals)), b.kind).contains(
                (b.reg, inside[name].reg),
            )
        }),
{
    let layout = packed_layout(locals);
    assert forall|a: int, b: int| 0 <= a < b < layout.len() implies (#[trigger] layout[a]).name
        != (#[trigger] layout[b]).name by {
        assert(locals[a].0 != locals[b].0);
    }
    let s0 = crate::lowerer::config_state(config);
    let s1 = LowerState {
        ctx: crate::lowerer::LowerContext { in_dispatch_arm_body: true, ..s0.ctx },
        ..s0
    };
    lemma_bound_layout(s1, layout, locals.len() as int, j);
    lemma_layout_pair(layout, j);
}

/// Behind the call of an arm, control leaves the arm's code for the label of the loop.
pub proof fn law_arm_goes_back_to_the_loop<'a>(
    w: World<'a>,
    s: LowerState<'a>,
    arm: &'a ClassifiedArm,
    config: &'a LowererConfig,
    start: Label,
    opcode: u16,
    m: Machine<'a>,
)
    requires
        !takes_all(arm.pat),
        pat_values(&arm.pat) is Some,
        start != s.fresh_label(),
        dispatch_arm(s, arm, config, start, opcode).rejected is None,
    ensures
        ({
            let t = dispatch_arm(s, arm, config, start, opcode);
            exists|p: LowerState<'a>|
                {
                    let u = #[trigger] run_arm(p, arm, config);
                    &&& u.statements.is_prefix_of(t.statements)
                    &&& leaves(w, added(u, t), m, m, start)
                    &&& marked(t.statements, t.statements.len() - 1, s.fresh_label())
                }
        }),
{
    reveal(dispatch_arm);
    let skip = s.fresh_label();
    let p = arm_tests(s.label_taken().aux(Op::NewLabel(skip)), pat_values(&arm.pat)->0, opcode, skip);
    let u = run_arm(p, arm, config);
    let a = u.live();
    let b = a.jump(start);
    let t = b.label_def(skip);
    lemma_label_def(b, skip);
    lemma_jump(a, start);
    lemma_live(u);
    let code = added(u, t);
    assert(code =~= seq![Instr::Op(Op::LivePlaceholder), jump_to(start), mark(skip)]);
    assert(!defines(code, start)) by {
        if defines(code, start) {
            let q = choose|q: int| marked(code, q, start);
            assert(code[q] == mark::<'a>(start));
        }
    }
    assert(step(w, code, m, 0, m, 1));
    lemma_step_gets(w, code, m, 0, m, 1);
    assert(gets(w, code, m, 0, m, 1));
    assert(t.statements[t.statements.len() - 1] == mark::<'a>(skip));
}

// ── Helpers ──────────────────────────────────────────────────────────

/// Whether every parameter has a bank and a name, and no name stands twice.
pub open spec fn good_params(inputs: Seq<FnArg>) -> bool {
    &&& forall|i: int|
        0 <= i < inputs.len() ==> param_bank(#[trigger] inputs[i]) is Ok && param_name(inputs[i]) is Some
    &&& forall|i: int, j: int|
        0 <= i < j < inputs.len() ==> param_name(#[trigger] inputs[i])->0@ != param_name(
            #[trigger] inputs[j],
        )->0@
}

proof fn lemma_bound_params<'a>(s: LowerState<'a>, inputs: Seq<FnArg>, n: int, j: int)
    requires
        0 <= j < n <= inputs.len(),
        good_params(inputs),
    ensures
        bind_params(s, inputs, n).bindings.contains_key(param_name(inputs[j])->0@),
        bind_params(s, inputs, n).bindings[param_name(inputs[j])->0@] == Binding::fixed(
            param_layout(inputs)[j].0.bank(),
            param_layout(inputs)[j].1,
        ),
    decreases n,
{
    reveal(LowerState::bind);
    if j < n - 1 {
        lemma_bound_params(s, inputs, n - 1, j);
        assert(param_name(inputs[j])->0@ != param_name(inputs[n - 1])->0@);
    }
}

/// Whether the arguments are of the banks of the parameters.
pub open spec fn banks_agree(args: Seq<Binding>, inputs: Seq<FnArg>) -> bool {
    args.len() == inputs.len() && forall|i: int|
        0 <= i < args.len() ==> (#[trigger] args[i]).kind == param_bank(inputs[i])->Ok_0.bank()
}

proof fn lemma_same_rank(args: Seq<Binding>, inputs: Seq<FnArg>, kind: InlineReturnKind, j: int)
    requires
        banks_agree(args, inputs),
        good_params(inputs),
        0 <= j <= inputs.len(),
    ensures
        count_params(inputs.take(j), kind) == rank(args, kind.bank(), j),
        rank(args, kind.bank(), j) <= j,
    decreases j,
{
    if j > 0 {
        lemma_same_rank(args, inputs, kind, j - 1);
        assert(inputs.take(j).drop_last() =~= inputs.take(j - 1));
        assert(inputs.take(j).last() == inputs[j - 1]);
        assert(args[j - 1].kind == param_bank(inputs[j - 1])->Ok_0.bank());
        assert(param_bank(inputs[j - 1]) is Ok);
    } else {
        assert(inputs.take(0).len() == 0);
    }
}

/// An inlined helper finds each argument under the name of its parameter: the register
/// that an inline call hands the `j`th argument over to is the one that the name of the
/// `j`th parameter stands for where the lowering of the helper starts, in its bank.
pub proof fn law_each_argument_arrives_under_its_parameter<'a>(
    s: LowerState<'a>,
    args: Seq<Binding>,
    inputs: Seq<FnArg>,
    j: int,
)
    requires
        0 <= j < inputs.len() < u16::MAX,
        good_params(inputs),
        banks_agree(args, inputs),
    ensures
        ({
            let inside = bind_params(s, inputs, inputs.len() as int).bindings;
            let name = param_name(inputs[j])->0@;
            &&& inside.contains_key(name)
            &&& inside[name].kind == args[j].kind
            &&& bank_pairs(args, args[j].kind).contains((args[j].reg, inside[name].reg))
        }),
{
    lemma_bound_params(s, inputs, inputs.len() as int, j);
    let kind = param_bank(inputs[j])->Ok_0;
    lemma_same_rank(args, inputs, kind, j);
    assert(args[j].kind == kind.bank());
    crate::call_laws::law_inline_arguments_are_numbered_in_their_bank(args, args[j].kind, j);
    let r = rank(args, args[j].kind, j);
    assert(bank_pairs(args, args[j].kind)[r as int] == (args[j].reg, r as u16));
}

// ── Inner fetches ────────────────────────────────────────────────────

/// When the code of `let name = program[pc + n]` runs in the loop of the extended
/// argument, where `name` is later assigned to an outer variable, the byte of the
/// program at `p + n` is in the register of that variable and `name` stands for it. No
/// other register that was handed out before changes.
pub proof fn law_inner_fetch_reads_into_the_variable<'a>(
    w: World<'a>,
    s: LowerState<'a>,
    stmt: Stmt,
    l: Local,
    idx: Expr,
    name: String,
    dst: u16,
    known: Map<Seq<char>, u16>,
    distance: i64,
    m: Machine<'a>,
)
    requires
        stmt == Stmt::Local(l),
        has_pc(s),
        program_index(l) == Some(idx),
        is_pc_plus(idx, distance),
        let_name(l.pat) == Some(name),
        known.contains_key(name@),
        known[name@] == dst,
        s.bindings.contains_key("program"@),
        s.bindings["program"@].kind is Ref,
        s.bindings["program"@].reg < s.next_reg,
        m.word(pc_reg(s)) + distance <= i64::MAX,
        fetch_alias(s, stmt, known).0.rejected is None,
    ensures
        ({
            let (t, done) = fetch_alias(s, stmt, known);
            let p = m.word(pc_reg(s));
            let program = (m.regs)(BindingKind::Ref, s.bindings["program"@].reg);
            &&& done
            &&& t.bindings == s.bindings.insert(name@, Binding::fixed(BindingKind::Int, dst))
            &&& exists|n: Machine<'a>| #[trigger]
                ran(w, s, t, m, n) && same_state(m, n) && n.word(dst) == (w.bytes)(
                    program,
                    (p + distance) as i64,
                ) && (forall|k: BindingKind, r: u16|
                    r < s.next_reg && !(k is Int && r == dst) ==> #[trigger] (n.regs)(k, r)
                        == (m.regs)(k, r))
        }),
{
    reveal(fetch_alias);
    reveal(LowerState::bind);
    let (s1, r) = index_register(s, idx);
    let index = r->0;
    let program = s.bindings["program"@].reg;
    let s2 = load_byte(s1, dst, program, index);
    assert(r is Some) by {
        reveal(index_register);
        reveal(crate::fetch::pc_offset);
    }
    let (t, done) = fetch_alias(s, stmt, known);
    assert(s2.rejected is None);
    reveal(load_byte);
    let reads = seq![ref_slot(program), int_slot(index)];
    let writes = seq![int_slot(dst)];
    let op = Op::GetarrayitemGcI(dst, program, index);
    lemma_emitted_op(s1, OpKind::Vable, reads, writes, op);
    law_index_register_holds_the_index(w, s, idx, distance, m);
    let x = choose|n: Machine<'a>| #[trigger]
        ran(w, s, s1, m, n) && keeps(s, m, n) && same_state(m, n) && n.word(pc_reg(s)) == m.word(
            pc_reg(s),
        ) && (m.word(pc_reg(s)) + distance <= i64::MAX ==> n.word(index) == m.word(pc_reg(s))
            + distance);
    lemma_ran_op(w, s, s1, OpKind::Vable, reads, writes, op, m, x);
    let base = (x.regs)(BindingKind::Ref, program);
    assert(base == (m.regs)(BindingKind::Ref, program));
    let n = x.with_word(dst, (w.bytes)(base, x.word(index)));
    lemma_ran_same(w, s, s2, s, t, m, n);
    assert(ran(w, s, t, m, n));
}

} // verus!
