//! What happens at the merge point, in the loop of the extended argument and at the
//! return.

use vstd::prelude::*;

use crate::ast::{Block, Expr, ExprKind, ExprWhile, Local, NodeId, Stmt};
use crate::code_runs::{
    added, held, later, lemma_aux, lemma_branched, lemma_emitted, lemma_emitted_op, lemma_jump,
    lemma_label_def, lemma_live, lemma_not_rejected, lemma_ran_both, lemma_ran_none, lemma_ran_one,
    lemma_taken, ran,
};
use crate::config::LowererConfig;
use crate::dispatch::{
    entry_state, final_return, is_merge_point, merge_point, opcode_register, pre_dispatch,
    pre_dispatch_step, promote_greens, tail_expr,
};
use crate::extended_arg::{
    aliases, bare_ident, check_range, compares_names, fetch_alias, inner_while, local_and_const,
    loop_step, loop_steps, merge, merge_arg, range_check,
};
use crate::fetch::{advance_pc, fetch_byte, increment, load_named, opcode_fetch};
use crate::fetch_laws::{has_pc, pc_reg};
use crate::growth::{mark, marked};
use crate::kinds::{Binding, BindingKind};
use crate::lower_spec::{guard_value, value};
use crate::lowerer::{int_slot, LowerState};
use crate::machine::{
    Event, gets, lemma_first, lemma_inside, lemma_step_gets, lemma_then, Machine, part_of, runs,
    step, stops_at, World,
};
use crate::ops::{Banked, Instr, Label, Op, OpKind, StmtView};
use crate::patterns::let_name;
use crate::schema::{declared_names, red_lists, var_bytes, var_lists, VarName, VarRole, vars_error};
use crate::value_laws::lemma_guard_value;

verus! {

// ── Greens and reds ──────────────────────────────────────────────────

/// The value of a green, with its bank.
pub open spec fn green_event<'a>(s: LowerState<'a>, green: Expr, m: Machine<'a>) -> Event<'a> {
    let b = s.bindings[bare_ident(green)->0@];
    Event::Pinned(b.kind, held(m, b))
}

/// Each green is a bound name, and the code in front of the merge point pins the value
/// of each, in the order of their declaration. Nothing else happens.
pub proof fn law_each_green_is_pinned<'a>(
    w: World<'a>,
    s: LowerState<'a>,
    greens: Seq<Expr>,
    i: int,
    m: Machine<'a>,
)
    requires
        0 <= i <= greens.len(),
        promote_greens(s, greens, i).rejected is None,
    ensures
        s.rejected is None,
        later(s, promote_greens(s, greens, i)),
        promote_greens(s, greens, i).next_reg == s.next_reg,
        forall|j: int|
            i <= j < greens.len() ==> bare_ident(#[trigger] greens[j]) is Some
                && s.bindings.contains_key(bare_ident(greens[j])->0@),
        ran(
            w,
            s,
            promote_greens(s, greens, i),
            m,
            Machine {
                events: m.events + Seq::new(
                    (greens.len() - i) as nat,
                    |j: int| green_event(s, greens[i + j], m),
                ),
                ..m
            },
        ),
    decreases greens.len() - i,
{
    let t = promote_greens(s, greens, i);
    let pins = Seq::new((greens.len() - i) as nat, |j: int| green_event(s, greens[i + j], m));
    let end = Machine { events: m.events + pins, ..m };
    reveal(LowerState::reject);
    if i < greens.len() {
        let b = s.bindings[bare_ident(greens[i])->0@];
        assert(bare_ident(greens[i]) is Some && s.bindings.contains_key(
            bare_ident(greens[i])->0@,
        ));
        let u = guard_value(s, b);
        let n = m.does(Event::Pinned(b.kind, held(m, b)));
        law_each_green_is_pinned(w, u, greens, i + 1, n);
        lemma_ran_none(w, s, s, m);
        assert(s.rejected is None) by {
            crate::growth_forms::grows_guard_value(s, b);
            lemma_not_rejected(s, u);
        }
        lemma_guard_value(w, s, s, b, m, m);
        let rest = Seq::new(
            (greens.len() - (i + 1)) as nat,
            |j: int| green_event(u, greens[i + 1 + j], n),
        );
        let last = Machine { events: n.events + rest, ..n };
        lemma_ran_both(w, s, u, t, m, n, last);
        assert(n.events + rest =~= m.events + pins) by {
            assert(pins[0] == green_event(s, greens[i + 0], m));
            assert forall|j: int| 0 <= j < rest.len() implies rest[j] == pins[j + 1] by {
                assert(greens[i + 1 + j] == greens[i + (j + 1)]);
            }
        }
    } else {
        lemma_ran_none(w, s, s, m);
        assert(m.events + pins =~= m.events);
    }
}

/// The list of a bank.
pub open spec fn list_of(lists: Banked<Seq<u8>>, kind: BindingKind) -> Seq<u8> {
    match kind {
        BindingKind::Int => lists.i,
        BindingKind::Ref => lists.r,
        BindingKind::Float => lists.f,
    }
}

/// Whether a variable is bound to a register of a bank.
pub open spec fn is_bound_to(
    bindings: Map<Seq<char>, Binding>,
    name: VarName,
    kind: BindingKind,
    reg: u8,
) -> bool {
    name matches Some(n) && bindings.contains_key(n) && bindings[n].kind == kind && bindings[n].reg
        == reg
}

/// Whether a variable is bound to a register that a byte can hold.
pub open spec fn is_good(bindings: Map<Seq<char>, Binding>, name: VarName) -> bool {
    name matches Some(n) && bindings.contains_key(n) && bindings[n].reg <= 255
}

proof fn lemma_var_bytes(
    bindings: Map<Seq<char>, Binding>,
    names: Seq<VarName>,
    kind: BindingKind,
    reg: u8,
)
    requires
        forall|j: int|
            0 <= j < names.len() ==> is_good(bindings, #[trigger] names[j]),
    ensures
        var_bytes(bindings, names, kind).contains(reg) <==> exists|j: int|
            0 <= j < names.len() && is_bound_to(bindings, #[trigger] names[j], kind, reg),
    decreases names.len(),
{
    if names.len() > 0 {
        let front = names.drop_last();
        assert forall|j: int| 0 <= j < front.len() implies is_good(bindings, #[trigger] front[j]) by {
            assert(front[j] == names[j]);
        }
        lemma_var_bytes(bindings, front, kind, reg);
        let last = names.len() - 1;
        let before = var_bytes(bindings, front, kind);
        let all = var_bytes(bindings, names, kind);
        let n = names[last]->0;
        let b = bindings[n];
        assert((b.reg as u8) == b.reg);
        if all.contains(reg) {
            let p = choose|p: int| 0 <= p < all.len() && all[p] == reg;
            if p < before.len() {
                assert(before[p] == all[p]);
                assert(before.contains(reg));
                let j = choose|j: int|
                    0 <= j < front.len() && is_bound_to(bindings, #[trigger] front[j], kind, reg);
                assert(front[j] == names[j]);
            } else {
                assert(is_bound_to(bindings, names[last], kind, reg));
            }
        }
        if exists|j: int|
            0 <= j < names.len() && is_bound_to(bindings, #[trigger] names[j], kind, reg) {
            let j = choose|j: int|
                0 <= j < names.len() && is_bound_to(bindings, #[trigger] names[j], kind, reg);
            if j < last {
                assert(front[j] == names[j]);
                let p = choose|p: int| 0 <= p < before.len() && before[p] == reg;
                assert(all[p] == reg);
            } else {
                assert(all[before.len() as int] == reg);
            }
        }
    }
}

proof fn lemma_vars_good(bindings: Map<Seq<char>, Binding>, names: Seq<VarName>, role: VarRole)
    requires
        vars_error(bindings, names, role) is None,
    ensures
        forall|j: int|
            0 <= j < names.len() ==> is_good(bindings, #[trigger] names[j]),
    decreases names.len(),
{
    if names.len() > 0 {
        let rest = names.drop_first();
        lemma_vars_good(bindings, rest, role);
        assert forall|j: int| 0 <= j < names.len() implies is_good(bindings, #[trigger] names[j]) by {
            if j > 0 {
                assert(rest[j - 1] == names[j]);
            }
        }
    }
}

/// The lists of a merge point hold the registers of its variables: a register is in
/// the list of its bank just where one of the variables is bound to it.
pub proof fn law_merge_point_lists_its_variables(
    bindings: Map<Seq<char>, Binding>,
    names: Seq<VarName>,
    role: VarRole,
    kind: BindingKind,
    reg: u8,
)
    requires
        var_lists(bindings, names, role) is Ok,
    ensures
        list_of(var_lists(bindings, names, role)->Ok_0, kind).contains(reg) <==> exists|j: int|
            0 <= j < names.len() && is_bound_to(bindings, #[trigger] names[j], kind, reg),
{
    lemma_vars_good(bindings, names, role);
    lemma_var_bytes(bindings, names, kind, reg);
}

/// The code of the merge point is a merge point with the registers of the declared
/// greens and those of the declared reds; nothing else happens.
pub proof fn law_merge_point_names_greens_and_reds<'a>(
    w: World<'a>,
    s: LowerState<'a>,
    config: LowererConfig,
    m: Machine<'a>,
)
    requires
        merge_point(s, config).rejected is None,
    ensures
        ({
            let t = merge_point(s, config);
            &&& later(s, t)
            &&& t.next_reg == s.next_reg
            &&& exists|greens: Banked<Seq<u8>>, reds: Banked<Seq<u8>>|
                var_lists(s.bindings, declared_names(config.greens@), VarRole::Green) == Ok::<
                    Banked<Seq<u8>>,
                    crate::lowerer::Reject,
                >(greens) && red_lists(s.bindings, config) == Ok::<
                    Banked<Seq<u8>>,
                    crate::lowerer::Reject,
                >(reds) && #[trigger] ran(w, s, t, m, m.does(Event::MergePoint(greens, reds)))
        }),
{
    reveal(merge_point);
    reveal(LowerState::reject);
    let t = merge_point(s, config);
    let s1 = s.live();
    assert(s1.bindings == s.bindings) by {
        reveal(LowerState::live);
        reveal(LowerState::push);
    }
    let greens = var_lists(s1.bindings, declared_names(config.greens@), VarRole::Green)->Ok_0;
    let reds = red_lists(s1.bindings, config)->Ok_0;
    let stmt = Instr::JitMergePoint { greens, reds };
    let u = s1.emit(OpKind::JitMergePoint, seq![], seq![], stmt);
    lemma_live(u);
    lemma_emitted(s1, OpKind::JitMergePoint, seq![], seq![], stmt);
    lemma_live(s);
    lemma_ran_none(w, s, s, m);
    lemma_ran_one(w, s, s, s1, Instr::Op(Op::LivePlaceholder), m, m);
    lemma_ran_one(w, s, s1, u, stmt, m, m);
    let n = m.does(Event::MergePoint(greens, reds));
    lemma_ran_one(w, s, u, t, Instr::Op(Op::LivePlaceholder), m, n);
    assert(ran(w, s, t, m, n));
}

// ── The return ───────────────────────────────────────────────────────

/// The code at the end of the dispatch computes the last expression of the block and
/// returns the register that holds its value.
pub proof fn law_the_value_of_the_block_is_returned<'a>(
    w: World<'a>,
    s: LowerState<'a>,
    block: &'a Block,
    e: Expr,
    m: Machine<'a>,
    n: Machine<'a>,
)
    requires
        tail_expr(block.stmts@, block.stmts@.len() as int) == Some(e),
        value(s, &e).1 is Some,
        final_return(s, block).rejected is None,
        ran(w, s, value(s, &e).0, m, n),
    ensures
        ({
            let b = value(s, &e).1->0;
            stops_at(
                w,
                added(s, final_return(s, block)),
                m,
                n,
                Instr::Op(Op::Return(b.kind, b.reg)),
            )
        }),
{
    reveal(final_return);
    let (s1, b) = value(s, &e);
    let stmt = Instr::Op(Op::Return(b->0.kind, b->0.reg));
    let t = final_return(s, block);
    assert(t.statements == s1.statements.push(stmt)) by {
        reveal(LowerState::terminal);
        reveal(LowerState::push);
        reveal(LowerState::reject);
    }
    reveal(ran);
    let code = added(s, t);
    let part = added(s, s1);
    assert(code =~= part.push(stmt));
    assert(part_of(code, 0, part));
    lemma_inside(w, code, 0, part, m, 0, n, part.len() as int);
    assert(code[part.len() as int] == stmt);
}

// ── The loop of the extended argument ────────────────────────────────

/// What `while local == CONSTANT { body }` does, with at most `k` rounds: it is over
/// where the two differ, and runs the body and starts again where they are equal.
pub open spec fn equal_rounds<'a>(
    w: World<'a>,
    local: u16,
    c: u16,
    body: Seq<StmtView<'a>>,
    k: nat,
    m: Machine<'a>,
    n: Machine<'a>,
) -> bool
    decreases k,
{
    if m.word(local) == m.word(c) {
        k > 0 && exists|y: Machine<'a>| #[trigger]
            runs(w, body, m, y) && equal_rounds(w, local, c, body, (k - 1) as nat, y, n)
    } else {
        m == n
    }
}

pub open spec fn inner_code<'a>(
    load: StmtView<'a>,
    local: u16,
    c: u16,
    top: Label,
    after: Label,
    body: Seq<StmtView<'a>>,
) -> Seq<StmtView<'a>> {
    (seq![
        load,
        Instr::Op(Op::NewLabel(top)),
        Instr::Op(Op::NewLabel(after)),
        mark(top),
        Instr::Op(Op::GotoIfNotIntEq(local, c, after)),
    ] + body).push(Instr::Op(Op::Jump(top))).push(mark(after))
}

proof fn lemma_inner_rounds<'a>(
    w: World<'a>,
    load: StmtView<'a>,
    local: u16,
    c: u16,
    top: Label,
    after: Label,
    body: Seq<StmtView<'a>>,
    k: nat,
    m: Machine<'a>,
    n: Machine<'a>,
)
    requires
        equal_rounds(w, local, c, body, k, m, n),
    ensures
        ({
            let code = inner_code(load, local, c, top, after, body);
            gets(w, code, m, 4, n, code.len() as int)
        }),
    decreases k,
{
    let code = inner_code(load, local, c, top, after, body);
    let z = 5 + body.len() as int;
    assert(part_of(code, 5, body));
    assert(code[4] == Instr::Op::<Seq<crate::kinds::Register>, Seq<(u16, u16)>, Seq<u8>>(
        Op::GotoIfNotIntEq(local, c, after),
    ));
    assert(marked(code, 3, top));
    assert(marked(code, z + 1, after));
    assert(code[z] == Instr::Op::<Seq<crate::kinds::Register>, Seq<(u16, u16)>, Seq<u8>>(
        Op::Jump(top),
    ));
    if m.word(local) == m.word(c) {
        let y = choose|y: Machine<'a>| #[trigger]
            runs(w, body, m, y) && equal_rounds(w, local, c, body, (k - 1) as nat, y, n);
        lemma_inner_rounds(w, load, local, c, top, after, body, (k - 1) as nat, y, n);
        assert(step(w, code, m, 4, m, 5));
        lemma_inside(w, code, 5, body, m, 0, y, body.len() as int);
        assert(step(w, code, y, z, y, 3));
        assert(step(w, code, y, 3, y, 4));
        lemma_first(w, code, y, 3, y, 4, n, code.len() as int);
        lemma_first(w, code, y, z, y, 3, n, code.len() as int);
        lemma_then(w, code, m, 5, y, z, n, code.len() as int);
        lemma_first(w, code, m, 4, m, 5, n, code.len() as int);
    } else {
        assert(step(w, code, m, 4, m, z + 1));
        assert(step(w, code, m, z + 1, m, z + 2));
        lemma_step_gets(w, code, m, z + 1, m, z + 2);
        lemma_first(w, code, m, 4, m, z + 1, m, z + 2);
    }
}

/// When the code of the loop `while local == CONSTANT { .. }` runs, the constant is
/// loaded into a fresh register, and then the body runs again and again as long as the
/// local is equal to the constant.
pub proof fn law_inner_loop_runs_while_equal<'a>(s: LowerState<'a>, l: &'a ExprWhile)
    requires
        inner_while(s, l).1,
        inner_while(s, l).0.rejected is None,
    ensures
        local_and_const(s.bindings, *l.cond) is Some,
        ({
            let t = inner_while(s, l).0;
            let (local, name) = local_and_const(s.bindings, *l.cond)->0;
            let c = s.next_reg;
            exists|q: LowerState<'a>|
                #![trigger later(s, q)]
                {
                    let known = aliases(s.bindings, l.body.stmts@, l.body.stmts@.len() as int);
                    let (u, done) = loop_steps(q, &l.body.stmts, 0, known);
                    &&& later(s, q)
                    &&& c < q.next_reg
                    &&& done
                    &&& forall|
                        w: World<'a>,
                        k: nat,
                        m: Machine<'a>,
                        n: Machine<'a>,
                    | #[trigger]
                        equal_rounds(
                            w,
                            local,
                            c,
                            added(q, u),
                            k,
                            m.with_word(c, (w.named)(name@)),
                            n,
                        ) ==> ran(w, s, t, m, n)
                }
        }),
{
    reveal(inner_while);
    let t = inner_while(s, l).0;
    let (local, name) = local_and_const(s.bindings, *l.cond)->0;
    let known = aliases(s.bindings, l.body.stmts@, l.body.stmts@.len() as int);
    let c = s.next_reg;
    let a = s.reg_taken();
    let s1 = load_named(a, c, &name);
    let top = s1.fresh_label();
    let after = s1.label_taken().fresh_label();
    let b = s1.label_taken().label_taken();
    let d = b.aux(Op::NewLabel(top));
    let f = d.aux(Op::NewLabel(after));
    let g = f.label_def(top);
    let reads = seq![int_slot(local), int_slot(c)];
    let goto = Op::GotoIfNotIntEq(local, c, after);
    let q = g.branch(reads, after, goto);
    let (u, done) = loop_steps(q, &l.body.stmts, 0, known);
    let v = u.jump(top);
    lemma_label_def(v, after);
    lemma_jump(u, top);
    crate::extended_arg::grows_loop_steps(q, &l.body.stmts, 0, known);
    lemma_not_rejected(q, u);
    lemma_branched(g, reads, after, goto);
    lemma_label_def(f, top);
    lemma_aux(d, Op::NewLabel(after));
    lemma_aux(b, Op::NewLabel(top));
    lemma_taken(s1);
    lemma_taken(s1.label_taken());
    reveal(load_named);
    let load = Op::LoadNamedConst(c, &name);
    let writes = seq![int_slot(c)];
    lemma_emitted_op(a, OpKind::LoadConstI, seq![], writes, load);
    assert(writes[0].reg == c);
    lemma_taken(s);
    assert(later(s, q));
    let body = added(q, u);
    assert(u.statements =~= q.statements + body);
    let code = inner_code(Instr::Op(load), local, c, top, after, body);
    assert(added(s, t) =~= code);
    assert(s.statements.is_prefix_of(t.statements)) by {
        assert forall|i: int| 0 <= i < s.statements.len() implies s.statements[i]
            == t.statements[i] by {
            assert(q.statements[i] == u.statements[i]);
        }
    }
    assert forall|w: World<'a>, k: nat, m: Machine<'a>, n: Machine<'a>| #[trigger]
        equal_rounds(
            w,
            local,
            c,
            body,
            k,
            m.with_word(c, (w.named)(name@)),
            n,
        ) implies ran(w, s, t, m, n) by {
        let x = m.with_word(c, (w.named)(name@));
        lemma_inner_rounds(w, Instr::Op(load), local, c, top, after, body, k, x, n);
        let z = code.len() as int;
        assert(code[3] == mark::<'a>(top));
        assert(step(w, code, x, 3, x, 4));
        lemma_first(w, code, x, 3, x, 4, n, z);
        assert(step(w, code, x, 2, x, 3));
        lemma_first(w, code, x, 2, x, 3, n, z);
        assert(step(w, code, x, 1, x, 2));
        lemma_first(w, code, x, 1, x, 2, n, z);
        assert(step(w, code, m, 0, x, 1));
        lemma_first(w, code, m, 0, x, 1, n, z);
        reveal(ran);
    }
}

// ── Up to the dispatch ───────────────────────────────────────────────

/// Where the lowering of a dispatch starts, `program` and `pc` are bound to registers
/// that were handed out: the first one for references and the first one for integers.
pub proof fn law_program_and_pc_are_bound_at_the_start<'a>(config: &'a LowererConfig)
    ensures
        ({
            let s = entry_state(config);
            &&& has_pc(s)
            &&& pc_reg(s) == 0
            &&& s.bindings.contains_key("program"@)
            &&& s.bindings["program"@] == Binding::fixed(BindingKind::Ref, 0)
            &&& s.next_reg > 0
        }),
{
    reveal(entry_state);
    reveal(LowerState::bind);
    reveal_strlit("program");
    reveal_strlit("pc");
    assert("program"@.len() != "pc"@.len());
}

/// The statements between the merge point and the dispatch run in order.
pub proof fn law_statements_before_the_dispatch_run_in_order<'a>(
    w: World<'a>,
    s: LowerState<'a>,
    stmts: &'a Vec<Stmt>,
    i: int,
    id: NodeId,
    m: Machine<'a>,
    x: Machine<'a>,
    n: Machine<'a>,
)
    requires
        0 <= i < stmts.len(),
        !crate::search::stmt_holds(stmts[i], id),
        !is_merge_point(stmts[i]),
        pre_dispatch_step(s, &stmts[i]).1,
        ran(w, s, pre_dispatch_step(s, &stmts[i]).0, m, x),
        ran(
            w,
            pre_dispatch_step(s, &stmts[i]).0,
            pre_dispatch(pre_dispatch_step(s, &stmts[i]).0, stmts, i + 1, id, true),
            x,
            n,
        ),
    ensures
        ran(w, s, pre_dispatch(s, stmts, i, id, true), m, n),
{
    let s1 = pre_dispatch_step(s, &stmts[i]).0;
    lemma_ran_both(w, s, s1, pre_dispatch(s1, stmts, i + 1, id, true), m, x, n);
}

/// A fetch or an advance between the merge point and the dispatch is lowered as such,
/// and so is the loop of the extended argument.
pub proof fn law_fetches_before_the_dispatch_are_lowered<'a>(s: LowerState<'a>, stmt: &'a Stmt)
    ensures
        stmt matches Stmt::Local(l) ==> fetch_byte(s, &l).1 ==> pre_dispatch_step(s, stmt)
            == fetch_byte(s, &l),
        !(stmt is Local) && advance_pc(s, *stmt).1 ==> pre_dispatch_step(s, stmt) == advance_pc(
            s,
            *stmt,
        ),
        stmt matches Stmt::Expr(e, _) ==> e.kind matches ExprKind::While(l) ==> compares_names(
            *l.cond,
        ) && inner_while(s, &l).1 ==> pre_dispatch_step(s, stmt) == inner_while(s, &l),
{
    reveal(pre_dispatch_step);
    reveal(opcode_fetch);
    assert(stmt matches Stmt::Expr(e, _) ==> e.kind is While ==> advance_pc(s, *stmt) == (
        s,
        false,
    )) by {
        reveal(advance_pc);
        reveal(increment);
    }
}

/// Each statement in the loop of the extended argument is lowered as a fetch into a
/// variable, a fetch, an advance, a range check or a merge, the first of these that it
/// is.
pub proof fn law_inner_statements_are_lowered<'a>(
    s: LowerState<'a>,
    stmt: &'a Stmt,
    known: Map<Seq<char>, u16>,
)
    ensures
        fetch_alias(s, *stmt, known).1 ==> loop_step(s, stmt, known) == fetch_alias(
            s,
            *stmt,
            known,
        ),
        !(stmt is Local) && advance_pc(s, *stmt).1 ==> loop_step(s, stmt, known) == advance_pc(
            s,
            *stmt,
        ),
        range_check(s.bindings, *stmt) is Some ==> loop_step(s, stmt, known) == check_range(
            s,
            stmt,
        ),
        merge(s.bindings, *stmt) is Some ==> loop_step(s, stmt, known) == merge_arg(s, *stmt),
{
    reveal(loop_step);
    reveal(opcode_fetch);
    reveal(fetch_alias);
    assert(range_check(s.bindings, *stmt) is Some || merge(s.bindings, *stmt) is Some ==> !(
    stmt is Local) && advance_pc(s, *stmt) == (s, false)) by {
        reveal(advance_pc);
        reveal(increment);
        reveal(range_check);
        reveal(merge);
    }
    assert(range_check(s.bindings, *stmt) is Some ==> check_range(s, stmt).1) by {
        reveal(check_range);
    }
    assert(merge(s.bindings, *stmt) is Some ==> merge_arg(s, *stmt).1 && check_range(s, stmt) == (
        s,
        false,
    )) by {
        reveal(merge_arg);
        reveal(check_range);
        reveal(range_check);
        reveal(merge);
    }
}

/// The statements in the loop of the extended argument run in order.
pub proof fn law_inner_statements_run_in_order<'a>(
    w: World<'a>,
    s: LowerState<'a>,
    stmts: &'a Vec<Stmt>,
    i: int,
    known: Map<Seq<char>, u16>,
    m: Machine<'a>,
    x: Machine<'a>,
    n: Machine<'a>,
)
    requires
        0 <= i < stmts.len(),
        loop_steps(s, stmts, i, known).1,
        ran(w, s, loop_step(s, &stmts[i], known).0, m, x),
        ran(
            w,
            loop_step(s, &stmts[i], known).0,
            loop_steps(loop_step(s, &stmts[i], known).0, stmts, i + 1, known).0,
            x,
            n,
        ),
    ensures
        loop_step(s, &stmts[i], known).1,
        ran(w, s, loop_steps(s, stmts, i, known).0, m, n),
{
    let s1 = loop_step(s, &stmts[i], known).0;
    lemma_ran_both(w, s, s1, loop_steps(s1, stmts, i + 1, known).0, m, x, n);
}

/// The opcode that the dispatch tests is the byte that was fetched last: the one that
/// its name stands for. To advance `pc` does not change that.
pub proof fn law_the_opcode_is_the_byte_fetched_last<'a>(
    s: LowerState<'a>,
    l: &'a Local,
    name: String,
    stmt: Stmt,
)
    ensures
        let_name(l.pat) == Some(name) && fetch_byte(s, l).1 ==> {
            let t = fetch_byte(s, l).0;
            t.bindings.contains_key(name@) && opcode_register(t) == Some(t.bindings[name@].reg)
        },
        opcode_register(advance_pc(s, stmt).0) == opcode_register(s),
{
    reveal(fetch_byte);
    reveal(LowerState::bind);
    reveal(advance_pc);
    reveal(crate::fetch::combine_const);
    reveal(crate::fetch::load_const);
    reveal(LowerState::emit_op);
    reveal(LowerState::emit);
    reveal(LowerState::push);
    reveal(LowerState::reject);
    reveal(LowerState::reg_taken);
}

} // verus!
