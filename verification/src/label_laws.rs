//! Labels are defined once, so that runs have one course.

use vstd::prelude::*;

use crate::ast::{Block, Expr, ExprIf, ExprKind, ExprWhile};
use crate::branch_laws::{
    if_code, is_block_code, is_else_code, is_loop_code, lemma_control_form, lemma_if_code_behind,
    lemma_if_stmt_tail, lemma_joined_later, round_code, tested, while_test,
};
use crate::code_runs::{
    added, lemma_append, lemma_aux, lemma_guarded, lemma_jump, lemma_label_def, lemma_live,
    lemma_not_rejected, lemma_taken,
};
use crate::growth::{branch_between, grows, mark, marked};
use crate::growth_forms::{grows_branch_block, grows_else_branch, grows_loop_body, grows_value};
use crate::lower_spec::{
    branch_block, else_branch, expr_stmt, if_stmt_tail, loop_body, loop_stmts, lower_stmts, value,
};
use crate::lowerer::LowerState;
use crate::machine::{Machine, path, World};
use crate::ops::{Label, Op, StmtView};

verus! {

/// Whether no label is defined twice in the code.
pub open spec fn defined_once<'a>(code: Seq<StmtView<'a>>) -> bool {
    forall|x: int, y: int, l: Label|
        #![trigger marked(code, x, l), marked(code, y, l)]
        marked(code, x, l) && marked(code, y, l) ==> x == y
}

/// Whether the labels that are defined in the code are in a range.
pub open spec fn labels_in<'a>(code: Seq<StmtView<'a>>, lo: int, hi: int) -> bool {
    forall|x: int, l: Label| #[trigger] marked(code, x, l) ==> lo <= l.id < hi
}

/// Where no label is defined twice, so many steps lead to one place only.
pub proof fn law_runs_have_one_course<'a>(
    w: World<'a>,
    code: Seq<StmtView<'a>>,
    m: Machine<'a>,
    pc: int,
    steps: nat,
    a: Machine<'a>,
    p: int,
    b: Machine<'a>,
    q: int,
)
    requires
        defined_once(code),
        path(w, code, m, pc, steps, a, p),
        path(w, code, m, pc, steps, b, q),
    ensures
        a == b,
        p == q,
    decreases steps,
{
    if steps > 0 {
        let (x, i) = choose|x: Machine<'a>, i: int| #[trigger]
            crate::machine::step(w, code, m, pc, x, i) && path(
                w,
                code,
                x,
                i,
                (steps - 1) as nat,
                a,
                p,
            );
        let (y, j) = choose|y: Machine<'a>, j: int| #[trigger]
            crate::machine::step(w, code, m, pc, y, j) && path(
                w,
                code,
                y,
                j,
                (steps - 1) as nat,
                b,
                q,
            );
        crate::machine::law_steps_have_one_outcome(w, code, m, pc, x, i, y, j);
        law_runs_have_one_course(w, code, x, i, (steps - 1) as nat, a, p, b, q);
    }
}

proof fn lemma_if_marks<'a>(
    head: Seq<StmtView<'a>>,
    c: u16,
    other: Label,
    end: Label,
    a: Seq<StmtView<'a>>,
    b: Seq<StmtView<'a>>,
    x: int,
    l: Label,
)
    requires
        marked(if_code(tested(head, other, end), c, other, a, end, b), x, l),
    ensures
        ({
            let p = head.len() + 4;
            let q = p + a.len();
            ||| x < head.len() && marked(head, x, l)
            ||| p <= x < q && marked(a, x - p, l)
            ||| x == q + 1 && l == other
            ||| q + 2 <= x < q + 2 + b.len() && marked(b, x - q - 2, l)
            ||| x == q + 2 + b.len() && l == end
        }),
{
    let code = if_code(tested(head, other, end), c, other, a, end, b);
    let p = head.len() + 4;
    let q = p + a.len();
    assert(code[x] == mark::<'a>(l));
    if x < head.len() {
        assert(code[x] == head[x]);
    } else if x < p {
    } else if x < q {
        assert(code[x] == a[x - p]);
    } else if x < q + 2 {
    } else if x < q + 2 + b.len() {
        assert(code[x] == b[x - q - 2]);
    }
}

proof fn lemma_if_once<'a>(
    head: Seq<StmtView<'a>>,
    c: u16,
    other: Label,
    end: Label,
    a: Seq<StmtView<'a>>,
    b: Seq<StmtView<'a>>,
    lo: int,
    h: int,
    i: int,
    j: int,
    k: int,
)
    requires
        labels_in(head, lo, h),
        other.id == h,
        end.id == h + 1,
        h + 2 <= i,
        labels_in(a, i, j),
        i <= j,
        labels_in(b, j, k),
        defined_once(head),
        defined_once(a),
        defined_once(b),
    ensures
        defined_once(if_code(tested(head, other, end), c, other, a, end, b)),
{
    let code = if_code(tested(head, other, end), c, other, a, end, b);
    let p = head.len() + 4;
    let q = p + a.len();
    assert forall|x: int, y: int, l: Label|
        #![trigger marked(code, x, l), marked(code, y, l)]
        marked(code, x, l) && marked(code, y, l) implies x == y by {
        lemma_if_marks(head, c, other, end, a, b, x, l);
        lemma_if_marks(head, c, other, end, a, b, y, l);
        if p <= x < q && p <= y < q {
            assert(marked(a, x - p, l) && marked(a, y - p, l));
        }
        if q + 2 <= x < q + 2 + b.len() && q + 2 <= y < q + 2 + b.len() {
            assert(marked(b, x - q - 2, l) && marked(b, y - q - 2, l));
        }
    }
}

proof fn lemma_added_labels<'a>(s: LowerState<'a>, t: LowerState<'a>)
    requires
        grows(s, t),
        t.next_label < u16::MAX,
    ensures
        labels_in(added(s, t), s.next_label as int, t.next_label as int),
{
    reveal(grows);
    let code = added(s, t);
    assert forall|x: int, l: Label| #[trigger] marked(code, x, l) implies s.next_label <= l.id
        < t.next_label by {
        let k = s.statements.len() + x;
        assert(t.statements[k] == code[x]);
        assert(marked(t.statements, k, l));
    }
}

proof fn lemma_branch_labels<'a>(
    s: LowerState<'a>,
    t: LowerState<'a>,
    b: crate::lower_spec::Branch<'a>,
)
    requires
        branch_between(s, t, b),
        t.next_label < u16::MAX,
    ensures
        labels_in(b.0, s.next_label as int, t.next_label as int),
{
    reveal(branch_between);
    assert forall|x: int, l: Label| #[trigger] marked(b.0, x, l) implies s.next_label <= l.id
        < t.next_label by {}
}

/// The code of an `if` in statement position defines no label twice where its
/// condition and its branches do not, as long as labels do not run out. So it has one
/// course, and runs only the branch that its condition chooses.
pub proof fn law_if_defines_its_labels_once<'a>(s: LowerState<'a>, e: &'a Expr, i: ExprIf)
    requires
        e.kind == ExprKind::If(i),
        expr_stmt(s, e).1,
        expr_stmt(s, e).0.rejected is None,
        expr_stmt(s, e).0.next_label < u16::MAX,
    ensures
        ({
            let s1 = value(s, &*i.cond).0;
            let t = expr_stmt(s, e).0;
            exists|
                p: LowerState<'a>,
                then_code: Seq<StmtView<'a>>,
                q: LowerState<'a>,
                else_code: Seq<StmtView<'a>>,
            |
                #![trigger is_block_code(p, &i.then_branch.stmts, then_code), is_else_code(q, i, else_code)]
                is_block_code(p, &i.then_branch.stmts, then_code) && is_else_code(q, i, else_code)
                    && (defined_once(added(s, s1)) && defined_once(then_code) && defined_once(
                    else_code,
                ) ==> defined_once(added(s, t)))
        }),
{
    lemma_control_form(s, e);
    let (s1, cond) = value(s, &*i.cond);
    let c = cond->0.reg;
    let other = s1.fresh_label();
    let end = s1.label_taken().fresh_label();
    let p = s1.label_taken().label_taken();
    lemma_taken(s1);
    lemma_taken(s1.label_taken());
    let (q, a) = branch_block(p, &i.then_branch.stmts);
    let (s3, b) = else_branch(q, e);
    let t = if_stmt_tail(s3, c, other, end, a->0, b->0);
    assert(expr_stmt(s, e).0 == t);
    lemma_if_stmt_tail(s3, c, other, end, a->0, b->0);
    lemma_tail_labels(s3, c, other, end, a->0, b->0);
    grows_value(s, &*i.cond);
    grows_branch_block(p, &i.then_branch.stmts);
    grows_else_branch(q, e);
    assert(p.next_label <= q.next_label && q.next_label <= s3.next_label) by {
        reveal(grows);
    }
    assert(s.statements.is_prefix_of(s1.statements)) by {
        reveal(grows);
    }
    lemma_branch_labels(p, q, a->0);
    lemma_branch_labels(q, s3, b->0);
    assert(s1.next_label < u16::MAX);
    lemma_added_labels(s, s1);
    lemma_joined_later(
        p,
        lower_stmts(p.nested(), &i.then_branch.stmts, 0, i.then_branch.stmts.len() as int).0,
    );
    crate::branch_laws::lemma_else_later(q, e);
    lemma_if_code_behind(s, s1, t, c, other, end, (a->0).0, (b->0).0);
    let head = added(s, s1);
    if defined_once(head) && defined_once((a->0).0) && defined_once((b->0).0) {
        lemma_if_once(
            head,
            c,
            other,
            end,
            (a->0).0,
            (b->0).0,
            s.next_label as int,
            s1.next_label as int,
            p.next_label as int,
            q.next_label as int,
            s3.next_label as int,
        );
    }
    assert(is_block_code(p, &i.then_branch.stmts, (a->0).0));
    assert(is_else_code(q, i, (b->0).0));
}

proof fn lemma_tail_labels<'a>(
    s: LowerState<'a>,
    c: u16,
    other: Label,
    end: Label,
    a: crate::lower_spec::Branch<'a>,
    b: crate::lower_spec::Branch<'a>,
)
    ensures
        if_stmt_tail(s, c, other, end, a, b).next_label == s.next_label,
{
    reveal(if_stmt_tail);
    reveal(LowerState::aux);
    reveal(LowerState::live);
    reveal(LowerState::guard);
    reveal(LowerState::branch);
    reveal(LowerState::reject);
    reveal(LowerState::append);
    reveal(LowerState::jump);
    reveal(LowerState::label_def);
    reveal(LowerState::push);
}

// ── Loops ────────────────────────────────────────────────────────────

proof fn lemma_round_once<'a>(
    again: Label,
    over: Label,
    head: Seq<StmtView<'a>>,
    body: Seq<StmtView<'a>>,
    i: int,
    j: int,
    k: int,
)
    requires
        again.id < over.id < i,
        labels_in(head, i, j),
        i <= j,
        labels_in(body, j, k),
        defined_once(head),
        defined_once(body),
    ensures
        defined_once(round_code(again, over, head, body)),
{
    let code = round_code(again, over, head, body);
    let q = 3 + head.len();
    let z = q + body.len();
    assert forall|x: int, l: Label| #[trigger] marked(code, x, l) implies {
        ||| x == 2 && l == again
        ||| 3 <= x < q && marked(head, x - 3, l)
        ||| q <= x < z && marked(body, x - q, l)
        ||| x == z + 1 && l == over
    } by {
        assert(code[x] == mark::<'a>(l));
        if x < 3 {
        } else if x < q {
            assert(code[x] == head[x - 3]);
        } else if x < z {
            assert(code[x] == body[x - q]);
        }
    }
    assert forall|x: int, y: int, l: Label|
        #![trigger marked(code, x, l), marked(code, y, l)]
        marked(code, x, l) && marked(code, y, l) implies x == y by {
        if 3 <= x < q && 3 <= y < q {
            assert(marked(head, x - 3, l) && marked(head, y - 3, l));
        }
        if q <= x < z && q <= y < z {
            assert(marked(body, x - q, l) && marked(body, y - q, l));
        }
    }
}

/// The code of a `loop` defines no label twice where its body does not, as long as
/// labels do not run out.
pub proof fn law_loop_defines_its_labels_once<'a>(s: LowerState<'a>, e: &'a Expr, l: Block)
    requires
        e.kind == ExprKind::Loop(l),
        expr_stmt(s, e).1,
        expr_stmt(s, e).0.rejected is None,
        expr_stmt(s, e).0.next_label < u16::MAX,
    ensures
        exists|q: LowerState<'a>, over: Label, again: Label, body: Seq<StmtView<'a>>| #[trigger]
            is_loop_code(q, &l.stmts, over, again, body) && (defined_once(body) ==> defined_once(
                added(s, expr_stmt(s, e).0),
            )),
{
    lemma_control_form(s, e);
    let again = s.fresh_label();
    let over = s.label_taken().fresh_label();
    let a = s.label_taken().label_taken();
    let b = a.aux(Op::NewLabel(again));
    let c = b.aux(Op::NewLabel(over));
    let q = c.label_def(again);
    let (x, body) = loop_body(q, &l.stmts, over, again);
    let y = x.append(body->0);
    let z = y.jump(again);
    let t = z.label_def(over);
    lemma_label_def(z, over);
    lemma_jump(y, again);
    lemma_append(x, body->0);
    lemma_joined_later(q, loop_stmts(q.nested(), &l.stmts, 0, over, again).0);
    grows_loop_body(q, &l.stmts, over, again);
    lemma_not_rejected(q, x);
    lemma_label_def(c, again);
    lemma_aux(b, Op::NewLabel(over));
    lemma_aux(a, Op::NewLabel(again));
    lemma_taken(s);
    lemma_taken(s.label_taken());
    let code = (body->0).0;
    assert(added(s, t) =~= round_code(again, over, seq![], code));
    lemma_branch_labels(q, x, body->0);
    if defined_once(code) {
        lemma_round_once(
            again,
            over,
            seq![],
            code,
            q.next_label as int,
            q.next_label as int,
            x.next_label as int,
        );
    }
    assert(is_loop_code(q, &l.stmts, over, again, code));
}

/// The code of a `while` loop defines no label twice where its condition and its body
/// do not, as long as labels do not run out.
pub proof fn law_while_defines_its_labels_once<'a>(s: LowerState<'a>, e: &'a Expr, l: ExprWhile)
    requires
        e.kind == ExprKind::While(l),
        expr_stmt(s, e).1,
        expr_stmt(s, e).0.rejected is None,
        expr_stmt(s, e).0.next_label < u16::MAX,
    ensures
        exists|
            p: LowerState<'a>,
            q: LowerState<'a>,
            over: Label,
            again: Label,
            body: Seq<StmtView<'a>>,
        |
            #![trigger value(p, &*l.cond), is_loop_code(q, &l.body.stmts, over, again, body)]
            is_loop_code(q, &l.body.stmts, over, again, body) && (defined_once(
                added(p, value(p, &*l.cond).0),
            ) && defined_once(body) ==> defined_once(added(s, expr_stmt(s, e).0))),
{
    lemma_control_form(s, e);
    let again = s.fresh_label();
    let over = s.label_taken().fresh_label();
    let a = s.label_taken().label_taken();
    let b = a.aux(Op::NewLabel(again));
    let c = b.aux(Op::NewLabel(over));
    let p = c.label_def(again);
    let (p1, cond) = value(p, &*l.cond);
    let reg = cond->0.reg;
    let d = p1.live();
    let q = d.guard(reg, over);
    let (x, body) = loop_body(q, &l.body.stmts, over, again);
    let y = x.append(body->0);
    let z = y.jump(again);
    let t = z.label_def(over);
    lemma_label_def(z, over);
    lemma_jump(y, again);
    lemma_append(x, body->0);
    lemma_joined_later(q, loop_stmts(q.nested(), &l.body.stmts, 0, over, again).0);
    grows_loop_body(q, &l.body.stmts, over, again);
    lemma_not_rejected(q, x);
    lemma_guarded(d, reg, over);
    lemma_live(p1);
    grows_value(p, &*l.cond);
    lemma_not_rejected(p, p1);
    lemma_label_def(c, again);
    lemma_aux(b, Op::NewLabel(over));
    lemma_aux(a, Op::NewLabel(again));
    lemma_taken(s);
    lemma_taken(s.label_taken());
    let code = (body->0).0;
    let first = added(p, p1);
    let head = while_test(first, reg, over);
    assert(added(s, t) =~= round_code(again, over, head, code)) by {
        assert(p1.statements =~= p.statements + first);
    }
    lemma_branch_labels(q, x, body->0);
    lemma_added_labels(p, p1);
    if defined_once(first) && defined_once(code) {
        assert forall|j: int, k: Label| #[trigger] marked(head, j, k) implies marked(
            first,
            j,
            k,
        ) by {
            assert(head[j] == mark::<'a>(k));
            if j < first.len() {
                assert(head[j] == first[j]);
            }
        }
        lemma_round_once(
            again,
            over,
            head,
            code,
            p.next_label as int,
            q.next_label as int,
            x.next_label as int,
        );
    }
    assert(is_loop_code(q, &l.body.stmts, over, again, code));
}

} // verus!
