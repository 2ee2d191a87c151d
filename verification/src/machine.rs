//! A machine that runs lowered code: what each statement does.

use vstd::prelude::*;

use crate::ast::{BinOp, Expr};
use crate::growth::marked;
use crate::kinds::{BindingKind, Register};
use crate::ops::{ArmBody, Banked, CallTarget, Instr, IntOpcode, Label, Op, PatValue, StmtView};
use crate::policy::CallResultKind;

verus! {

// ── Machine states ───────────────────────────────────────────────────

/// What a call calls.
pub enum Callee<'a> {
    Func(&'a Expr),
    Shim(&'a String),
    Method(&'a String, &'a String),
}

/// What a machine does besides changing its state.
pub enum Event<'a> {
    /// A call, with the bank and the value of each argument.
    Called(Callee<'a>, Seq<(BindingKind, i64)>),
    /// A call of inlined code, with the value of each argument and the callee's
    /// register for it.
    Inlined(&'a Expr, Banked<Seq<(i64, u16)>>),
    /// The result of a call is known.
    Known(&'a Expr, i64, Seq<(BindingKind, i64)>),
    /// A value is pinned.
    Pinned(BindingKind, i64),
    /// A virtualizable is written back.
    Forced(i64),
    LoopHeader,
    /// A merge point, with the registers of its greens and reds.
    MergePoint(Banked<Seq<u8>>, Banked<Seq<u8>>),
    /// The body of a dispatch arm, with its locals.
    Arm(ArmBody, Banked<Seq<(i64, u16)>>),
}

/// Registers, the interpreter's state, and what has happened so far.
#[verifier::ext_equal]
pub struct Machine<'a> {
    pub regs: spec_fn(BindingKind, u16) -> i64,
    /// The scalar fields of the interpreter's state.
    pub fields: spec_fn(u16) -> i64,
    /// The items of its arrays, virtualizable or not.
    pub arrays: spec_fn(bool, u16, i64) -> i64,
    /// The fields of the virtualizable at an address.
    pub vable_fields: spec_fn(i64, u16) -> i64,
    /// The items of its arrays.
    pub vable_items: spec_fn(i64, u16, i64) -> i64,
    pub events: Seq<Event<'a>>,
}

/// What lowered code finds outside: constants, the program's bytes, and what
/// callees return.
pub struct World<'a> {
    pub named: spec_fn(Seq<char>) -> i64,
    pub quoted: spec_fn(Expr) -> i64,
    pub patterns: spec_fn(PatValue<'a>) -> i64,
    /// The byte at an index of the array at an address.
    pub bytes: spec_fn(i64, i64) -> i64,
    /// The length of an array of the virtualizable at an address.
    pub lengths: spec_fn(i64, u16) -> i64,
    /// The bank of what an inlined callee returns.
    pub banks: spec_fn(Expr) -> BindingKind,
    /// What a call returns, which may depend on all that happened before.
    pub results: spec_fn(Event<'a>, Seq<Event<'a>>) -> i64,
}

impl<'a> Machine<'a> {
    pub open spec fn word(self, r: u16) -> i64 {
        (self.regs)(BindingKind::Int, r)
    }

    pub open spec fn with_reg(self, kind: BindingKind, r: u16, v: i64) -> Machine<'a> {
        let before = self.regs;
        Machine {
            regs: |k: BindingKind, x: u16|
                if k == kind && x == r {
                    v
                } else {
                    before(k, x)
                },
            ..self
        }
    }

    pub open spec fn with_word(self, r: u16, v: i64) -> Machine<'a> {
        self.with_reg(BindingKind::Int, r, v)
    }

    pub open spec fn with_field(self, field: u16, v: i64) -> Machine<'a> {
        let before = self.fields;
        Machine {
            fields: |x: u16|
                if x == field {
                    v
                } else {
                    before(x)
                },
            ..self
        }
    }

    pub open spec fn with_item(self, virt: bool, array: u16, index: i64, v: i64) -> Machine<'a> {
        let before = self.arrays;
        Machine {
            arrays: |p: bool, x: u16, i: i64|
                if p == virt && x == array && i == index {
                    v
                } else {
                    before(p, x, i)
                },
            ..self
        }
    }

    pub open spec fn with_vable_field(self, base: i64, field: u16, v: i64) -> Machine<'a> {
        let before = self.vable_fields;
        Machine {
            vable_fields: |b: i64, x: u16|
                if b == base && x == field {
                    v
                } else {
                    before(b, x)
                },
            ..self
        }
    }

    pub open spec fn with_vable_item(self, base: i64, array: u16, index: i64, v: i64) -> Machine<'a> {
        let before = self.vable_items;
        Machine {
            vable_items: |b: i64, x: u16, i: i64|
                if b == base && x == array && i == index {
                    v
                } else {
                    before(b, x, i)
                },
            ..self
        }
    }

    pub open spec fn does(self, e: Event<'a>) -> Machine<'a> {
        Machine { events: self.events.push(e), ..self }
    }

    /// Bank and value of each register of a list.
    pub open spec fn values(self, regs: Seq<Register>) -> Seq<(BindingKind, i64)> {
        Seq::new(regs.len(), |i: int| (regs[i].kind, (self.regs)(regs[i].kind, regs[i].index as u16)))
    }

    /// The values of the caller's registers, each with the callee's register.
    pub open spec fn handed(self, kind: BindingKind, pairs: Seq<(u16, u16)>) -> Seq<(i64, u16)> {
        Seq::new(pairs.len(), |i: int| ((self.regs)(kind, pairs[i].0), pairs[i].1))
    }

    pub open spec fn handed_banks(self, args: Banked<Seq<(u16, u16)>>) -> Banked<Seq<(i64, u16)>> {
        Banked {
            i: self.handed(BindingKind::Int, args.i),
            r: self.handed(BindingKind::Ref, args.r),
            f: self.handed(BindingKind::Float, args.f),
        }
    }
}

/// What a target calls. A wrapped callee is the callee itself.
pub open spec fn callee<'a>(t: CallTarget<'a>) -> Callee<'a> {
    match t {
        CallTarget::FnPtr(f) => Callee::Func(f),
        CallTarget::Wrapped(f) => Callee::Func(f),
        CallTarget::Shim(name) => Callee::Shim(name),
        CallTarget::Method(owner, name) => Callee::Method(owner, name),
    }
}

// ── Operators ────────────────────────────────────────────────────────

/// The largest integer that is no larger than the quotient.
pub open spec fn floor_quotient(a: int, b: int) -> int {
    if b > 0 {
        a / b
    } else {
        (-a) / (-b)
    }
}

pub open spec fn truth(b: bool) -> i64 {
    if b {
        1
    } else {
        0
    }
}

/// What an operation computes. Results wrap around.
pub open spec fn apply(op: IntOpcode, a: i64, b: i64) -> i64 {
    match op {
        IntOpcode::IntAdd => (a + b) as i64,
        IntOpcode::IntSub => (a - b) as i64,
        IntOpcode::IntMul => (a * b) as i64,
        IntOpcode::IntFloorDiv => floor_quotient(a as int, b as int) as i64,
        IntOpcode::IntMod => (a - b * floor_quotient(a as int, b as int)) as i64,
        IntOpcode::IntAnd => a & b,
        IntOpcode::IntOr => a | b,
        IntOpcode::IntXor => a ^ b,
        IntOpcode::IntLshift => a << b,
        IntOpcode::IntRshift => a >> b,
        IntOpcode::IntEq => truth(a == b),
        IntOpcode::IntNe => truth(a != b),
        IntOpcode::IntLt => truth(a < b),
        IntOpcode::IntLe => truth(a <= b),
        IntOpcode::IntGt => truth(a > b),
        IntOpcode::IntGe => truth(a >= b),
    }
}

/// What an operator of the source means, as far as it is defined for the
/// operands: a result has to fit, a shift has to be shorter than a word, and of
/// division only that of numbers without a sign is said.
pub open spec fn meaning(op: BinOp, a: i64, b: i64) -> Option<int> {
    match op {
        BinOp::Add => fitting(a + b),
        BinOp::Sub => fitting(a - b),
        BinOp::Mul => fitting(a * b),
        BinOp::Div => if a >= 0 && b > 0 {
            Some(a as int / b as int)
        } else {
            None
        },
        BinOp::Rem => if a >= 0 && b > 0 {
            Some(a as int % b as int)
        } else {
            None
        },
        BinOp::BitAnd => Some((a & b) as int),
        BinOp::BitOr => Some((a | b) as int),
        BinOp::BitXor => Some((a ^ b) as int),
        BinOp::Shl => if 0 <= b < 64 {
            Some((a << b) as int)
        } else {
            None
        },
        BinOp::Shr => if 0 <= b < 64 {
            Some((a >> b) as int)
        } else {
            None
        },
        BinOp::Eq => Some(truth(a == b) as int),
        BinOp::Ne => Some(truth(a != b) as int),
        BinOp::Lt => Some(truth(a < b) as int),
        BinOp::Le => Some(truth(a <= b) as int),
        BinOp::Gt => Some(truth(a > b) as int),
        BinOp::Ge => Some(truth(a >= b) as int),
        _ => None,
    }
}

pub open spec fn fitting(v: int) -> Option<int> {
    if i64::MIN <= v <= i64::MAX {
        Some(v)
    } else {
        None
    }
}

// ── Statements ───────────────────────────────────────────────────────

/// Where control goes behind a statement.
pub enum Control {
    /// To the next statement.
    Falls,
    Goes(Label),
    /// Nowhere.
    Stops,
}

pub open spec fn goes_unless(holds: bool, l: Label) -> Control {
    if holds {
        Control::Falls
    } else {
        Control::Goes(l)
    }
}

pub open spec fn control<'a>(stmt: StmtView<'a>, m: Machine<'a>) -> Control {
    match stmt {
        Instr::Op(op) => match op {
            Op::Jump(l) => Control::Goes(l),
            Op::GotoIfNotIntIsTrue(r, l) => goes_unless(m.word(r) != 0, l),
            Op::GotoIfNotIntEq(a, b, l) => goes_unless(m.word(a) == m.word(b), l),
            Op::GotoIfNotIntLt(a, b, l) => goes_unless(m.word(a) < m.word(b), l),
            Op::Abort | Op::Return(_, _) | Op::VoidReturn => Control::Stops,
            _ => Control::Falls,
        },
        _ => Control::Falls,
    }
}

/// What a statement without lists does.
pub open spec fn op_effect<'a>(w: World<'a>, op: Op<'a>, m: Machine<'a>) -> Machine<'a> {
    match op {
        Op::RuntimeConst(dst, _, e) => m.with_word(dst, (w.quoted)(*e)),
        Op::LoadConst(dst, v) => m.with_word(dst, v),
        Op::LoadNamedConst(dst, name) => m.with_word(dst, (w.named)(name@)),
        Op::LoadPatValue(dst, v) => m.with_word(dst, (w.patterns)(v)),
        Op::MoveI(dst, src) => m.with_word(dst, m.word(src)),
        Op::Binop(dst, opcode, a, b) => m.with_word(dst, apply(opcode, m.word(a), m.word(b))),
        Op::IntNeg(dst, src) => m.with_word(dst, (-m.word(src)) as i64),
        Op::LoopHeader => m.does(Event::LoopHeader),
        Op::VableSetfield(ty, base, field, src) => m.with_vable_field(
            (m.regs)(BindingKind::Ref, base),
            field,
            (m.regs)(ty.bank(), src),
        ),
        Op::VableSetarrayitem(ty, base, array, index, src) => m.with_vable_item(
            (m.regs)(BindingKind::Ref, base),
            array,
            m.word(index),
            (m.regs)(ty.bank(), src),
        ),
        Op::VableGetfield(ty, dst, base, field) => m.with_reg(
            ty.bank(),
            dst,
            (m.vable_fields)((m.regs)(BindingKind::Ref, base), field),
        ),
        Op::VableGetarrayitem(ty, dst, base, array, index) => m.with_reg(
            ty.bank(),
            dst,
            (m.vable_items)((m.regs)(BindingKind::Ref, base), array, m.word(index)),
        ),
        Op::VableArraylen(dst, base, array) => m.with_word(
            dst,
            (w.lengths)((m.regs)(BindingKind::Ref, base), array),
        ),
        Op::VableForce(base) => m.does(Event::Forced((m.regs)(BindingKind::Ref, base))),
        Op::StoreStateField(field, src) => m.with_field(field, m.word(src)),
        Op::LoadStateField(field, dst) => m.with_word(dst, (m.fields)(field)),
        Op::StoreStateVarray(array, index, src) => m.with_item(
            true,
            array,
            m.word(index),
            m.word(src),
        ),
        Op::StoreStateArray(array, index, src) => m.with_item(
            false,
            array,
            m.word(index),
            m.word(src),
        ),
        Op::LoadStateVarray(array, index, dst) => m.with_word(
            dst,
            (m.arrays)(true, array, m.word(index)),
        ),
        Op::LoadStateArray(array, index, dst) => m.with_word(
            dst,
            (m.arrays)(false, array, m.word(index)),
        ),
        Op::GetarrayitemGcI(dst, base, index) => m.with_word(
            dst,
            (w.bytes)((m.regs)(BindingKind::Ref, base), m.word(index)),
        ),
        Op::GuardValue(kind, r) => m.does(Event::Pinned(kind, (m.regs)(kind, r))),
        _ => m,
    }
}

/// An event whose result is put into a register, where there is one for it.
pub open spec fn answered<'a>(
    w: World<'a>,
    m: Machine<'a>,
    e: Event<'a>,
    dst: Option<(BindingKind, u16)>,
) -> Machine<'a> {
    match dst {
        Some((kind, r)) => m.does(e).with_reg(kind, r, (w.results)(e, m.events)),
        None => m.does(e),
    }
}

/// What a statement does.
pub open spec fn effect<'a>(w: World<'a>, stmt: StmtView<'a>, m: Machine<'a>) -> Machine<'a> {
    match stmt {
        Instr::Op(op) => op_effect(w, op, m),
        Instr::Call { target, family: _, result, args, dst } => answered(
            w,
            m,
            Event::Called(callee(target), m.values(args)),
            match (dst, result) {
                (Some(r), CallResultKind::Int) => Some((BindingKind::Int, r)),
                (Some(r), CallResultKind::Ref) => Some((BindingKind::Ref, r)),
                (Some(r), CallResultKind::Float) => Some((BindingKind::Float, r)),
                _ => None,
            },
        ),
        Instr::InferredVoidCall { func, args } => m.does(
            Event::Called(Callee::Func(func), m.values(args)),
        ),
        Instr::InferredIntCall { func, args, dst, .. } => answered(
            w,
            m,
            Event::Called(Callee::Func(func), m.values(args)),
            Some((BindingKind::Int, dst)),
        ),
        Instr::ConditionalCall { target, cond, args } => if m.word(cond) != 0 {
            m.does(Event::Called(Callee::Func(target.func), m.values(args)))
        } else {
            m
        },
        Instr::ConditionalCallValue { target, kind, value, args, dst } => if (m.regs)(kind, value)
            != 0 {
            m.with_reg(kind, dst, (m.regs)(kind, value))
        } else {
            answered(
                w,
                m,
                Event::Called(Callee::Func(target.func), m.values(args)),
                Some((kind, dst)),
            )
        },
        Instr::RecordKnownResult { target, kind, result, args } => m.does(
            Event::Known(target.func, (m.regs)(kind, result), m.values(args)),
        ),
        Instr::InlineCall { func, args, dst, .. } => answered(
            w,
            m,
            Event::Inlined(func, m.handed_banks(args)),
            Some(((w.banks)(*func), dst)),
        ),
        Instr::ArmCall { body, args, .. } => m.does(Event::Arm(body, m.handed_banks(args))),
        Instr::Live { .. } => m,
        Instr::JitMergePoint { greens, reds } => m.does(Event::MergePoint(greens, reds)),
    }
}

// ── Runs ─────────────────────────────────────────────────────────────

/// Whether one step leads from `pc` to `q`. A jump goes to where its label is
/// defined.
pub open spec fn step<'a>(
    w: World<'a>,
    code: Seq<StmtView<'a>>,
    m: Machine<'a>,
    pc: int,
    n: Machine<'a>,
    q: int,
) -> bool {
    &&& 0 <= pc < code.len()
    &&& match control(code[pc], m) {
        Control::Falls => n == effect(w, code[pc], m) && q == pc + 1,
        Control::Goes(l) => n == m && marked(code, q, l),
        Control::Stops => false,
    }
}

/// Whether so many steps lead from `pc` to `q`.
pub open spec fn path<'a>(
    w: World<'a>,
    code: Seq<StmtView<'a>>,
    m: Machine<'a>,
    pc: int,
    steps: nat,
    n: Machine<'a>,
    q: int,
) -> bool
    decreases steps,
{
    if steps == 0 {
        m == n && pc == q
    } else {
        exists|x: Machine<'a>, p: int| #[trigger]
            step(w, code, m, pc, x, p) && path(w, code, x, p, (steps - 1) as nat, n, q)
    }
}

/// Whether code gets from `pc` to `q`.
pub open spec fn gets<'a>(
    w: World<'a>,
    code: Seq<StmtView<'a>>,
    m: Machine<'a>,
    pc: int,
    n: Machine<'a>,
    q: int,
) -> bool {
    exists|steps: nat| #[trigger] path(w, code, m, pc, steps, n, q)
}

/// Whether code runs from its start to its end.
pub open spec fn runs<'a>(
    w: World<'a>,
    code: Seq<StmtView<'a>>,
    m: Machine<'a>,
    n: Machine<'a>,
) -> bool {
    gets(w, code, m, 0, n, code.len() as int)
}

/// Whether the label is defined in the code.
pub open spec fn defines<'a>(code: Seq<StmtView<'a>>, l: Label) -> bool {
    exists|q: int| marked(code, q, l)
}

/// Whether code runs from its start up to a jump out of it, to a label that is not
/// defined in it.
pub open spec fn leaves<'a>(
    w: World<'a>,
    code: Seq<StmtView<'a>>,
    m: Machine<'a>,
    n: Machine<'a>,
    l: Label,
) -> bool {
    !defines(code, l) && exists|pc: int| #[trigger]
        gets(w, code, m, 0, n, pc) && 0 <= pc < code.len() && control(code[pc], n)
            == Control::Goes(l)
}

/// Whether code runs from its start up to a statement that stops it.
pub open spec fn stops_at<'a>(
    w: World<'a>,
    code: Seq<StmtView<'a>>,
    m: Machine<'a>,
    n: Machine<'a>,
    stmt: StmtView<'a>,
) -> bool {
    exists|pc: int| #[trigger]
        gets(w, code, m, 0, n, pc) && 0 <= pc < code.len() && code[pc] == stmt && control(stmt, n)
            == Control::Stops
}

/// Where no label is defined twice, a step has one outcome.
pub proof fn law_steps_have_one_outcome<'a>(
    w: World<'a>,
    code: Seq<StmtView<'a>>,
    m: Machine<'a>,
    pc: int,
    a: Machine<'a>,
    p: int,
    b: Machine<'a>,
    q: int,
)
    requires
        forall|x: int, y: int, l: Label|
            #![trigger marked(code, x, l), marked(code, y, l)]
            marked(code, x, l) && marked(code, y, l) ==> x == y,
        step(w, code, m, pc, a, p),
        step(w, code, m, pc, b, q),
    ensures
        a == b,
        p == q,
{
}

pub proof fn lemma_stays<'a>(w: World<'a>, code: Seq<StmtView<'a>>, m: Machine<'a>, pc: int)
    ensures
        gets(w, code, m, pc, m, pc),
{
    assert(path(w, code, m, pc, 0, m, pc));
}

pub proof fn lemma_first<'a>(
    w: World<'a>,
    code: Seq<StmtView<'a>>,
    m: Machine<'a>,
    pc: int,
    x: Machine<'a>,
    p: int,
    n: Machine<'a>,
    q: int,
)
    requires
        step(w, code, m, pc, x, p),
        gets(w, code, x, p, n, q),
    ensures
        gets(w, code, m, pc, n, q),
{
    let k = choose|k: nat| #[trigger] path(w, code, x, p, k, n, q);
    assert(path(w, code, m, pc, k + 1, n, q));
}

pub proof fn lemma_step_gets<'a>(
    w: World<'a>,
    code: Seq<StmtView<'a>>,
    m: Machine<'a>,
    pc: int,
    n: Machine<'a>,
    q: int,
)
    requires
        step(w, code, m, pc, n, q),
    ensures
        gets(w, code, m, pc, n, q),
{
    lemma_stays(w, code, n, q);
    lemma_first(w, code, m, pc, n, q, n, q);
}

proof fn lemma_path_then<'a>(
    w: World<'a>,
    code: Seq<StmtView<'a>>,
    m: Machine<'a>,
    pc: int,
    k: nat,
    x: Machine<'a>,
    p: int,
    n: Machine<'a>,
    q: int,
)
    requires
        path(w, code, m, pc, k, x, p),
        gets(w, code, x, p, n, q),
    ensures
        gets(w, code, m, pc, n, q),
    decreases k,
{
    if k > 0 {
        let (y, r) = choose|y: Machine<'a>, r: int| #[trigger]
            step(w, code, m, pc, y, r) && path(w, code, y, r, (k - 1) as nat, x, p);
        lemma_path_then(w, code, y, r, (k - 1) as nat, x, p, n, q);
        lemma_first(w, code, m, pc, y, r, n, q);
    }
}

pub proof fn lemma_then<'a>(
    w: World<'a>,
    code: Seq<StmtView<'a>>,
    m: Machine<'a>,
    pc: int,
    x: Machine<'a>,
    p: int,
    n: Machine<'a>,
    q: int,
)
    requires
        gets(w, code, m, pc, x, p),
        gets(w, code, x, p, n, q),
    ensures
        gets(w, code, m, pc, n, q),
{
    let k = choose|k: nat| #[trigger] path(w, code, m, pc, k, x, p);
    lemma_path_then(w, code, m, pc, k, x, p, n, q);
}

/// Whether a part stands in the code at `at`.
pub open spec fn part_of<'a>(code: Seq<StmtView<'a>>, at: int, part: Seq<StmtView<'a>>) -> bool {
    &&& 0 <= at
    &&& at + part.len() <= code.len()
    &&& forall|x: int| 0 <= x < part.len() ==> #[trigger] part[x] == code[at + x]
}

proof fn lemma_path_inside<'a>(
    w: World<'a>,
    code: Seq<StmtView<'a>>,
    at: int,
    part: Seq<StmtView<'a>>,
    m: Machine<'a>,
    pc: int,
    k: nat,
    n: Machine<'a>,
    q: int,
)
    requires
        part_of(code, at, part),
        path(w, part, m, pc, k, n, q),
    ensures
        gets(w, code, m, at + pc, n, at + q),
    decreases k,
{
    if k == 0 {
        lemma_stays(w, code, m, at + pc);
    } else {
        let (x, p) = choose|x: Machine<'a>, p: int| #[trigger]
            step(w, part, m, pc, x, p) && path(w, part, x, p, (k - 1) as nat, n, q);
        assert(part[pc] == code[at + pc]);
        assert(forall|l: Label| #[trigger] marked(part, p, l) ==> marked(code, at + p, l)) by {
            if 0 <= p < part.len() {
                assert(part[p] == code[at + p]);
            }
        }
        assert(step(w, code, m, at + pc, x, at + p));
        lemma_path_inside(w, code, at, part, x, p, (k - 1) as nat, n, q);
        lemma_first(w, code, m, at + pc, x, at + p, n, at + q);
    }
}

/// What a part of the code does alone, it does where it stands.
pub proof fn lemma_inside<'a>(
    w: World<'a>,
    code: Seq<StmtView<'a>>,
    at: int,
    part: Seq<StmtView<'a>>,
    m: Machine<'a>,
    pc: int,
    n: Machine<'a>,
    q: int,
)
    requires
        part_of(code, at, part),
        gets(w, part, m, pc, n, q),
    ensures
        gets(w, code, m, at + pc, n, at + q),
{
    let k = choose|k: nat| #[trigger] path(w, part, m, pc, k, n, q);
    lemma_path_inside(w, code, at, part, m, pc, k, n, q);
}

/// What two codes do one behind the other.
pub proof fn lemma_run_both<'a>(
    w: World<'a>,
    a: Seq<StmtView<'a>>,
    b: Seq<StmtView<'a>>,
    m: Machine<'a>,
    x: Machine<'a>,
    n: Machine<'a>,
)
    requires
        runs(w, a, m, x),
        runs(w, b, x, n),
    ensures
        runs(w, a + b, m, n),
{
    let code = a + b;
    assert(part_of(code, 0, a));
    assert(part_of(code, a.len() as int, b));
    lemma_inside(w, code, 0, a, m, 0, x, a.len() as int);
    lemma_inside(w, code, a.len() as int, b, x, 0, n, b.len() as int);
    lemma_then(w, code, m, 0, x, a.len() as int, n, code.len() as int);
}

/// What a code with one more statement does.
pub proof fn lemma_run_push<'a>(
    w: World<'a>,
    a: Seq<StmtView<'a>>,
    stmt: StmtView<'a>,
    m: Machine<'a>,
    x: Machine<'a>,
)
    requires
        runs(w, a, m, x),
        control(stmt, x) is Falls,
    ensures
        runs(w, a.push(stmt), m, effect(w, stmt, x)),
{
    let b = seq![stmt];
    assert(step(w, b, x, 0, effect(w, stmt, x), 1));
    lemma_step_gets(w, b, x, 0, effect(w, stmt, x), 1);
    lemma_run_both(w, a, b, m, x, effect(w, stmt, x));
    assert(a + b =~= a.push(stmt));
}

pub proof fn lemma_run_none<'a>(w: World<'a>, m: Machine<'a>)
    ensures
        runs(w, seq![], m, m),
{
    lemma_stays(w, seq![], m, 0);
}

/// Code in front does not keep code behind it from leaving.
pub proof fn lemma_leave_behind<'a>(
    w: World<'a>,
    a: Seq<StmtView<'a>>,
    b: Seq<StmtView<'a>>,
    m: Machine<'a>,
    x: Machine<'a>,
    n: Machine<'a>,
    l: Label,
)
    requires
        runs(w, a, m, x),
        leaves(w, b, x, n, l),
        !defines(a, l),
    ensures
        leaves(w, a + b, m, n, l),
{
    let code = a + b;
    let pc = choose|pc: int| #[trigger]
        gets(w, b, x, 0, n, pc) && 0 <= pc < b.len() && control(b[pc], n) == Control::Goes(l);
    assert(part_of(code, 0, a));
    assert(part_of(code, a.len() as int, b));
    lemma_inside(w, code, 0, a, m, 0, x, a.len() as int);
    lemma_inside(w, code, a.len() as int, b, x, 0, n, pc);
    lemma_then(w, code, m, 0, x, a.len() as int, n, a.len() + pc);
    assert(code[a.len() + pc] == b[pc]);
    lemma_defines_either(a, b, l);
}

pub proof fn lemma_defines_either<'a>(a: Seq<StmtView<'a>>, b: Seq<StmtView<'a>>, l: Label)
    ensures
        defines(a + b, l) == (defines(a, l) || defines(b, l)),
{
    let code = a + b;
    if defines(code, l) {
        let q = choose|q: int| marked(code, q, l);
        if q < a.len() {
            assert(marked(a, q, l));
        } else {
            assert(marked(b, q - a.len(), l));
        }
    }
    if defines(a, l) {
        let q = choose|q: int| marked(a, q, l);
        assert(marked(code, q, l));
    }
    if defines(b, l) {
        let q = choose|q: int| marked(b, q, l);
        assert(marked(code, a.len() + q, l));
    }
}

/// Code that leaves does so whatever stands behind it.
pub proof fn lemma_leave_before<'a>(
    w: World<'a>,
    a: Seq<StmtView<'a>>,
    b: Seq<StmtView<'a>>,
    m: Machine<'a>,
    n: Machine<'a>,
    l: Label,
)
    requires
        leaves(w, a, m, n, l),
        !defines(b, l),
    ensures
        leaves(w, a + b, m, n, l),
{
    let code = a + b;
    let pc = choose|pc: int| #[trigger]
        gets(w, a, m, 0, n, pc) && 0 <= pc < a.len() && control(a[pc], n) == Control::Goes(l);
    assert(part_of(code, 0, a));
    lemma_inside(w, code, 0, a, m, 0, n, pc);
    assert(code[pc] == a[pc]);
    lemma_defines_either(a, b, l);
}

} // verus!
