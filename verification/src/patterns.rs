//! Loop control, literal patterns, branch literals and type classification.

use vstd::prelude::*;

use crate::ast::{Block, Expr, ExprIf, ExprKind, Lit, Pat, Path, path_is_ident, Stmt, Type};
use crate::kinds::InlineReturnKind;
use crate::ops::{IntOpcode, PatValue};
use crate::ast::BinOp;

verus! {

// ── Loop control ─────────────────────────────────────────────────────

/// Whether the expression leaves or continues the loop around it. Inner loops
/// keep their own `break` and `continue`.
pub open spec fn has_loop_control(e: Expr) -> bool
    decreases e, 0int,
{
    match e.kind {
        ExprKind::Break(_) => true,
        ExprKind::Continue => true,
        ExprKind::If(i) => stmts_have_loop_control(i.then_branch.stmts, 0) || match i.else_branch {
            Some(x) => has_loop_control(*x),
            None => false,
        },
        ExprKind::Block(b) => stmts_have_loop_control(b.stmts, 0),
        _ => false,
    }
}

pub open spec fn stmts_have_loop_control(v: Vec<Stmt>, i: int) -> bool
    decreases v, v.len() - i,
{
    if 0 <= i < v.len() {
        ||| match v[i] {
            Stmt::Expr(e, _) => has_loop_control(e),
            _ => false,
        }
        ||| stmts_have_loop_control(v, i + 1)
    } else {
        false
    }
}

/// Whether the expression leaves or continues the loop around it.
pub fn expr_has_loop_control(expr: &Expr) -> (r: bool)
    ensures
        r == has_loop_control(*expr),
    decreases *expr, 0int,
{
    match &expr.kind {
        ExprKind::Break(_) => true,
        ExprKind::Continue => true,
        ExprKind::If(i) => {
            if stmts_with_loop_control(&i.then_branch.stmts, 0) {
                return true;
            }
            match &i.else_branch {
                Some(x) => expr_has_loop_control(x),
                None => false,
            }
        },
        ExprKind::Block(b) => stmts_with_loop_control(&b.stmts, 0),
        _ => false,
    }
}

fn stmts_with_loop_control(v: &Vec<Stmt>, i: usize) -> (r: bool)
    requires
        i <= v.len(),
    ensures
        r == stmts_have_loop_control(*v, i as int),
    decreases *v, v.len() - i,
{
    if i < v.len() {
        let here = match &v[i] {
            Stmt::Expr(e, _) => expr_has_loop_control(e),
            _ => false,
        };
        here || stmts_with_loop_control(v, i + 1)
    } else {
        false
    }
}

/// Whether a statement of the block leaves or continues the loop around it.
pub fn block_has_loop_control(block: &Block) -> (r: bool)
    ensures
        r == stmts_have_loop_control(block.stmts, 0),
{
    stmts_with_loop_control(&block.stmts, 0)
}

// ── Literals in patterns ─────────────────────────────────────────────

/// The integers that a pattern of literals matches, in order.
pub open spec fn pat_literals(pat: Pat) -> Option<Seq<i64>>
    decreases pat, 0int,
{
    match pat {
        Pat::Lit(Lit::Int(Some(v))) => Some(seq![v]),
        Pat::Or(cases) => pats_literals(cases, cases.len() as int),
        _ => None,
    }
}

/// The integers that the first `n` patterns match.
pub open spec fn pats_literals(v: Vec<Pat>, n: int) -> Option<Seq<i64>>
    decreases v, n,
{
    if 0 < n <= v.len() {
        match (pats_literals(v, n - 1), pat_literals(v[n - 1])) {
            (Some(a), Some(b)) => Some(a + b),
            _ => None,
        }
    } else {
        Some(seq![])
    }
}

proof fn lemma_pats_literals_fail(v: Vec<Pat>, i: int, n: int)
    requires
        0 <= i < n <= v.len(),
        pat_literals(v[i]) is None,
    ensures
        pats_literals(v, n) is None,
    decreases n,
{
    if i < n - 1 {
        lemma_pats_literals_fail(v, i, n - 1);
    }
}

/// The integers that a pattern of literals matches; `None` for other patterns.
pub fn extract_pat_literals(pat: &Pat) -> (r: Option<Vec<i64>>)
    ensures
        match r {
            Some(v) => pat_literals(*pat) == Some(v@),
            None => pat_literals(*pat) is None,
        },
    decreases *pat,
{
    match pat {
        Pat::Lit(lit) => match lit {
            Lit::Int(value) => match value {
                Some(x) => {
                    let out = vec![*x];
                    assert(out@ =~= seq![*x]);
                    Some(out)
                },
                None => None,
            },
            Lit::Other => None,
        },
        Pat::Or(cases) => {
            let mut out: Vec<i64> = Vec::new();
            let mut i: usize = 0;
            while i < cases.len()
                invariant
                    i <= cases.len(),
                    *pat == Pat::Or(*cases),
                    pats_literals(*cases, i as int) == Some(out@),
                decreases cases.len() - i,
            {
                match extract_pat_literals(&cases[i]) {
                    Some(mut more) => {
                        out.append(&mut more);
                    },
                    None => {
                        proof {
                            lemma_pats_literals_fail(*cases, i as int, cases.len() as int);
                        }
                        return None;
                    },
                }
                i = i + 1;
            }
            Some(out)
        },
        _ => None,
    }
}

/// The constants that a dispatch pattern matches, in order. Unlike
/// [`pat_literals`] this takes named constants.
pub open spec fn pat_values<'a>(pat: &'a Pat) -> Option<Seq<PatValue<'a>>>
    decreases pat, 0int,
{
    match *pat {
        Pat::Lit(Lit::Int(Some(v))) => Some(seq![PatValue::Int(v)]),
        Pat::Path(p) => Some(seq![PatValue::Path(p.id)]),
        Pat::Ident(p) => if p.subpat is None && !p.mutability && !p.by_ref {
            Some(seq![PatValue::Ident(&p.ident)])
        } else {
            None
        },
        Pat::Or(cases) => pats_values(&cases, cases.len() as int),
        _ => None,
    }
}

pub open spec fn pats_values<'a>(v: &'a Vec<Pat>, n: int) -> Option<Seq<PatValue<'a>>>
    decreases v, n,
{
    if 0 < n <= v.len() {
        match (pats_values(v, n - 1), pat_values(&v[n - 1])) {
            (Some(a), Some(b)) => Some(a + b),
            _ => None,
        }
    } else {
        Some(seq![])
    }
}

proof fn lemma_pats_values_fail<'a>(v: &'a Vec<Pat>, i: int, n: int)
    requires
        0 <= i < n <= v.len(),
        pat_values(&v[i]) is None,
    ensures
        pats_values(v, n) is None,
    decreases n,
{
    if i < n - 1 {
        lemma_pats_values_fail(v, i, n - 1);
    }
}

/// The constants that a dispatch pattern matches; `None` for other patterns.
pub fn extract_pat_values<'a>(pat: &'a Pat) -> (r: Option<Vec<PatValue<'a>>>)
    ensures
        match r {
            Some(v) => pat_values(pat) == Some(v@),
            None => pat_values(pat) is None,
        },
    decreases *pat,
{
    match pat {
        Pat::Lit(lit) => match lit {
            Lit::Int(value) => match value {
                Some(x) => {
                    let out = vec![PatValue::Int(*x)];
                    assert(out@ =~= seq![PatValue::Int(*x)]);
                    Some(out)
                },
                None => None,
            },
            Lit::Other => None,
        },
        Pat::Path(p) => {
            let out = vec![PatValue::Path(p.id)];
            assert(out@ =~= seq![PatValue::Path(p.id)]);
            Some(out)
        },
        Pat::Ident(p) => if p.subpat.is_none() && !p.mutability && !p.by_ref {
            let out = vec![PatValue::Ident(&p.ident)];
            assert(out@ =~= seq![PatValue::Ident(&p.ident)]);
            Some(out)
        } else {
            None
        },
        Pat::Or(cases) => {
            let mut out: Vec<PatValue<'a>> = Vec::new();
            let mut i: usize = 0;
            while i < cases.len()
                invariant
                    i <= cases.len(),
                    *pat == Pat::Or(*cases),
                    pats_values(cases, i as int) == Some(out@),
                decreases cases.len() - i,
            {
                match extract_pat_values(&cases[i]) {
                    Some(mut more) => {
                        out.append(&mut more);
                    },
                    None => {
                        proof {
                            lemma_pats_values_fail(cases, i as int, cases.len() as int);
                        }
                        return None;
                    },
                }
                i = i + 1;
            }
            Some(out)
        },
        _ => None,
    }
}

/// Whether a pattern is a plain lowercase name, which matches everything.
pub open spec fn is_catch_all_name(pat: Pat) -> bool {
    match pat {
        Pat::Ident(p) => {
            &&& p.subpat is None
            &&& !p.mutability
            &&& !p.by_ref
            &&& p.ident@.len() > 0
            &&& 'a' <= p.ident@[0] <= 'z'
        },
        _ => false,
    }
}

/// Whether a pattern is a plain lowercase name, which matches everything.
pub fn is_lowercase_binding_pat(pat: &Pat) -> (r: bool)
    ensures
        r == is_catch_all_name(*pat),
{
    match pat {
        Pat::Ident(p) => {
            if p.subpat.is_some() || p.mutability || p.by_ref {
                return false;
            }
            let name = p.ident.as_str();
            if name.is_empty() {
                return false;
            }
            let first = vstd::string::StrSliceExecFns::get_char(name, 0);
            'a' <= first && first <= 'z'
        },
        _ => false,
    }
}

/// The name that `let name = ..` or `let name: T = ..` binds.
pub open spec fn let_name(pat: Pat) -> Option<String> {
    match pat {
        Pat::Type(inner) => match *inner {
            Pat::Ident(p) => Some(p.ident),
            _ => None,
        },
        Pat::Ident(p) => Some(p.ident),
        _ => None,
    }
}

/// The name that `let name = ..` or `let name: T = ..` binds.
pub fn pat_bound_ident_name(pat: &Pat) -> (r: Option<&String>)
    ensures
        match r {
            Some(s) => let_name(*pat) == Some(*s),
            None => let_name(*pat) is None,
        },
{
    match pat {
        Pat::Type(inner) => match &**inner {
            Pat::Ident(p) => Some(&p.ident),
            _ => None,
        },
        Pat::Ident(p) => Some(&p.ident),
        _ => None,
    }
}

// ── Branches that are literals ───────────────────────────────────────

/// The integer that a branch consists of, behind parentheses and blocks.
pub open spec fn branch_int(e: Expr) -> Option<i64>
    decreases e,
{
    match e.kind {
        ExprKind::Lit(Lit::Int(v)) => v,
        ExprKind::Paren(x) => branch_int(*x),
        ExprKind::Block(b) => if b.stmts@.len() == 1 {
            match b.stmts@[0] {
                Stmt::Expr(x, semi) => if !semi {
                    branch_int(x)
                } else {
                    None
                },
                _ => None,
            }
        } else {
            None
        },
        _ => None,
    }
}

/// The integer that a block consists of.
pub open spec fn block_int(b: Block) -> Option<i64> {
    if b.stmts@.len() == 1 {
        match b.stmts@[0] {
            Stmt::Expr(x, semi) => if !semi {
                branch_int(x)
            } else {
                None
            },
            _ => None,
        }
    } else {
        None
    }
}

fn extract_branch_int(expr: &Expr) -> (r: Option<i64>)
    ensures
        r == branch_int(*expr),
    decreases *expr,
{
    match &expr.kind {
        ExprKind::Lit(lit) => match lit {
            Lit::Int(v) => *v,
            Lit::Other => None,
        },
        ExprKind::Paren(x) => extract_branch_int(x),
        ExprKind::Block(b) => if b.stmts.len() == 1 {
            match &b.stmts[0] {
                Stmt::Expr(x, semi) => if !*semi {
                    extract_branch_int(x)
                } else {
                    None
                },
                _ => None,
            }
        } else {
            None
        },
        _ => None,
    }
}

/// The two integers of an `if` whose branches are integers.
pub open spec fn bool_branches(i: ExprIf) -> Option<(i64, i64)> {
    match (block_int(i.then_branch), i.else_branch) {
        (Some(a), Some(x)) => match branch_int(*x) {
            Some(b) => Some((a, b)),
            None => None,
        },
        _ => None,
    }
}

/// The two integers of an `if` whose branches are integers.
pub fn extract_bool_branch_values(expr_if: &ExprIf) -> (r: Option<(i64, i64)>)
    ensures
        r == bool_branches(*expr_if),
{
    let b = &expr_if.then_branch;
    if b.stmts.len() != 1 {
        return None;
    }
    let then_value = match &b.stmts[0] {
        Stmt::Expr(x, semi) => if !*semi {
            extract_branch_int(x)
        } else {
            None
        },
        _ => None,
    };
    match then_value {
        None => None,
        Some(a) => match &expr_if.else_branch {
            None => None,
            Some(x) => match extract_branch_int(x) {
                None => None,
                Some(c) => Some((a, c)),
            },
        },
    }
}

// ── Types ────────────────────────────────────────────────────────────

pub open spec fn int_type_name(path: Path) -> bool {
    ||| path_is_ident(path, "i64"@)
    ||| path_is_ident(path, "isize"@)
    ||| path_is_ident(path, "i32"@)
    ||| path_is_ident(path, "u32"@)
    ||| path_is_ident(path, "i16"@)
    ||| path_is_ident(path, "u16"@)
    ||| path_is_ident(path, "i8"@)
    ||| path_is_ident(path, "u8"@)
}

/// The bank of values of a type, where there is one.
pub open spec fn type_bank(ty: Type) -> Option<InlineReturnKind> {
    match ty {
        Type::Path(p) => if int_type_name(p) {
            Some(InlineReturnKind::Int)
        } else if path_is_ident(p, "usize"@) {
            Some(InlineReturnKind::Ref)
        } else if path_is_ident(p, "f64"@) {
            Some(InlineReturnKind::Float)
        } else {
            None
        },
        Type::Ptr => Some(InlineReturnKind::Ref),
        Type::Other => None,
    }
}

pub open spec fn is_int_type(ty: Type) -> bool {
    match ty {
        Type::Path(p) => int_type_name(p),
        _ => false,
    }
}

/// Whether a cast to the type keeps an integer an integer.
pub fn is_supported_int_cast(ty: &Type) -> (r: bool)
    ensures
        r == is_int_type(*ty),
{
    match ty {
        Type::Path(p) => p.is_ident("i64") || p.is_ident("isize") || p.is_ident("i32")
            || p.is_ident("u32") || p.is_ident("i16") || p.is_ident("u16") || p.is_ident("i8")
            || p.is_ident("u8"),
        _ => false,
    }
}

/// Whether values of the type live in the reference bank.
pub fn is_supported_ref_type(ty: &Type) -> (r: bool)
    ensures
        r == match *ty {
            Type::Path(p) => path_is_ident(p, "usize"@),
            Type::Ptr => true,
            Type::Other => false,
        },
{
    match ty {
        Type::Path(p) => p.is_ident("usize"),
        Type::Ptr => true,
        Type::Other => false,
    }
}

/// Whether values of the type live in the float bank.
pub fn is_supported_float_type(ty: &Type) -> (r: bool)
    ensures
        r == match *ty {
            Type::Path(p) => path_is_ident(p, "f64"@),
            _ => false,
        },
{
    match ty {
        Type::Path(p) => p.is_ident("f64"),
        _ => false,
    }
}

/// The bank of values of a type, where there is one.
pub fn classify_param_type(ty: &Type) -> (r: Option<InlineReturnKind>)
    ensures
        r == type_bank(*ty),
{
    if is_supported_int_cast(ty) {
        Some(InlineReturnKind::Int)
    } else if is_supported_ref_type(ty) {
        Some(InlineReturnKind::Ref)
    } else if is_supported_float_type(ty) {
        Some(InlineReturnKind::Float)
    } else {
        None
    }
}

// ── Operators ────────────────────────────────────────────────────────

/// The trace opcode of a binary operator, where it has one.
pub open spec fn binop_opcode(op: BinOp) -> Option<IntOpcode> {
    match op {
        BinOp::Add => Some(IntOpcode::IntAdd),
        BinOp::Sub => Some(IntOpcode::IntSub),
        BinOp::Mul => Some(IntOpcode::IntMul),
        BinOp::Div => Some(IntOpcode::IntFloorDiv),
        BinOp::Rem => Some(IntOpcode::IntMod),
        BinOp::BitAnd => Some(IntOpcode::IntAnd),
        BinOp::BitOr => Some(IntOpcode::IntOr),
        BinOp::BitXor => Some(IntOpcode::IntXor),
        BinOp::Shl => Some(IntOpcode::IntLshift),
        BinOp::Shr => Some(IntOpcode::IntRshift),
        BinOp::Eq => Some(IntOpcode::IntEq),
        BinOp::Ne => Some(IntOpcode::IntNe),
        BinOp::Lt => Some(IntOpcode::IntLt),
        BinOp::Le => Some(IntOpcode::IntLe),
        BinOp::Gt => Some(IntOpcode::IntGt),
        BinOp::Ge => Some(IntOpcode::IntGe),
        _ => None,
    }
}

/// The trace opcode of a binary operator, where it has one.
pub fn opcode_for_binop(op: BinOp) -> (r: Option<IntOpcode>)
    ensures
        r == binop_opcode(op),
{
    match op {
        BinOp::Add => Some(IntOpcode::IntAdd),
        BinOp::Sub => Some(IntOpcode::IntSub),
        BinOp::Mul => Some(IntOpcode::IntMul),
        BinOp::Div => Some(IntOpcode::IntFloorDiv),
        BinOp::Rem => Some(IntOpcode::IntMod),
        BinOp::BitAnd => Some(IntOpcode::IntAnd),
        BinOp::BitOr => Some(IntOpcode::IntOr),
        BinOp::BitXor => Some(IntOpcode::IntXor),
        BinOp::Shl => Some(IntOpcode::IntLshift),
        BinOp::Shr => Some(IntOpcode::IntRshift),
        BinOp::Eq => Some(IntOpcode::IntEq),
        BinOp::Ne => Some(IntOpcode::IntNe),
        BinOp::Lt => Some(IntOpcode::IntLt),
        BinOp::Le => Some(IntOpcode::IntLe),
        BinOp::Gt => Some(IntOpcode::IntGt),
        BinOp::Ge => Some(IntOpcode::IntGe),
        _ => None,
    }
}

/// The trace opcode of a compound assignment: that of its operator.
pub open spec fn assign_opcode(op: BinOp) -> Option<IntOpcode> {
    match op {
        BinOp::AddAssign => binop_opcode(BinOp::Add),
        BinOp::SubAssign => binop_opcode(BinOp::Sub),
        BinOp::MulAssign => binop_opcode(BinOp::Mul),
        BinOp::DivAssign => binop_opcode(BinOp::Div),
        BinOp::RemAssign => binop_opcode(BinOp::Rem),
        BinOp::BitAndAssign => binop_opcode(BinOp::BitAnd),
        BinOp::BitOrAssign => binop_opcode(BinOp::BitOr),
        BinOp::BitXorAssign => binop_opcode(BinOp::BitXor),
        BinOp::ShlAssign => binop_opcode(BinOp::Shl),
        BinOp::ShrAssign => binop_opcode(BinOp::Shr),
        _ => None,
    }
}

/// The trace opcode of a compound assignment: that of its operator.
pub fn opcode_for_assign_binop(op: BinOp) -> (r: Option<IntOpcode>)
    ensures
        r == assign_opcode(op),
{
    match op {
        BinOp::AddAssign => Some(IntOpcode::IntAdd),
        BinOp::SubAssign => Some(IntOpcode::IntSub),
        BinOp::MulAssign => Some(IntOpcode::IntMul),
        BinOp::DivAssign => Some(IntOpcode::IntFloorDiv),
        BinOp::RemAssign => Some(IntOpcode::IntMod),
        BinOp::BitAndAssign => Some(IntOpcode::IntAnd),
        BinOp::BitOrAssign => Some(IntOpcode::IntOr),
        BinOp::BitXorAssign => Some(IntOpcode::IntXor),
        BinOp::ShlAssign => Some(IntOpcode::IntLshift),
        BinOp::ShrAssign => Some(IntOpcode::IntRshift),
        _ => None,
    }
}

} // verus!
