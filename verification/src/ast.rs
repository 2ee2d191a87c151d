//! The interpreter source that the lowerer reads: expressions, patterns,
//! statements and paths, with just the detail that lowering looks at.
//!
//! Every expression carries a [`NodeId`]. The lowerer copies ids into the
//! statements that quote an expression verbatim, so that the tokens of the
//! expression can be found again when the statement is printed.

use vstd::prelude::*;

use crate::text::{same_text, string_views};

verus! {

/// Key under which the tokens of a node are kept by whoever built the tree.
pub type NodeId = u32;

/// One `ident` or `ident<args>` segment of a path.
pub struct PathSegment {
    pub ident: String,
    /// Whether angle-bracketed or parenthesized arguments follow the ident.
    pub has_arguments: bool,
}

/// `a::b::c`, possibly with a leading `::`.
pub struct Path {
    pub leading_colon: bool,
    pub segments: Vec<PathSegment>,
}

/// A path in expression position, possibly qualified (`<T as Trait>::name`).
pub struct ExprPath {
    pub qself: bool,
    pub path: Path,
}

/// The `.name` or `.0` of a field access. An unnamed member holds its decimal
/// text.
pub enum Member {
    Named(String),
    Unnamed(String),
}

/// A literal. An integer literal holds its value where that fits in `i64`.
#[derive(Clone, Copy, Debug, PartialEq, Eq, Structural)]
pub enum Lit {
    Int(Option<i64>),
    Other,
}

/// A type as far as it decides a register bank.
pub enum Type {
    Path(Path),
    Ptr,
    Other,
}

#[derive(Clone, Copy, Debug, PartialEq, Eq, Structural)]
pub enum UnOp {
    Deref,
    Not,
    Neg,
}

#[derive(Clone, Copy, Debug, PartialEq, Eq, Structural)]
pub enum BinOp {
    Add,
    Sub,
    Mul,
    Div,
    Rem,
    And,
    Or,
    BitXor,
    BitAnd,
    BitOr,
    Shl,
    Shr,
    Eq,
    Lt,
    Le,
    Ne,
    Ge,
    Gt,
    AddAssign,
    SubAssign,
    MulAssign,
    DivAssign,
    RemAssign,
    BitXorAssign,
    BitAndAssign,
    BitOrAssign,
    ShlAssign,
    ShrAssign,
}

pub struct Block {
    pub stmts: Vec<Stmt>,
}

pub struct ExprIf {
    pub cond: Box<Expr>,
    pub then_branch: Block,
    pub else_branch: Option<Box<Expr>>,
}

pub struct Arm {
    pub pat: Pat,
    pub guard: Option<Box<Expr>>,
    pub body: Box<Expr>,
}

pub struct ExprMatch {
    pub expr: Box<Expr>,
    pub arms: Vec<Arm>,
}

pub struct ExprBinary {
    pub op: BinOp,
    pub left: Box<Expr>,
    pub right: Box<Expr>,
}

pub struct ExprAssign {
    pub left: Box<Expr>,
    pub right: Box<Expr>,
}

pub struct ExprCall {
    pub func: Box<Expr>,
    pub args: Vec<Expr>,
}

pub struct ExprMethodCall {
    pub receiver: Box<Expr>,
    pub method: String,
    pub args: Vec<Expr>,
}

pub struct ExprField {
    pub base: Box<Expr>,
    pub member: Member,
}

pub struct ExprIndex {
    pub expr: Box<Expr>,
    pub index: Box<Expr>,
}

/// `expr as ty`. `ty_exprs` holds the expressions inside the type (array
/// lengths and the like).
pub struct ExprCast {
    pub expr: Box<Expr>,
    pub ty: Type,
    pub ty_exprs: Vec<Expr>,
}

pub struct ExprUnary {
    pub op: UnOp,
    pub expr: Box<Expr>,
}

pub struct ExprWhile {
    pub cond: Box<Expr>,
    pub body: Block,
}

/// `path!(..)`. `single` is the body read as one expression and `list` the body
/// read as a comma-separated list, each where the body reads as that.
pub struct ExprMacro {
    pub path: Path,
    pub single: Option<Box<Expr>>,
    pub list: Option<Vec<Expr>>,
}

pub struct Expr {
    pub id: NodeId,
    pub kind: ExprKind,
}

/// The forms of an expression. The forms that lowering does not tell apart are
/// `Other`, with their sub-expressions in source order.
pub enum ExprKind {
    Lit(Lit),
    Path(ExprPath),
    Cast(ExprCast),
    Paren(Box<Expr>),
    Reference(Box<Expr>),
    If(ExprIf),
    Match(ExprMatch),
    Unary(ExprUnary),
    Binary(ExprBinary),
    Assign(ExprAssign),
    Call(ExprCall),
    MethodCall(ExprMethodCall),
    Field(ExprField),
    Index(ExprIndex),
    Block(Block),
    While(ExprWhile),
    Loop(Block),
    ForLoop(Vec<Expr>),
    Break(Vec<Expr>),
    Continue,
    Try(Box<Expr>),
    Macro(ExprMacro),
    Other(Vec<Expr>),
}

/// A name in a pattern: `ref mut name @ subpattern`.
pub struct PatIdent {
    pub ident: String,
    pub by_ref: bool,
    pub mutability: bool,
    pub subpat: Option<Box<Pat>>,
}

/// A path in pattern position; `id` finds its tokens again.
pub struct PatPath {
    pub id: NodeId,
    pub path: ExprPath,
}

/// The forms of a pattern. `Other` holds the expressions inside a pattern of
/// any other form (range bounds and the like).
pub enum Pat {
    Ident(PatIdent),
    Wild,
    Lit(Lit),
    Path(PatPath),
    Or(Vec<Pat>),
    TupleStruct(Vec<Pat>),
    Tuple(Vec<Pat>),
    Struct(Vec<Pat>),
    Reference(Box<Pat>),
    Slice(Vec<Pat>),
    Type(Box<Pat>),
    Paren(Box<Pat>),
    Other(Vec<Expr>),
}

/// The right-hand side of a `let`, with its `else` block.
pub struct LocalInit {
    pub expr: Box<Expr>,
    pub diverge: Option<Box<Expr>>,
}

pub struct Local {
    pub pat: Pat,
    pub init: Option<LocalInit>,
}

/// A statement. `Expr` says whether a semicolon follows; `Item` holds the
/// expressions inside a nested item.
pub enum Stmt {
    Local(Local),
    Expr(Expr, bool),
    Macro(Path),
    Item(Vec<Expr>),
}

pub enum FnArg {
    Receiver,
    Typed(Pat, Type),
}

/// A helper function that is a candidate for inlining.
pub struct ItemFn {
    pub name: String,
    pub has_generics: bool,
    pub inputs: Vec<FnArg>,
    pub output: Option<Type>,
    pub block: Block,
}

// ── Paths ────────────────────────────────────────────────────────────

/// The identifiers of the path's segments.
pub open spec fn segment_names(path: Path) -> Seq<Seq<char>> {
    Seq::new(path.segments@.len(), |i: int| path.segments@[i].ident@)
}

/// The path as a bare identifier: one segment, nothing before or after it.
pub open spec fn path_ident(path: Path) -> Option<String> {
    if !path.leading_colon && path.segments@.len() == 1 && !path.segments@[0].has_arguments {
        Some(path.segments@[0].ident)
    } else {
        None
    }
}

impl Path {
    /// The path as a bare identifier, if it is one.
    pub fn get_ident(&self) -> (r: Option<&String>)
        ensures
            match r {
                Some(s) => path_ident(*self) == Some(*s),
                None => path_ident(*self) is None,
            },
    {
        if !self.leading_colon && self.segments.len() == 1 && !self.segments[0].has_arguments {
            Some(&self.segments[0].ident)
        } else {
            None
        }
    }

    /// Whether the path is the bare identifier `name`.
    pub fn is_ident(&self, name: &str) -> (r: bool)
        ensures
            r == path_is_ident(*self, name@),
    {
        match self.get_ident() {
            Some(s) => same_text(s.as_str(), name),
            None => false,
        }
    }

    /// The last segment's identifier, if there is a segment.
    pub fn last_name(&self) -> (r: Option<&String>)
        ensures
            match r {
                Some(s) => self.segments@.len() > 0 && *s == self.segments@.last().ident,
                None => self.segments@.len() == 0,
            },
    {
        if self.segments.len() == 0 {
            None
        } else {
            Some(&self.segments[self.segments.len() - 1].ident)
        }
    }
}

pub open spec fn path_is_ident(path: Path, name: Seq<char>) -> bool {
    match path_ident(path) {
        Some(s) => s@ == name,
        None => false,
    }
}

/// Whether the path's last segment is `name`.
pub open spec fn path_ends_with(path: Path, name: Seq<char>) -> bool {
    path.segments@.len() > 0 && path.segments@.last().ident@ == name
}

/// Whether the last segment of `path` is `name`.
pub fn path_last_is(path: &Path, name: &str) -> (r: bool)
    ensures
        r == path_ends_with(*path, name@),
{
    match path.last_name() {
        Some(s) => same_text(s.as_str(), name),
        None => false,
    }
}

/// The identifiers of the segments of `path`.
pub fn canonical_path_segments(path: &Path) -> (r: Vec<String>)
    ensures
        string_views(r@) == segment_names(*path),
{
    let mut out: Vec<String> = Vec::new();
    let mut i: usize = 0;
    while i < path.segments.len()
        invariant
            i <= path.segments.len(),
            out.len() == i,
            forall|j: int| 0 <= j < i ==> out@[j]@ == path.segments@[j].ident@,
        decreases path.segments.len() - i,
    {
        out.push(path.segments[i].ident.clone());
        i = i + 1;
    }
    assert(string_views(out@) =~= segment_names(*path));
    out
}

/// The text of a member, named or not.
pub open spec fn member_text(member: Member) -> Seq<char> {
    match member {
        Member::Named(s) => s@,
        Member::Unnamed(s) => s@,
    }
}

/// The text of a member, named or not.
pub fn canonical_member_name(member: &Member) -> (r: String)
    ensures
        r@ == member_text(*member),
{
    match member {
        Member::Named(s) => s.clone(),
        Member::Unnamed(s) => s.clone(),
    }
}

/// The member's name, where it has one.
pub open spec fn member_named(member: Member) -> Option<Seq<char>> {
    match member {
        Member::Named(s) => Some(s@),
        Member::Unnamed(_) => None,
    }
}

/// The member's name, where it has one.
pub fn named_member(member: &Member) -> (r: Option<&String>)
    ensures
        match r {
            Some(s) => member_named(*member) == Some(s@),
            None => member_named(*member) is None,
        },
{
    match member {
        Member::Named(s) => Some(s),
        Member::Unnamed(_) => None,
    }
}

/// The names along a callee expression: those of a path, followed by the fields
/// read off it. References and parentheses around it do not count.
pub open spec fn expr_segments(e: Expr) -> Option<Seq<Seq<char>>>
    decreases e,
{
    match e.kind {
        ExprKind::Path(p) => Some(segment_names(p.path)),
        ExprKind::Field(f) => match expr_segments(*f.base) {
            Some(s) => Some(s.push(member_text(f.member))),
            None => None,
        },
        ExprKind::Paren(x) => expr_segments(*x),
        ExprKind::Reference(x) => expr_segments(*x),
        _ => None,
    }
}

/// The names along a callee expression, if it is a path with fields read off it.
pub fn canonical_expr_segments(expr: &Expr) -> (r: Option<Vec<String>>)
    ensures
        match r {
            Some(v) => expr_segments(*expr) == Some(string_views(v@)),
            None => expr_segments(*expr) is None,
        },
    decreases *expr,
{
    match &expr.kind {
        ExprKind::Path(p) => Some(canonical_path_segments(&p.path)),
        ExprKind::Field(f) => match canonical_expr_segments(&f.base) {
            Some(mut v) => {
                let ghost before = v@;
                v.push(canonical_member_name(&f.member));
                assert(string_views(v@) =~= string_views(before).push(member_text(f.member)));
                Some(v)
            },
            None => None,
        },
        ExprKind::Paren(x) => canonical_expr_segments(x),
        ExprKind::Reference(x) => canonical_expr_segments(x),
        _ => None,
    }
}

/// Whether the expression is the local `name`, behind any references and
/// parentheses.
pub open spec fn is_local_name(e: Expr, name: Seq<char>) -> bool
    decreases e,
{
    match e.kind {
        ExprKind::Path(p) => path_is_ident(p.path, name),
        ExprKind::Reference(x) => is_local_name(*x, name),
        ExprKind::Paren(x) => is_local_name(*x, name),
        _ => false,
    }
}

/// Whether the expression is the local `expected`, behind any references and
/// parentheses.
pub fn expr_matches_local_name(expr: &Expr, expected: &str) -> (r: bool)
    ensures
        r == is_local_name(*expr, expected@),
    decreases *expr,
{
    match &expr.kind {
        ExprKind::Path(p) => p.path.is_ident(expected),
        ExprKind::Reference(x) => expr_matches_local_name(x, expected),
        ExprKind::Paren(x) => expr_matches_local_name(x, expected),
        _ => false,
    }
}

/// The expression under all its parentheses.
pub open spec fn without_parens(e: Expr) -> Expr
    decreases e,
{
    match e.kind {
        ExprKind::Paren(x) => without_parens(*x),
        _ => e,
    }
}

/// The expression under all its parentheses.
pub fn unwrap_expr_paren(expr: &Expr) -> (r: &Expr)
    ensures
        *r == without_parens(*expr),
    decreases *expr,
{
    match &expr.kind {
        ExprKind::Paren(x) => unwrap_expr_paren(x),
        _ => expr,
    }
}

/// The identifier of an unqualified path of one segment without generics.
pub open spec fn single_ident(e: Expr) -> Option<String> {
    match e.kind {
        ExprKind::Path(p) => if !p.qself {
            path_ident(p.path)
        } else {
            None
        },
        _ => None,
    }
}

/// Whether the expression is the unqualified one-segment path `name`.
pub open spec fn single_ident_is(e: Expr, name: Seq<char>) -> bool {
    match single_ident(e) {
        Some(s) => s@ == name,
        None => false,
    }
}

/// The identifier of an unqualified path of one segment without generics.
pub fn expr_single_ident(expr: &Expr) -> (r: Option<&String>)
    ensures
        match r {
            Some(s) => single_ident(*expr) == Some(*s),
            None => single_ident(*expr) is None,
        },
{
    match &expr.kind {
        ExprKind::Path(p) => if !p.qself {
            p.path.get_ident()
        } else {
            None
        },
        _ => None,
    }
}

/// The value of an integer literal that fits in `i64`.
pub open spec fn int_literal(e: Expr) -> Option<i64> {
    match e.kind {
        ExprKind::Lit(Lit::Int(v)) => v,
        _ => None,
    }
}

/// The value of an integer literal that fits in `i64`.
pub fn expr_int_literal_value(expr: &Expr) -> (r: Option<i64>)
    ensures
        r == int_literal(*expr),
{
    match &expr.kind {
        ExprKind::Lit(Lit::Int(v)) => *v,
        _ => None,
    }
}

} // verus!
