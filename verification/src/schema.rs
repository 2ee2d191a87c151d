//! The green and red variables of a merge point: their registers and their
//! types.

use vstd::prelude::*;

use crate::config::{GreenTypeTag, LowererConfig};
use crate::ast::{Expr, ExprKind};
use crate::extended_arg::{bare_ident, Bindings, expr_bare_ident};
use crate::kinds::{Binding, BindingKind};
use crate::lowerer::{Lowerer, Reject};
use crate::ops::{Banked, banked_view};
use crate::text::{lookup, NameTable, same_text};

verus! {

// ── Registers ────────────────────────────────────────────────────────

#[derive(Clone, Copy, Debug, PartialEq, Eq, Structural)]
pub enum VarRole {
    Green,
    Red,
}

pub open spec fn not_ident(role: VarRole) -> Reject {
    match role {
        VarRole::Green => Reject::GreenNotIdent,
        VarRole::Red => Reject::RedNotIdent,
    }
}

pub open spec fn unbound(role: VarRole) -> Reject {
    match role {
        VarRole::Green => Reject::GreenUnbound,
        VarRole::Red => Reject::RedUnbound,
    }
}

pub open spec fn too_large(role: VarRole, reg: u16) -> Reject {
    match role {
        VarRole::Green => Reject::GreenRegister(reg),
        VarRole::Red => Reject::RedRegister(reg),
    }
}

pub open spec fn duplicate(role: VarRole, reg: u8) -> Reject {
    match role {
        VarRole::Green => Reject::DuplicateGreen(reg),
        VarRole::Red => Reject::DuplicateRed(reg),
    }
}

/// A declared variable; nothing stands for what is no bare identifier.
pub type VarName = Option<Seq<char>>;

pub open spec fn var_names(v: Seq<Option<String>>) -> Seq<VarName> {
    Seq::new(
        v.len(),
        |i: int|
            match v[i] {
                Some(s) => Some(s@),
                None => None,
            },
    )
}

/// What is wrong with a variable by itself.
pub open spec fn var_error(bindings: Bindings, name: VarName, role: VarRole) -> Option<Reject> {
    match name {
        None => Some(not_ident(role)),
        Some(n) => match lookup(bindings, n) {
            None => Some(unbound(role)),
            Some(b) => if b.reg > 255 {
                Some(too_large(role, b.reg))
            } else {
                None
            },
        },
    }
}

/// What is wrong with the first variable that something is wrong with.
pub open spec fn vars_error(bindings: Bindings, names: Seq<VarName>, role: VarRole) -> Option<Reject>
    decreases names.len(),
{
    if names.len() == 0 {
        None
    } else {
        match var_error(bindings, names[0], role) {
            Some(why) => Some(why),
            None => vars_error(bindings, names.drop_first(), role),
        }
    }
}

/// The registers of one bank, in the order of the variables.
pub open spec fn var_bytes(bindings: Bindings, names: Seq<VarName>, kind: BindingKind) -> Seq<u8>
    decreases names.len(),
{
    if names.len() == 0 {
        seq![]
    } else {
        let before = var_bytes(bindings, names.drop_last(), kind);
        match names.last() {
            Some(n) => match lookup(bindings, n) {
                Some(b) => if b.kind == kind {
                    before.push(b.reg as u8)
                } else {
                    before
                },
                None => before,
            },
            None => before,
        }
    }
}

/// The first byte that stands in the list for a second time.
pub open spec fn first_repeat(v: Seq<u8>) -> Option<u8>
    decreases v.len(),
{
    if v.len() == 0 {
        None
    } else {
        match first_repeat(v.drop_last()) {
            Some(b) => Some(b),
            None => if v.drop_last().contains(v.last()) {
                Some(v.last())
            } else {
                None
            },
        }
    }
}

/// The register bytes of the variables, one list per bank. No register may occur
/// twice.
pub open spec fn var_lists(bindings: Bindings, names: Seq<VarName>, role: VarRole) -> Result<
    Banked<Seq<u8>>,
    Reject,
> {
    let i = var_bytes(bindings, names, BindingKind::Int);
    let r = var_bytes(bindings, names, BindingKind::Ref);
    let f = var_bytes(bindings, names, BindingKind::Float);
    match vars_error(bindings, names, role) {
        Some(why) => Err(why),
        None => match (first_repeat(i), first_repeat(r), first_repeat(f)) {
            (Some(b), _, _) => Err(duplicate(role, b)),
            (None, Some(b), _) => Err(duplicate(role, b)),
            (None, None, Some(b)) => Err(duplicate(role, b)),
            (None, None, None) => Ok(Banked { i, r, f }),
        },
    }
}

fn repeated(v: &Vec<u8>) -> (r: Option<u8>)
    ensures
        r == first_repeat(v@),
{
    let mut i: usize = 0;
    assert(v@.take(0) =~= seq![]);
    while i < v.len()
        invariant
            i <= v@.len(),
            first_repeat(v@.take(i as int)) is None,
        decreases v.len() - i,
    {
        assert(v@.take(i + 1).drop_last() =~= v@.take(i as int));
        let mut j: usize = 0;
        let mut seen = false;
        while j < i
            invariant
                j <= i < v@.len(),
                seen == v@.take(j as int).contains(v@[i as int]),
            decreases i - j,
        {
            assert(v@.take(j + 1) =~= v@.take(j as int).push(v@[j as int]));
            if v[j] == v[i] {
                seen = true;
                assert(v@.take(j + 1)[j as int] == v@[i as int]);
            } else if seen {
                let ghost k = choose|k: int| 0 <= k < j && v@.take(j as int)[k] == v@[i as int];
                assert(v@.take(j + 1)[k] == v@[i as int]);
            } else {
                assert(forall|k: int|
                    0 <= k < j + 1 ==> #[trigger] v@.take(j + 1)[k] != v@[i as int]) by {
                    assert forall|k: int| 0 <= k < j + 1 implies #[trigger] v@.take(j + 1)[k]
                        != v@[i as int] by {
                        if k < j {
                            assert(v@.take(j as int)[k] == v@[k]);
                            assert(v@.take(j as int).contains(v@[k]));
                        }
                    }
                }
            }
            j = j + 1;
        }
        if seen {
            proof {
                lemma_repeat_stays(v@, i + 1);
            }
            return Some(v[i]);
        }
        i = i + 1;
    }
    assert(v@.take(v@.len() as int) =~= v@);
    None
}

proof fn lemma_repeat_stays(v: Seq<u8>, n: int)
    requires
        0 <= n <= v.len(),
        first_repeat(v.take(n)) is Some,
    ensures
        first_repeat(v) == first_repeat(v.take(n)),
    decreases v.len(),
{
    if n < v.len() {
        assert(v.drop_last().take(n) =~= v.take(n));
        lemma_repeat_stays(v.drop_last(), n);
    } else {
        assert(v.take(n) =~= v);
    }
}

fn resolve_vars(bindings: &NameTable<Binding>, names: &Vec<Option<String>>, role: VarRole) -> (r:
    Result<Banked<Vec<u8>>, Reject>)
    ensures
        match r {
            Err(why) => var_lists(bindings@, var_names(names@), role) == Err::<
                Banked<Seq<u8>>,
                Reject,
            >(why),
            Ok(b) => var_lists(bindings@, var_names(names@), role) == Ok::<
                Banked<Seq<u8>>,
                Reject,
            >(banked_view(b)),
        },
{
    let ghost views = var_names(names@);
    let mut i_regs: Vec<u8> = Vec::new();
    let mut r_regs: Vec<u8> = Vec::new();
    let mut f_regs: Vec<u8> = Vec::new();
    let mut i: usize = 0;
    assert(views.skip(0) =~= views);
    while i < names.len()
        invariant
            views == var_names(names@),
            i <= views.len(),
            vars_error(bindings@, views, role) == vars_error(bindings@, views.skip(i as int), role),
            i_regs@ == var_bytes(bindings@, views.take(i as int), BindingKind::Int),
            r_regs@ == var_bytes(bindings@, views.take(i as int), BindingKind::Ref),
            f_regs@ == var_bytes(bindings@, views.take(i as int), BindingKind::Float),
        decreases names.len() - i,
    {
        assert(views.skip(i as int).drop_first() =~= views.skip(i + 1));
        assert(views.skip(i as int)[0] == views[i as int]);
        assert(views.take(i + 1).drop_last() =~= views.take(i as int));
        assert(views.take(i + 1).last() == views[i as int]);
        let name = match &names[i] {
            Some(name) => name,
            None => {
                return Err(
                    match role {
                        VarRole::Green => Reject::GreenNotIdent,
                        VarRole::Red => Reject::RedNotIdent,
                    },
                );
            },
        };
        let b = match bindings.get(name.as_str()) {
            Some(b) => b,
            None => {
                return Err(
                    match role {
                        VarRole::Green => Reject::GreenUnbound,
                        VarRole::Red => Reject::RedUnbound,
                    },
                );
            },
        };
        if b.reg > 255 {
            return Err(
                match role {
                    VarRole::Green => Reject::GreenRegister(b.reg),
                    VarRole::Red => Reject::RedRegister(b.reg),
                },
            );
        }
        let byte: u8 = b.reg as u8;
        match b.kind {
            BindingKind::Int => {
                i_regs.push(byte);
            },
            BindingKind::Ref => {
                r_regs.push(byte);
            },
            BindingKind::Float => {
                f_regs.push(byte);
            },
        }
        i = i + 1;
    }
    assert(views.take(views.len() as int) =~= views);
    let repeat = match repeated(&i_regs) {
        Some(b) => Some(b),
        None => match repeated(&r_regs) {
            Some(b) => Some(b),
            None => repeated(&f_regs),
        },
    };
    match repeat {
        Some(b) => Err(
            match role {
                VarRole::Green => Reject::DuplicateGreen(b),
                VarRole::Red => Reject::DuplicateRed(b),
            },
        ),
        None => Ok(Banked { i: i_regs, r: r_regs, f: f_regs }),
    }
}

// ── Declared variables ───────────────────────────────────────────────

/// The bare identifiers of the declared greens.
pub open spec fn declared_names(exprs: Seq<Expr>) -> Seq<VarName> {
    Seq::new(
        exprs.len(),
        |i: int|
            match bare_ident(exprs[i]) {
                Some(s) => Some(s@),
                None => None,
            },
    )
}

fn names_of(exprs: &Vec<Expr>) -> (r: Vec<Option<String>>)
    ensures
        var_names(r@) == declared_names(exprs@),
{
    let mut out: Vec<Option<String>> = Vec::new();
    let mut i: usize = 0;
    while i < exprs.len()
        invariant
            i <= exprs@.len(),
            out@.len() == i,
            forall|k: int| 0 <= k < i ==> var_names(out@)[k] == declared_names(exprs@)[k],
        decreases exprs.len() - i,
    {
        let ghost before = out@;
        let name = match expr_bare_ident(&exprs[i]) {
            Some(s) => Some(s.clone()),
            None => None,
        };
        out.push(name);
        assert forall|k: int| 0 <= k < i + 1 implies var_names(out@)[k] == declared_names(
            exprs@,
        )[k] by {
            if k < i {
                assert(out@[k] == before[k]);
                assert(var_names(before)[k] == declared_names(exprs@)[k]);
            }
        }
        i = i + 1;
    }
    assert(var_names(out@) =~= declared_names(exprs@));
    out
}

/// Whether one of the expressions is the bare identifier `name`.
pub open spec fn declares(exprs: Seq<Expr>, name: Seq<char>) -> bool {
    declared_names(exprs).contains(Some(name))
}

fn declares_name(exprs: &Vec<Expr>, name: &str) -> (r: bool)
    ensures
        r == declares(exprs@, name@),
{
    let mut i: usize = 0;
    while i < exprs.len()
        invariant
            i <= exprs@.len(),
            forall|k: int| 0 <= k < i ==> declared_names(exprs@)[k] != Some(name@),
        decreases exprs.len() - i,
    {
        if let Some(s) = expr_bare_ident(&exprs[i]) {
            if same_text(s.as_str(), name) {
                assert(declared_names(exprs@)[i as int] == Some(name@));
                return true;
            }
        }
        i = i + 1;
    }
    false
}

/// `name`, unless it is a declared green.
pub open spec fn unless_green(greens: Seq<Expr>, name: Seq<char>) -> Seq<VarName> {
    if declares(greens, name) {
        seq![]
    } else {
        seq![Some(name)]
    }
}

/// The reds where none are declared: the program counter, the program and the
/// virtualizable, without the greens.
pub open spec fn default_reds(config: LowererConfig) -> Seq<VarName> {
    unless_green(config.greens@, "pc"@) + unless_green(config.greens@, "program"@)
        + match config.vable_var {
        Some(v) => unless_green(config.greens@, v@),
        None => seq![],
    }
}

fn default_red_names(config: &LowererConfig) -> (r: Vec<Option<String>>)
    ensures
        var_names(r@) == default_reds(*config),
{
    let mut out: Vec<Option<String>> = Vec::new();
    if !declares_name(&config.greens, "pc") {
        out.push(Some("pc".to_owned()));
    }
    assert(var_names(out@) =~= unless_green(config.greens@, "pc"@));
    let ghost first = var_names(out@);
    if !declares_name(&config.greens, "program") {
        out.push(Some("program".to_owned()));
    }
    assert(var_names(out@) =~= first + unless_green(config.greens@, "program"@));
    let ghost second = var_names(out@);
    if let Some(v) = &config.vable_var {
        if !declares_name(&config.greens, v.as_str()) {
            out.push(Some(v.clone()));
        }
        assert(var_names(out@) =~= second + unless_green(config.greens@, v@));
    }
    assert(var_names(out@) =~= default_reds(*config));
    out
}

/// The bare identifiers among the first `n` expressions.
pub open spec fn bare_names(exprs: Seq<Expr>, n: int) -> Seq<VarName>
    decreases n,
{
    if 0 < n <= exprs.len() {
        match bare_ident(exprs[n - 1]) {
            Some(s) => bare_names(exprs, n - 1).push(Some(s@)),
            None => bare_names(exprs, n - 1),
        }
    } else {
        seq![]
    }
}

pub open spec fn all_paths(exprs: Seq<Expr>) -> bool {
    forall|i: int| 0 <= i < exprs.len() ==> (#[trigger] exprs[i]).kind is Path
}

/// The reds of the merge point. Declared paths that are no bare identifiers do
/// not count.
pub open spec fn red_names(config: LowererConfig) -> Result<Seq<VarName>, Reject> {
    let reds = config.reds@;
    if !all_paths(reds) {
        Err(Reject::RedNotIdent)
    } else if bare_names(reds, reds.len() as int).len() > 0 {
        Ok(bare_names(reds, reds.len() as int))
    } else {
        Ok(default_reds(config))
    }
}

fn merge_point_reds(config: &LowererConfig) -> (r: Result<Vec<Option<String>>, Reject>)
    ensures
        match r {
            Err(why) => red_names(*config) == Err::<Seq<VarName>, Reject>(why),
            Ok(v) => red_names(*config) == Ok::<Seq<VarName>, Reject>(var_names(v@)),
        },
{
    let reds = &config.reds;
    let mut out: Vec<Option<String>> = Vec::new();
    let mut i: usize = 0;
    assert(var_names(out@) =~= seq![]);
    while i < reds.len()
        invariant
            reds@ == config.reds@,
            i <= reds@.len(),
            forall|k: int| 0 <= k < i ==> (#[trigger] reds@[k]).kind is Path,
            var_names(out@) == bare_names(reds@, i as int),
        decreases reds.len() - i,
    {
        match &reds[i].kind {
            ExprKind::Path(_) => {},
            _ => {
                return Err(Reject::RedNotIdent);
            },
        }
        if let Some(s) = expr_bare_ident(&reds[i]) {
            let ghost before = out@;
            out.push(Some(s.clone()));
            assert(var_names(out@) =~= var_names(before).push(Some(s@)));
        }
        i = i + 1;
    }
    assert(var_names(out@).len() == out@.len());
    if out.len() > 0 {
        Ok(out)
    } else {
        Ok(default_red_names(config))
    }
}

impl<'a> Lowerer<'a> {
    /// The registers of the declared greens.
    pub fn resolve_greens(&self, config: &LowererConfig) -> (r: Result<Banked<Vec<u8>>, Reject>)
        ensures
            ({
                let lists = var_lists(
                    self@.bindings,
                    declared_names(config.greens@),
                    VarRole::Green,
                );
                match r {
                    Err(why) => lists == Err::<Banked<Seq<u8>>, Reject>(why),
                    Ok(b) => lists == Ok::<Banked<Seq<u8>>, Reject>(banked_view(b)),
                }
            }),
    {
        let names = names_of(&config.greens);
        resolve_vars(&self.bindings, &names, VarRole::Green)
    }

    /// The registers of the reds.
    pub fn resolve_reds(&self, config: &LowererConfig) -> (r: Result<Banked<Vec<u8>>, Reject>)
        ensures
            ({
                let lists = red_lists(self@.bindings, *config);
                match r {
                    Err(why) => lists == Err::<Banked<Seq<u8>>, Reject>(why),
                    Ok(b) => lists == Ok::<Banked<Seq<u8>>, Reject>(banked_view(b)),
                }
            }),
    {
        match merge_point_reds(config) {
            Err(why) => Err(why),
            Ok(names) => resolve_vars(&self.bindings, &names, VarRole::Red),
        }
    }
}

/// The registers of the reds, one list per bank.
pub open spec fn red_lists(bindings: Bindings, config: LowererConfig) -> Result<
    Banked<Seq<u8>>,
    Reject,
> {
    match red_names(config) {
        Err(why) => Err(why),
        Ok(names) => var_lists(bindings, names, VarRole::Red),
    }
}

// ── Types ────────────────────────────────────────────────────────────

/// The type of a green without a declared type.
pub open spec fn bank_type(kind: BindingKind) -> GreenTypeTag {
    match kind {
        BindingKind::Int => GreenTypeTag::Int,
        BindingKind::Ref => GreenTypeTag::Ref,
        BindingKind::Float => GreenTypeTag::Float,
    }
}

/// Integers come before references, and these before floats.
pub open spec fn type_rank(t: GreenTypeTag) -> int {
    match t {
        GreenTypeTag::Int => 1,
        GreenTypeTag::Ref | GreenTypeTag::Str | GreenTypeTag::Unicode => 2,
        GreenTypeTag::Float => 3,
    }
}

/// A variable with its type.
pub type TypedVar = (Seq<char>, GreenTypeTag);

pub open spec fn schema_view(v: Seq<(String, GreenTypeTag)>) -> Seq<TypedVar> {
    Seq::new(v.len(), |i: int| (v[i].0@, v[i].1))
}

/// Whether no variable stands after one of a higher rank.
pub open spec fn kind_sorted(v: Seq<TypedVar>) -> bool {
    forall|i: int|
        #![trigger v[i]]
        0 <= i < v.len() - 1 ==> type_rank(v[i].1) <= type_rank(v[i + 1].1)
}

/// The declared type of the `i`th green, or the type of its bank.
pub open spec fn green_type(tags: Seq<Option<GreenTypeTag>>, i: int, kind: BindingKind) -> GreenTypeTag {
    if 0 <= i < tags.len() {
        match tags[i] {
            Some(t) => t,
            None => bank_type(kind),
        }
    } else {
        bank_type(kind)
    }
}

/// The greens and their types.
pub open spec fn green_vars(
    bindings: Bindings,
    greens: Seq<Expr>,
    tags: Seq<Option<GreenTypeTag>>,
) -> Seq<TypedVar> {
    Seq::new(
        greens.len(),
        |i: int|
            {
                let name = bare_ident(greens[i])->0@;
                (name, green_type(tags, i, lookup(bindings, name)->0.kind))
            },
    )
}

/// What is wrong with the first green that is no name or has no binding.
pub open spec fn names_error(bindings: Bindings, names: Seq<VarName>, role: VarRole) -> Option<Reject>
    decreases names.len(),
{
    if names.len() == 0 {
        None
    } else {
        match names[0] {
            None => Some(not_ident(role)),
            Some(n) => if !bindings.contains_key(n) {
                Some(unbound(role))
            } else {
                names_error(bindings, names.drop_first(), role)
            },
        }
    }
}

/// The greens and their types, which must be in order.
pub open spec fn green_types(bindings: Bindings, config: LowererConfig) -> Result<
    Seq<TypedVar>,
    Reject,
> {
    let vars = green_vars(bindings, config.greens@, config.green_type_tags@);
    match names_error(bindings, declared_names(config.greens@), VarRole::Green) {
        Some(why) => Err(why),
        None => if kind_sorted(vars) {
            Ok(vars)
        } else {
            Err(Reject::GreenOrder)
        },
    }
}

fn type_of_bank(kind: BindingKind) -> (r: GreenTypeTag)
    ensures
        r == bank_type(kind),
{
    match kind {
        BindingKind::Int => GreenTypeTag::Int,
        BindingKind::Ref => GreenTypeTag::Ref,
        BindingKind::Float => GreenTypeTag::Float,
    }
}

fn rank_of_type(t: GreenTypeTag) -> (r: u8)
    ensures
        r == type_rank(t),
{
    match t {
        GreenTypeTag::Int => 1,
        GreenTypeTag::Ref => 2,
        GreenTypeTag::Str => 2,
        GreenTypeTag::Unicode => 2,
        GreenTypeTag::Float => 3,
    }
}

/// Whether no variable stands after one of a higher rank.
pub fn is_kind_sorted(vars: &Vec<(String, GreenTypeTag)>) -> (r: bool)
    ensures
        r == kind_sorted(schema_view(vars@)),
{
    let ghost views = schema_view(vars@);
    if vars.len() == 0 {
        return true;
    }
    let mut i: usize = 1;
    while i < vars.len()
        invariant
            views == schema_view(vars@),
            1 <= i <= views.len(),
            forall|k: int|
                #![trigger views[k]]
                0 <= k < i - 1 ==> type_rank(views[k].1) <= type_rank(views[k + 1].1),
        decreases vars.len() - i,
    {
        assert(views[i - 1].1 == vars@[i - 1].1);
        assert(views[i as int].1 == vars@[i as int].1);
        if rank_of_type(vars[i - 1].1) > rank_of_type(vars[i].1) {
            return false;
        }
        i = i + 1;
    }
    true
}

/// The names of the reds whose types are declared: all must be bare identifiers.
/// Where none are declared, the default ones are taken, and then the greens must
/// be bare identifiers.
pub open spec fn red_schema_names(config: LowererConfig) -> Result<Seq<VarName>, Reject> {
    if declared_names(config.reds@).contains(None) {
        Err(Reject::RedNotIdent)
    } else if config.reds@.len() > 0 {
        Ok(declared_names(config.reds@))
    } else if declared_names(config.greens@).contains(None) {
        Err(Reject::GreenNotIdent)
    } else {
        Ok(default_reds(config))
    }
}

/// The variables among the first `n` that are bound, with the types of their
/// banks.
pub open spec fn bound_vars(bindings: Bindings, names: Seq<VarName>, n: int) -> Seq<TypedVar>
    decreases n,
{
    if 0 < n <= names.len() {
        let before = bound_vars(bindings, names, n - 1);
        match names[n - 1] {
            Some(name) => match lookup(bindings, name) {
                Some(b) => before.push((name, bank_type(b.kind))),
                None => before,
            },
            None => before,
        }
    } else {
        seq![]
    }
}

/// Whether all the names are bound.
pub open spec fn all_bound(bindings: Bindings, names: Seq<VarName>) -> bool {
    forall|i: int|
        0 <= i < names.len() ==> match #[trigger] names[i] {
            Some(n) => bindings.contains_key(n),
            None => true,
        }
}

/// The reds and their types, which must be in order. A declared red must be
/// bound; of the default ones, those that are bound are taken.
pub open spec fn red_types(bindings: Bindings, config: LowererConfig) -> Result<
    Seq<TypedVar>,
    Reject,
> {
    match red_schema_names(config) {
        Err(why) => Err(why),
        Ok(names) => {
            let vars = bound_vars(bindings, names, names.len() as int);
            if config.reds@.len() > 0 && !all_bound(bindings, names) {
                Err(Reject::RedUnbound)
            } else if kind_sorted(vars) {
                Ok(vars)
            } else {
                Err(Reject::RedOrder)
            }
        },
    }
}

fn has_unnamed(exprs: &Vec<Expr>) -> (r: bool)
    ensures
        r == declared_names(exprs@).contains(None),
{
    let mut i: usize = 0;
    while i < exprs.len()
        invariant
            i <= exprs@.len(),
            forall|k: int| 0 <= k < i ==> declared_names(exprs@)[k] is Some,
        decreases exprs.len() - i,
    {
        if expr_bare_ident(&exprs[i]).is_none() {
            assert(declared_names(exprs@)[i as int] is None);
            return true;
        }
        i = i + 1;
    }
    false
}

fn red_schema_name_list(config: &LowererConfig) -> (r: Result<Vec<Option<String>>, Reject>)
    ensures
        match r {
            Err(why) => red_schema_names(*config) == Err::<Seq<VarName>, Reject>(why),
            Ok(v) => red_schema_names(*config) == Ok::<Seq<VarName>, Reject>(var_names(v@)),
        },
{
    if has_unnamed(&config.reds) {
        Err(Reject::RedNotIdent)
    } else if config.reds.len() > 0 {
        Ok(names_of(&config.reds))
    } else if has_unnamed(&config.greens) {
        Err(Reject::GreenNotIdent)
    } else {
        Ok(default_red_names(config))
    }
}

impl<'a> Lowerer<'a> {
    /// The greens and their types.
    pub fn green_schema(&self, config: &LowererConfig) -> (r: Result<
        Vec<(String, GreenTypeTag)>,
        Reject,
    >)
        ensures
            match r {
                Err(why) => green_types(self@.bindings, *config) == Err::<Seq<TypedVar>, Reject>(
                    why,
                ),
                Ok(v) => green_types(self@.bindings, *config) == Ok::<Seq<TypedVar>, Reject>(
                    schema_view(v@),
                ),
            },
    {
        let ghost bindings = self@.bindings;
        let ghost names = declared_names(config.greens@);
        let ghost vars = green_vars(bindings, config.greens@, config.green_type_tags@);
        let mut out: Vec<(String, GreenTypeTag)> = Vec::new();
        let mut i: usize = 0;
        assert(names.skip(0) =~= names);
        while i < config.greens.len()
            invariant
                bindings == self@.bindings,
                names == declared_names(config.greens@),
                vars == green_vars(bindings, config.greens@, config.green_type_tags@),
                i <= config.greens@.len(),
                names_error(bindings, names, VarRole::Green) == names_error(
                    bindings,
                    names.skip(i as int),
                    VarRole::Green,
                ),
                out@.len() == i,
                forall|k: int|
                    0 <= k < i ==> (#[trigger] out@[k]).0@ == vars[k].0 && out@[k].1 == vars[k].1,
            decreases config.greens.len() - i,
        {
            assert(names.skip(i as int).drop_first() =~= names.skip(i + 1));
            assert(names.skip(i as int)[0] == names[i as int]);
            let name = match expr_bare_ident(&config.greens[i]) {
                Some(name) => name,
                None => {
                    return Err(Reject::GreenNotIdent);
                },
            };
            let b = match self.bindings.get(name.as_str()) {
                Some(b) => b,
                None => {
                    return Err(Reject::GreenUnbound);
                },
            };
            let tag = if i < config.green_type_tags.len() {
                config.green_type_tags[i]
            } else {
                None
            };
            let ty = match tag {
                Some(t) => t,
                None => type_of_bank(b.kind),
            };
            out.push((name.clone(), ty));
            i = i + 1;
        }
        assert(schema_view(out@) =~= vars);
        if is_kind_sorted(&out) {
            Ok(out)
        } else {
            Err(Reject::GreenOrder)
        }
    }

    /// The reds and their types.
    pub fn red_schema(&self, config: &LowererConfig) -> (r: Result<
        Vec<(String, GreenTypeTag)>,
        Reject,
    >)
        ensures
            match r {
                Err(why) => red_types(self@.bindings, *config) == Err::<Seq<TypedVar>, Reject>(why),
                Ok(v) => red_types(self@.bindings, *config) == Ok::<Seq<TypedVar>, Reject>(
                    schema_view(v@),
                ),
            },
    {
        let ghost bindings = self@.bindings;
        let names = match red_schema_name_list(config) {
            Err(why) => {
                return Err(why);
            },
            Ok(names) => names,
        };
        let ghost views = var_names(names@);
        let declared = config.reds.len() > 0;
        let mut out: Vec<(String, GreenTypeTag)> = Vec::new();
        let mut i: usize = 0;
        assert(schema_view(out@) =~= seq![]);
        while i < names.len()
            invariant
                bindings == self@.bindings,
                views == var_names(names@),
                red_schema_names(*config) == Ok::<Seq<VarName>, Reject>(views),
                declared == (config.reds@.len() > 0),
                i <= views.len(),
                declared ==> forall|k: int|
                    0 <= k < i ==> match #[trigger] views[k] {
                        Some(n) => bindings.contains_key(n),
                        None => true,
                    },
                schema_view(out@) == bound_vars(bindings, views, i as int),
            decreases names.len() - i,
        {
            assert(views[i as int] == match names@[i as int] {
                Some(s) => Some(s@),
                None => None,
            });
            if let Some(name) = &names[i] {
                match self.bindings.get(name.as_str()) {
                    Some(b) => {
                        let ghost before = out@;
                        let ty = type_of_bank(b.kind);
                        out.push((name.clone(), ty));
                        assert(schema_view(out@) =~= schema_view(before).push((name@, ty)));
                    },
                    None => {
                        if declared {
                            assert(!all_bound(bindings, views));
                            return Err(Reject::RedUnbound);
                        }
                    },
                }
            }
            i = i + 1;
        }
        if is_kind_sorted(&out) {
            Ok(out)
        } else {
            Err(Reject::RedOrder)
        }
    }
}

// ── Laws ─────────────────────────────────────────────────────────────

/// No register stands twice in a list of a merge point.
pub proof fn law_merge_point_registers_are_distinct(v: Seq<u8>)
    requires
        first_repeat(v) is None,
    ensures
        v.no_duplicates(),
    decreases v.len(),
{
    if v.len() > 0 {
        let rest = v.drop_last();
        law_merge_point_registers_are_distinct(rest);
        assert forall|i: int, j: int| 0 <= i < v.len() && 0 <= j < v.len() && i != j implies v[i]
            != v[j] by {
            if i < rest.len() && j < rest.len() {
                assert(rest[i] != rest[j]);
            } else if i < rest.len() {
                assert(rest[i] == v[i]);
                assert(rest.contains(v[i]));
            } else {
                assert(rest[j] == v[j]);
                assert(rest.contains(v[j]));
            }
        }
    }
}

/// In an accepted schema every integer comes before every reference, and every
/// reference before every float.
pub proof fn law_schema_is_ordered(v: Seq<TypedVar>, i: int, j: int)
    requires
        kind_sorted(v),
        0 <= i <= j < v.len(),
    ensures
        type_rank(v[i].1) <= type_rank(v[j].1),
    decreases j - i,
{
    if i < j {
        law_schema_is_ordered(v, i, j - 1);
        assert(type_rank(v[j - 1].1) <= type_rank(v[j - 1 + 1].1));
    }
}

} // verus!
