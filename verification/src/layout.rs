//! Where the locals that a dispatch arm uses are handed to the arm's own body.

use vstd::prelude::*;

use crate::arm_locals::local_views;
use crate::calls::{arg_family, clamped, family_for};
use crate::kinds::{Binding, BindingKind};
use crate::lowerer::{larger, max_u16};
use crate::ops::{Banked, banked_view, InlineFamily};

verus! {

/// A local of the dispatch body: its register there, and the register of the
/// same bank in which the arm's body finds it.
pub struct CallerLocalLayout {
    pub name: String,
    pub parent_reg: u16,
    pub callee_reg: u16,
    pub kind: BindingKind,
}

/// Model of a [`CallerLocalLayout`].
pub struct LayoutView {
    pub name: Seq<char>,
    pub parent_reg: u16,
    pub callee_reg: u16,
    pub kind: BindingKind,
}

impl View for CallerLocalLayout {
    type V = LayoutView;

    open spec fn view(&self) -> LayoutView {
        LayoutView {
            name: self.name@,
            parent_reg: self.parent_reg,
            callee_reg: self.callee_reg,
            kind: self.kind,
        }
    }
}

pub open spec fn layout_views(v: Seq<CallerLocalLayout>) -> Seq<LayoutView> {
    Seq::new(v.len(), |i: int| v[i]@)
}

/// How many of the locals are in the bank.
pub open spec fn count_kind(locals: Seq<(Seq<char>, Binding)>, kind: BindingKind) -> nat
    decreases locals.len(),
{
    if locals.len() == 0 {
        0
    } else if locals.last().1.kind == kind {
        count_kind(locals.drop_last(), kind) + 1
    } else {
        count_kind(locals.drop_last(), kind)
    }
}

/// Each local gets the next register of its bank.
pub open spec fn packed_layout(locals: Seq<(Seq<char>, Binding)>) -> Seq<LayoutView> {
    Seq::new(
        locals.len(),
        |i: int|
            LayoutView {
                name: locals[i].0,
                parent_reg: locals[i].1.reg,
                callee_reg: clamped(count_kind(locals.take(i), locals[i].1.kind)),
                kind: locals[i].1.kind,
            },
    )
}

/// The first register number that no local occupies in any bank.
pub open spec fn layout_end(locals: Seq<(Seq<char>, Binding)>) -> u16 {
    max_u16(
        max_u16(
            clamped(count_kind(locals, BindingKind::Int)),
            clamped(count_kind(locals, BindingKind::Ref)),
        ),
        clamped(count_kind(locals, BindingKind::Float)),
    )
}

/// Gives each local the next register of its bank; also returns the first
/// register number that is free in every bank.
pub fn assign_caller_local_layout(caller_locals: &[(String, Binding)]) -> (r: (
    Vec<CallerLocalLayout>,
    u16,
))
    ensures
        layout_views(r.0@) == packed_layout(local_views(caller_locals@)),
        r.1 == layout_end(local_views(caller_locals@)),
{
    let ghost locals = local_views(caller_locals@);
    let mut next_int: u16 = 0;
    let mut next_ref: u16 = 0;
    let mut next_float: u16 = 0;
    let mut layout: Vec<CallerLocalLayout> = Vec::new();
    let mut i: usize = 0;
    while i < caller_locals.len()
        invariant
            locals == local_views(caller_locals@),
            i <= locals.len(),
            next_int == clamped(count_kind(locals.take(i as int), BindingKind::Int)),
            next_ref == clamped(count_kind(locals.take(i as int), BindingKind::Ref)),
            next_float == clamped(count_kind(locals.take(i as int), BindingKind::Float)),
            layout@.len() == i,
            forall|k: int| 0 <= k < i ==> (#[trigger] layout@[k])@ == packed_layout(locals)[k],
        decreases caller_locals.len() - i,
    {
        let b = caller_locals[i].1;
        assert(locals[i as int] == (caller_locals@[i as int].0@, b));
        assert(locals.take(i + 1).drop_last() =~= locals.take(i as int));
        let callee_reg: u16 = match b.kind {
            BindingKind::Int => {
                let reg: u16 = next_int;
                next_int = next_int.saturating_add(1);
                reg
            },
            BindingKind::Ref => {
                let reg: u16 = next_ref;
                next_ref = next_ref.saturating_add(1);
                reg
            },
            BindingKind::Float => {
                let reg: u16 = next_float;
                next_float = next_float.saturating_add(1);
                reg
            },
        };
        layout.push(
            CallerLocalLayout {
                name: caller_locals[i].0.clone(),
                parent_reg: b.reg,
                callee_reg,
                kind: b.kind,
            },
        );
        i = i + 1;
    }
    assert(locals.take(locals.len() as int) =~= locals);
    assert(layout_views(layout@) =~= packed_layout(locals));
    let end: u16 = larger(larger(next_int, next_ref), next_float);
    (layout, end)
}

/// The registers of one bank, in the caller and in the arm's body.
pub open spec fn layout_pairs(layout: Seq<LayoutView>, kind: BindingKind) -> Seq<(u16, u16)>
    decreases layout.len(),
{
    if layout.len() == 0 {
        seq![]
    } else if layout.last().kind == kind {
        layout_pairs(layout.drop_last(), kind).push(
            (layout.last().parent_reg, layout.last().callee_reg),
        )
    } else {
        layout_pairs(layout.drop_last(), kind)
    }
}

pub open spec fn layout_args(layout: Seq<LayoutView>) -> Banked<Seq<(u16, u16)>> {
    Banked {
        i: layout_pairs(layout, BindingKind::Int),
        r: layout_pairs(layout, BindingKind::Ref),
        f: layout_pairs(layout, BindingKind::Float),
    }
}

/// Whether the layout has an entry of the bank.
pub open spec fn layout_has(layout: Seq<LayoutView>, kind: BindingKind) -> bool {
    exists|i: int| 0 <= i < layout.len() && (#[trigger] layout[i]).kind == kind
}

/// The family of the arm's call: all three banks where there is a float, else
/// integers and references where there is an integer, else references.
pub open spec fn layout_family(layout: Seq<LayoutView>) -> InlineFamily {
    arg_family(layout_has(layout, BindingKind::Int), layout_has(layout, BindingKind::Float))
}

fn pairs_of(layout: &Vec<CallerLocalLayout>, kind: BindingKind) -> (r: Vec<(u16, u16)>)
    ensures
        r@ == layout_pairs(layout_views(layout@), kind),
{
    let ghost views = layout_views(layout@);
    let mut out: Vec<(u16, u16)> = Vec::new();
    let mut i: usize = 0;
    while i < layout.len()
        invariant
            views == layout_views(layout@),
            i <= views.len(),
            out@ == layout_pairs(views.take(i as int), kind),
        decreases layout.len() - i,
    {
        assert(views.take(i + 1).drop_last() =~= views.take(i as int));
        assert(views[i as int] == layout@[i as int]@);
        if layout[i].kind == kind {
            out.push((layout[i].parent_reg, layout[i].callee_reg));
        }
        i = i + 1;
    }
    assert(views.take(views.len() as int) =~= views);
    out
}

fn has_bank(layout: &Vec<CallerLocalLayout>, kind: BindingKind) -> (r: bool)
    ensures
        r == layout_has(layout_views(layout@), kind),
{
    let ghost views = layout_views(layout@);
    let mut i: usize = 0;
    while i < layout.len()
        invariant
            views == layout_views(layout@),
            i <= views.len(),
            forall|k: int| 0 <= k < i ==> (#[trigger] views[k]).kind != kind,
        decreases layout.len() - i,
    {
        assert(views[i as int] == layout@[i as int]@);
        if layout[i].kind == kind {
            return true;
        }
        i = i + 1;
    }
    false
}

/// Family and arguments of the call that runs an arm's body.
pub fn dispatch_arm_inline_call(layout: &Vec<CallerLocalLayout>) -> (r: (
    InlineFamily,
    Banked<Vec<(u16, u16)>>,
))
    ensures
        r.0 == layout_family(layout_views(layout@)),
        banked_view(r.1) == layout_args(layout_views(layout@)),
{
    (
        family_for(has_bank(layout, BindingKind::Int), has_bank(layout, BindingKind::Float)),
        Banked {
            i: pairs_of(layout, BindingKind::Int),
            r: pairs_of(layout, BindingKind::Ref),
            f: pairs_of(layout, BindingKind::Float),
        },
    )
}

// ── Laws ─────────────────────────────────────────────────────────────

proof fn lemma_count_grows(locals: Seq<(Seq<char>, Binding)>, kind: BindingKind, i: int, j: int)
    requires
        0 <= i <= j <= locals.len(),
    ensures
        count_kind(locals.take(i), kind) <= count_kind(locals.take(j), kind) <= j,
    decreases j,
{
    if i < j {
        assert(locals.take(j).drop_last() =~= locals.take(j - 1));
        lemma_count_grows(locals, kind, i, j - 1);
    } else if j > 0 {
        assert(locals.take(j).drop_last() =~= locals.take(j - 1));
        lemma_count_grows(locals, kind, i - 1, j - 1);
    }
}

/// Locals of one bank get different registers, in order and without gaps, and
/// what is returned as free lies behind all of them.
pub proof fn law_layout_packs_each_bank(locals: Seq<(Seq<char>, Binding)>, i: int, j: int)
    requires
        0 <= i < j < locals.len(),
        locals.len() <= u16::MAX,
        locals[i].1.kind == locals[j].1.kind,
    ensures
        packed_layout(locals)[i].callee_reg < packed_layout(locals)[j].callee_reg,
        packed_layout(locals)[j].callee_reg == count_kind(locals.take(j), locals[j].1.kind),
        packed_layout(locals)[j].callee_reg < layout_end(locals),
{
    let kind = locals[i].1.kind;
    assert(locals.take(i + 1).drop_last() =~= locals.take(i));
    assert(locals.take(j + 1).drop_last() =~= locals.take(j));
    lemma_count_grows(locals, kind, i + 1, j);
    lemma_count_grows(locals, kind, j + 1, locals.len() as int);
    assert(locals.take(locals.len() as int) =~= locals);
    lemma_count_grows(locals, BindingKind::Int, 0, locals.len() as int);
    lemma_count_grows(locals, BindingKind::Ref, 0, locals.len() as int);
    lemma_count_grows(locals, BindingKind::Float, 0, locals.len() as int);
}

} // verus!
