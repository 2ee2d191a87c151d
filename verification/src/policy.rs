//! Call policies: how a helper call is lowered, and what the policy bytes that
//! helpers publish at run time stand for.

use vstd::prelude::*;

use crate::kinds::BindingKind;
use crate::text::{same_text, string_views};

verus! {

/// A hint that marks an expression as touching a virtualizable.
#[derive(Clone, Copy, Debug, PartialEq, Eq, Structural)]
pub enum VirtualizableHintKind {
    AccessDirectly,
    FreshVirtualizable,
    ForceVirtualizable,
}

/// The hint that a function or macro name stands for.
pub open spec fn hint_named(name: Seq<char>) -> Option<VirtualizableHintKind> {
    if name == "hint_access_directly"@ {
        Some(VirtualizableHintKind::AccessDirectly)
    } else if name == "hint_fresh_virtualizable"@ {
        Some(VirtualizableHintKind::FreshVirtualizable)
    } else if name == "hint_force_virtualizable"@ {
        Some(VirtualizableHintKind::ForceVirtualizable)
    } else {
        None
    }
}

/// The hint that a path stands for: the one its last segment names.
pub open spec fn hint_of_segments(segments: Seq<Seq<char>>) -> Option<VirtualizableHintKind> {
    if segments.len() == 0 {
        None
    } else {
        hint_named(segments.last())
    }
}

/// The hint that a path stands for, from the names of its segments.
pub fn classify_virtualizable_hint_segments(segments: &[String]) -> (r: Option<
    VirtualizableHintKind,
>)
    ensures
        r == hint_of_segments(string_views(segments@)),
{
    if segments.len() == 0 {
        return None;
    }
    let last = &segments[segments.len() - 1];
    assert(string_views(segments@).last() == last@);
    if same_text(last.as_str(), "hint_access_directly") {
        Some(VirtualizableHintKind::AccessDirectly)
    } else if same_text(last.as_str(), "hint_fresh_virtualizable") {
        Some(VirtualizableHintKind::FreshVirtualizable)
    } else if same_text(last.as_str(), "hint_force_virtualizable") {
        Some(VirtualizableHintKind::ForceVirtualizable)
    } else {
        None
    }
}

/// Effect class of the callee of a conditional call or of a recorded result.
#[derive(Clone, Copy, Debug, PartialEq, Eq, Structural)]
pub enum CondCallEffectSlot {
    CanRaise,
    CannotRaise,
    ElidableCanRaise,
    ElidableCannotRaise,
    ElidableOrMemerror,
    LoopInvariant,
}

impl CondCallEffectSlot {
    pub open spec fn raises(self) -> bool {
        self is CanRaise || self is ElidableCanRaise || self is ElidableOrMemerror
    }

    pub open spec fn elidable(self) -> bool {
        self is ElidableCanRaise || self is ElidableCannotRaise || self is ElidableOrMemerror
    }

    /// Whether a call of this class may leave an exception pending.
    pub fn can_raise(self) -> (r: bool)
        ensures
            r == self.raises(),
    {
        matches!(
            self,
            CondCallEffectSlot::CanRaise
            | CondCallEffectSlot::ElidableCanRaise
            | CondCallEffectSlot::ElidableOrMemerror
        )
    }

    /// Whether calls of this class with equal arguments may be merged.
    pub fn is_elidable(self) -> (r: bool)
        ensures
            r == self.elidable(),
    {
        matches!(
            self,
            CondCallEffectSlot::ElidableCanRaise
            | CondCallEffectSlot::ElidableCannotRaise
            | CondCallEffectSlot::ElidableOrMemerror
        )
    }
}

/// What a call leaves behind.
#[derive(Clone, Copy, Debug, PartialEq, Eq, Structural)]
pub enum CallResultKind {
    Void,
    Int,
    Ref,
    Float,
}

/// How calls of a helper are lowered. A `Wrapped` policy reaches the helper
/// through generated call targets instead of its own address.
#[derive(Clone, Copy, Debug, PartialEq, Eq, Structural)]
pub enum CallPolicyKind {
    ResidualVoid,
    ResidualVoidWrapped,
    ResidualVoidCannotRaise,
    ResidualVoidCannotRaiseWrapped,
    MayForceVoid,
    MayForceVoidWrapped,
    ReleaseGilVoid,
    ReleaseGilVoidWrapped,
    LoopInvariantVoid,
    LoopInvariantVoidWrapped,
    ResidualInt,
    ResidualIntWrapped,
    ResidualIntCannotRaise,
    ResidualIntCannotRaiseWrapped,
    MayForceInt,
    MayForceIntWrapped,
    ReleaseGilInt,
    ReleaseGilIntWrapped,
    LoopInvariantInt,
    LoopInvariantIntWrapped,
    ElidableInt,
    ElidableIntWrapped,
    ElidableIntCannotRaise,
    ElidableIntCannotRaiseWrapped,
    ElidableIntOrMemerror,
    ElidableIntOrMemerrorWrapped,
    ResidualRefWrapped,
    ResidualRefCannotRaiseWrapped,
    MayForceRefWrapped,
    LoopInvariantRefWrapped,
    ElidableRefWrapped,
    ElidableRefCannotRaiseWrapped,
    ElidableRefOrMemerrorWrapped,
    ResidualFloatWrapped,
    ResidualFloatCannotRaiseWrapped,
    MayForceFloatWrapped,
    ReleaseGilFloatWrapped,
    LoopInvariantFloatWrapped,
    ElidableFloatWrapped,
    ElidableFloatCannotRaiseWrapped,
    ElidableFloatOrMemerrorWrapped,
    InlineInt,
    InlineRef,
    InlineFloat,
}

/// The family of a call: what the tracer may assume of it.
#[derive(Clone, Copy, Debug, PartialEq, Eq, Structural)]
pub enum CallFamily {
    Residual,
    ResidualCannotRaise,
    MayForce,
    ReleaseGil,
    LoopInvariant,
    Pure,
    PureCannotRaise,
    PureOrMemerror,
    Inline,
}

/// The three coordinates of a policy: family, result and whether the callee is
/// reached through generated call targets.
pub open spec fn policy_shape(kind: CallPolicyKind) -> (CallFamily, CallResultKind, bool) {
    match kind {
        CallPolicyKind::ResidualVoid => (CallFamily::Residual, CallResultKind::Void, false),
        CallPolicyKind::ResidualVoidWrapped => (CallFamily::Residual, CallResultKind::Void, true),
        CallPolicyKind::ResidualVoidCannotRaise => (CallFamily::ResidualCannotRaise, CallResultKind::Void, false),
        CallPolicyKind::ResidualVoidCannotRaiseWrapped => (CallFamily::ResidualCannotRaise, CallResultKind::Void, true),
        CallPolicyKind::MayForceVoid => (CallFamily::MayForce, CallResultKind::Void, false),
        CallPolicyKind::MayForceVoidWrapped => (CallFamily::MayForce, CallResultKind::Void, true),
        CallPolicyKind::ReleaseGilVoid => (CallFamily::ReleaseGil, CallResultKind::Void, false),
        CallPolicyKind::ReleaseGilVoidWrapped => (CallFamily::ReleaseGil, CallResultKind::Void, true),
        CallPolicyKind::LoopInvariantVoid => (CallFamily::LoopInvariant, CallResultKind::Void, false),
        CallPolicyKind::LoopInvariantVoidWrapped => (CallFamily::LoopInvariant, CallResultKind::Void, true),
        CallPolicyKind::ResidualInt => (CallFamily::Residual, CallResultKind::Int, false),
        CallPolicyKind::ResidualIntWrapped => (CallFamily::Residual, CallResultKind::Int, true),
        CallPolicyKind::ResidualIntCannotRaise => (CallFamily::ResidualCannotRaise, CallResultKind::Int, false),
        CallPolicyKind::ResidualIntCannotRaiseWrapped => (CallFamily::ResidualCannotRaise, CallResultKind::Int, true),
        CallPolicyKind::MayForceInt => (CallFamily::MayForce, CallResultKind::Int, false),
        CallPolicyKind::MayForceIntWrapped => (CallFamily::MayForce, CallResultKind::Int, true),
        CallPolicyKind::ReleaseGilInt => (CallFamily::ReleaseGil, CallResultKind::Int, false),
        CallPolicyKind::ReleaseGilIntWrapped => (CallFamily::ReleaseGil, CallResultKind::Int, true),
        CallPolicyKind::LoopInvariantInt => (CallFamily::LoopInvariant, CallResultKind::Int, false),
        CallPolicyKind::LoopInvariantIntWrapped => (CallFamily::LoopInvariant, CallResultKind::Int, true),
        CallPolicyKind::ElidableInt => (CallFamily::Pure, CallResultKind::Int, false),
        CallPolicyKind::ElidableIntWrapped => (CallFamily::Pure, CallResultKind::Int, true),
        CallPolicyKind::ElidableIntCannotRaise => (CallFamily::PureCannotRaise, CallResultKind::Int, false),
        CallPolicyKind::ElidableIntCannotRaiseWrapped => (CallFamily::PureCannotRaise, CallResultKind::Int, true),
        CallPolicyKind::ElidableIntOrMemerror => (CallFamily::PureOrMemerror, CallResultKind::Int, false),
        CallPolicyKind::ElidableIntOrMemerrorWrapped => (CallFamily::PureOrMemerror, CallResultKind::Int, true),
        CallPolicyKind::ResidualRefWrapped => (CallFamily::Residual, CallResultKind::Ref, true),
        CallPolicyKind::ResidualRefCannotRaiseWrapped => (CallFamily::ResidualCannotRaise, CallResultKind::Ref, true),
        CallPolicyKind::MayForceRefWrapped => (CallFamily::MayForce, CallResultKind::Ref, true),
        CallPolicyKind::LoopInvariantRefWrapped => (CallFamily::LoopInvariant, CallResultKind::Ref, true),
        CallPolicyKind::ElidableRefWrapped => (CallFamily::Pure, CallResultKind::Ref, true),
        CallPolicyKind::ElidableRefCannotRaiseWrapped => (CallFamily::PureCannotRaise, CallResultKind::Ref, true),
        CallPolicyKind::ElidableRefOrMemerrorWrapped => (CallFamily::PureOrMemerror, CallResultKind::Ref, true),
        CallPolicyKind::ResidualFloatWrapped => (CallFamily::Residual, CallResultKind::Float, true),
        CallPolicyKind::ResidualFloatCannotRaiseWrapped => (CallFamily::ResidualCannotRaise, CallResultKind::Float, true),
        CallPolicyKind::MayForceFloatWrapped => (CallFamily::MayForce, CallResultKind::Float, true),
        CallPolicyKind::ReleaseGilFloatWrapped => (CallFamily::ReleaseGil, CallResultKind::Float, true),
        CallPolicyKind::LoopInvariantFloatWrapped => (CallFamily::LoopInvariant, CallResultKind::Float, true),
        CallPolicyKind::ElidableFloatWrapped => (CallFamily::Pure, CallResultKind::Float, true),
        CallPolicyKind::ElidableFloatCannotRaiseWrapped => (CallFamily::PureCannotRaise, CallResultKind::Float, true),
        CallPolicyKind::ElidableFloatOrMemerrorWrapped => (CallFamily::PureOrMemerror, CallResultKind::Float, true),
        CallPolicyKind::InlineInt => (CallFamily::Inline, CallResultKind::Int, false),
        CallPolicyKind::InlineRef => (CallFamily::Inline, CallResultKind::Ref, false),
        CallPolicyKind::InlineFloat => (CallFamily::Inline, CallResultKind::Float, false),
    }
}

/// The family, the result and whether the callee is reached through generated
/// call targets.
pub fn call_policy_shape(kind: CallPolicyKind) -> (r: (CallFamily, CallResultKind, bool))
    ensures
        r == policy_shape(kind),
{
    match kind {
        CallPolicyKind::ResidualVoid => (CallFamily::Residual, CallResultKind::Void, false),
        CallPolicyKind::ResidualVoidWrapped => (CallFamily::Residual, CallResultKind::Void, true),
        CallPolicyKind::ResidualVoidCannotRaise => (CallFamily::ResidualCannotRaise, CallResultKind::Void, false),
        CallPolicyKind::ResidualVoidCannotRaiseWrapped => (CallFamily::ResidualCannotRaise, CallResultKind::Void, true),
        CallPolicyKind::MayForceVoid => (CallFamily::MayForce, CallResultKind::Void, false),
        CallPolicyKind::MayForceVoidWrapped => (CallFamily::MayForce, CallResultKind::Void, true),
        CallPolicyKind::ReleaseGilVoid => (CallFamily::ReleaseGil, CallResultKind::Void, false),
        CallPolicyKind::ReleaseGilVoidWrapped => (CallFamily::ReleaseGil, CallResultKind::Void, true),
        CallPolicyKind::LoopInvariantVoid => (CallFamily::LoopInvariant, CallResultKind::Void, false),
        CallPolicyKind::LoopInvariantVoidWrapped => (CallFamily::LoopInvariant, CallResultKind::Void, true),
        CallPolicyKind::ResidualInt => (CallFamily::Residual, CallResultKind::Int, false),
        CallPolicyKind::ResidualIntWrapped => (CallFamily::Residual, CallResultKind::Int, true),
        CallPolicyKind::ResidualIntCannotRaise => (CallFamily::ResidualCannotRaise, CallResultKind::Int, false),
        CallPolicyKind::ResidualIntCannotRaiseWrapped => (CallFamily::ResidualCannotRaise, CallResultKind::Int, true),
        CallPolicyKind::MayForceInt => (CallFamily::MayForce, CallResultKind::Int, false),
        CallPolicyKind::MayForceIntWrapped => (CallFamily::MayForce, CallResultKind::Int, true),
        CallPolicyKind::ReleaseGilInt => (CallFamily::ReleaseGil, CallResultKind::Int, false),
        CallPolicyKind::ReleaseGilIntWrapped => (CallFamily::ReleaseGil, CallResultKind::Int, true),
        CallPolicyKind::LoopInvariantInt => (CallFamily::LoopInvariant, CallResultKind::Int, false),
        CallPolicyKind::LoopInvariantIntWrapped => (CallFamily::LoopInvariant, CallResultKind::Int, true),
        CallPolicyKind::ElidableInt => (CallFamily::Pure, CallResultKind::Int, false),
        CallPolicyKind::ElidableIntWrapped => (CallFamily::Pure, CallResultKind::Int, true),
        CallPolicyKind::ElidableIntCannotRaise => (CallFamily::PureCannotRaise, CallResultKind::Int, false),
        CallPolicyKind::ElidableIntCannotRaiseWrapped => (CallFamily::PureCannotRaise, CallResultKind::Int, true),
        CallPolicyKind::ElidableIntOrMemerror => (CallFamily::PureOrMemerror, CallResultKind::Int, false),
        CallPolicyKind::ElidableIntOrMemerrorWrapped => (CallFamily::PureOrMemerror, CallResultKind::Int, true),
        CallPolicyKind::ResidualRefWrapped => (CallFamily::Residual, CallResultKind::Ref, true),
        CallPolicyKind::ResidualRefCannotRaiseWrapped => (CallFamily::ResidualCannotRaise, CallResultKind::Ref, true),
        CallPolicyKind::MayForceRefWrapped => (CallFamily::MayForce, CallResultKind::Ref, true),
        CallPolicyKind::LoopInvariantRefWrapped => (CallFamily::LoopInvariant, CallResultKind::Ref, true),
        CallPolicyKind::ElidableRefWrapped => (CallFamily::Pure, CallResultKind::Ref, true),
        CallPolicyKind::ElidableRefCannotRaiseWrapped => (CallFamily::PureCannotRaise, CallResultKind::Ref, true),
        CallPolicyKind::ElidableRefOrMemerrorWrapped => (CallFamily::PureOrMemerror, CallResultKind::Ref, true),
        CallPolicyKind::ResidualFloatWrapped => (CallFamily::Residual, CallResultKind::Float, true),
        CallPolicyKind::ResidualFloatCannotRaiseWrapped => (CallFamily::ResidualCannotRaise, CallResultKind::Float, true),
        CallPolicyKind::MayForceFloatWrapped => (CallFamily::MayForce, CallResultKind::Float, true),
        CallPolicyKind::ReleaseGilFloatWrapped => (CallFamily::ReleaseGil, CallResultKind::Float, true),
        CallPolicyKind::LoopInvariantFloatWrapped => (CallFamily::LoopInvariant, CallResultKind::Float, true),
        CallPolicyKind::ElidableFloatWrapped => (CallFamily::Pure, CallResultKind::Float, true),
        CallPolicyKind::ElidableFloatCannotRaiseWrapped => (CallFamily::PureCannotRaise, CallResultKind::Float, true),
        CallPolicyKind::ElidableFloatOrMemerrorWrapped => (CallFamily::PureOrMemerror, CallResultKind::Float, true),
        CallPolicyKind::InlineInt => (CallFamily::Inline, CallResultKind::Int, false),
        CallPolicyKind::InlineRef => (CallFamily::Inline, CallResultKind::Ref, false),
        CallPolicyKind::InlineFloat => (CallFamily::Inline, CallResultKind::Float, false),
    }
}

/// The effect class of a family, where a conditional call may use it: calls
/// that force virtuals or release the lock have none, nor have inlined helpers.
pub open spec fn family_slot(family: CallFamily) -> Option<CondCallEffectSlot> {
    match family {
        CallFamily::Residual => Some(CondCallEffectSlot::CanRaise),
        CallFamily::ResidualCannotRaise => Some(CondCallEffectSlot::CannotRaise),
        CallFamily::LoopInvariant => Some(CondCallEffectSlot::LoopInvariant),
        CallFamily::Pure => Some(CondCallEffectSlot::ElidableCanRaise),
        CallFamily::PureCannotRaise => Some(CondCallEffectSlot::ElidableCannotRaise),
        CallFamily::PureOrMemerror => Some(CondCallEffectSlot::ElidableOrMemerror),
        CallFamily::MayForce | CallFamily::ReleaseGil | CallFamily::Inline => None,
    }
}

/// The effect class that a policy selects, if a conditional call may use it.
pub fn call_policy_effect_slot(kind: CallPolicyKind) -> (r: Option<CondCallEffectSlot>)
    ensures
        r == family_slot(policy_shape(kind).0),
{
    match call_policy_shape(kind).0 {
        CallFamily::Residual => Some(CondCallEffectSlot::CanRaise),
        CallFamily::ResidualCannotRaise => Some(CondCallEffectSlot::CannotRaise),
        CallFamily::LoopInvariant => Some(CondCallEffectSlot::LoopInvariant),
        CallFamily::Pure => Some(CondCallEffectSlot::ElidableCanRaise),
        CallFamily::PureCannotRaise => Some(CondCallEffectSlot::ElidableCannotRaise),
        CallFamily::PureOrMemerror => Some(CondCallEffectSlot::ElidableOrMemerror),
        CallFamily::MayForce | CallFamily::ReleaseGil | CallFamily::Inline => None,
    }
}

/// What a call under the policy leaves behind. Every policy has an answer.
pub fn call_policy_result_kind(kind: CallPolicyKind) -> (r: Option<CallResultKind>)
    ensures
        r == Some(policy_shape(kind).1),
{
    Some(call_policy_shape(kind).1)
}

/// Whether the callee is reached through generated call targets.
pub fn call_policy_is_wrapped(kind: CallPolicyKind) -> (r: bool)
    ensures
        r == policy_shape(kind).2,
{
    call_policy_shape(kind).2
}

/// The bank of a call result, if there is a result.
pub open spec fn result_bank(result: CallResultKind) -> Option<BindingKind> {
    match result {
        CallResultKind::Void => None,
        CallResultKind::Int => Some(BindingKind::Int),
        CallResultKind::Ref => Some(BindingKind::Ref),
        CallResultKind::Float => Some(BindingKind::Float),
    }
}

/// Whether a call result lands in bank `binding_kind`.
pub fn call_result_matches_binding(result_kind: CallResultKind, binding_kind: BindingKind) -> (r:
    bool)
    ensures
        r == (result_bank(result_kind) == Some(binding_kind)),
{
    match result_kind {
        CallResultKind::Void => false,
        CallResultKind::Int => binding_kind == BindingKind::Int,
        CallResultKind::Ref => binding_kind == BindingKind::Ref,
        CallResultKind::Float => binding_kind == BindingKind::Float,
    }
}

/// The bank of an inlined helper's result; `None` for the other policies.
pub open spec fn inline_bank(kind: CallPolicyKind) -> Option<BindingKind> {
    if policy_shape(kind).0 is Inline {
        result_bank(policy_shape(kind).1)
    } else {
        None
    }
}

/// The bank of an inlined helper's result; `None` for the other policies.
pub fn binding_kind_for_inline_policy(kind: CallPolicyKind) -> (r: Option<BindingKind>)
    ensures
        r == inline_bank(kind),
{
    match kind {
        CallPolicyKind::InlineInt => Some(BindingKind::Int),
        CallPolicyKind::InlineRef => Some(BindingKind::Ref),
        CallPolicyKind::InlineFloat => Some(BindingKind::Float),
        _ => None,
    }
}

// ── Policy bytes ─────────────────────────────────────────────────────

pub const UNSUPPORTED: u8 = 0;

pub const VOID_DONT_LOOK_INSIDE: u8 = 1;

pub const INT_DONT_LOOK_INSIDE: u8 = 2;

pub const INT_ELIDABLE: u8 = 3;

pub const INT_INLINE: u8 = 4;

pub const VOID_MAY_FORCE: u8 = 9;

pub const INT_MAY_FORCE: u8 = 10;

pub const VOID_RELEASE_GIL: u8 = 13;

pub const INT_RELEASE_GIL: u8 = 14;

pub const VOID_LOOP_INVARIANT: u8 = 17;

pub const INT_LOOP_INVARIANT: u8 = 18;

pub const INT_ELIDABLE_CANNOT_RAISE: u8 = 19;

pub const INT_ELIDABLE_OR_MEMERROR: u8 = 20;

pub const REF_ELIDABLE: u8 = 21;

pub const REF_ELIDABLE_CANNOT_RAISE: u8 = 22;

pub const REF_ELIDABLE_OR_MEMERROR: u8 = 23;

pub const REF_LOOP_INVARIANT: u8 = 24;

pub const REF_DONT_LOOK_INSIDE: u8 = 25;

pub const REF_MAY_FORCE: u8 = 26;

pub const VOID_DONT_LOOK_INSIDE_CANNOT_RAISE: u8 = 28;

pub const INT_DONT_LOOK_INSIDE_CANNOT_RAISE: u8 = 29;

pub const REF_DONT_LOOK_INSIDE_CANNOT_RAISE: u8 = 30;

/// The policy bytes after which a live marker is emitted.
#[derive(Clone, Copy, Debug, PartialEq, Eq, Structural)]
pub enum RaisingCodes {
    ConditionalCall,
    ConditionalValueInt,
    ConditionalValueRef,
    KnownResultInt,
    KnownResultRef,
    ValueCall,
    Never,
}

/// Which policy bytes a call site with an inferred policy accepts.
#[derive(Clone, Copy, Debug, PartialEq, Eq, Structural)]
pub enum PolicyCheck {
    /// Conditional call, with or without arguments for the callee.
    ConditionalCall { args_empty: bool },
    ConditionalValue { kind: BindingKind, args_empty: bool },
    KnownResult { kind: BindingKind },
}

} // verus!
