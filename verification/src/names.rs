//! The names of builder methods and the words of messages.

use vstd::prelude::*;

use vstd::string::StringExecFns;

use crate::kinds::BindingKind;
use crate::lowerer::{CallMacro, Reject, Taint};
use crate::ops::InlineFamily;
use crate::policy::{CallFamily, CallPolicyKind, CallResultKind, CondCallEffectSlot, PolicyCheck};
use crate::policy_bytes::PolicyVerdict;

verus! {

// ── Builder methods ──────────────────────────────────────────────────

/// How the method for a family of calls begins.
pub open spec fn family_prefix(family: CallFamily) -> Seq<char> {
    match family {
        CallFamily::Residual | CallFamily::ResidualCannotRaise => "residual_call_"@,
        CallFamily::MayForce => "call_may_force_"@,
        CallFamily::ReleaseGil => "call_release_gil_"@,
        CallFamily::LoopInvariant => "call_loopinvariant_"@,
        CallFamily::Pure | CallFamily::PureCannotRaise | CallFamily::PureOrMemerror => "call_pure_"@,
        CallFamily::Inline => "inline_call_"@,
    }
}

/// How the method for a family of calls ends.
pub open spec fn family_suffix(family: CallFamily) -> Seq<char> {
    match family {
        CallFamily::ResidualCannotRaise => "_canonical_via_target_with_effect_info"@,
        CallFamily::PureCannotRaise => "_canonical_via_target_cannot_raise"@,
        CallFamily::PureOrMemerror => "_canonical_via_target_or_memerror"@,
        _ => "_canonical_via_target"@,
    }
}

pub open spec fn result_word(result: CallResultKind) -> Seq<char> {
    match result {
        CallResultKind::Void => "void"@,
        CallResultKind::Int => "int"@,
        CallResultKind::Ref => "ref"@,
        CallResultKind::Float => "float"@,
    }
}

fn joined(a: &str, b: &str, c: &str) -> (r: String)
    ensures
        r@ == a@ + b@ + c@,
{
    let mut out = a.to_owned();
    out.append(b);
    out.append(c);
    out
}

/// The method that emits a call of the family with the given result. Inlined
/// calls have methods of their own.
pub fn call_method_name(family: CallFamily, result: CallResultKind) -> (r: Option<String>)
    ensures
        match r {
            Some(name) => !(family is Inline) && name@ == family_prefix(family) + result_word(
                result,
            ) + family_suffix(family),
            None => family is Inline,
        },
{
    let prefix = match family {
        CallFamily::Residual => "residual_call_",
        CallFamily::ResidualCannotRaise => "residual_call_",
        CallFamily::MayForce => "call_may_force_",
        CallFamily::ReleaseGil => "call_release_gil_",
        CallFamily::LoopInvariant => "call_loopinvariant_",
        CallFamily::Pure => "call_pure_",
        CallFamily::PureCannotRaise => "call_pure_",
        CallFamily::PureOrMemerror => "call_pure_",
        CallFamily::Inline => {
            return None;
        },
    };
    let suffix = match family {
        CallFamily::ResidualCannotRaise => "_canonical_via_target_with_effect_info",
        CallFamily::PureCannotRaise => "_canonical_via_target_cannot_raise",
        CallFamily::PureOrMemerror => "_canonical_via_target_or_memerror",
        _ => "_canonical_via_target",
    };
    let word = match result {
        CallResultKind::Void => "void",
        CallResultKind::Int => "int",
        CallResultKind::Ref => "ref",
        CallResultKind::Float => "float",
    };
    Some(joined(prefix, word, suffix))
}

pub open spec fn inline_prefix(family: InlineFamily) -> Seq<char> {
    match family {
        InlineFamily::R => "inline_call_r"@,
        InlineFamily::Ir => "inline_call_ir"@,
        InlineFamily::Irf => "inline_call_irf"@,
    }
}

pub open spec fn inline_suffix(result: Option<BindingKind>) -> Seq<char> {
    match result {
        Some(BindingKind::Int) => "_i"@,
        Some(BindingKind::Ref) => "_r"@,
        Some(BindingKind::Float) => "_f"@,
        None => "_v"@,
    }
}

/// The method that emits an inlined call with the given argument lists and
/// result.
pub fn inline_method_name(family: InlineFamily, result: Option<BindingKind>) -> (r: String)
    ensures
        r@ == inline_prefix(family) + inline_suffix(result),
{
    let prefix = match family {
        InlineFamily::R => "inline_call_r",
        InlineFamily::Ir => "inline_call_ir",
        InlineFamily::Irf => "inline_call_irf",
    };
    let suffix = match result {
        Some(kind) => match kind {
            BindingKind::Int => "_i",
            BindingKind::Ref => "_r",
            BindingKind::Float => "_f",
        },
        None => "_v",
    };
    let mut out = prefix.to_owned();
    out.append(suffix);
    out
}

pub open spec fn slot_word(slot: CondCallEffectSlot) -> Seq<char> {
    match slot {
        CondCallEffectSlot::CanRaise => "CanRaise"@,
        CondCallEffectSlot::CannotRaise => "CannotRaise"@,
        CondCallEffectSlot::ElidableCanRaise => "ElidableCanRaise"@,
        CondCallEffectSlot::ElidableCannotRaise => "ElidableCannotRaise"@,
        CondCallEffectSlot::ElidableOrMemerror => "ElidableOrMemerror"@,
        CondCallEffectSlot::LoopInvariant => "LoopInvariant"@,
    }
}

/// The name of an effect slot.
pub fn slot_name(slot: CondCallEffectSlot) -> (r: &'static str)
    ensures
        r@ == slot_word(slot),
{
    match slot {
        CondCallEffectSlot::CanRaise => "CanRaise",
        CondCallEffectSlot::CannotRaise => "CannotRaise",
        CondCallEffectSlot::ElidableCanRaise => "ElidableCanRaise",
        CondCallEffectSlot::ElidableCannotRaise => "ElidableCannotRaise",
        CondCallEffectSlot::ElidableOrMemerror => "ElidableOrMemerror",
        CondCallEffectSlot::LoopInvariant => "LoopInvariant",
    }
}

// ── Messages ─────────────────────────────────────────────────────────

pub open spec fn macro_word(mac: CallMacro) -> Seq<char> {
    match mac {
        CallMacro::ConditionalCall => "conditional_call!"@,
        CallMacro::ConditionalCallElidable => "conditional_call_elidable!"@,
        CallMacro::RecordKnownResult => "record_known_result!"@,
    }
}

/// The name of a call macro.
pub fn macro_name(mac: CallMacro) -> (r: &'static str)
    ensures
        r@ == macro_word(mac),
{
    match mac {
        CallMacro::ConditionalCall => "conditional_call!",
        CallMacro::ConditionalCallElidable => "conditional_call_elidable!",
        CallMacro::RecordKnownResult => "record_known_result!",
    }
}

/// What is said of floats.
pub open spec fn no_floats(mac: CallMacro) -> Seq<char> {
    if mac is RecordKnownResult {
        "record_known_result does not support floats"@
    } else {
        "Conditional call does not support floats"@
    }
}

fn no_floats_message(mac: CallMacro) -> (r: String)
    ensures
        r@ == no_floats(mac),
{
    match mac {
        CallMacro::RecordKnownResult => "record_known_result does not support floats".to_owned(),
        _ => "Conditional call does not support floats".to_owned(),
    }
}

/// What a rejection says.
pub open spec fn reject_words(why: Reject) -> Seq<char> {
    match why {
        Reject::RegisterIndex(_) => "register index exceeds a byte"@,
        Reject::TooManyArguments(mac) => if mac is ConditionalCall {
            "conditional_call does not support more than 4 arguments"@
        } else {
            "Conditional call does not support more than 4 arguments"@
        },
        Reject::FloatOperand(mac) => no_floats(mac),
        Reject::UnresolvedPolicy(mac) => macro_word(mac)
            + " cannot resolve a helper policy for the callee"@,
        Reject::NotVoid(_) => "conditional_call! requires a void-return helper policy, got"@,
        Reject::ResultKindMismatch(mac, _) => if mac is RecordKnownResult {
            "record_known_result! result kind mismatch for helper policy"@
        } else {
            macro_word(mac) + " value/result kind mismatch for helper policy"@
        },
        Reject::NoEffectSlot(mac, _) => macro_word(mac) + " cannot lower helper policy"@,
        Reject::LoopInvariantArguments(mac, _) => macro_word(mac)
            + ": arguments not supported for loop-invariant function, policy"@,
        Reject::NotElidable(_) => "record_known_result! requires an elidable helper policy, got"@,
        Reject::PolicyPathMissing => "wrapped helper policy requires a path expression"@,
        Reject::GreenNotIdent => "only bare-ident greens are supported"@,
        Reject::GreenUnbound => "green is not bound at portal entry"@,
        Reject::GreenRegister(_) => "green register index exceeds a byte"@,
        Reject::DuplicateGreen(_) => "duplicate green register"@,
        Reject::GreenOrder => "greens must be declared in int -> ref -> float order"@,
        Reject::RedNotIdent => "only bare-ident reds are supported"@,
        Reject::RedUnbound => "red is not bound at portal entry"@,
        Reject::RedRegister(_) => "red register index exceeds a byte"@,
        Reject::DuplicateRed(_) => "duplicate red register"@,
        Reject::RedOrder => "reds must be declared in int -> ref -> float order"@,
    }
}

fn after_macro_name(mac: CallMacro, words: &str) -> (r: String)
    ensures
        r@ == macro_word(mac) + words@,
{
    let mut out = macro_name(mac).to_owned();
    out.append(words);
    out
}

impl Reject {
    /// What the rejection says. Where it speaks of a policy, the policy is named
    /// after it.
    pub fn message(&self) -> (r: String)
        ensures
            r@ == reject_words(*self),
    {
        match *self {
            Reject::RegisterIndex(_) => "register index exceeds a byte".to_owned(),
            Reject::TooManyArguments(mac) => match mac {
                CallMacro::ConditionalCall =>
                    "conditional_call does not support more than 4 arguments".to_owned(),
                _ => "Conditional call does not support more than 4 arguments".to_owned(),
            },
            Reject::FloatOperand(mac) => no_floats_message(mac),
            Reject::UnresolvedPolicy(mac) => after_macro_name(
                mac,
                " cannot resolve a helper policy for the callee",
            ),
            Reject::NotVoid(_) =>
                "conditional_call! requires a void-return helper policy, got".to_owned(),
            Reject::ResultKindMismatch(mac, _) => match mac {
                CallMacro::RecordKnownResult =>
                    "record_known_result! result kind mismatch for helper policy".to_owned(),
                _ => after_macro_name(mac, " value/result kind mismatch for helper policy"),
            },
            Reject::NoEffectSlot(mac, _) => after_macro_name(mac, " cannot lower helper policy"),
            Reject::LoopInvariantArguments(mac, _) => after_macro_name(
                mac,
                ": arguments not supported for loop-invariant function, policy",
            ),
            Reject::NotElidable(_) =>
                "record_known_result! requires an elidable helper policy, got".to_owned(),
            Reject::PolicyPathMissing =>
                "wrapped helper policy requires a path expression".to_owned(),
            Reject::GreenNotIdent => "only bare-ident greens are supported".to_owned(),
            Reject::GreenUnbound => "green is not bound at portal entry".to_owned(),
            Reject::GreenRegister(_) => "green register index exceeds a byte".to_owned(),
            Reject::DuplicateGreen(_) => "duplicate green register".to_owned(),
            Reject::GreenOrder => "greens must be declared in int -> ref -> float order".to_owned(),
            Reject::RedNotIdent => "only bare-ident reds are supported".to_owned(),
            Reject::RedUnbound => "red is not bound at portal entry".to_owned(),
            Reject::RedRegister(_) => "red register index exceeds a byte".to_owned(),
            Reject::DuplicateRed(_) => "duplicate red register".to_owned(),
            Reject::RedOrder => "reds must be declared in int -> ref -> float order".to_owned(),
        }
    }

    /// The policy that the rejection speaks of.
    pub fn policy(&self) -> (r: Option<CallPolicyKind>)
        ensures
            r == match *self {
                Reject::NotVoid(k) => Some(k),
                Reject::ResultKindMismatch(_, k) => Some(k),
                Reject::NoEffectSlot(_, k) => Some(k),
                Reject::LoopInvariantArguments(_, k) => Some(k),
                Reject::NotElidable(k) => Some(k),
                _ => None,
            },
    {
        match *self {
            Reject::NotVoid(k) => Some(k),
            Reject::ResultKindMismatch(_, k) => Some(k),
            Reject::NoEffectSlot(_, k) => Some(k),
            Reject::LoopInvariantArguments(_, k) => Some(k),
            Reject::NotElidable(k) => Some(k),
            _ => None,
        }
    }
}

/// The macro that a run-time check belongs to.
pub open spec fn check_macro(check: PolicyCheck) -> CallMacro {
    match check {
        PolicyCheck::ConditionalCall { .. } => CallMacro::ConditionalCall,
        PolicyCheck::ConditionalValue { .. } => CallMacro::ConditionalCallElidable,
        PolicyCheck::KnownResult { .. } => CallMacro::RecordKnownResult,
    }
}

/// What a run-time check says where it does not accept a byte.
pub open spec fn verdict_words(check: PolicyCheck, v: PolicyVerdict) -> Option<Seq<char>> {
    let name = macro_word(check_macro(check));
    match v {
        PolicyVerdict::Accepted => None,
        PolicyVerdict::LoopInvariantArguments => Some(
            name + ": arguments not supported for loop-invariant function"@,
        ),
        PolicyVerdict::Forces => Some(name + " cannot dispatch MayForce / ReleaseGil callees"@),
        PolicyVerdict::WrongResult => Some(
            match check {
                PolicyCheck::ConditionalCall { .. } =>
                    "conditional_call! requires a void-return helper policy"@,
                PolicyCheck::ConditionalValue { .. } =>
                    "conditional_call_elidable! value/result kind mismatch for inferred helper policy"@,
                PolicyCheck::KnownResult { .. } =>
                    "record_known_result! result kind mismatch for inferred helper policy"@,
            },
        ),
        PolicyVerdict::NotElidable => Some(name + " requires an elidable helper policy"@),
        PolicyVerdict::Unknown => Some(name + " could not infer a helper policy"@),
        PolicyVerdict::Float => Some(no_floats(check_macro(check))),
    }
}

/// What a run-time check says where it does not accept a byte.
pub fn verdict_message(check: PolicyCheck, v: PolicyVerdict) -> (r: Option<String>)
    ensures
        match r {
            Some(s) => verdict_words(check, v) == Some(s@),
            None => verdict_words(check, v) is None,
        },
{
    let mac = match check {
        PolicyCheck::ConditionalCall { .. } => CallMacro::ConditionalCall,
        PolicyCheck::ConditionalValue { .. } => CallMacro::ConditionalCallElidable,
        PolicyCheck::KnownResult { .. } => CallMacro::RecordKnownResult,
    };
    match v {
        PolicyVerdict::Accepted => None,
        PolicyVerdict::LoopInvariantArguments => Some(
            after_macro_name(mac, ": arguments not supported for loop-invariant function"),
        ),
        PolicyVerdict::Forces => Some(
            after_macro_name(mac, " cannot dispatch MayForce / ReleaseGil callees"),
        ),
        PolicyVerdict::WrongResult => Some(
            match check {
                PolicyCheck::ConditionalCall { .. } =>
                    "conditional_call! requires a void-return helper policy",
                PolicyCheck::ConditionalValue { .. } =>
                    "conditional_call_elidable! value/result kind mismatch for inferred helper policy",
                PolicyCheck::KnownResult { .. } =>
                    "record_known_result! result kind mismatch for inferred helper policy",
            }.to_owned(),
        ),
        PolicyVerdict::NotElidable => Some(
            after_macro_name(mac, " requires an elidable helper policy"),
        ),
        PolicyVerdict::Unknown => Some(after_macro_name(mac, " could not infer a helper policy")),
        PolicyVerdict::Float => Some(no_floats_message(mac)),
    }
}

/// Why a dispatch loop is tainted, in words.
pub fn taint_message(taint: Taint) -> (r: &'static str)
    ensures
        r@ == match taint {
            Taint::InnerLoopShape => "inner loop condition is not a comparison of two names"@,
            Taint::InnerLoopBody => "inner loop body is no fetch of an extended argument"@,
        },
{
    match taint {
        Taint::InnerLoopShape => "inner loop condition is not a comparison of two names",
        Taint::InnerLoopBody => "inner loop body is no fetch of an extended argument",
    }
}

} // verus!
