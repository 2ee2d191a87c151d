//! What is decided from the policy byte that a helper publishes when the lowered
//! code runs.

use vstd::prelude::*;

use crate::kinds::BindingKind;
use crate::policy::{
    CallFamily, CallResultKind, CondCallEffectSlot, family_slot, INT_DONT_LOOK_INSIDE,
    INT_DONT_LOOK_INSIDE_CANNOT_RAISE, INT_ELIDABLE, INT_ELIDABLE_CANNOT_RAISE,
    INT_ELIDABLE_OR_MEMERROR, INT_INLINE, INT_LOOP_INVARIANT, INT_MAY_FORCE, INT_RELEASE_GIL,
    PolicyCheck, RaisingCodes, REF_DONT_LOOK_INSIDE, REF_DONT_LOOK_INSIDE_CANNOT_RAISE,
    REF_ELIDABLE, REF_ELIDABLE_CANNOT_RAISE, REF_ELIDABLE_OR_MEMERROR, REF_LOOP_INVARIANT,
    REF_MAY_FORCE, result_bank, UNSUPPORTED, VOID_DONT_LOOK_INSIDE,
    VOID_DONT_LOOK_INSIDE_CANNOT_RAISE, VOID_LOOP_INVARIANT, VOID_MAY_FORCE, VOID_RELEASE_GIL,
};

verus! {

// ── Bytes ────────────────────────────────────────────────────────────

/// The byte that a helper with the given calls publishes.
pub open spec fn byte_for(family: CallFamily, result: CallResultKind) -> u8 {
    match (family, result) {
        (CallFamily::Residual, CallResultKind::Void) => VOID_DONT_LOOK_INSIDE,
        (CallFamily::Residual, CallResultKind::Int) => INT_DONT_LOOK_INSIDE,
        (CallFamily::Residual, CallResultKind::Ref) => REF_DONT_LOOK_INSIDE,
        (CallFamily::ResidualCannotRaise, CallResultKind::Void) => VOID_DONT_LOOK_INSIDE_CANNOT_RAISE,
        (CallFamily::ResidualCannotRaise, CallResultKind::Int) => INT_DONT_LOOK_INSIDE_CANNOT_RAISE,
        (CallFamily::ResidualCannotRaise, CallResultKind::Ref) => REF_DONT_LOOK_INSIDE_CANNOT_RAISE,
        (CallFamily::MayForce, CallResultKind::Void) => VOID_MAY_FORCE,
        (CallFamily::MayForce, CallResultKind::Int) => INT_MAY_FORCE,
        (CallFamily::MayForce, CallResultKind::Ref) => REF_MAY_FORCE,
        (CallFamily::ReleaseGil, CallResultKind::Void) => VOID_RELEASE_GIL,
        (CallFamily::ReleaseGil, CallResultKind::Int) => INT_RELEASE_GIL,
        (CallFamily::LoopInvariant, CallResultKind::Void) => VOID_LOOP_INVARIANT,
        (CallFamily::LoopInvariant, CallResultKind::Int) => INT_LOOP_INVARIANT,
        (CallFamily::LoopInvariant, CallResultKind::Ref) => REF_LOOP_INVARIANT,
        (CallFamily::Pure, CallResultKind::Int) => INT_ELIDABLE,
        (CallFamily::Pure, CallResultKind::Ref) => REF_ELIDABLE,
        (CallFamily::PureCannotRaise, CallResultKind::Int) => INT_ELIDABLE_CANNOT_RAISE,
        (CallFamily::PureCannotRaise, CallResultKind::Ref) => REF_ELIDABLE_CANNOT_RAISE,
        (CallFamily::PureOrMemerror, CallResultKind::Int) => INT_ELIDABLE_OR_MEMERROR,
        (CallFamily::PureOrMemerror, CallResultKind::Ref) => REF_ELIDABLE_OR_MEMERROR,
        (CallFamily::Inline, CallResultKind::Int) => INT_INLINE,
        _ => UNSUPPORTED,
    }
}

/// Whether the calls have a byte of their own.
pub open spec fn has_byte(family: CallFamily, result: CallResultKind) -> bool {
    byte_for(family, result) != UNSUPPORTED
}

/// Whether the byte stands for the given calls.
pub open spec fn stands_for(byte: u8, family: CallFamily, result: CallResultKind) -> bool {
    has_byte(family, result) && byte_for(family, result) == byte
}

/// The byte that a helper with the given calls publishes; `UNSUPPORTED` where
/// there is none.
pub fn policy_byte(family: CallFamily, result: CallResultKind) -> (r: u8)
    ensures
        r == byte_for(family, result),
{
    match family {
        CallFamily::Residual => match result {
            CallResultKind::Void => VOID_DONT_LOOK_INSIDE,
            CallResultKind::Int => INT_DONT_LOOK_INSIDE,
            CallResultKind::Ref => REF_DONT_LOOK_INSIDE,
            CallResultKind::Float => UNSUPPORTED,
        },
        CallFamily::ResidualCannotRaise => match result {
            CallResultKind::Void => VOID_DONT_LOOK_INSIDE_CANNOT_RAISE,
            CallResultKind::Int => INT_DONT_LOOK_INSIDE_CANNOT_RAISE,
            CallResultKind::Ref => REF_DONT_LOOK_INSIDE_CANNOT_RAISE,
            CallResultKind::Float => UNSUPPORTED,
        },
        CallFamily::MayForce => match result {
            CallResultKind::Void => VOID_MAY_FORCE,
            CallResultKind::Int => INT_MAY_FORCE,
            CallResultKind::Ref => REF_MAY_FORCE,
            CallResultKind::Float => UNSUPPORTED,
        },
        CallFamily::ReleaseGil => match result {
            CallResultKind::Void => VOID_RELEASE_GIL,
            CallResultKind::Int => INT_RELEASE_GIL,
            _ => UNSUPPORTED,
        },
        CallFamily::LoopInvariant => match result {
            CallResultKind::Void => VOID_LOOP_INVARIANT,
            CallResultKind::Int => INT_LOOP_INVARIANT,
            CallResultKind::Ref => REF_LOOP_INVARIANT,
            CallResultKind::Float => UNSUPPORTED,
        },
        CallFamily::Pure => match result {
            CallResultKind::Int => INT_ELIDABLE,
            CallResultKind::Ref => REF_ELIDABLE,
            _ => UNSUPPORTED,
        },
        CallFamily::PureCannotRaise => match result {
            CallResultKind::Int => INT_ELIDABLE_CANNOT_RAISE,
            CallResultKind::Ref => REF_ELIDABLE_CANNOT_RAISE,
            _ => UNSUPPORTED,
        },
        CallFamily::PureOrMemerror => match result {
            CallResultKind::Int => INT_ELIDABLE_OR_MEMERROR,
            CallResultKind::Ref => REF_ELIDABLE_OR_MEMERROR,
            _ => UNSUPPORTED,
        },
        CallFamily::Inline => match result {
            CallResultKind::Int => INT_INLINE,
            _ => UNSUPPORTED,
        },
    }
}

/// What a byte stands for.
pub fn policy_of_byte(byte: u8) -> (r: Option<(CallFamily, CallResultKind)>)
    ensures
        match r {
            Some((family, result)) => stands_for(byte, family, result),
            None => forall|family: CallFamily, result: CallResultKind|
                !#[trigger] stands_for(byte, family, result),
        },
{
    if byte == VOID_DONT_LOOK_INSIDE {
        Some((CallFamily::Residual, CallResultKind::Void))
    } else if byte == INT_DONT_LOOK_INSIDE {
        Some((CallFamily::Residual, CallResultKind::Int))
    } else if byte == REF_DONT_LOOK_INSIDE {
        Some((CallFamily::Residual, CallResultKind::Ref))
    } else if byte == VOID_DONT_LOOK_INSIDE_CANNOT_RAISE {
        Some((CallFamily::ResidualCannotRaise, CallResultKind::Void))
    } else if byte == INT_DONT_LOOK_INSIDE_CANNOT_RAISE {
        Some((CallFamily::ResidualCannotRaise, CallResultKind::Int))
    } else if byte == REF_DONT_LOOK_INSIDE_CANNOT_RAISE {
        Some((CallFamily::ResidualCannotRaise, CallResultKind::Ref))
    } else if byte == VOID_MAY_FORCE {
        Some((CallFamily::MayForce, CallResultKind::Void))
    } else if byte == INT_MAY_FORCE {
        Some((CallFamily::MayForce, CallResultKind::Int))
    } else if byte == REF_MAY_FORCE {
        Some((CallFamily::MayForce, CallResultKind::Ref))
    } else if byte == VOID_RELEASE_GIL {
        Some((CallFamily::ReleaseGil, CallResultKind::Void))
    } else if byte == INT_RELEASE_GIL {
        Some((CallFamily::ReleaseGil, CallResultKind::Int))
    } else if byte == VOID_LOOP_INVARIANT {
        Some((CallFamily::LoopInvariant, CallResultKind::Void))
    } else if byte == INT_LOOP_INVARIANT {
        Some((CallFamily::LoopInvariant, CallResultKind::Int))
    } else if byte == REF_LOOP_INVARIANT {
        Some((CallFamily::LoopInvariant, CallResultKind::Ref))
    } else if byte == INT_ELIDABLE {
        Some((CallFamily::Pure, CallResultKind::Int))
    } else if byte == REF_ELIDABLE {
        Some((CallFamily::Pure, CallResultKind::Ref))
    } else if byte == INT_ELIDABLE_CANNOT_RAISE {
        Some((CallFamily::PureCannotRaise, CallResultKind::Int))
    } else if byte == REF_ELIDABLE_CANNOT_RAISE {
        Some((CallFamily::PureCannotRaise, CallResultKind::Ref))
    } else if byte == INT_ELIDABLE_OR_MEMERROR {
        Some((CallFamily::PureOrMemerror, CallResultKind::Int))
    } else if byte == REF_ELIDABLE_OR_MEMERROR {
        Some((CallFamily::PureOrMemerror, CallResultKind::Ref))
    } else if byte == INT_INLINE {
        Some((CallFamily::Inline, CallResultKind::Int))
    } else {
        None
    }
}

/// A byte stands for one kind of call.
pub proof fn lemma_byte_unique(
    byte: u8,
    f: CallFamily,
    r: CallResultKind,
    g: CallFamily,
    q: CallResultKind,
)
    requires
        stands_for(byte, f, r),
        stands_for(byte, g, q),
    ensures
        f == g,
        r == q,
{
}

/// What a byte stands for.
pub open spec fn meaning(byte: u8) -> Option<(CallFamily, CallResultKind)> {
    if exists|f: CallFamily, r: CallResultKind| #[trigger] stands_for(byte, f, r) {
        Some(
            choose|m: (CallFamily, CallResultKind)| #[trigger] stands_for(byte, m.0, m.1),
        )
    } else {
        None
    }
}

pub proof fn lemma_meaning(byte: u8, f: CallFamily, r: CallResultKind)
    requires
        stands_for(byte, f, r),
    ensures
        meaning(byte) == Some((f, r)),
{
    let m = choose|m: (CallFamily, CallResultKind)| #[trigger] stands_for(byte, m.0, m.1);
    let w = (f, r);
    assert(stands_for(byte, w.0, w.1));
    lemma_byte_unique(byte, f, r, m.0, m.1);
}

fn meaning_of(byte: u8) -> (r: Option<(CallFamily, CallResultKind)>)
    ensures
        r == meaning(byte),
{
    let r = policy_of_byte(byte);
    proof {
        if let Some((f, q)) = r {
            lemma_meaning(byte, f, q);
        }
    }
    r
}

// ── Effect of a conditional call ─────────────────────────────────────

/// The effect slot of a callee of which only the byte is known. A byte without
/// a meaning of its own falls back on `fallback`; calls that force frames or
/// release the lock have no slot.
pub open spec fn byte_slot(byte: u8, fallback: CondCallEffectSlot) -> Option<CondCallEffectSlot> {
    match meaning(byte) {
        Some((CallFamily::Inline, _)) => Some(fallback),
        Some((family, _)) => family_slot(family),
        None => Some(fallback),
    }
}

/// The effect slot of a callee of which only the byte is known.
pub fn slot_for_policy_byte(byte: u8, fallback: CondCallEffectSlot) -> (r: Option<
    CondCallEffectSlot,
>)
    ensures
        r == byte_slot(byte, fallback),
{
    match meaning_of(byte) {
        None => Some(fallback),
        Some((family, _)) => match family {
            CallFamily::Inline => Some(fallback),
            CallFamily::Residual => Some(CondCallEffectSlot::CanRaise),
            CallFamily::ResidualCannotRaise => Some(CondCallEffectSlot::CannotRaise),
            CallFamily::LoopInvariant => Some(CondCallEffectSlot::LoopInvariant),
            CallFamily::Pure => Some(CondCallEffectSlot::ElidableCanRaise),
            CallFamily::PureCannotRaise => Some(CondCallEffectSlot::ElidableCannotRaise),
            CallFamily::PureOrMemerror => Some(CondCallEffectSlot::ElidableOrMemerror),
            CallFamily::MayForce => None,
            CallFamily::ReleaseGil => None,
        },
    }
}

// ── Checks ───────────────────────────────────────────────────────────

/// What a run-time check says of a policy byte.
#[derive(Clone, Copy, Debug, PartialEq, Eq, Structural)]
pub enum PolicyVerdict {
    Accepted,
    /// A loop-invariant callee with arguments.
    LoopInvariantArguments,
    /// The callee forces frames or releases the lock.
    Forces,
    /// The callee's result is of another kind.
    WrongResult,
    NotElidable,
    /// The byte stands for no policy that can be inferred.
    Unknown,
    /// Floats are not supported.
    Float,
}

/// Whether the calls are elidable.
pub open spec fn is_pure(family: CallFamily) -> bool {
    family is Pure || family is PureCannotRaise || family is PureOrMemerror
}

/// The verdict on a callee whose result is of the right kind.
pub open spec fn family_verdict(family: CallFamily, args_empty: bool) -> PolicyVerdict {
    if family is MayForce || family is ReleaseGil {
        PolicyVerdict::Forces
    } else if family is LoopInvariant && !args_empty {
        PolicyVerdict::LoopInvariantArguments
    } else {
        PolicyVerdict::Accepted
    }
}

/// What the check says of the byte.
pub open spec fn verdict(check: PolicyCheck, byte: u8) -> PolicyVerdict {
    match (check, meaning(byte)) {
        (PolicyCheck::ConditionalValue { kind: BindingKind::Float, .. }, _) => PolicyVerdict::Float,
        (PolicyCheck::KnownResult { kind: BindingKind::Float }, _) => PolicyVerdict::Float,
        (_, None) => PolicyVerdict::Unknown,
        (_, Some((CallFamily::Inline, _))) => PolicyVerdict::Unknown,
        (PolicyCheck::ConditionalCall { args_empty }, Some((family, result))) => if result is Void {
            family_verdict(family, args_empty)
        } else {
            PolicyVerdict::WrongResult
        },
        (PolicyCheck::ConditionalValue { kind, args_empty }, Some((family, result))) =>
            if result_bank(result) == Some(kind) {
            family_verdict(family, args_empty)
        } else {
            PolicyVerdict::WrongResult
        },
        (PolicyCheck::KnownResult { kind }, Some((family, result))) => if result_bank(result)
            != Some(kind) {
            PolicyVerdict::WrongResult
        } else if is_pure(family) {
            PolicyVerdict::Accepted
        } else {
            PolicyVerdict::NotElidable
        },
    }
}

fn verdict_on_family(family: CallFamily, args_empty: bool) -> (r: PolicyVerdict)
    ensures
        r == family_verdict(family, args_empty),
{
    match family {
        CallFamily::MayForce => PolicyVerdict::Forces,
        CallFamily::ReleaseGil => PolicyVerdict::Forces,
        CallFamily::LoopInvariant => if args_empty {
            PolicyVerdict::Accepted
        } else {
            PolicyVerdict::LoopInvariantArguments
        },
        _ => PolicyVerdict::Accepted,
    }
}

fn has_bank(result: CallResultKind, kind: BindingKind) -> (r: bool)
    ensures
        r == (result_bank(result) == Some(kind)),
{
    crate::policy::call_result_matches_binding(result, kind)
}

/// The run-time check of `conditional_call!`.
pub fn inferred_conditional_call_policy_check(func_args_empty: bool, byte: u8) -> (r: PolicyVerdict)
    ensures
        r == verdict(PolicyCheck::ConditionalCall { args_empty: func_args_empty }, byte),
{
    match meaning_of(byte) {
        None => PolicyVerdict::Unknown,
        Some((family, result)) => if family == CallFamily::Inline {
            PolicyVerdict::Unknown
        } else if result == CallResultKind::Void {
            verdict_on_family(family, func_args_empty)
        } else {
            PolicyVerdict::WrongResult
        },
    }
}

/// The run-time check of `conditional_call_elidable!`.
pub fn inferred_conditional_call_value_policy_check(
    value_kind: BindingKind,
    func_args_empty: bool,
    byte: u8,
) -> (r: PolicyVerdict)
    ensures
        r == verdict(
            PolicyCheck::ConditionalValue { kind: value_kind, args_empty: func_args_empty },
            byte,
        ),
{
    if value_kind == BindingKind::Float {
        return PolicyVerdict::Float;
    }
    match meaning_of(byte) {
        None => PolicyVerdict::Unknown,
        Some((family, result)) => if family == CallFamily::Inline {
            PolicyVerdict::Unknown
        } else if has_bank(result, value_kind) {
            verdict_on_family(family, func_args_empty)
        } else {
            PolicyVerdict::WrongResult
        },
    }
}

/// The run-time check of `record_known_result!`.
pub fn inferred_record_known_result_policy_check(result_kind: BindingKind, byte: u8) -> (r:
    PolicyVerdict)
    ensures
        r == verdict(PolicyCheck::KnownResult { kind: result_kind }, byte),
{
    if result_kind == BindingKind::Float {
        return PolicyVerdict::Float;
    }
    match meaning_of(byte) {
        None => PolicyVerdict::Unknown,
        Some((family, result)) => if family == CallFamily::Inline {
            PolicyVerdict::Unknown
        } else if !has_bank(result, result_kind) {
            PolicyVerdict::WrongResult
        } else {
            match family {
                CallFamily::Pure => PolicyVerdict::Accepted,
                CallFamily::PureCannotRaise => PolicyVerdict::Accepted,
                CallFamily::PureOrMemerror => PolicyVerdict::Accepted,
                _ => PolicyVerdict::NotElidable,
            }
        },
    }
}

/// What the check says of the byte.
pub fn check_policy(check: PolicyCheck, byte: u8) -> (r: PolicyVerdict)
    ensures
        r == verdict(check, byte),
{
    match check {
        PolicyCheck::ConditionalCall { args_empty } => inferred_conditional_call_policy_check(
            args_empty,
            byte,
        ),
        PolicyCheck::ConditionalValue { kind, args_empty } =>
            inferred_conditional_call_value_policy_check(kind, args_empty, byte),
        PolicyCheck::KnownResult { kind } => inferred_record_known_result_policy_check(kind, byte),
    }
}

// ── Inferred calls ───────────────────────────────────────────────────

/// The calls that an inferred call with the given result makes for a byte.
pub open spec fn inferred_family(byte: u8, result: CallResultKind) -> Option<CallFamily> {
    match meaning(byte) {
        Some((family, r)) => if r == result {
            Some(family)
        } else {
            None
        },
        None => None,
    }
}

/// The calls that an inferred call with the given result makes for a byte.
pub fn inferred_call_family(byte: u8, result: CallResultKind) -> (r: Option<CallFamily>)
    ensures
        r == inferred_family(byte, result),
{
    match meaning_of(byte) {
        Some((family, r)) => if r == result {
            Some(family)
        } else {
            None
        },
        None => None,
    }
}

// ── Live markers ─────────────────────────────────────────────────────

/// The bytes after which a live marker is emitted.
pub open spec fn raising_bytes(codes: RaisingCodes) -> Seq<u8> {
    match codes {
        RaisingCodes::ConditionalCall => seq![VOID_DONT_LOOK_INSIDE],
        RaisingCodes::ConditionalValueInt => seq![
            INT_DONT_LOOK_INSIDE,
            INT_ELIDABLE,
            INT_ELIDABLE_OR_MEMERROR,
        ],
        RaisingCodes::ConditionalValueRef => seq![
            REF_ELIDABLE,
            REF_ELIDABLE_OR_MEMERROR,
            REF_DONT_LOOK_INSIDE,
        ],
        RaisingCodes::KnownResultInt => seq![INT_ELIDABLE, INT_ELIDABLE_OR_MEMERROR],
        RaisingCodes::KnownResultRef => seq![REF_ELIDABLE, REF_ELIDABLE_OR_MEMERROR],
        RaisingCodes::ValueCall => seq![
            INT_DONT_LOOK_INSIDE,
            INT_ELIDABLE,
            INT_INLINE,
            INT_MAY_FORCE,
            INT_RELEASE_GIL,
            INT_ELIDABLE_OR_MEMERROR,
        ],
        RaisingCodes::Never => seq![],
    }
}

/// The bytes after which a live marker is emitted.
pub fn can_raise_codes(codes: RaisingCodes) -> (r: Vec<u8>)
    ensures
        r@ == raising_bytes(codes),
{
    let r: Vec<u8> = match codes {
        RaisingCodes::ConditionalCall => vec![VOID_DONT_LOOK_INSIDE],
        RaisingCodes::ConditionalValueInt => vec![
            INT_DONT_LOOK_INSIDE,
            INT_ELIDABLE,
            INT_ELIDABLE_OR_MEMERROR,
        ],
        RaisingCodes::ConditionalValueRef => vec![
            REF_ELIDABLE,
            REF_ELIDABLE_OR_MEMERROR,
            REF_DONT_LOOK_INSIDE,
        ],
        RaisingCodes::KnownResultInt => vec![INT_ELIDABLE, INT_ELIDABLE_OR_MEMERROR],
        RaisingCodes::KnownResultRef => vec![REF_ELIDABLE, REF_ELIDABLE_OR_MEMERROR],
        RaisingCodes::ValueCall => vec![
            INT_DONT_LOOK_INSIDE,
            INT_ELIDABLE,
            INT_INLINE,
            INT_MAY_FORCE,
            INT_RELEASE_GIL,
            INT_ELIDABLE_OR_MEMERROR,
        ],
        RaisingCodes::Never => Vec::new(),
    };
    assert(r@ =~= raising_bytes(codes));
    r
}

/// Whether the byte is one of those after which a live marker is emitted.
pub open spec fn marks_live(codes: RaisingCodes, byte: u8) -> bool {
    raising_bytes(codes).contains(byte)
}

/// The check whose accepted callees a set of codes speaks of.
pub open spec fn codes_of(check: PolicyCheck) -> RaisingCodes {
    match check {
        PolicyCheck::ConditionalCall { .. } => RaisingCodes::ConditionalCall,
        PolicyCheck::ConditionalValue { kind: BindingKind::Int, .. } =>
            RaisingCodes::ConditionalValueInt,
        PolicyCheck::ConditionalValue { kind: BindingKind::Ref, .. } =>
            RaisingCodes::ConditionalValueRef,
        PolicyCheck::KnownResult { kind: BindingKind::Int } => RaisingCodes::KnownResultInt,
        PolicyCheck::KnownResult { kind: BindingKind::Ref } => RaisingCodes::KnownResultRef,
        _ => RaisingCodes::Never,
    }
}

/// Of the callees that a check accepts, exactly those that can raise are followed
/// by a live marker.
pub proof fn law_markers_follow_raising_callees(
    check: PolicyCheck,
    byte: u8,
    fallback: CondCallEffectSlot,
)
    requires
        verdict(check, byte) is Accepted,
    ensures
        byte_slot(byte, fallback) is Some,
        marks_live(codes_of(check), byte) == byte_slot(byte, fallback)->0.raises(),
{
    let (family, result) = meaning(byte)->0;
    assert(stands_for(byte, family, result)) by {
        let m = choose|m: (CallFamily, CallResultKind)| #[trigger] stands_for(byte, m.0, m.1);
        let (f, r) = choose|f: CallFamily, r: CallResultKind| #[trigger] stands_for(byte, f, r);
        let w = (f, r);
        assert(stands_for(byte, w.0, w.1));
    }
    let codes = raising_bytes(codes_of(check));
    assert(codes.len() <= 3);
    if marks_live(codes_of(check), byte) {
        let i = choose|i: int| 0 <= i < codes.len() && codes[i] == byte;
        assert(codes[i] == byte);
    } else {
        assert(forall|i: int| 0 <= i < codes.len() ==> codes[i] != byte);
        if codes.len() > 0 {
            assert(codes[0] != byte);
        }
        if codes.len() > 1 {
            assert(codes[1] != byte);
        }
        if codes.len() > 2 {
            assert(codes[2] != byte);
        }
    }
}

/// A recorded result is only accepted from an elidable callee.
pub proof fn law_known_results_are_elidable(
    kind: BindingKind,
    byte: u8,
    fallback: CondCallEffectSlot,
)
    requires
        verdict(PolicyCheck::KnownResult { kind }, byte) is Accepted,
    ensures
        byte_slot(byte, fallback) is Some,
        byte_slot(byte, fallback)->0.elidable(),
{
}

/// The byte of a helper says what the helper's calls say: a byte that is read at
/// run time gives the effect slot that the declared policy would have given.
pub proof fn law_inferred_slot_is_the_declared_one(
    family: CallFamily,
    result: CallResultKind,
    fallback: CondCallEffectSlot,
)
    requires
        has_byte(family, result),
        !(family is Inline),
    ensures
        byte_slot(byte_for(family, result), fallback) == family_slot(family),
{
    lemma_meaning(byte_for(family, result), family, result);
}

} // verus!
