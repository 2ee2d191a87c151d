//! Descriptors of calls: the types of their arguments and results, and what they
//! may do.

use vstd::prelude::*;

use crate::guard::Type;

verus! {

/// What a call may do besides returning.
#[derive(Clone, Copy, Debug, PartialEq, Eq, Structural)]
pub enum ExtraEffect {
    LoopInvariant,
    ElidableCannotRaise,
    ElidableOrMemoryError,
    ElidableCanRaise,
    CannotRaise,
    CanRaise,
    ForcesVirtualOrVirtualizable,
    RandomEffects,
}

/// The fields and arrays that a call reads and writes, one bit each.
#[derive(Clone, Copy, Debug, PartialEq, Eq, Structural)]
pub struct TouchedDescrs {
    pub readonly_descrs_fields: u64,
    pub write_descrs_fields: u64,
    pub readonly_descrs_arrays: u64,
    pub write_descrs_arrays: u64,
    pub readonly_descrs_interiorfields: u64,
    pub write_descrs_interiorfields: u64,
}

/// A descriptor, or a list of them, that is kept elsewhere.
pub type DescrsRef = u64;

/// A function to call with the lock released, kept elsewhere.
pub type ReleaseGilTargetRef = u64;

/// The effect of a call.
#[derive(Clone, Copy, Debug, PartialEq, Eq, Structural)]
pub struct EffectInfo {
    pub extraeffect: ExtraEffect,
    /// The special operation that the callee is known to be, if any.
    pub oopspecindex: Option<u32>,
    pub touched: TouchedDescrs,
    /// Whether the call may invalidate loops, where more than the class is known.
    pub can_invalidate: Option<bool>,
    /// Whether the call may collect, where more than the class is known.
    pub can_collect: Option<bool>,
    /// The one array that the call writes, where there is just one.
    pub single_write_descr_array: Option<DescrsRef>,
    pub extradescrs: Option<DescrsRef>,
    /// What a call that releases the lock calls.
    pub call_release_gil_target: Option<ReleaseGilTargetRef>,
}

/// No field and no array.
pub open spec fn touches_none() -> TouchedDescrs {
    TouchedDescrs {
        readonly_descrs_fields: 0,
        write_descrs_fields: 0,
        readonly_descrs_arrays: 0,
        write_descrs_arrays: 0,
        readonly_descrs_interiorfields: 0,
        write_descrs_interiorfields: 0,
    }
}

/// Every field and array that has a bit.
pub open spec fn touches_all() -> TouchedDescrs {
    TouchedDescrs {
        readonly_descrs_fields: u64::MAX,
        write_descrs_fields: u64::MAX,
        readonly_descrs_arrays: u64::MAX,
        write_descrs_arrays: u64::MAX,
        readonly_descrs_interiorfields: u64::MAX,
        write_descrs_interiorfields: u64::MAX,
    }
}

/// The effect of which only the class is known: no special operation, nothing read
/// or written, and nothing else beside it.
pub open spec fn class_effect(extraeffect: ExtraEffect) -> EffectInfo {
    EffectInfo {
        extraeffect,
        oopspecindex: None,
        touched: touches_none(),
        can_invalidate: None,
        can_collect: None,
        single_write_descr_array: None,
        extradescrs: None,
        call_release_gil_target: None,
    }
}

impl EffectInfo {
    /// The effect of which only the class is known.
    pub fn of_class(extraeffect: ExtraEffect) -> (r: EffectInfo)
        ensures
            r == class_effect(extraeffect),
    {
        EffectInfo {
            extraeffect,
            oopspecindex: None,
            touched: TouchedDescrs {
                readonly_descrs_fields: 0,
                write_descrs_fields: 0,
                readonly_descrs_arrays: 0,
                write_descrs_arrays: 0,
                readonly_descrs_interiorfields: 0,
                write_descrs_interiorfields: 0,
            },
            can_invalidate: None,
            can_collect: None,
            single_write_descr_array: None,
            extradescrs: None,
            call_release_gil_target: None,
        }
    }
}

/// The effect of a call that was not analyzed: it may raise and collect, and may
/// read and write everything.
pub open spec fn default_effect() -> EffectInfo {
    EffectInfo {
        extraeffect: ExtraEffect::CanRaise,
        oopspecindex: None,
        touched: touches_all(),
        can_invalidate: Some(false),
        can_collect: Some(true),
        single_write_descr_array: None,
        extradescrs: None,
        call_release_gil_target: None,
    }
}

fn default_effect_info() -> (r: EffectInfo)
    ensures
        r == default_effect(),
{
    EffectInfo {
        extraeffect: ExtraEffect::CanRaise,
        oopspecindex: None,
        touched: TouchedDescrs {
            readonly_descrs_fields: u64::MAX,
            write_descrs_fields: u64::MAX,
            readonly_descrs_arrays: u64::MAX,
            write_descrs_arrays: u64::MAX,
            readonly_descrs_interiorfields: u64::MAX,
            write_descrs_interiorfields: u64::MAX,
        },
        can_invalidate: Some(false),
        can_collect: Some(true),
        single_write_descr_array: None,
        extradescrs: None,
        call_release_gil_target: None,
    }
}

/// The family of a call operation.
#[derive(Clone, Copy, Debug, PartialEq, Eq, Structural)]
pub enum CallOpcode {
    Call,
    CallPure,
    CallLoopInvariant,
    CallMayForce,
    CallReleaseGil,
    CallAssembler,
}

/// The effect of a call operation whose callee was not analyzed.
pub open spec fn opcode_effect(opcode: CallOpcode) -> EffectInfo {
    match opcode {
        CallOpcode::CallPure => class_effect(ExtraEffect::ElidableCanRaise),
        CallOpcode::CallLoopInvariant => class_effect(ExtraEffect::LoopInvariant),
        _ => default_effect(),
    }
}

/// The effect of a call operation whose callee was not analyzed.
pub fn default_effect_for_opcode(opcode: CallOpcode) -> (r: EffectInfo)
    ensures
        r == opcode_effect(opcode),
{
    match opcode {
        CallOpcode::CallPure => EffectInfo::of_class(ExtraEffect::ElidableCanRaise),
        CallOpcode::CallLoopInvariant => EffectInfo::of_class(ExtraEffect::LoopInvariant),
        _ => default_effect_info(),
    }
}

/// How the fields of a virtualizable are handed to compiled code, kept elsewhere.
pub type VableExpansionRef = u64;

/// What is called.
#[derive(Clone, Copy, Debug, PartialEq, Eq, Structural)]
pub enum CallTargetKind {
    /// A function with the given effect.
    Function(EffectInfo),
    /// A function that may force the frame.
    MayForce,
    /// Compiled code.
    Assembler {
        target_token: u64,
        vable_expansion: Option<VableExpansionRef>,
        virtualizable_arg_index: Option<usize>,
    },
}

/// Describes a call.
pub struct CallDescr {
    pub arg_types: Vec<Type>,
    pub result_type: Type,
    pub target: CallTargetKind,
}

/// Whether the descriptor is of a call of `target` with the given types.
pub open spec fn describes(
    d: CallDescr,
    arg_types: Seq<Type>,
    result_type: Type,
    target: CallTargetKind,
) -> bool {
    d.arg_types@ == arg_types && d.result_type == result_type && d.target == target
}

/// The effect of what is called.
pub open spec fn target_effect(t: CallTargetKind) -> EffectInfo {
    match t {
        CallTargetKind::Function(e) => e,
        CallTargetKind::MayForce => class_effect(ExtraEffect::CanRaise),
        CallTargetKind::Assembler { .. } => class_effect(ExtraEffect::CanRaise),
    }
}

fn copy_types(types: &[Type]) -> (r: Vec<Type>)
    ensures
        r@ == types@,
{
    let mut out: Vec<Type> = Vec::new();
    let mut i: usize = 0;
    while i < types.len()
        invariant
            i <= types@.len(),
            out@ == types@.take(i as int),
        decreases types.len() - i,
    {
        out.push(types[i]);
        i = i + 1;
    }
    assert(out@ =~= types@);
    out
}

/// A call of a function that was not analyzed.
pub fn make_call_descr(arg_types: &[Type], result_type: Type) -> (r: CallDescr)
    ensures
        describes(r, arg_types@, result_type, CallTargetKind::Function(default_effect())),
{
    make_call_descr_with_effect(arg_types, result_type, default_effect_info())
}

/// A call of a function by an operation of the given family.
pub fn make_call_descr_for_opcode(opcode: CallOpcode, arg_types: &[Type], result_type: Type) -> (r:
    CallDescr)
    ensures
        describes(r, arg_types@, result_type, CallTargetKind::Function(opcode_effect(opcode))),
{
    make_call_descr_with_effect(arg_types, result_type, default_effect_for_opcode(opcode))
}

/// A call of a function with the given effect.
pub fn make_call_descr_with_effect(
    arg_types: &[Type],
    result_type: Type,
    effect_info: EffectInfo,
) -> (r: CallDescr)
    ensures
        describes(r, arg_types@, result_type, CallTargetKind::Function(effect_info)),
{
    CallDescr {
        arg_types: copy_types(arg_types),
        result_type,
        target: CallTargetKind::Function(effect_info),
    }
}

/// A call of a function that may force the frame.
pub fn make_call_may_force_descr(arg_types: &[Type], result_type: Type) -> (r: CallDescr)
    ensures
        describes(r, arg_types@, result_type, CallTargetKind::MayForce),
{
    CallDescr {
        arg_types: copy_types(arg_types),
        result_type,
        target: CallTargetKind::MayForce,
    }
}

/// A call of compiled code.
pub fn make_call_assembler_descr(
    target_token: u64,
    arg_types: &[Type],
    result_type: Type,
    virtualizable_arg_index: Option<usize>,
) -> (r: CallDescr)
    ensures
        describes(
            r,
            arg_types@,
            result_type,
            CallTargetKind::Assembler {
                target_token,
                vable_expansion: None,
                virtualizable_arg_index,
            },
        ),
{
    CallDescr {
        arg_types: copy_types(arg_types),
        result_type,
        target: CallTargetKind::Assembler {
            target_token,
            vable_expansion: None,
            virtualizable_arg_index,
        },
    }
}

/// A call of compiled code that gets the fields of a virtualizable.
pub fn make_call_assembler_descr_with_vable(
    target_token: u64,
    arg_types: &[Type],
    result_type: Type,
    expansion: VableExpansionRef,
) -> (r: CallDescr)
    ensures
        describes(
            r,
            arg_types@,
            result_type,
            CallTargetKind::Assembler {
                target_token,
                vable_expansion: Some(expansion),
                virtualizable_arg_index: None,
            },
        ),
{
    CallDescr {
        arg_types: copy_types(arg_types),
        result_type,
        target: CallTargetKind::Assembler {
            target_token,
            vable_expansion: Some(expansion),
            virtualizable_arg_index: None,
        },
    }
}

impl CallDescr {
    /// Call descriptors are not numbered.
    pub fn index(&self) -> (r: u32)
        ensures
            r == u32::MAX,
    {
        u32::MAX
    }

    pub fn arg_types(&self) -> (r: &Vec<Type>)
        ensures
            *r == self.arg_types,
    {
        &self.arg_types
    }

    pub fn result_type(&self) -> (r: Type)
        ensures
            r == self.result_type,
    {
        self.result_type
    }

    /// The size of the result: compiled code leaves a word, and of functions it is
    /// not noted.
    pub fn result_size(&self) -> (r: usize)
        ensures
            r == if self.target is Assembler {
                8int
            } else {
                0
            },
    {
        match self.target {
            CallTargetKind::Assembler { .. } => 8,
            _ => 0,
        }
    }

    /// The effect of the call.
    pub fn get_extra_info(&self) -> (r: EffectInfo)
        ensures
            r == target_effect(self.target),
    {
        match self.target {
            CallTargetKind::Function(e) => e,
            CallTargetKind::MayForce => EffectInfo::of_class(ExtraEffect::CanRaise),
            CallTargetKind::Assembler { .. } => EffectInfo::of_class(ExtraEffect::CanRaise),
        }
    }

    /// The number of the loop whose code is called.
    pub fn call_target_token(&self) -> (r: Option<u64>)
        ensures
            r == match self.target {
                CallTargetKind::Assembler { target_token, .. } => Some(target_token),
                _ => None,
            },
    {
        match self.target {
            CallTargetKind::Assembler { target_token, .. } => Some(target_token),
            _ => None,
        }
    }

    /// Which argument of compiled code is the virtualizable.
    pub fn call_virtualizable_index(&self) -> (r: Option<usize>)
        ensures
            r == match self.target {
                CallTargetKind::Assembler { virtualizable_arg_index, .. } =>
                    virtualizable_arg_index,
                _ => None,
            },
    {
        match self.target {
            CallTargetKind::Assembler { virtualizable_arg_index, .. } => virtualizable_arg_index,
            _ => None,
        }
    }

    /// How the fields of the virtualizable are handed over.
    pub fn vable_expansion(&self) -> (r: Option<VableExpansionRef>)
        ensures
            r == match self.target {
                CallTargetKind::Assembler { vable_expansion, .. } => vable_expansion,
                _ => None,
            },
    {
        match self.target {
            CallTargetKind::Assembler { vable_expansion, .. } => vable_expansion,
            _ => None,
        }
    }
}

} // verus!
