//! Declarations of drivers and helpers.

use vstd::prelude::*;

use crate::kinds::InlineReturnKind;
use crate::policy::{CallFamily, CallResultKind};
use crate::policy_bytes::{byte_for, policy_byte};
use crate::text::string_views;

verus! {

/// The variables of a merge point, as a driver declares them.
pub struct DriverDecl {
    pub greens: Vec<String>,
    pub reds: Vec<String>,
}

/// The variables of a driver: the greens, then the reds.
pub open spec fn driver_vars(d: DriverDecl) -> Seq<Seq<char>> {
    string_views(d.greens@) + string_views(d.reds@)
}

impl DriverDecl {
    pub fn new(greens: Vec<String>, reds: Vec<String>) -> (r: DriverDecl)
        ensures
            r.greens == greens,
            r.reds == reds,
    {
        DriverDecl { greens, reds }
    }

    pub fn num_greens(&self) -> (r: usize)
        ensures
            r == string_views(self.greens@).len(),
    {
        self.greens.len()
    }

    pub fn num_reds(&self) -> (r: usize)
        ensures
            r == string_views(self.reds@).len(),
    {
        self.reds.len()
    }

    pub fn num_vars(&self) -> (r: usize)
        requires
            self.greens@.len() + self.reds@.len() <= usize::MAX,
        ensures
            r == driver_vars(*self).len(),
    {
        self.greens.len() + self.reds.len()
    }
}

/// How a helper is marked.
#[derive(Clone, Copy, Debug, PartialEq, Eq, Structural)]
pub enum HelperAttribute {
    DontLookInside,
    DontLookInsideCannotRaise,
    Elidable,
    ElidableCannotRaise,
    ElidableOrMemerror,
    MayForce,
    ReleaseGil,
    LoopInvariant,
    Inline,
}

/// The calls of a helper that is marked so.
pub open spec fn attribute_family(a: HelperAttribute) -> CallFamily {
    match a {
        HelperAttribute::DontLookInside => CallFamily::Residual,
        HelperAttribute::DontLookInsideCannotRaise => CallFamily::ResidualCannotRaise,
        HelperAttribute::Elidable => CallFamily::Pure,
        HelperAttribute::ElidableCannotRaise => CallFamily::PureCannotRaise,
        HelperAttribute::ElidableOrMemerror => CallFamily::PureOrMemerror,
        HelperAttribute::MayForce => CallFamily::MayForce,
        HelperAttribute::ReleaseGil => CallFamily::ReleaseGil,
        HelperAttribute::LoopInvariant => CallFamily::LoopInvariant,
        HelperAttribute::Inline => CallFamily::Inline,
    }
}

/// The result of a helper whose return type is in the given bank, if it has one.
pub open spec fn returned(output: Option<InlineReturnKind>) -> CallResultKind {
    match output {
        None => CallResultKind::Void,
        Some(InlineReturnKind::Int) => CallResultKind::Int,
        Some(InlineReturnKind::Ref) => CallResultKind::Ref,
        Some(InlineReturnKind::Float) => CallResultKind::Float,
    }
}

/// The policy byte that a marked helper publishes.
pub fn helper_policy_byte(attribute: HelperAttribute, output: Option<InlineReturnKind>) -> (r: u8)
    ensures
        r == byte_for(attribute_family(attribute), returned(output)),
{
    let family = match attribute {
        HelperAttribute::DontLookInside => CallFamily::Residual,
        HelperAttribute::DontLookInsideCannotRaise => CallFamily::ResidualCannotRaise,
        HelperAttribute::Elidable => CallFamily::Pure,
        HelperAttribute::ElidableCannotRaise => CallFamily::PureCannotRaise,
        HelperAttribute::ElidableOrMemerror => CallFamily::PureOrMemerror,
        HelperAttribute::MayForce => CallFamily::MayForce,
        HelperAttribute::ReleaseGil => CallFamily::ReleaseGil,
        HelperAttribute::LoopInvariant => CallFamily::LoopInvariant,
        HelperAttribute::Inline => CallFamily::Inline,
    };
    let result = match output {
        None => CallResultKind::Void,
        Some(kind) => match kind {
            InlineReturnKind::Int => CallResultKind::Int,
            InlineReturnKind::Ref => CallResultKind::Ref,
            InlineReturnKind::Float => CallResultKind::Float,
        },
    };
    policy_byte(family, result)
}

} // verus!
