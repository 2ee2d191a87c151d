//! Register banks, bindings and typed registers.

use vstd::prelude::*;

use crate::text::same_text;

verus! {

/// The register bank that a value lives in.
#[derive(Clone, Copy, Debug, PartialEq, Eq, PartialOrd, Ord, Hash, Structural)]
pub enum BindingKind {
    Int,
    Ref,
    Float,
}

/// The declared type of a virtualizable field or of an array's items.
#[derive(Clone, Copy, Debug, PartialEq, Eq, Structural)]
pub enum ValueKind {
    Int,
    Ref,
    Float,
}

/// The bank of a parameter or result of an inlined helper.
#[derive(Clone, Copy, Debug, PartialEq, Eq, Structural)]
pub enum InlineReturnKind {
    Int,
    Ref,
    Float,
}

pub open spec fn value_kind_named(name: Seq<char>) -> ValueKind {
    if name == "ref"@ {
        ValueKind::Ref
    } else if name == "float"@ {
        ValueKind::Float
    } else {
        ValueKind::Int
    }
}

impl ValueKind {
    /// The kind that a declaration names; anything but `ref` and `float` is an
    /// integer.
    pub fn from_ident(ident: &str) -> (r: ValueKind)
        ensures
            r == value_kind_named(ident@),
    {
        if same_text(ident, "ref") {
            ValueKind::Ref
        } else if same_text(ident, "float") {
            ValueKind::Float
        } else {
            ValueKind::Int
        }
    }

    /// The bank that holds values of this kind.
    pub open spec fn bank(self) -> BindingKind {
        match self {
            ValueKind::Int => BindingKind::Int,
            ValueKind::Ref => BindingKind::Ref,
            ValueKind::Float => BindingKind::Float,
        }
    }

    /// The bank that holds values of this kind.
    pub fn binding_kind(self) -> (r: BindingKind)
        ensures
            r == self.bank(),
    {
        match self {
            ValueKind::Int => BindingKind::Int,
            ValueKind::Ref => BindingKind::Ref,
            ValueKind::Float => BindingKind::Float,
        }
    }
}

impl InlineReturnKind {
    pub open spec fn bank(self) -> BindingKind {
        match self {
            InlineReturnKind::Int => BindingKind::Int,
            InlineReturnKind::Ref => BindingKind::Ref,
            InlineReturnKind::Float => BindingKind::Float,
        }
    }

    /// The bank that holds values of this kind.
    pub fn binding_kind(self) -> (r: BindingKind)
        ensures
            r == self.bank(),
    {
        match self {
            InlineReturnKind::Int => BindingKind::Int,
            InlineReturnKind::Ref => BindingKind::Ref,
            InlineReturnKind::Float => BindingKind::Float,
        }
    }
}

/// Where the lowerer keeps a source value.
#[derive(Clone, Copy, Debug, PartialEq, Eq, Structural)]
pub struct Binding {
    pub reg: u16,
    pub kind: BindingKind,
    pub depends_on_stack: bool,
}

impl Binding {
    /// A binding that does not depend on the interpreter's stack.
    pub open spec fn fixed(kind: BindingKind, reg: u16) -> Binding {
        Binding { reg, kind, depends_on_stack: false }
    }

    /// A binding that does not depend on the interpreter's stack.
    pub fn new_fixed(kind: BindingKind, reg: u16) -> (r: Binding)
        ensures
            r == Binding::fixed(kind, reg),
    {
        Binding { reg, kind, depends_on_stack: false }
    }
}

/// A register together with its bank. Registers are numbered per bank, and a
/// bank has 256 of them: the liveness encoding addresses a register by one byte.
#[derive(Clone, Copy, Debug, PartialEq, Eq, PartialOrd, Ord, Hash, Structural)]
pub struct Register {
    pub kind: BindingKind,
    pub index: u8,
}

impl Register {
    /// The register of bank `kind` with the given index.
    pub open spec fn of(kind: BindingKind, index: u16) -> Register
        recommends
            index <= 255,
    {
        Register { kind, index: index as u8 }
    }

    /// The register of bank `kind` with the given index, which must be one that
    /// a byte can hold.
    pub fn new(kind: BindingKind, index: u16) -> (r: Register)
        requires
            index <= 255,
        ensures
            r == Register::of(kind, index),
            r.kind == kind,
            r.index == index,
    {
        Register { kind, index: index as u8 }
    }

    /// The integer register with the given index.
    pub fn int_(index: u16) -> (r: Register)
        requires
            index <= 255,
        ensures
            r == Register::of(BindingKind::Int, index),
            r.kind is Int,
            r.index == index,
    {
        Register::new(BindingKind::Int, index)
    }

    /// The reference register with the given index.
    pub fn ref_(index: u16) -> (r: Register)
        requires
            index <= 255,
        ensures
            r == Register::of(BindingKind::Ref, index),
            r.kind is Ref,
            r.index == index,
    {
        Register::new(BindingKind::Ref, index)
    }

    /// The float register with the given index.
    pub fn float(index: u16) -> (r: Register)
        requires
            index <= 255,
        ensures
            r == Register::of(BindingKind::Float, index),
            r.kind is Float,
            r.index == index,
    {
        Register::new(BindingKind::Float, index)
    }

    /// The register that a binding names.
    pub fn from_binding(b: &Binding) -> (r: Register)
        requires
            b.reg <= 255,
        ensures
            r == Register::of(b.kind, b.reg),
            r.kind == b.kind,
            r.index == b.reg,
    {
        Register::new(b.kind, b.reg)
    }

    fn all_of(kind: BindingKind, indices: &[u16]) -> (r: Vec<Register>)
        requires
            forall|i: int| 0 <= i < indices@.len() ==> indices@[i] <= 255,
        ensures
            r@ == indices@.map_values(|i: u16| Register::of(kind, i)),
    {
        let mut out: Vec<Register> = Vec::new();
        let mut i: usize = 0;
        while i < indices.len()
            invariant
                i <= indices.len(),
                out.len() == i,
                forall|j: int| 0 <= j < indices@.len() ==> indices@[j] <= 255,
                forall|j: int| 0 <= j < i ==> out@[j] == Register::of(kind, indices@[j]),
            decreases indices.len() - i,
        {
            out.push(Register::new(kind, indices[i]));
            i = i + 1;
        }
        assert(out@ =~= indices@.map_values(|i: u16| Register::of(kind, i)));
        out
    }

    /// The integer registers with the given indices, in order.
    pub fn ints(indices: &[u16]) -> (r: Vec<Register>)
        requires
            forall|i: int| 0 <= i < indices@.len() ==> indices@[i] <= 255,
        ensures
            r@ == indices@.map_values(|i: u16| Register::of(BindingKind::Int, i)),
    {
        Register::all_of(BindingKind::Int, indices)
    }

    /// The reference registers with the given indices, in order.
    pub fn refs(indices: &[u16]) -> (r: Vec<Register>)
        requires
            forall|i: int| 0 <= i < indices@.len() ==> indices@[i] <= 255,
        ensures
            r@ == indices@.map_values(|i: u16| Register::of(BindingKind::Ref, i)),
    {
        Register::all_of(BindingKind::Ref, indices)
    }

    /// The float registers with the given indices, in order.
    pub fn floats(indices: &[u16]) -> (r: Vec<Register>)
        requires
            forall|i: int| 0 <= i < indices@.len() ==> indices@[i] <= 255,
        ensures
            r@ == indices@.map_values(|i: u16| Register::of(BindingKind::Float, i)),
    {
        Register::all_of(BindingKind::Float, indices)
    }
}

} // verus!
