//! Values of a trace with an identity of their own, each with a slot that
//! forwards it to another value or to what is known about it.

use vstd::prelude::*;

use crate::guard::{GcRef, Type};

verus! {

/// A constant. A float is kept as its bits.
#[derive(Clone, Copy, Debug, PartialEq, Eq, Structural)]
pub enum Value {
    Int(i64),
    Float(u64),
    Ref(GcRef),
    Void,
}

pub open spec fn value_type(v: Value) -> Type {
    match v {
        Value::Int(_) => Type::Int,
        Value::Float(_) => Type::Float,
        Value::Ref(_) => Type::Ref,
        Value::Void => Type::Void,
    }
}

impl Value {
    /// The type of the constant.
    pub fn get_type(&self) -> (r: Type)
        ensures
            r == value_type(*self),
    {
        match self {
            Value::Int(_) => Type::Int,
            Value::Float(_) => Type::Float,
            Value::Ref(_) => Type::Ref,
            Value::Void => Type::Void,
        }
    }
}

/// What is known of a pointer. Details beyond its being non-null are kept
/// elsewhere.
#[derive(Clone, Copy, Debug, PartialEq, Eq, Structural)]
pub enum PtrInfo {
    NonNull,
    Other(u64),
}

impl PtrInfo {
    /// The pointer is not null, and no more is known.
    pub fn nonnull() -> (r: PtrInfo)
        ensures
            r == PtrInfo::NonNull,
    {
        PtrInfo::NonNull
    }

    /// Whether no more is known than that the pointer is not null.
    pub fn is_nonnull(&self) -> (r: bool)
        ensures
            r == (*self is NonNull),
    {
        match self {
            PtrInfo::NonNull => true,
            PtrInfo::Other(_) => false,
        }
    }
}

/// The range of an integer.
#[derive(Clone, Copy, Debug, PartialEq, Eq, Structural)]
pub struct IntBound {
    pub lower: i64,
    pub upper: i64,
}

impl IntBound {
    /// The range of one value.
    pub fn from_constant(v: i64) -> (r: IntBound)
        ensures
            r == (IntBound { lower: v, upper: v }),
    {
        IntBound { lower: v, upper: v }
    }

    /// Whether the range has one value.
    pub fn is_constant(&self) -> (r: bool)
        ensures
            r == (self.lower == self.upper),
    {
        self.lower == self.upper
    }

    /// The value of a range that has only one.
    pub fn get_constant_int(&self) -> (r: i64)
        requires
            self.lower == self.upper,
        ensures
            r == self.lower,
    {
        self.lower
    }
}

/// What an optimizer knows of a value.
#[derive(Clone, Copy, Debug, PartialEq, Eq, Structural)]
pub enum OpInfo {
    Unknown,
    Ptr(PtrInfo),
    IntBound(IntBound),
    /// Any other knowledge, kept elsewhere.
    Other(u64),
}

/// What kind of value a box is.
#[derive(Clone, Copy, Debug, PartialEq, Eq, Structural)]
pub enum BoxKind {
    /// The result of an operation.
    ResOp,
    InputArg { position: Option<u32> },
    Const(Value),
    FrontendOp { position_and_flags: u64 },
}

/// Identity of a box. Two references are equal where they refer to the same box.
#[derive(Clone, Copy, Debug, PartialEq, Eq, Hash, Structural)]
pub struct BoxRef {
    pub index: usize,
}

/// Where a box is forwarded to.
#[derive(Clone, Copy, Debug, PartialEq, Eq, Structural)]
pub enum Forwarded {
    Nowhere,
    Box(BoxRef),
    Info(OpInfo),
}

/// The contents of a box.
#[derive(Clone, Copy, Debug, PartialEq, Eq, Structural)]
pub struct BoxData {
    pub forwarded: Forwarded,
    pub type_: Type,
    pub kind: BoxKind,
}

/// Why a box cannot be forwarded. Each is a mistake of the caller, who is to panic
/// on it; the box is left as it was.
#[derive(Clone, Copy, Debug, PartialEq, Eq, Structural)]
pub enum ForwardError {
    ToSelf,
    /// A constant has no slot.
    OnConst,
}

/// All boxes of a trace.
pub struct BoxHeap {
    pub boxes: Vec<BoxData>,
}

/// Contents of the boxes.
pub type BoxMap = Seq<BoxData>;

/// Whether a box is there.
pub open spec fn valid(m: BoxMap, b: BoxRef) -> bool {
    b.index < m.len()
}

/// Whether boxes are forwarded to boxes that are there, and constants not at all.
pub open spec fn closed_map(m: BoxMap) -> bool {
    forall|i: int|
        0 <= i < m.len() ==> match (#[trigger] m[i]).forwarded {
            Forwarded::Box(b) => valid(m, b) && !(m[i].kind is Const),
            Forwarded::Info(_) => !(m[i].kind is Const),
            Forwarded::Nowhere => true,
        }
}

/// The box that `b` is forwarded to. With `not_const`, constants do not count.
pub open spec fn next_box(m: BoxMap, b: BoxRef, not_const: bool) -> Option<BoxRef> {
    if valid(m, b) {
        match m[b.index as int].forwarded {
            Forwarded::Box(c) => if not_const && valid(m, c) && m[c.index as int].kind is Const {
                None
            } else {
                Some(c)
            },
            _ => None,
        }
    } else {
        None
    }
}

/// The box after `n` steps, or the last one before.
pub open spec fn walk(m: BoxMap, b: BoxRef, not_const: bool, n: nat) -> BoxRef
    decreases n,
{
    if n == 0 {
        b
    } else {
        match next_box(m, b, not_const) {
            Some(c) => walk(m, c, not_const, (n - 1) as nat),
            None => b,
        }
    }
}

/// Whether the chain from `b` ends within `n` steps.
pub open spec fn ends_within(m: BoxMap, b: BoxRef, not_const: bool, n: nat) -> bool {
    next_box(m, walk(m, b, not_const, n), not_const) is None
}

/// Whether the chain from `b` ends.
pub open spec fn chain_ends(m: BoxMap, b: BoxRef, not_const: bool) -> bool {
    exists|n: nat| #[trigger] ends_within(m, b, not_const, n)
}

/// The end of the chain from `b`.
pub open spec fn replacement(m: BoxMap, b: BoxRef, not_const: bool) -> BoxRef {
    walk(m, b, not_const, choose|n: nat| #[trigger] ends_within(m, b, not_const, n))
}

/// One step more, or none where the chain has ended.
proof fn lemma_walk_stays(m: BoxMap, b: BoxRef, not_const: bool, n: nat, k: nat)
    requires
        ends_within(m, b, not_const, n),
        n <= k,
    ensures
        walk(m, b, not_const, k) == walk(m, b, not_const, n),
    decreases n,
{
    match next_box(m, b, not_const) {
        None => {},
        Some(c) => {
            if n == 0 {
            } else {
                lemma_walk_stays(m, c, not_const, (n - 1) as nat, (k - 1) as nat);
            }
        },
    }
}

/// All ends of a chain are one.
proof fn lemma_end_unique(m: BoxMap, b: BoxRef, not_const: bool, n: nat)
    requires
        ends_within(m, b, not_const, n),
    ensures
        replacement(m, b, not_const) == walk(m, b, not_const, n),
{
    let k = choose|k: nat| #[trigger] ends_within(m, b, not_const, k);
    if n <= k {
        lemma_walk_stays(m, b, not_const, n, k);
    } else {
        lemma_walk_stays(m, b, not_const, k, n);
    }
}

proof fn lemma_replacement_step(m: BoxMap, b: BoxRef, not_const: bool)
    requires
        chain_ends(m, b, not_const),
    ensures
        match next_box(m, b, not_const) {
            Some(c) => chain_ends(m, c, not_const) && replacement(m, c, not_const) == replacement(
                m,
                b,
                not_const,
            ),
            None => replacement(m, b, not_const) == b,
        },
{
    let n = choose|n: nat| #[trigger] ends_within(m, b, not_const, n);
    match next_box(m, b, not_const) {
        None => {},
        Some(c) => {
            if n == 0 {
            } else {
                assert(ends_within(m, c, not_const, (n - 1) as nat));
                lemma_end_unique(m, c, not_const, (n - 1) as nat);
            }
        },
    }
}

impl BoxHeap {
    pub open spec fn wf(&self) -> bool {
        closed_map(self.boxes@)
    }

    /// A heap without boxes.
    pub fn new() -> (r: BoxHeap)
        ensures
            r.wf(),
            r.boxes@.len() == 0,
    {
        BoxHeap { boxes: Vec::new() }
    }

    fn add_box(&mut self, type_: Type, kind: BoxKind) -> (r: BoxRef)
        requires
            old(self).wf(),
        ensures
            final(self).wf(),
            r.index == old(self).boxes@.len(),
            final(self).boxes@ == old(self).boxes@.push(
                BoxData { forwarded: Forwarded::Nowhere, type_, kind },
            ),
    {
        let r = BoxRef { index: self.boxes.len() };
        self.boxes.push(BoxData { forwarded: Forwarded::Nowhere, type_, kind });
        assert(self.wf()) by {
            assert forall|i: int| 0 <= i < self.boxes@.len() implies match (
            #[trigger] self.boxes@[i]).forwarded {
                Forwarded::Box(b) => valid(self.boxes@, b) && !(self.boxes@[i].kind is Const),
                Forwarded::Info(_) => !(self.boxes@[i].kind is Const),
                Forwarded::Nowhere => true,
            } by {
                if i < old(self).boxes@.len() {
                    assert(self.boxes@[i] == old(self).boxes@[i]);
                }
            }
        }
        r
    }

    fn set_forwarded(&mut self, b: BoxRef, forwarded: Forwarded)
        requires
            old(self).wf(),
            valid(old(self).boxes@, b),
            forwarded is Nowhere || !(old(self).boxes@[b.index as int].kind is Const),
            match forwarded {
                Forwarded::Box(c) => valid(old(self).boxes@, c),
                _ => true,
            },
        ensures
            final(self).wf(),
            final(self).boxes@ == forward_to(old(self).boxes@, b, forwarded),
    {
        let mut data = self.boxes[b.index];
        data.forwarded = forwarded;
        self.boxes.set(b.index, data);
        assert(self.wf()) by {
            assert forall|i: int| 0 <= i < self.boxes@.len() implies match (
            #[trigger] self.boxes@[i]).forwarded {
                Forwarded::Box(b) => valid(self.boxes@, b) && !(self.boxes@[i].kind is Const),
                Forwarded::Info(_) => !(self.boxes@[i].kind is Const),
                Forwarded::Nowhere => true,
            } by {
                assert(match old(self).boxes@[i].forwarded {
                    Forwarded::Box(b) => valid(old(self).boxes@, b) && !(old(
                        self,
                    ).boxes@[i].kind is Const),
                    Forwarded::Info(_) => !(old(self).boxes@[i].kind is Const),
                    Forwarded::Nowhere => true,
                });
            }
        }
    }
}

/// The boxes after one was forwarded.
pub open spec fn forward_to(m: BoxMap, b: BoxRef, forwarded: Forwarded) -> BoxMap {
    m.update(b.index as int, BoxData { forwarded, ..m[b.index as int] })
}

/// What comes of forwarding a box to another.
pub open spec fn forward_error(m: BoxMap, b: BoxRef, target: BoxRef) -> Option<ForwardError> {
    if b == target {
        Some(ForwardError::ToSelf)
    } else if m[b.index as int].kind is Const {
        Some(ForwardError::OnConst)
    } else {
        None
    }
}

impl BoxRef {
    /// A new result of an operation.
    pub fn new_resop(heap: &mut BoxHeap, type_: Type) -> (r: BoxRef)
        requires
            old(heap).wf(),
        ensures
            final(heap).wf(),
            r.index == old(heap).boxes@.len(),
            final(heap).boxes@ == old(heap).boxes@.push(
                BoxData { forwarded: Forwarded::Nowhere, type_, kind: BoxKind::ResOp },
            ),
    {
        heap.add_box(type_, BoxKind::ResOp)
    }

    /// A new input of a trace.
    pub fn new_inputarg(heap: &mut BoxHeap, type_: Type, position: Option<u32>) -> (r: BoxRef)
        requires
            old(heap).wf(),
        ensures
            final(heap).wf(),
            r.index == old(heap).boxes@.len(),
            final(heap).boxes@ == old(heap).boxes@.push(
                BoxData {
                    forwarded: Forwarded::Nowhere,
                    type_,
                    kind: BoxKind::InputArg { position },
                },
            ),
    {
        heap.add_box(type_, BoxKind::InputArg { position })
    }

    /// A new constant, of its value's type.
    pub fn new_const(heap: &mut BoxHeap, value: Value) -> (r: BoxRef)
        requires
            old(heap).wf(),
        ensures
            final(heap).wf(),
            r.index == old(heap).boxes@.len(),
            final(heap).boxes@ == old(heap).boxes@.push(
                BoxData {
                    forwarded: Forwarded::Nowhere,
                    type_: value_type(value),
                    kind: BoxKind::Const(value),
                },
            ),
    {
        heap.add_box(value.get_type(), BoxKind::Const(value))
    }

    /// A new operation of the frontend.
    pub fn new_frontend_op(heap: &mut BoxHeap, type_: Type, position_and_flags: u64) -> (r: BoxRef)
        requires
            old(heap).wf(),
        ensures
            final(heap).wf(),
            r.index == old(heap).boxes@.len(),
            final(heap).boxes@ == old(heap).boxes@.push(
                BoxData {
                    forwarded: Forwarded::Nowhere,
                    type_,
                    kind: BoxKind::FrontendOp { position_and_flags },
                },
            ),
    {
        heap.add_box(type_, BoxKind::FrontendOp { position_and_flags })
    }

    pub fn type_(&self, heap: &BoxHeap) -> (r: Type)
        requires
            valid(heap.boxes@, *self),
        ensures
            r == heap.boxes@[self.index as int].type_,
    {
        heap.boxes[self.index].type_
    }

    /// The kind of the box.
    pub fn kind(&self, heap: &BoxHeap) -> (r: BoxKind)
        requires
            valid(heap.boxes@, *self),
        ensures
            r == heap.boxes@[self.index as int].kind,
    {
        heap.boxes[self.index].kind
    }

    pub fn is_constant(&self, heap: &BoxHeap) -> (r: bool)
        requires
            valid(heap.boxes@, *self),
        ensures
            r == (heap.boxes@[self.index as int].kind is Const),
    {
        match heap.boxes[self.index].kind {
            BoxKind::Const(_) => true,
            _ => false,
        }
    }

    pub fn is_inputarg(&self, heap: &BoxHeap) -> (r: bool)
        requires
            valid(heap.boxes@, *self),
        ensures
            r == (heap.boxes@[self.index as int].kind is InputArg),
    {
        match heap.boxes[self.index].kind {
            BoxKind::InputArg { .. } => true,
            _ => false,
        }
    }

    pub fn is_resop(&self, heap: &BoxHeap) -> (r: bool)
        requires
            valid(heap.boxes@, *self),
        ensures
            r == (heap.boxes@[self.index as int].kind is ResOp),
    {
        match heap.boxes[self.index].kind {
            BoxKind::ResOp => true,
            _ => false,
        }
    }

    /// The value of a constant.
    pub fn const_value(&self, heap: &BoxHeap) -> (r: Option<Value>)
        requires
            valid(heap.boxes@, *self),
        ensures
            r == match heap.boxes@[self.index as int].kind {
                BoxKind::Const(v) => Some(v),
                _ => None,
            },
    {
        match heap.boxes[self.index].kind {
            BoxKind::Const(v) => Some(v),
            _ => None,
        }
    }

    /// The position of an input.
    pub fn inputarg_position(&self, heap: &BoxHeap) -> (r: Option<u32>)
        requires
            valid(heap.boxes@, *self),
        ensures
            r == match heap.boxes@[self.index as int].kind {
                BoxKind::InputArg { position } => position,
                _ => None,
            },
    {
        match heap.boxes[self.index].kind {
            BoxKind::InputArg { position } => position,
            _ => None,
        }
    }

    /// Where the box is forwarded to.
    pub fn get_forwarded(&self, heap: &BoxHeap) -> (r: Forwarded)
        requires
            valid(heap.boxes@, *self),
        ensures
            r == heap.boxes@[self.index as int].forwarded,
    {
        heap.boxes[self.index].forwarded
    }

    /// Forwards the box to another one. A box is not forwarded to itself, nor a
    /// constant at all.
    pub fn set_forwarded_box(&self, heap: &mut BoxHeap, target: BoxRef) -> (r: Result<
        (),
        ForwardError,
    >)
        requires
            old(heap).wf(),
            valid(old(heap).boxes@, *self),
            valid(old(heap).boxes@, target),
        ensures
            final(heap).wf(),
            match forward_error(old(heap).boxes@, *self, target) {
                Some(why) => r == Err::<(), ForwardError>(why) && final(heap).boxes@ == old(
                    heap,
                ).boxes@,
                None => r is Ok && final(heap).boxes@ == forward_to(
                    old(heap).boxes@,
                    *self,
                    Forwarded::Box(target),
                ),
            },
    {
        if self.index == target.index {
            return Err(ForwardError::ToSelf);
        }
        if self.is_constant(heap) {
            return Err(ForwardError::OnConst);
        }
        heap.set_forwarded(*self, Forwarded::Box(target));
        Ok(())
    }

    /// Notes what is known of the box. A constant has no room for it.
    pub fn set_forwarded_info(&self, heap: &mut BoxHeap, info: OpInfo) -> (r: Result<
        (),
        ForwardError,
    >)
        requires
            old(heap).wf(),
            valid(old(heap).boxes@, *self),
        ensures
            final(heap).wf(),
            if old(heap).boxes@[self.index as int].kind is Const {
                r == Err::<(), ForwardError>(ForwardError::OnConst) && final(heap).boxes@ == old(
                    heap,
                ).boxes@
            } else {
                r is Ok && final(heap).boxes@ == forward_to(
                    old(heap).boxes@,
                    *self,
                    Forwarded::Info(info),
                )
            },
    {
        if self.is_constant(heap) {
            return Err(ForwardError::OnConst);
        }
        heap.set_forwarded(*self, Forwarded::Info(info));
        Ok(())
    }

    /// Forwards the box nowhere.
    pub fn clear_forwarded(&self, heap: &mut BoxHeap)
        requires
            old(heap).wf(),
            valid(old(heap).boxes@, *self),
        ensures
            final(heap).wf(),
            final(heap).boxes@ == forward_to(old(heap).boxes@, *self, Forwarded::Nowhere),
    {
        if self.is_constant(heap) {
            assert(old(heap).boxes@[self.index as int].forwarded is Nowhere);
            assert(old(heap).boxes@ =~= forward_to(old(heap).boxes@, *self, Forwarded::Nowhere));
            return ;
        }
        heap.set_forwarded(*self, Forwarded::Nowhere);
    }

    /// The end of the chain of boxes that this box is forwarded to. With
    /// `not_const` the chain ends before a constant.
    pub fn get_box_replacement(&self, heap: &BoxHeap, not_const: bool) -> (r: BoxRef)
        requires
            heap.wf(),
            valid(heap.boxes@, *self),
            chain_ends(heap.boxes@, *self, not_const),
        ensures
            r == replacement(heap.boxes@, *self, not_const),
            valid(heap.boxes@, r),
            next_box(heap.boxes@, r, not_const) is None,
    {
        let ghost m = heap.boxes@;
        let ghost mut left: nat = choose|n: nat| #[trigger] ends_within(m, *self, not_const, n);
        let mut cur = *self;
        loop
            invariant_except_break
                ends_within(m, cur, not_const, left),
            invariant
                m == heap.boxes@,
                closed_map(m),
                valid(m, cur),
                chain_ends(m, cur, not_const),
                replacement(m, cur, not_const) == replacement(m, *self, not_const),
            ensures
                next_box(m, cur, not_const) is None,
                cur == replacement(m, *self, not_const),
            decreases left,
        {
            proof {
                lemma_replacement_step(m, cur, not_const);
                assert(match m[cur.index as int].forwarded {
                    Forwarded::Box(b) => valid(m, b),
                    _ => true,
                });
            }
            let next = match heap.boxes[cur.index].forwarded {
                Forwarded::Box(b) => b,
                _ => {
                    break;
                },
            };
            if not_const && next.is_constant(heap) {
                break;
            }
            proof {
                assert(next_box(m, cur, not_const) == Some(next));
                assert(left > 0);
                left = (left - 1) as nat;
            }
            cur = next;
        }
        cur
    }

    /// What is known of the box as a pointer. The chain is not followed.
    pub fn ptr_info(&self, heap: &BoxHeap) -> (r: Option<PtrInfo>)
        requires
            valid(heap.boxes@, *self),
        ensures
            r == match heap.boxes@[self.index as int].forwarded {
                Forwarded::Info(OpInfo::Ptr(p)) => Some(p),
                _ => None,
            },
    {
        match heap.boxes[self.index].forwarded {
            Forwarded::Info(info) => match info {
                OpInfo::Ptr(p) => Some(p),
                _ => None,
            },
            _ => None,
        }
    }

    /// What is known of the box as an integer. The chain is not followed.
    pub fn int_bound(&self, heap: &BoxHeap) -> (r: Option<IntBound>)
        requires
            valid(heap.boxes@, *self),
        ensures
            r == match heap.boxes@[self.index as int].forwarded {
                Forwarded::Info(OpInfo::IntBound(b)) => Some(b),
                _ => None,
            },
    {
        match heap.boxes[self.index].forwarded {
            Forwarded::Info(info) => match info {
                OpInfo::IntBound(b) => Some(b),
                _ => None,
            },
            _ => None,
        }
    }
}

// ── Laws ─────────────────────────────────────────────────────────────

/// The replacement of a replacement is itself.
pub proof fn law_replacement_is_final(m: BoxMap, b: BoxRef, not_const: bool)
    requires
        chain_ends(m, b, not_const),
    ensures
        next_box(m, replacement(m, b, not_const), not_const) is None,
        chain_ends(m, replacement(m, b, not_const), not_const),
        replacement(m, replacement(m, b, not_const), not_const) == replacement(m, b, not_const),
{
    let n = choose|n: nat| #[trigger] ends_within(m, b, not_const, n);
    let r = walk(m, b, not_const, n);
    assert(ends_within(m, r, not_const, 0));
    lemma_end_unique(m, r, not_const, 0);
}

/// With `not_const`, a box that is no constant is not replaced by a constant.
pub proof fn law_replacement_avoids_constants(m: BoxMap, b: BoxRef)
    requires
        closed_map(m),
        valid(m, b),
        chain_ends(m, b, true),
        !(m[b.index as int].kind is Const),
    ensures
        valid(m, replacement(m, b, true)),
        !(m[replacement(m, b, true).index as int].kind is Const),
{
    let n = choose|n: nat| #[trigger] ends_within(m, b, true, n);
    lemma_walk_avoids_constants(m, b, n);
}

proof fn lemma_walk_avoids_constants(m: BoxMap, b: BoxRef, n: nat)
    requires
        closed_map(m),
        valid(m, b),
        !(m[b.index as int].kind is Const),
    ensures
        valid(m, walk(m, b, true, n)),
        !(m[walk(m, b, true, n).index as int].kind is Const),
    decreases n,
{
    if n > 0 {
        if let Some(c) = next_box(m, b, true) {
            lemma_walk_avoids_constants(m, c, (n - 1) as nat);
        }
    }
}

/// A box that is forwarded to another takes on the other's replacement.
pub proof fn law_forwarded_box_shares_replacement(
    m: BoxMap,
    b: BoxRef,
    target: BoxRef,
    not_const: bool,
)
    requires
        next_box(m, b, not_const) == Some(target),
        chain_ends(m, target, not_const),
    ensures
        chain_ends(m, b, not_const),
        replacement(m, b, not_const) == replacement(m, target, not_const),
{
    let n = choose|n: nat| #[trigger] ends_within(m, target, not_const, n);
    assert(walk(m, b, not_const, n + 1) == walk(m, target, not_const, n));
    assert(ends_within(m, b, not_const, n + 1));
    lemma_replacement_step(m, b, not_const);
}

/// Where chains end, they still end after a box was forwarded to one whose chain
/// does not lead back to it.
pub proof fn law_forwarding_keeps_chains_ending(
    m: BoxMap,
    a: BoxRef,
    target: BoxRef,
    b: BoxRef,
    not_const: bool,
)
    requires
        closed_map(m),
        valid(m, a),
        valid(m, target),
        valid(m, b),
        forall|c: BoxRef| #[trigger] valid(m, c) ==> chain_ends(m, c, not_const),
        forall|k: nat| #[trigger] walk(m, target, not_const, k) != a,
    ensures
        chain_ends(forward_to(m, a, Forwarded::Box(target)), b, not_const),
{
    let t = forward_to(m, a, Forwarded::Box(target));
    assert(valid(m, target));
    let n = choose|n: nat| #[trigger] ends_within(m, target, not_const, n);
    lemma_walk_unchanged(m, a, target, target, not_const, n);
    assert(walk(t, target, not_const, n) == walk(m, target, not_const, n));
    assert(walk(m, target, not_const, n) != a);
    lemma_walk_valid(m, target, not_const, n);
    assert(ends_within(t, target, not_const, n));
    assert(valid(m, b));
    let k = choose|k: nat| #[trigger] ends_within(m, b, not_const, k);
    lemma_chain_ends_after(m, a, target, b, not_const, k);
}

proof fn lemma_walk_valid(m: BoxMap, b: BoxRef, not_const: bool, n: nat)
    requires
        closed_map(m),
        valid(m, b),
    ensures
        valid(m, walk(m, b, not_const, n)),
    decreases n,
{
    if n > 0 {
        if let Some(c) = next_box(m, b, not_const) {
            lemma_walk_valid(m, c, not_const, (n - 1) as nat);
        }
    }
}

/// A walk that does not meet `a` is the same after `a` was forwarded.
proof fn lemma_walk_unchanged(
    m: BoxMap,
    a: BoxRef,
    target: BoxRef,
    b: BoxRef,
    not_const: bool,
    n: nat,
)
    requires
        closed_map(m),
        valid(m, a),
        valid(m, b),
        forall|k: nat| #[trigger] walk(m, b, not_const, k) != a,
    ensures
        walk(forward_to(m, a, Forwarded::Box(target)), b, not_const, n) == walk(m, b, not_const, n),
    decreases n,
{
    let t = forward_to(m, a, Forwarded::Box(target));
    assert(walk(m, b, not_const, 0) != a);
    assert(next_box(t, b, not_const) == next_box(m, b, not_const));
    if n > 0 {
        if let Some(c) = next_box(m, b, not_const) {
            assert forall|k: nat| #[trigger] walk(m, c, not_const, k) != a by {
                assert(walk(m, b, not_const, k + 1) == walk(m, c, not_const, k));
            }
            lemma_walk_unchanged(m, a, target, c, not_const, (n - 1) as nat);
        }
    }
}

proof fn lemma_chain_ends_after(
    m: BoxMap,
    a: BoxRef,
    target: BoxRef,
    b: BoxRef,
    not_const: bool,
    n: nat,
)
    requires
        closed_map(m),
        valid(m, a),
        valid(m, target),
        valid(m, b),
        ends_within(m, b, not_const, n),
        chain_ends(forward_to(m, a, Forwarded::Box(target)), target, not_const),
    ensures
        chain_ends(forward_to(m, a, Forwarded::Box(target)), b, not_const),
    decreases n,
{
    let t = forward_to(m, a, Forwarded::Box(target));
    if b == a {
        match next_box(t, a, not_const) {
            Some(c) => law_forwarded_box_shares_replacement(t, a, target, not_const),
            None => {
                assert(ends_within(t, a, not_const, 0));
            },
        }
    } else {
        assert(next_box(t, b, not_const) == next_box(m, b, not_const));
        match next_box(m, b, not_const) {
            None => {
                assert(ends_within(t, b, not_const, 0));
            },
            Some(c) => {
                assert(n > 0);
                assert(ends_within(m, c, not_const, (n - 1) as nat));
                lemma_chain_ends_after(m, a, target, c, not_const, (n - 1) as nat);
                law_forwarded_box_shares_replacement(t, b, c, not_const);
            },
        }
    }
}

} // verus!
