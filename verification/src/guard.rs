//! Fail descriptors: what the exits of compiled code leave behind, how often they
//! are taken, and the bridges that are attached to them.

use vstd::prelude::*;

use std::sync::Arc;

use crate::ops::copy_list;
use crate::ordset::{in_order, increasing, lemma_in_order, OrdSet, Ranked};

verus! {

/// Type of a value in a trace.
#[derive(Clone, Copy, Debug, PartialEq, Eq, Structural)]
pub enum Type {
    Int,
    Ref,
    Float,
    Void,
}

/// A reference that the garbage collector knows.
#[derive(Clone, Copy, Debug, PartialEq, Eq, Structural)]
pub struct GcRef {
    pub addr: usize,
}

impl GcRef {
    /// Whether nothing is referred to.
    pub fn is_null(&self) -> (r: bool)
        ensures
            r == (self.addr == 0),
    {
        self.addr == 0
    }
}

/// A descriptor that is kept elsewhere.
pub type DescrRef = u64;

/// The compiled loop that a guard belongs to, kept elsewhere.
pub type LoopTokenRef = u64;

/// What the compiler noted of a trace, kept elsewhere.
pub type TraceInfoRef = u64;

/// How the interpreter's frames are rebuilt after an exit. The frames are kept
/// elsewhere.
pub struct ExitRecoveryLayout {
    pub frames: Vec<u64>,
    pub rest: u64,
}

impl ExitRecoveryLayout {
    /// The same layout again.
    pub fn copied(&self) -> (r: ExitRecoveryLayout)
        ensures
            r.frames@ == self.frames@,
            r.rest == self.rest,
    {
        ExitRecoveryLayout { frames: copy_list(&self.frames), rest: self.rest }
    }
}

pub open spec fn same_recovery(a: Option<ExitRecoveryLayout>, b: Option<ExitRecoveryLayout>) -> bool {
    match (a, b) {
        (Some(x), Some(y)) => x.frames@ == y.frames@ && x.rest == y.rest,
        (None, None) => true,
        _ => false,
    }
}

// ── Slots that hold references ───────────────────────────────────────

/// The slots of a frame that hold references.
pub struct GcMap {
    pub slots: Vec<usize>,
}

impl View for GcMap {
    type V = Set<usize>;

    open spec fn view(&self) -> Set<usize> {
        self.slots@.to_set()
    }
}

impl GcMap {
    /// The map without references.
    pub fn new() -> (r: GcMap)
        ensures
            r@ == Set::<usize>::empty(),
    {
        let r = GcMap { slots: Vec::new() };
        assert(r@ =~= Set::<usize>::empty());
        r
    }

    /// Notes that the slot holds a reference.
    pub fn set_ref(&mut self, slot: usize)
        ensures
            final(self)@ == old(self)@.insert(slot),
    {
        let ghost before = self.slots@;
        self.slots.push(slot);
        assert(self@ =~= old(self)@.insert(slot)) by {
            assert(self.slots@[before.len() as int] == slot);
            assert forall|x: usize| old(self)@.contains(x) implies self@.contains(x) by {
                let i = choose|i: int| 0 <= i < before.len() && before[i] == x;
                assert(self.slots@[i] == x);
            }
        }
    }

    /// Whether the slot holds a reference.
    pub fn is_ref(&self, slot: usize) -> (r: bool)
        ensures
            r == self@.contains(slot),
    {
        list_contains(&self.slots, slot)
    }
}

fn list_contains(v: &Vec<usize>, x: usize) -> (r: bool)
    ensures
        r == v@.contains(x),
        r == v@.to_set().contains(x),
{
    let mut i: usize = 0;
    while i < v.len()
        invariant
            i <= v@.len(),
            forall|k: int| 0 <= k < i ==> v@[k] != x,
        decreases v.len() - i,
    {
        if v[i] == x {
            assert(v@[i as int] == x);
            return true;
        }
        i = i + 1;
    }
    false
}

/// Whether the slot holds a reference: it is of a reference type and no force
/// token.
pub open spec fn is_ref_slot(types: Seq<Type>, force: Set<usize>, slot: usize) -> bool {
    slot < types.len() && types[slot as int] is Ref && !force.contains(slot)
}

/// Whether the map says of every slot whether it holds a reference.
pub open spec fn maps_refs(map: Set<usize>, types: Seq<Type>, force: Set<usize>) -> bool {
    forall|slot: usize| map.contains(slot) == #[trigger] is_ref_slot(types, force, slot)
}

// ── The frontend's descriptor ────────────────────────────────────────

/// What the frontend knows of an exit.
pub struct MetaFailDescr {
    pub is_resume_guard: bool,
    pub is_finish: bool,
    pub is_exit_frame_with_exception: bool,
    pub trace_id: u64,
    pub rd_numb: Option<Vec<u8>>,
    pub rd_consts: Option<Vec<u64>>,
    pub rd_virtuals: Option<Vec<u64>>,
    pub rd_pendingfields: Option<Vec<u64>>,
}

/// A descriptor of the frontend, which need not describe an exit.
pub struct MetaDescr {
    pub fail: Option<MetaFailDescr>,
}

// ── Bridges ──────────────────────────────────────────────────────────

/// A compiled bridge.
pub struct BridgeData {
    pub trace_id: u64,
    /// Types of the values that the bridge starts from.
    pub input_types: Vec<Type>,
    pub header_pc: u64,
    /// Trace and exit that the bridge is attached to.
    pub source_guard: (u64, u32),
    pub caller_prefix_layout: Option<ExitRecoveryLayout>,
    /// Address of the bridge's code.
    pub code_ptr: usize,
    /// Exits of the bridge; each stands at the place of its index.
    pub fail_descrs: Vec<CraneliftFailDescr>,
    pub num_inputs: usize,
    pub num_ref_roots: usize,
    pub max_output_slots: usize,
    /// Layouts of the exits that end the trace, kept elsewhere.
    pub terminal_exit_layouts: Vec<u64>,
    /// Whether a finish of the bridge goes back to the parent loop.
    pub loop_reentry: bool,
    /// The flag that says whether the parent loop is invalid, kept elsewhere.
    pub invalidated: Option<u64>,
}

/// The frame slots that a bridge needs: room for its outputs and inputs, at least
/// one, and for its roots.
pub open spec fn frame_depth(b: BridgeData) -> int {
    let outputs = if b.max_output_slots >= b.num_inputs {
        b.max_output_slots
    } else {
        b.num_inputs
    };
    let slots = if outputs >= 1 {
        outputs as int
    } else {
        1
    };
    if slots + b.num_ref_roots > usize::MAX {
        usize::MAX as int
    } else {
        slots + b.num_ref_roots
    }
}

impl BridgeData {
    pub fn terminal_exit_layouts_ref(&self) -> (r: &Vec<u64>)
        ensures
            *r == self.terminal_exit_layouts,
    {
        &self.terminal_exit_layouts
    }

    /// The layouts of the exits that end the trace, to be changed.
    pub fn terminal_exit_layouts_mut(&mut self) -> (r: &mut Vec<u64>)
        ensures
            *r == old(self).terminal_exit_layouts,
            *final(self) == (BridgeData { terminal_exit_layouts: *final(r), ..*old(self) }),
    {
        &mut self.terminal_exit_layouts
    }

    /// The frame slots that the bridge needs.
    pub fn required_frame_depth(&self) -> (r: usize)
        ensures
            r == frame_depth(*self),
    {
        let outputs: usize = if self.max_output_slots >= self.num_inputs {
            self.max_output_slots
        } else {
            self.num_inputs
        };
        let slots: usize = if outputs >= 1 {
            outputs
        } else {
            1
        };
        slots.saturating_add(self.num_ref_roots)
    }
}

// ── Status words ─────────────────────────────────────────────────────

/// A bridge is being compiled.
pub const ST_BUSY_FLAG: u64 = 0x01;

/// The type of a counter per value.
pub const ST_TYPE_MASK: u64 = 0x06;

/// Where the hash, or the index of a counter per value, begins.
pub const ST_SHIFT: u32 = 3;

pub const ST_SHIFT_MASK: u64 = 0xFFFF_FFFF_FFFF_FFF8;

pub const TY_NONE: u64 = 0x00;

pub const TY_INT: u64 = 0x02;

pub const TY_REF: u64 = 0x04;

pub const TY_FLOAT: u64 = 0x06;

/// The status that holds a hash.
pub open spec fn hash_status(hash: u64) -> u64 {
    hash & ST_SHIFT_MASK
}

/// The status of a counter per value: the index of the value and its type.
pub open spec fn value_status(index: u32, type_tag: u64) -> u64 {
    type_tag | ((index as u64) << 3)
}

/// Whether a bridge is being compiled.
pub open spec fn is_busy(status: u64) -> bool {
    status & ST_BUSY_FLAG != 0
}

// ── Fail descriptors ─────────────────────────────────────────────────

/// An exit of compiled code.
pub struct CraneliftFailDescr {
    pub fail_index: u32,
    pub source_op_index: Option<usize>,
    pub trace_id: u64,
    /// The loop that the exit belongs to.
    pub green_key: u64,
    pub fail_arg_types: Vec<Type>,
    pub gc_map: GcMap,
    pub is_finish: bool,
    pub is_exit_frame_with_exception: bool,
    /// Whether the exit is a jump into another loop.
    pub is_external_jump: bool,
    /// The target of such a jump.
    pub target_descr: Option<DescrRef>,
    /// Slots that hold force tokens, in increasing order.
    pub force_token_slots: Vec<usize>,
    pub trace_info: Option<TraceInfoRef>,
    pub recovery_layout: Option<ExitRecoveryLayout>,
    pub status: u64,
    /// How often the exit was taken.
    pub fail_count: u32,
    pub vector_info: Vec<u64>,
    pub bridge: Option<Box<BridgeData>>,
    /// Address of the bridge's code, or zero.
    pub bridge_code_ptr_cache: usize,
    /// Frame slots that the bridge needs, or zero.
    pub bridge_frame_depth_cache: usize,
    pub rd_loop_token_clt: Option<LoopTokenRef>,
    pub meta_descr: Option<MetaDescr>,
}

/// What a layout says of an exit.
pub struct FailDescrLayout {
    pub fail_index: u32,
    pub source_op_index: Option<usize>,
    pub trace_id: u64,
    pub trace_info: Option<TraceInfoRef>,
    pub fail_arg_types: Vec<Type>,
    pub is_finish: bool,
    pub gc_ref_slots: Vec<usize>,
    pub force_token_slots: Vec<usize>,
    pub recovery_layout: Option<ExitRecoveryLayout>,
    pub frame_stack: Option<Vec<u64>>,
    pub rd_numb: Option<Vec<u8>>,
    pub rd_consts: Option<Vec<u64>>,
    pub rd_virtuals: Option<Vec<u64>>,
    pub rd_pendingfields: Option<Vec<u64>>,
}

/// The elements of an optional list.
pub open spec fn list_view<T>(v: Option<Vec<T>>) -> Option<Seq<T>> {
    match v {
        Some(x) => Some(x@),
        None => None,
    }
}

fn copy_opt<T: Copy>(v: &Option<Vec<T>>) -> (r: Option<Vec<T>>)
    ensures
        list_view(r) == list_view(*v),
{
    match v {
        Some(x) => Some(copy_list(x)),
        None => None,
    }
}

/// The slots below `n` that hold references.
pub open spec fn ref_slots(map: Set<usize>, n: int) -> Seq<usize>
    decreases n,
{
    if n <= 0 {
        seq![]
    } else if map.contains((n - 1) as usize) {
        ref_slots(map, n - 1).push((n - 1) as usize)
    } else {
        ref_slots(map, n - 1)
    }
}

impl CraneliftFailDescr {
    /// The force tokens are in order, the map agrees with the types, and what is
    /// noted of the bridge agrees with the bridge.
    pub open spec fn wf(&self) -> bool {
        &&& increasing(self.force_token_slots@)
        &&& maps_refs(self.gc_map@, self.fail_arg_types@, self.force_token_slots@.to_set())
        &&& match self.bridge {
            Some(b) => self.bridge_code_ptr_cache == b.code_ptr && self.bridge_frame_depth_cache
                == frame_depth(*b),
            None => self.bridge_code_ptr_cache == 0 && self.bridge_frame_depth_cache == 0,
        }
    }

    /// The descriptor with a bridge attached.
    pub open spec fn with_bridge(self, bridge: BridgeData) -> CraneliftFailDescr {
        CraneliftFailDescr {
            bridge: Some(Box::new(bridge)),
            bridge_code_ptr_cache: bridge.code_ptr,
            bridge_frame_depth_cache: frame_depth(bridge) as usize,
            ..self
        }
    }

    /// The descriptor without its bridge.
    pub open spec fn without_bridge(self) -> CraneliftFailDescr {
        CraneliftFailDescr {
            bridge: None,
            bridge_code_ptr_cache: 0,
            bridge_frame_depth_cache: 0,
            ..self
        }
    }

    /// The frontend's view of the exit, where it has one.
    pub open spec fn meta(&self) -> Option<MetaFailDescr> {
        match self.meta_descr {
            Some(m) => m.fail,
            None => None,
        }
    }

    /// Whether this is a new descriptor of the given exit: nothing has happened to
    /// it yet.
    pub open spec fn is_fresh(
        &self,
        fail_index: u32,
        trace_id: u64,
        types: Seq<Type>,
        is_finish: bool,
        force: Set<usize>,
        recovery: Option<ExitRecoveryLayout>,
        target: Option<DescrRef>,
    ) -> bool {
        &&& self.fail_index == fail_index
        &&& self.source_op_index is None
        &&& self.trace_id == trace_id
        &&& self.green_key == 0
        &&& self.fail_arg_types@ == types
        &&& self.is_finish == is_finish
        &&& !self.is_exit_frame_with_exception
        &&& self.is_external_jump == (target is Some)
        &&& self.target_descr == target
        &&& self.force_token_slots@ == in_order(force)
        &&& self.trace_info is None
        &&& self.recovery_layout == recovery
        &&& self.status == 0
        &&& self.fail_count == 0
        &&& self.vector_info@.len() == 0
        &&& self.bridge is None
        &&& self.bridge_code_ptr_cache == 0
        &&& self.bridge_frame_depth_cache == 0
        &&& self.rd_loop_token_clt is None
        &&& self.meta_descr is None
    }

    fn gc_map_for_types(fail_arg_types: &Vec<Type>, force_token_slots: &Vec<usize>) -> (r: GcMap)
        ensures
            maps_refs(r@, fail_arg_types@, force_token_slots@.to_set()),
    {
        let ghost force = force_token_slots@.to_set();
        let mut gc_map = GcMap::new();
        let mut slot: usize = 0;
        while slot < fail_arg_types.len()
            invariant
                slot <= fail_arg_types@.len(),
                force == force_token_slots@.to_set(),
                forall|k: usize| #[trigger]
                    gc_map@.contains(k) <==> k < slot && is_ref_slot(fail_arg_types@, force, k),
            decreases fail_arg_types.len() - slot,
        {
            let ghost before = gc_map@;
            assert(is_ref_slot(fail_arg_types@, force, slot) == (fail_arg_types@[slot as int] is Ref
                && !force.contains(slot)));
            if fail_arg_types[slot] == Type::Ref && !list_contains(force_token_slots, slot) {
                gc_map.set_ref(slot);
            }
            assert forall|k: usize| #[trigger] gc_map@.contains(k) <==> k < slot + 1 && is_ref_slot(
                fail_arg_types@,
                force,
                k,
            ) by {
                assert(before.contains(k) <==> k < slot && is_ref_slot(fail_arg_types@, force, k));
            }
            slot = slot + 1;
        }
        gc_map
    }

    fn fresh(
        fail_index: u32,
        trace_id: u64,
        fail_arg_types: Vec<Type>,
        is_finish: bool,
        force_token_slots: Vec<usize>,
        recovery_layout: Option<ExitRecoveryLayout>,
        target_descr: Option<DescrRef>,
    ) -> (r: CraneliftFailDescr)
        ensures
            r.wf(),
            r.is_fresh(
                fail_index,
                trace_id,
                fail_arg_types@,
                is_finish,
                force_token_slots@.to_set(),
                recovery_layout,
                target_descr,
            ),
    {
        let force = OrdSet::from_list(force_token_slots.as_slice());
        proof {
            lemma_in_order(force.items@);
        }
        let gc_map = CraneliftFailDescr::gc_map_for_types(&fail_arg_types, &force.items);
        CraneliftFailDescr {
            fail_index,
            source_op_index: None,
            trace_id,
            green_key: 0,
            gc_map,
            fail_arg_types,
            is_finish,
            is_exit_frame_with_exception: false,
            is_external_jump: target_descr.is_some(),
            target_descr,
            force_token_slots: force.items,
            trace_info: None,
            recovery_layout,
            status: 0,
            fail_count: 0,
            vector_info: Vec::new(),
            bridge: None,
            bridge_code_ptr_cache: 0,
            bridge_frame_depth_cache: 0,
            rd_loop_token_clt: None,
            meta_descr: None,
        }
    }

    /// A guard's exit.
    pub fn new(fail_index: u32, fail_arg_types: Vec<Type>) -> (r: CraneliftFailDescr)
        ensures
            r.wf(),
            r.is_fresh(fail_index, 0, fail_arg_types@, false, Set::empty(), None, None),
    {
        CraneliftFailDescr::new_with_kind(fail_index, fail_arg_types, false)
    }

    /// An exit that may be a finish.
    pub fn new_with_kind(fail_index: u32, fail_arg_types: Vec<Type>, is_finish: bool) -> (r:
        CraneliftFailDescr)
        ensures
            r.wf(),
            r.is_fresh(fail_index, 0, fail_arg_types@, is_finish, Set::empty(), None, None),
    {
        let none: Vec<usize> = Vec::new();
        assert(none@.to_set() =~= Set::<usize>::empty());
        CraneliftFailDescr::new_with_kind_and_force_tokens(
            fail_index,
            fail_arg_types,
            is_finish,
            none,
        )
    }

    /// An exit that may be a finish and may leave force tokens.
    pub fn new_with_kind_and_force_tokens(
        fail_index: u32,
        fail_arg_types: Vec<Type>,
        is_finish: bool,
        force_token_slots: Vec<usize>,
    ) -> (r: CraneliftFailDescr)
        ensures
            r.wf(),
            r.is_fresh(
                fail_index,
                0,
                fail_arg_types@,
                is_finish,
                force_token_slots@.to_set(),
                None,
                None,
            ),
    {
        CraneliftFailDescr::new_with_trace_and_kind_and_force_tokens(
            fail_index,
            0,
            fail_arg_types,
            is_finish,
            force_token_slots,
            None,
        )
    }

    /// An exit of the given trace.
    pub fn new_with_trace_and_kind_and_force_tokens(
        fail_index: u32,
        trace_id: u64,
        fail_arg_types: Vec<Type>,
        is_finish: bool,
        force_token_slots: Vec<usize>,
        recovery_layout: Option<ExitRecoveryLayout>,
    ) -> (r: CraneliftFailDescr)
        ensures
            r.wf(),
            r.is_fresh(
                fail_index,
                trace_id,
                fail_arg_types@,
                is_finish,
                force_token_slots@.to_set(),
                recovery_layout,
                None,
            ),
    {
        CraneliftFailDescr::fresh(
            fail_index,
            trace_id,
            fail_arg_types,
            is_finish,
            force_token_slots,
            recovery_layout,
            None,
        )
    }

    /// A jump into another loop.
    pub fn new_external_jump(
        fail_index: u32,
        trace_id: u64,
        fail_arg_types: Vec<Type>,
        force_token_slots: Vec<usize>,
        recovery_layout: Option<ExitRecoveryLayout>,
        target_descr: DescrRef,
    ) -> (r: CraneliftFailDescr)
        ensures
            r.wf(),
            r.is_fresh(
                fail_index,
                trace_id,
                fail_arg_types@,
                false,
                force_token_slots@.to_set(),
                recovery_layout,
                Some(target_descr),
            ),
    {
        CraneliftFailDescr::fresh(
            fail_index,
            trace_id,
            fail_arg_types,
            false,
            force_token_slots,
            recovery_layout,
            Some(target_descr),
        )
    }

    pub fn set_rd_loop_token_clt(&mut self, clt: LoopTokenRef)
        ensures
            *final(self) == (CraneliftFailDescr { rd_loop_token_clt: Some(clt), ..*old(self) }),
    {
        self.rd_loop_token_clt = Some(clt);
    }

    pub fn rd_loop_token_clt(&self) -> (r: Option<LoopTokenRef>)
        ensures
            r == self.rd_loop_token_clt,
    {
        self.rd_loop_token_clt
    }

    pub fn bridge_ref(&self) -> (r: &Option<Box<BridgeData>>)
        ensures
            *r == self.bridge,
    {
        &self.bridge
    }

    pub fn trace_info_ref(&self) -> (r: &Option<TraceInfoRef>)
        ensures
            *r == self.trace_info,
    {
        &self.trace_info
    }

    pub fn recovery_layout_ref(&self) -> (r: &Option<ExitRecoveryLayout>)
        ensures
            *r == self.recovery_layout,
    {
        &self.recovery_layout
    }

    /// Counts one more failure and returns the new count.
    pub fn increment_fail_count(&mut self) -> (r: u32)
        requires
            old(self).fail_count < u32::MAX,
        ensures
            r == old(self).fail_count + 1,
            *final(self) == (CraneliftFailDescr { fail_count: r, ..*old(self) }),
    {
        self.fail_count = self.fail_count + 1;
        self.fail_count
    }

    /// How often the guard has failed.
    pub fn get_fail_count(&self) -> (r: u32)
        ensures
            r == self.fail_count,
    {
        self.fail_count
    }

    /// Whether a bridge has been attached.
    pub fn has_bridge(&self) -> (r: bool)
        requires
            self.wf(),
        ensures
            r == (self.bridge is Some && self.bridge->0.code_ptr != 0),
    {
        self.bridge_code_ptr_cache != 0
    }

    /// Address of the bridge's code, or zero.
    pub fn bridge_code_ptr(&self) -> (r: usize)
        requires
            self.wf(),
        ensures
            r == match self.bridge {
                Some(b) => b.code_ptr,
                None => 0,
            },
    {
        self.bridge_code_ptr_cache
    }

    /// Attaches a compiled bridge, in place of the one before.
    pub fn attach_bridge(&mut self, bridge: BridgeData)
        requires
            old(self).wf(),
        ensures
            final(self).wf(),
            *final(self) == old(self).with_bridge(bridge),
    {
        let code_ptr: usize = bridge.code_ptr;
        let depth: usize = bridge.required_frame_depth();
        self.bridge = Some(Box::new(bridge));
        self.bridge_frame_depth_cache = depth;
        self.bridge_code_ptr_cache = code_ptr;
    }

    /// Takes the bridge out.
    pub fn take_bridge(&mut self) -> (r: Option<Box<BridgeData>>)
        requires
            old(self).wf(),
        ensures
            r == old(self).bridge,
            final(self).wf(),
            *final(self) == old(self).without_bridge(),
    {
        let bridge = self.bridge.take();
        if bridge.is_some() {
            self.bridge_code_ptr_cache = 0;
            self.bridge_frame_depth_cache = 0;
        }
        bridge
    }

    /// Stores a hash in the status. Its lowest bits are dropped.
    pub fn store_hash(&mut self, hash: u64)
        ensures
            *final(self) == (CraneliftFailDescr { status: hash_status(hash), ..*old(self) }),
    {
        self.status = hash & ST_SHIFT_MASK;
    }

    pub fn get_status(&self) -> (r: u64)
        ensures
            r == self.status,
    {
        self.status
    }

    /// Notes that a bridge is being compiled.
    pub fn start_compiling(&mut self)
        ensures
            *final(self) == (CraneliftFailDescr {
                status: old(self).status | ST_BUSY_FLAG,
                ..*old(self)
            }),
    {
        self.status = self.status | ST_BUSY_FLAG;
    }

    /// Notes that no bridge is being compiled any more.
    pub fn done_compiling(&mut self)
        ensures
            *final(self) == (CraneliftFailDescr {
                status: old(self).status & !ST_BUSY_FLAG,
                ..*old(self)
            }),
    {
        self.status = self.status & !ST_BUSY_FLAG;
    }

    /// Whether a bridge is being compiled.
    pub fn is_compiling(&self) -> (r: bool)
        ensures
            r == is_busy(self.status),
    {
        self.status & ST_BUSY_FLAG != 0
    }

    /// Counts failures per value: the status holds the index of the value and its
    /// type.
    pub fn make_a_counter_per_value(&mut self, index: u32, type_tag: u64)
        ensures
            *final(self) == (CraneliftFailDescr {
                status: value_status(index, type_tag),
                ..*old(self)
            }),
    {
        let wide: u64 = index as u64;
        self.status = type_tag | (wide << 3);
    }

    pub fn set_recovery_layout(&mut self, recovery_layout: ExitRecoveryLayout)
        ensures
            *final(self) == (CraneliftFailDescr {
                recovery_layout: Some(recovery_layout),
                ..*old(self)
            }),
    {
        self.recovery_layout = Some(recovery_layout);
    }

    pub fn set_source_op_index(&mut self, source_op_index: usize)
        ensures
            *final(self) == (CraneliftFailDescr {
                source_op_index: Some(source_op_index),
                ..*old(self)
            }),
    {
        self.source_op_index = Some(source_op_index);
    }

    pub fn set_trace_info(&mut self, trace_info: TraceInfoRef)
        ensures
            *final(self) == (CraneliftFailDescr { trace_info: Some(trace_info), ..*old(self) }),
    {
        self.trace_info = Some(trace_info);
    }

    pub fn gc_map(&self) -> (r: &GcMap)
        ensures
            *r == self.gc_map,
    {
        &self.gc_map
    }

    /// Whether the exit was made as a finish.
    pub fn is_finish(&self) -> (r: bool)
        ensures
            r == self.is_finish,
    {
        self.is_finish
    }

    /// Whether the slot holds a force token.
    pub fn is_force_token_slot(&self, slot: usize) -> (r: bool)
        requires
            self.wf(),
        ensures
            r == self.force_token_slots@.contains(slot),
    {
        let v = &self.force_token_slots;
        let mut lo: usize = 0;
        let mut hi: usize = v.len();
        while lo < hi
            invariant
                v == &self.force_token_slots,
                lo <= hi <= v@.len(),
                increasing(v@),
                forall|k: int| 0 <= k < lo ==> v@[k] < slot,
                forall|k: int| hi <= k < v@.len() ==> v@[k] > slot,
            decreases hi - lo,
        {
            let mid: usize = lo + (hi - lo) / 2;
            let here: usize = v[mid];
            if here == slot {
                assert(v@[mid as int] == slot);
                return true;
            }
            if here < slot {
                assert forall|k: int| 0 <= k < mid + 1 implies v@[k] < slot by {
                    if k < mid {
                        assert(v@[k].rank() < v@[mid as int].rank());
                    }
                }
                lo = mid + 1;
            } else {
                assert forall|k: int| mid <= k < v@.len() implies v@[k] > slot by {
                    if k > mid {
                        assert(v@[mid as int].rank() < v@[k].rank());
                    }
                }
                hi = mid;
            }
        }
        false
    }

    /// Whether the slot holds a reference.
    pub fn is_gc_ref_slot(&self, slot: usize) -> (r: bool)
        requires
            self.wf(),
        ensures
            r == is_ref_slot(self.fail_arg_types@, self.force_token_slots@.to_set(), slot),
    {
        self.gc_map.is_ref(slot)
    }

    fn meta_ref(&self) -> (r: Option<&MetaFailDescr>)
        ensures
            match r {
                Some(m) => self.meta() == Some(*m),
                None => self.meta() is None,
            },
    {
        match &self.meta_descr {
            Some(m) => match &m.fail {
                Some(f) => Some(f),
                None => None,
            },
            None => None,
        }
    }

    /// The trace of the exit: the frontend's word counts.
    pub fn trace_id(&self) -> (r: u64)
        ensures
            r == match self.meta() {
                Some(m) => m.trace_id,
                None => self.trace_id,
            },
    {
        match self.meta_ref() {
            Some(m) => m.trace_id,
            None => self.trace_id,
        }
    }

    /// Whether the exit is a finish: the frontend's word counts.
    pub fn is_final_exit(&self) -> (r: bool)
        ensures
            r == match self.meta() {
                Some(m) => m.is_finish,
                None => self.is_finish,
            },
    {
        match self.meta_ref() {
            Some(m) => m.is_finish,
            None => self.is_finish,
        }
    }

    /// Whether the exit leaves the frame with an exception: the frontend's word
    /// counts.
    pub fn is_exit_frame_with_exception(&self) -> (r: bool)
        ensures
            r == match self.meta() {
                Some(m) => m.is_exit_frame_with_exception,
                None => self.is_exit_frame_with_exception,
            },
    {
        match self.meta_ref() {
            Some(m) => m.is_exit_frame_with_exception,
            None => self.is_exit_frame_with_exception,
        }
    }

    /// Whether the interpreter resumes after the exit. It does not after a jump
    /// into another loop; otherwise the frontend's word counts, and without it
    /// every exit but a finish is one.
    pub fn is_resume_guard(&self) -> (r: bool)
        ensures
            r == (!self.is_external_jump && match self.meta() {
                Some(m) => m.is_resume_guard,
                None => !self.is_finish,
            }),
    {
        if self.is_external_jump {
            return false;
        }
        match self.meta_ref() {
            Some(m) => m.is_resume_guard,
            None => !self.is_finish,
        }
    }

    pub fn is_external_jump(&self) -> (r: bool)
        ensures
            r == self.is_external_jump,
    {
        self.is_external_jump
    }

    pub fn target_descr(&self) -> (r: Option<DescrRef>)
        ensures
            r == self.target_descr,
    {
        self.target_descr
    }

    pub fn fail_index(&self) -> (r: u32)
        ensures
            r == self.fail_index,
    {
        self.fail_index
    }

    /// The index within the trace, which is the only one that the exit has.
    pub fn fail_index_per_trace(&self) -> (r: u32)
        ensures
            r == self.fail_index,
    {
        self.fail_index
    }

    pub fn fail_arg_types(&self) -> (r: &Vec<Type>)
        ensures
            *r == self.fail_arg_types,
    {
        &self.fail_arg_types
    }

    pub fn force_token_slots(&self) -> (r: &Vec<usize>)
        ensures
            *r == self.force_token_slots,
    {
        &self.force_token_slots
    }

    pub fn vector_info(&self) -> (r: Vec<u64>)
        ensures
            r@ == self.vector_info@,
    {
        copy_list(&self.vector_info)
    }

    /// The frontend's resume numbering.
    pub fn rd_numb(&self) -> (r: Option<Vec<u8>>)
        ensures
            list_view(r) == match self.meta() {
                Some(m) => list_view(m.rd_numb),
                None => None,
            },
    {
        match self.meta_ref() {
            Some(m) => copy_opt(&m.rd_numb),
            None => None,
        }
    }

    /// The frontend's resume constants.
    pub fn rd_consts(&self) -> (r: Option<Vec<u64>>)
        ensures
            list_view(r) == match self.meta() {
                Some(m) => list_view(m.rd_consts),
                None => None,
            },
    {
        match self.meta_ref() {
            Some(m) => copy_opt(&m.rd_consts),
            None => None,
        }
    }

    /// The frontend's virtuals.
    pub fn rd_virtuals(&self) -> (r: Option<Vec<u64>>)
        ensures
            list_view(r) == match self.meta() {
                Some(m) => list_view(m.rd_virtuals),
                None => None,
            },
    {
        match self.meta_ref() {
            Some(m) => copy_opt(&m.rd_virtuals),
            None => None,
        }
    }

    /// The frontend's pending fields.
    pub fn rd_pendingfields(&self) -> (r: Option<Vec<u64>>)
        ensures
            list_view(r) == match self.meta() {
                Some(m) => list_view(m.rd_pendingfields),
                None => None,
            },
    {
        match self.meta_ref() {
            Some(m) => copy_opt(&m.rd_pendingfields),
            None => None,
        }
    }

    fn gc_ref_slots(&self) -> (r: Vec<usize>)
        ensures
            r@ == ref_slots(self.gc_map@, self.fail_arg_types@.len() as int),
    {
        let mut out: Vec<usize> = Vec::new();
        let mut slot: usize = 0;
        while slot < self.fail_arg_types.len()
            invariant
                slot <= self.fail_arg_types@.len(),
                out@ == ref_slots(self.gc_map@, slot as int),
            decreases self.fail_arg_types.len() - slot,
        {
            if self.gc_map.is_ref(slot) {
                out.push(slot);
            }
            slot = slot + 1;
        }
        out
    }

    /// What is known of the exit, in one piece.
    pub fn layout(&self) -> (r: FailDescrLayout)
        ensures
            r.fail_index == self.fail_index,
            r.source_op_index == self.source_op_index,
            r.trace_id == match self.meta() {
                Some(m) => m.trace_id,
                None => self.trace_id,
            },
            r.trace_info == self.trace_info,
            r.fail_arg_types@ == self.fail_arg_types@,
            r.is_finish == self.is_finish,
            r.gc_ref_slots@ == ref_slots(self.gc_map@, self.fail_arg_types@.len() as int),
            r.force_token_slots@ == self.force_token_slots@,
            same_recovery(r.recovery_layout, self.recovery_layout),
            list_view(r.frame_stack) == match self.recovery_layout {
                Some(x) => Some(x.frames@),
                None => None,
            },
            list_view(r.rd_numb) == match self.meta() {
                Some(m) => list_view(m.rd_numb),
                None => None,
            },
            list_view(r.rd_consts) == match self.meta() {
                Some(m) => list_view(m.rd_consts),
                None => None,
            },
            list_view(r.rd_virtuals) == match self.meta() {
                Some(m) => list_view(m.rd_virtuals),
                None => None,
            },
            list_view(r.rd_pendingfields) == match self.meta() {
                Some(m) => list_view(m.rd_pendingfields),
                None => None,
            },
    {
        let recovery_layout = match &self.recovery_layout {
            Some(x) => Some(x.copied()),
            None => None,
        };
        let frame_stack = match &self.recovery_layout {
            Some(x) => Some(copy_list(&x.frames)),
            None => None,
        };
        FailDescrLayout {
            fail_index: self.fail_index,
            source_op_index: self.source_op_index,
            trace_id: self.trace_id(),
            trace_info: self.trace_info,
            fail_arg_types: copy_list(&self.fail_arg_types),
            is_finish: self.is_finish,
            gc_ref_slots: self.gc_ref_slots(),
            force_token_slots: copy_list(&self.force_token_slots),
            recovery_layout,
            frame_stack,
            rd_numb: self.rd_numb(),
            rd_consts: self.rd_consts(),
            rd_virtuals: self.rd_virtuals(),
            rd_pendingfields: self.rd_pendingfields(),
        }
    }
}

// ── Laws ─────────────────────────────────────────────────────────────

/// A bridge that is attached is the one that is taken out again, and nothing else
/// is left changed.
pub proof fn law_attached_bridge_is_taken_back(d: CraneliftFailDescr, bridge: BridgeData)
    requires
        d.wf(),
    ensures
        d.with_bridge(bridge).wf(),
        d.with_bridge(bridge).bridge == Some(Box::new(bridge)),
        d.with_bridge(bridge).without_bridge() == d.without_bridge(),
        d.bridge is None ==> d.with_bridge(bridge).without_bridge() == d,
{
}

// ── Laws of the status word ──────────────────────────────────────────

/// Compiling is noted and taken back without a trace, and nothing but the busy
/// flag changes in between.
pub proof fn law_compiling_comes_and_goes(status: u64)
    ensures
        is_busy(status | ST_BUSY_FLAG),
        !is_busy(status & !ST_BUSY_FLAG),
        !is_busy(status) ==> (status | ST_BUSY_FLAG) & !ST_BUSY_FLAG == status,
        (status | ST_BUSY_FLAG) & ST_SHIFT_MASK == status & ST_SHIFT_MASK,
        (status | ST_BUSY_FLAG) & ST_TYPE_MASK == status & ST_TYPE_MASK,
{
    assert((status | 0x01) & 0x01 != 0) by (bit_vector);
    assert((status & !0x01u64) & 0x01 == 0) by (bit_vector);
    assert(status & 0x01 == 0 ==> (status | 0x01) & !0x01u64 == status) by (bit_vector);
    assert((status | 0x01) & 0xFFFF_FFFF_FFFF_FFF8 == status & 0xFFFF_FFFF_FFFF_FFF8)
        by (bit_vector);
    assert((status | 0x01) & 0x06 == status & 0x06) by (bit_vector);
}

/// A stored hash is not busy, has no type, and is found again above the flags.
pub proof fn law_hash_leaves_flags_clear(hash: u64)
    ensures
        !is_busy(hash_status(hash)),
        hash_status(hash) & ST_TYPE_MASK == TY_NONE,
        hash_status(hash) >> 3 == hash >> 3,
{
    assert((hash & 0xFFFF_FFFF_FFFF_FFF8) & 0x01 == 0) by (bit_vector);
    assert((hash & 0xFFFF_FFFF_FFFF_FFF8) & 0x06 == 0) by (bit_vector);
    assert((hash & 0xFFFF_FFFF_FFFF_FFF8) >> 3 == hash >> 3) by (bit_vector);
}

/// Index and type of a counter per value are found again, and the counter is not
/// busy.
pub proof fn law_value_counter_is_read_back(index: u32, type_tag: u64)
    requires
        type_tag == TY_INT || type_tag == TY_REF || type_tag == TY_FLOAT,
    ensures
        value_status(index, type_tag) & ST_TYPE_MASK == type_tag,
        value_status(index, type_tag) >> 3 == index as u64,
        !is_busy(value_status(index, type_tag)),
{
    let i = index as u64;
    assert(i <= 0xFFFF_FFFF ==> (type_tag == 2 || type_tag == 4 || type_tag == 6) ==> (type_tag | (
    i << 3)) & 0x06 == type_tag) by (bit_vector);
    assert(i <= 0xFFFF_FFFF ==> (type_tag == 2 || type_tag == 4 || type_tag == 6) ==> (type_tag | (
    i << 3)) >> 3 == i) by (bit_vector);
    assert(i <= 0xFFFF_FFFF ==> (type_tag == 2 || type_tag == 4 || type_tag == 6) ==> (type_tag | (
    i << 3)) & 0x01 == 0) by (bit_vector);
}

// ── Dead frames ──────────────────────────────────────────────────────

/// Words before the first item of a frame.
pub const FRAME_ITEM0: usize = 8;

/// The word that holds the saved data.
pub const FRAME_SAVEDATA: usize = 4;

/// The word that holds the exception of a guard.
pub const FRAME_GUARD_EXC: usize = 5;

/// A frame that compiled code has left. Its values stay in the frame.
pub struct JitFrameDeadFrame {
    /// The words of the frame.
    pub words: Vec<i64>,
    pub fail_descr: Arc<CraneliftFailDescr>,
    /// The descriptor that the code attached itself, for a finish.
    pub latest_descr: Option<DescrRef>,
    /// Whether the collector was told of the frame, and must be told when it goes.
    pub roots_registered: bool,
}

impl JitFrameDeadFrame {
    /// Whether the frame has its header.
    pub open spec fn wf(&self) -> bool {
        self.words@.len() >= FRAME_ITEM0
    }

    /// How many items the frame has.
    pub open spec fn items(&self) -> int {
        self.words@.len() - FRAME_ITEM0
    }

    pub fn new(
        words: Vec<i64>,
        fail_descr: Arc<CraneliftFailDescr>,
        latest_descr: Option<DescrRef>,
    ) -> (r: JitFrameDeadFrame)
        requires
            words@.len() >= FRAME_ITEM0,
        ensures
            r.wf(),
            r.words == words,
            r.fail_descr == fail_descr,
            r.latest_descr == latest_descr,
            !r.roots_registered,
    {
        JitFrameDeadFrame { words, fail_descr, latest_descr, roots_registered: false }
    }

    /// Notes whether the collector took the frame's roots.
    pub fn register_roots(&mut self, taken: bool)
        ensures
            *final(self) == (JitFrameDeadFrame { roots_registered: taken, ..*old(self) }),
    {
        self.roots_registered = taken;
    }

    /// The item as an integer.
    pub fn get_int(&self, index: usize) -> (r: i64)
        requires
            self.wf(),
            index < self.items(),
        ensures
            r == self.words@[FRAME_ITEM0 + index],
    {
        let count: usize = self.words.len();
        assert(FRAME_ITEM0 + index < count);
        self.words[FRAME_ITEM0 + index]
    }

    /// The item as a reference.
    pub fn get_ref(&self, index: usize) -> (r: GcRef)
        requires
            self.wf(),
            index < self.items(),
        ensures
            r.addr == self.words@[FRAME_ITEM0 + index] as usize,
    {
        GcRef { addr: word_address(self.get_int(index)) }
    }

    /// The item as a reference that the caller keeps.
    pub fn take_ref_for_call_result(&mut self, index: usize) -> (r: GcRef)
        requires
            old(self).wf(),
            index < old(self).items(),
        ensures
            r.addr == old(self).words@[FRAME_ITEM0 + index] as usize,
            *final(self) == *old(self),
    {
        self.get_ref(index)
    }

    /// The saved data.
    pub fn get_savedata_ref(&self) -> (r: GcRef)
        requires
            self.wf(),
        ensures
            r.addr == self.words@[FRAME_SAVEDATA as int] as usize,
    {
        GcRef { addr: word_address(self.words[FRAME_SAVEDATA]) }
    }

    /// The saved data, if there is any.
    pub fn try_get_savedata_ref(&self) -> (r: Option<GcRef>)
        requires
            self.wf(),
        ensures
            match r {
                Some(x) => x.addr == self.words@[FRAME_SAVEDATA as int] as usize && x.addr != 0,
                None => self.words@[FRAME_SAVEDATA as int] as usize == 0,
            },
    {
        let r = self.get_savedata_ref();
        if r.is_null() {
            None
        } else {
            Some(r)
        }
    }

    /// Saves data in the frame.
    pub fn set_savedata_ref(&mut self, data: GcRef)
        requires
            old(self).wf(),
        ensures
            final(self).wf(),
            final(self).words@ == old(self).words@.update(FRAME_SAVEDATA as int, data.addr as i64),
            final(self).fail_descr == old(self).fail_descr,
            final(self).latest_descr == old(self).latest_descr,
            final(self).roots_registered == old(self).roots_registered,
    {
        self.words.set(FRAME_SAVEDATA, address_word(data.addr));
    }

    /// The exception of the guard.
    pub fn grab_exc_value(&self) -> (r: GcRef)
        requires
            self.wf(),
        ensures
            r.addr == self.words@[FRAME_GUARD_EXC as int] as usize,
    {
        GcRef { addr: word_address(self.words[FRAME_GUARD_EXC]) }
    }

    /// Whether the collector must be told when the frame goes.
    pub fn must_unregister(&self) -> (r: bool)
        ensures
            r == self.roots_registered,
    {
        self.roots_registered
    }
}

/// A word as an address.
#[verifier::truncate]
fn word_address(word: i64) -> (r: usize)
    ensures
        r == word as usize,
{
    word as usize
}

/// An address as a word.
#[verifier::truncate]
fn address_word(addr: usize) -> (r: i64)
    ensures
        r == addr as i64,
{
    addr as i64
}

/// An address that is kept as a word is read back.
pub proof fn law_address_survives_as_word(addr: usize)
    ensures
        #[verifier::truncate] ((#[verifier::truncate] (addr as i64)) as usize) == addr,
{
    assert(#[verifier::truncate] ((#[verifier::truncate] (addr as i64)) as usize) == addr) by (bit_vector);
}

proof fn lemma_ref_slots(map: Set<usize>, n: int, slot: usize)
    requires
        n <= usize::MAX,
    ensures
        ref_slots(map, n).contains(slot) <==> slot < n && map.contains(slot),
    decreases n,
{
    if n > 0 {
        lemma_ref_slots(map, n - 1, slot);
        let before = ref_slots(map, n - 1);
        let here = (n - 1) as usize;
        if map.contains(here) {
            let all = before.push(here);
            assert(all[before.len() as int] == here);
            if before.contains(slot) {
                let i = choose|i: int| 0 <= i < before.len() && before[i] == slot;
                assert(all[i] == slot);
            }
            if all.contains(slot) && slot != here {
                let i = choose|i: int| 0 <= i < all.len() && all[i] == slot;
                assert(before[i] == slot);
            }
        }
    }
}

/// A layout lists exactly the slots that hold references and no force tokens.
pub proof fn law_layout_lists_all_references(d: CraneliftFailDescr, slot: usize)
    requires
        d.wf(),
        d.fail_arg_types@.len() <= usize::MAX,
    ensures
        ref_slots(d.gc_map@, d.fail_arg_types@.len() as int).contains(slot) <==> is_ref_slot(
            d.fail_arg_types@,
            d.force_token_slots@.to_set(),
            slot,
        ),
{
    lemma_ref_slots(d.gc_map@, d.fail_arg_types@.len() as int, slot);
    assert(d.gc_map@.contains(slot) == is_ref_slot(
        d.fail_arg_types@,
        d.force_token_slots@.to_set(),
        slot,
    ));
}

} // verus!
