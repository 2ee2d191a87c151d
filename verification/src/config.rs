//! What an interpreter declares about itself: its helpers and their policies,
//! its virtualizable, its state fields and its green and red variables.

use vstd::prelude::*;

use crate::ast::{canonical_path_segments, Expr, Path, segment_names};
use crate::kinds::{value_kind_named, ValueKind};
use crate::policy::CallPolicyKind;
use crate::text::{NameTable, same_strings, string_views};

verus! {

/// The policy of a helper: declared, or read from the helper at run time.
#[derive(Clone, Copy, Debug, PartialEq, Eq, Structural)]
pub enum CallPolicySpec {
    Explicit(CallPolicyKind),
    Infer,
}

/// `path => policy` of a helper declaration.
pub struct CallEntry {
    pub path: Path,
    pub policy: Option<CallPolicyKind>,
}

/// The policy of the helper with the given path.
pub struct PolicyEntry {
    pub segments: Vec<String>,
    pub spec: CallPolicySpec,
}

/// The functions that stand in for I/O calls.
pub struct IoShim {
    pub path: Path,
    pub shim: String,
}

/// An I/O function's path, and the function that stands in for it.
pub struct IoShimEntry {
    pub segments: Vec<String>,
    pub shim: String,
}

/// A field of a virtualizable, or an array and the type of its items.
pub struct VableField {
    pub name: String,
    pub item_type: String,
}

pub struct VirtualizableDecl {
    pub var_name: String,
    pub fields: Vec<VableField>,
    pub arrays: Vec<VableField>,
}

#[derive(Clone, Copy, Debug, PartialEq, Eq, Structural)]
pub enum StateFieldKind {
    Scalar,
    Array,
    VirtArray,
    Opaque,
}

pub struct StateField {
    pub name: String,
    pub kind: StateFieldKind,
}

pub struct StateFieldsConfig {
    pub fields: Vec<StateField>,
}

/// Declared type of a green variable, where its declaration gives one.
#[derive(Clone, Copy, Debug, PartialEq, Eq, Structural)]
pub enum GreenTypeTag {
    Int,
    Ref,
    Float,
    Str,
    Unicode,
}

/// The declarations in the form in which the lowerer looks things up.
pub struct LowererConfig {
    pub io_shims: Vec<IoShimEntry>,
    pub calls: Vec<PolicyEntry>,
    /// Whether undeclared helpers have an inferred policy.
    pub auto_calls: bool,
    pub vable_var: Option<String>,
    /// Reference register of the virtualizable on entry.
    pub vable_input_ref_reg: Option<u16>,
    pub vable_fields: NameTable<(usize, ValueKind)>,
    pub vable_arrays: NameTable<(usize, ValueKind)>,
    pub state_scalars: NameTable<usize>,
    pub state_arrays: NameTable<usize>,
    pub state_virt_arrays: NameTable<usize>,
    pub greens: Vec<Expr>,
    pub green_type_tags: Vec<Option<GreenTypeTag>>,
    pub reds: Vec<Expr>,
    pub state_type_name: String,
    pub env_type_name: String,
}

// ── Lookup of policies ───────────────────────────────────────────────

/// The policy of the first entry with the given path.
pub open spec fn find_policy(entries: Seq<PolicyEntry>, segments: Seq<Seq<char>>) -> Option<
    CallPolicySpec,
>
    decreases entries.len(),
{
    if entries.len() == 0 {
        None
    } else if string_views(entries[0].segments@) == segments {
        Some(entries[0].spec)
    } else {
        find_policy(entries.drop_first(), segments)
    }
}

/// The policy of the first entry with the given path.
pub fn policy_for(entries: &Vec<PolicyEntry>, segments: &Vec<String>) -> (r: Option<CallPolicySpec>)
    ensures
        r == find_policy(entries@, string_views(segments@)),
{
    let mut i: usize = 0;
    assert(entries@.skip(0) =~= entries@);
    while i < entries.len()
        invariant
            i <= entries.len(),
            find_policy(entries@, string_views(segments@)) == find_policy(
                entries@.skip(i as int),
                string_views(segments@),
            ),
        decreases entries.len() - i,
    {
        assert(entries@.skip(i as int)[0] == entries@[i as int]);
        if same_strings(&entries[i].segments, segments) {
            return Some(entries[i].spec);
        }
        assert(entries@.skip(i as int).drop_first() =~= entries@.skip(i + 1));
        i = i + 1;
    }
    None
}

/// The stand-in of the first I/O entry with the given path.
pub open spec fn find_shim(entries: Seq<IoShimEntry>, segments: Seq<Seq<char>>) -> Option<String>
    decreases entries.len(),
{
    if entries.len() == 0 {
        None
    } else if string_views(entries[0].segments@) == segments {
        Some(entries[0].shim)
    } else {
        find_shim(entries.drop_first(), segments)
    }
}

/// The stand-in of the first I/O entry with the given path.
pub fn shim_for<'a>(entries: &'a Vec<IoShimEntry>, segments: &Vec<String>) -> (r: Option<&'a String>)
    ensures
        match r {
            Some(s) => find_shim(entries@, string_views(segments@)) == Some(*s),
            None => find_shim(entries@, string_views(segments@)) is None,
        },
{
    let mut i: usize = 0;
    assert(entries@.skip(0) =~= entries@);
    while i < entries.len()
        invariant
            i <= entries.len(),
            find_shim(entries@, string_views(segments@)) == find_shim(
                entries@.skip(i as int),
                string_views(segments@),
            ),
        decreases entries.len() - i,
    {
        assert(entries@.skip(i as int)[0] == entries@[i as int]);
        if same_strings(&entries[i].segments, segments) {
            return Some(&entries[i].shim);
        }
        assert(entries@.skip(i as int).drop_first() =~= entries@.skip(i + 1));
        i = i + 1;
    }
    None
}

// ── Building the tables ──────────────────────────────────────────────

pub open spec fn entry_spec(policy: Option<CallPolicyKind>) -> CallPolicySpec {
    match policy {
        Some(kind) => CallPolicySpec::Explicit(kind),
        None => CallPolicySpec::Infer,
    }
}

/// Whether `built` holds the declared paths and policies, in order.
pub open spec fn entries_built(calls: Seq<CallEntry>, built: Seq<PolicyEntry>) -> bool {
    &&& built.len() == calls.len()
    &&& forall|i: int|
        0 <= i < calls.len() ==> string_views((#[trigger] built[i]).segments@) == segment_names(
            calls[i].path,
        ) && built[i].spec == entry_spec(calls[i].policy)
}

/// The lookup form of declared helper policies.
pub fn policy_entries(calls: &Vec<CallEntry>) -> (r: Vec<PolicyEntry>)
    ensures
        entries_built(calls@, r@),
{
    let mut out: Vec<PolicyEntry> = Vec::new();
    let mut i: usize = 0;
    while i < calls.len()
        invariant
            i <= calls.len(),
            out.len() == i,
            forall|j: int|
                0 <= j < i ==> string_views((#[trigger] out@[j]).segments@) == segment_names(
                    calls@[j].path,
                ) && out@[j].spec == entry_spec(calls@[j].policy),
        decreases calls.len() - i,
    {
        let spec = match calls[i].policy {
            Some(kind) => CallPolicySpec::Explicit(kind),
            None => CallPolicySpec::Infer,
        };
        out.push(PolicyEntry { segments: canonical_path_segments(&calls[i].path), spec });
        i = i + 1;
    }
    out
}

pub open spec fn shims_built(shims: Seq<IoShim>, built: Seq<IoShimEntry>) -> bool {
    &&& built.len() == shims.len()
    &&& forall|i: int|
        0 <= i < shims.len() ==> string_views((#[trigger] built[i]).segments@) == segment_names(
            shims[i].path,
        ) && built[i].shim == shims[i].shim
}

fn shim_entries(shims: &Vec<IoShim>) -> (r: Vec<IoShimEntry>)
    ensures
        shims_built(shims@, r@),
{
    let mut out: Vec<IoShimEntry> = Vec::new();
    let mut i: usize = 0;
    while i < shims.len()
        invariant
            i <= shims.len(),
            out.len() == i,
            forall|j: int|
                0 <= j < i ==> string_views((#[trigger] out@[j]).segments@) == segment_names(
                    shims@[j].path,
                ) && out@[j].shim == shims@[j].shim,
        decreases shims.len() - i,
    {
        out.push(
            IoShimEntry {
                segments: canonical_path_segments(&shims[i].path),
                shim: shims[i].shim.clone(),
            },
        );
        i = i + 1;
    }
    out
}

/// Each field with its position and kind; of two fields with one name the later
/// counts.
pub open spec fn vable_table(fields: Seq<VableField>) -> Map<Seq<char>, (usize, ValueKind)>
    decreases fields.len(),
{
    if fields.len() == 0 {
        Map::empty()
    } else {
        vable_table(fields.drop_last()).insert(
            fields.last().name@,
            ((fields.len() - 1) as usize, value_kind_named(fields.last().item_type@)),
        )
    }
}

fn build_vable_table(fields: &Vec<VableField>) -> (r: NameTable<(usize, ValueKind)>)
    ensures
        r@ == vable_table(fields@),
{
    let mut table: NameTable<(usize, ValueKind)> = NameTable::new();
    let mut i: usize = 0;
    while i < fields.len()
        invariant
            i <= fields.len(),
            table@ == vable_table(fields@.take(i as int)),
        decreases fields.len() - i,
    {
        assert(fields@.take(i + 1).drop_last() =~= fields@.take(i as int));
        table.insert(
            fields[i].name.clone(),
            (i, ValueKind::from_ident(fields[i].item_type.as_str())),
        );
        i = i + 1;
    }
    assert(fields@.take(fields@.len() as int) =~= fields@);
    table
}

/// How many of the fields are of the given kind.
pub open spec fn count_kind(fields: Seq<StateField>, kind: StateFieldKind) -> nat
    decreases fields.len(),
{
    if fields.len() == 0 {
        0
    } else {
        count_kind(fields.drop_last(), kind) + if fields.last().kind == kind {
            1nat
        } else {
            0nat
        }
    }
}

/// The fields of one kind, numbered in the order of their declaration; of two
/// fields with one name the later counts.
pub open spec fn state_table(fields: Seq<StateField>, kind: StateFieldKind) -> Map<Seq<char>, usize>
    decreases fields.len(),
{
    if fields.len() == 0 {
        Map::empty()
    } else if fields.last().kind == kind {
        state_table(fields.drop_last(), kind).insert(
            fields.last().name@,
            count_kind(fields.drop_last(), kind) as usize,
        )
    } else {
        state_table(fields.drop_last(), kind)
    }
}

proof fn lemma_count_kind_bound(fields: Seq<StateField>, kind: StateFieldKind)
    ensures
        count_kind(fields, kind) <= fields.len(),
    decreases fields.len(),
{
    if fields.len() > 0 {
        lemma_count_kind_bound(fields.drop_last(), kind);
    }
}

fn build_state_table(fields: &Vec<StateField>, kind: StateFieldKind) -> (r: NameTable<usize>)
    ensures
        r@ == state_table(fields@, kind),
{
    let mut table: NameTable<usize> = NameTable::new();
    let mut next: usize = 0;
    let mut i: usize = 0;
    while i < fields.len()
        invariant
            i <= fields.len(),
            next == count_kind(fields@.take(i as int), kind),
            table@ == state_table(fields@.take(i as int), kind),
        decreases fields.len() - i,
    {
        assert(fields@.take(i + 1).drop_last() =~= fields@.take(i as int));
        proof {
            lemma_count_kind_bound(fields@.take(i as int), kind);
        }
        if fields[i].kind == kind {
            table.insert(fields[i].name.clone(), next);
            next = next + 1;
        }
        i = i + 1;
    }
    assert(fields@.take(fields@.len() as int) =~= fields@);
    table
}

impl LowererConfig {
    /// The lookup form of the declarations.
    pub fn new(
        io_shims: &Vec<IoShim>,
        calls: &Vec<CallEntry>,
        auto_calls: bool,
        vable_decl: Option<&VirtualizableDecl>,
        state_fields_cfg: Option<&StateFieldsConfig>,
        greens: Vec<Expr>,
        green_type_tags: Vec<Option<GreenTypeTag>>,
        reds: Vec<Expr>,
        state_type: &String,
        env_type: &String,
    ) -> (r: LowererConfig)
        ensures
            shims_built(io_shims@, r.io_shims@),
            entries_built(calls@, r.calls@),
            r.auto_calls == auto_calls,
            match vable_decl {
                Some(decl) => {
                    &&& r.vable_var == Some(decl.var_name)
                    &&& r.vable_input_ref_reg == Some(0u16)
                    &&& r.vable_fields@ == vable_table(decl.fields@)
                    &&& r.vable_arrays@ == vable_table(decl.arrays@)
                },
                None => {
                    &&& r.vable_var is None
                    &&& r.vable_input_ref_reg is None
                    &&& r.vable_fields@ == Map::<Seq<char>, (usize, ValueKind)>::empty()
                    &&& r.vable_arrays@ == Map::<Seq<char>, (usize, ValueKind)>::empty()
                },
            },
            match state_fields_cfg {
                Some(sf) => {
                    &&& r.state_scalars@ == state_table(sf.fields@, StateFieldKind::Scalar)
                    &&& r.state_arrays@ == state_table(sf.fields@, StateFieldKind::Array)
                    &&& r.state_virt_arrays@ == state_table(sf.fields@, StateFieldKind::VirtArray)
                },
                None => {
                    &&& r.state_scalars@ == Map::<Seq<char>, usize>::empty()
                    &&& r.state_arrays@ == Map::<Seq<char>, usize>::empty()
                    &&& r.state_virt_arrays@ == Map::<Seq<char>, usize>::empty()
                },
            },
            r.greens == greens,
            r.green_type_tags == green_type_tags,
            r.reds == reds,
            r.state_type_name == *state_type,
            r.env_type_name == *env_type,
    {
        let (vable_var, vable_input_ref_reg, vable_fields, vable_arrays) = match vable_decl {
            Some(decl) => (
                Some(decl.var_name.clone()),
                Some(0u16),
                build_vable_table(&decl.fields),
                build_vable_table(&decl.arrays),
            ),
            None => (None, None, NameTable::new(), NameTable::new()),
        };
        let (state_scalars, state_arrays, state_virt_arrays) = match state_fields_cfg {
            Some(sf) => (
                build_state_table(&sf.fields, StateFieldKind::Scalar),
                build_state_table(&sf.fields, StateFieldKind::Array),
                build_state_table(&sf.fields, StateFieldKind::VirtArray),
            ),
            None => (NameTable::new(), NameTable::new(), NameTable::new()),
        };
        LowererConfig {
            io_shims: shim_entries(io_shims),
            calls: policy_entries(calls),
            auto_calls,
            vable_var,
            vable_input_ref_reg,
            vable_fields,
            vable_arrays,
            state_scalars,
            state_arrays,
            state_virt_arrays,
            greens,
            green_type_tags,
            reds,
            state_type_name: state_type.clone(),
            env_type_name: env_type.clone(),
        }
    }

    /// The same declarations, with the virtualizable entering in register
    /// `reg`. Without a virtualizable nothing changes.
    pub fn with_vable_input_ref_reg(self, reg: u16) -> (r: LowererConfig)
        ensures
            r == (LowererConfig {
                vable_input_ref_reg: if self.vable_var is Some {
                    Some(reg)
                } else {
                    self.vable_input_ref_reg
                },
                ..self
            }),
    {
        let mut changed = self;
        if changed.vable_var.is_some() {
            changed.vable_input_ref_reg = Some(reg);
        }
        changed
    }
}

} // verus!
