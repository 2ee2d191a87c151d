//! Bodies: statements are lowered, their liveness is worked out, and what comes
//! of it is handed out.

use vstd::prelude::*;

use crate::arm_locals::local_views;
use crate::ast::{Expr, ExprKind, FnArg, ItemFn, Pat};
use crate::calls::clamped;
use crate::config::{GreenTypeTag, LowererConfig, PolicyEntry};
use crate::growth::{grows, grows_self, sound};
use crate::growth_forms::{grows_block_value, grows_expr_or_skip, grows_lower_stmts};
use crate::kinds::{Binding, InlineReturnKind};
use crate::layout::{
    assign_caller_local_layout, CallerLocalLayout, layout_end, layout_views, LayoutView,
    packed_layout,
};
use crate::liveness::labelled;
use crate::lower_spec::{block_value, expr_or_skip, lower_stmts};
use crate::lowerer::{
    config_state, larger, LowerContext, Lowerer, LowerState, max_u16, next_u16, Prebuild,
    prebuild_views, PrebuildView, Reject, start_state, successor,
};
use crate::markers::{
    annotate_live_markers_with_liveness, annotated, collapsed_metas, collapsed_stmts, Kept,
    kept_from, labels_in, lemma_run_end, liveness_prebuild, marker_steps, remove_repeated_live,
    rewrite_live_marker_statements_with_triples, run_end, run_kept, with_triples,
};
use crate::ops::{
    InferenceFailureMode, LoweredSequence, meta_views, OpMeta, OpMetaView, Stmt, stmt_views,
    StmtView,
};
use crate::patterns::{classify_param_type, type_bank};

verus! {

// ── Finishing a body ─────────────────────────────────────────────────

/// The descriptions of a lowered body once liveness is written down and
/// repeated markers are merged.
pub open spec fn settled_metas<'a>(s: LowerState<'a>) -> Seq<OpMetaView<'a>> {
    collapsed_metas(annotated(s.op_metadata))
}

/// The statements of a lowered body, with the live registers at each marker.
pub open spec fn settled_stmts<'a>(s: LowerState<'a>) -> Seq<StmtView<'a>> {
    with_triples(settled_metas(s), collapsed_stmts(annotated(s.op_metadata), s.statements))
}

/// The steps that register the body's liveness.
pub open spec fn settled_prebuild<'a>(s: LowerState<'a>) -> Seq<PrebuildView<'a>> {
    marker_steps(settled_metas(s), 0) + s.prebuild
}

/// Whether a place of the plan is a place of the body.
pub open spec fn kept_within(k: Kept, n: int) -> bool {
    match k {
        Kept::At(i) => 0 <= i < n,
        Kept::Merged(i, j) => 0 <= i < j <= n,
    }
}

proof fn lemma_labels_within<'a>(ops: Seq<OpMetaView<'a>>, i: int, j: int)
    requires
        0 <= i,
        j <= ops.len(),
    ensures
        forall|n: int|
            0 <= n < labels_in(ops, i, j).len() ==> kept_within(
                #[trigger] labels_in(ops, i, j)[n],
                ops.len() as int,
            ),
    decreases j - i,
{
    if i < j {
        lemma_labels_within(ops, i + 1, j);
        let rest = labels_in(ops, i + 1, j);
        if ops[i].control is LabelDef {
            assert forall|n: int| 0 <= n < labels_in(ops, i, j).len() implies kept_within(
                #[trigger] labels_in(ops, i, j)[n],
                ops.len() as int,
            ) by {
                if n > 0 {
                    assert(labels_in(ops, i, j)[n] == rest[n - 1]);
                }
            }
        }
    }
}

proof fn lemma_kept_within<'a>(ops: Seq<OpMetaView<'a>>, i: int)
    requires
        0 <= i <= ops.len(),
    ensures
        forall|n: int|
            0 <= n < kept_from(ops, i).len() ==> kept_within(
                #[trigger] kept_from(ops, i)[n],
                ops.len() as int,
            ),
    decreases ops.len() - i,
{
    if i < ops.len() {
        if ops[i].control is LiveMarker {
            lemma_run_end(ops, i + 1);
            let j = run_end(ops, i + 1);
            lemma_kept_within(ops, j);
            lemma_labels_within(ops, i + 1, j);
            let run = run_kept(ops, i, j);
            assert forall|n: int| 0 <= n < kept_from(ops, i).len() implies kept_within(
                #[trigger] kept_from(ops, i)[n],
                ops.len() as int,
            ) by {
                if n < run.len() {
                    assert(kept_from(ops, i)[n] == run[n]);
                    if n < labels_in(ops, i + 1, j).len() {
                        assert(kept_within(labels_in(ops, i + 1, j)[n], ops.len() as int));
                    }
                } else {
                    assert(kept_from(ops, i)[n] == kept_from(ops, j)[n - run.len()]);
                }
            }
        } else {
            lemma_kept_within(ops, i + 1);
            assert forall|n: int| 0 <= n < kept_from(ops, i).len() implies kept_within(
                #[trigger] kept_from(ops, i)[n],
                ops.len() as int,
            ) by {
                if n > 0 {
                    assert(kept_from(ops, i)[n] == kept_from(ops, i + 1)[n - 1]);
                }
            }
        }
    }
}

/// Liveness and merging keep statements beside descriptions and labels on jumps.
pub proof fn lemma_settled_sound<'a>(s: LowerState<'a>)
    requires
        sound(s),
    ensures
        labelled(annotated(s.op_metadata)),
        labelled(settled_metas(s)),
        settled_metas(s).len() == settled_stmts(s).len(),
{
    let ops = s.op_metadata;
    let noted = annotated(ops);
    assert forall|i: int|
        0 <= i < noted.len() && ((#[trigger] noted[i]).control is LabelDef
            || noted[i].control is UnconditionalJump) implies noted[i].target_label is Some by {
        assert(ops[i].target_label is Some);
    }
    let plan = kept_from(noted, 0);
    lemma_kept_within(noted, 0);
    let metas = settled_metas(s);
    assert forall|n: int|
        0 <= n < metas.len() && ((#[trigger] metas[n]).control is LabelDef
            || metas[n].control is UnconditionalJump) implies metas[n].target_label is Some by {
        assert(kept_within(plan[n], noted.len() as int));
        if let Kept::At(i) = plan[n] {
            assert(noted[i].target_label is Some);
        }
    }
}

/// Statements, descriptions and prebuild steps of a lowered body.
pub fn settle<'a>(lowerer: Lowerer<'a>) -> (r: (
    Vec<Stmt<'a>>,
    Vec<OpMeta<'a>>,
    Vec<Prebuild<'a>>,
))
    requires
        sound(lowerer@),
    ensures
        stmt_views(r.0@) == settled_stmts(lowerer@),
        meta_views(r.1@) == settled_metas(lowerer@),
        prebuild_views(r.2@) == settled_prebuild(lowerer@),
{
    proof {
        lemma_settled_sound(lowerer@);
    }
    let mut op_metadata = lowerer.op_metadata;
    let mut statements = lowerer.statements;
    annotate_live_markers_with_liveness(&mut op_metadata);
    remove_repeated_live(&mut op_metadata, &mut statements);
    rewrite_live_marker_statements_with_triples(&op_metadata, &mut statements);
    let prebuild = liveness_prebuild(&op_metadata, lowerer.inline_liveness_prebuild);
    (statements, op_metadata, prebuild)
}

// ── Generated bodies ─────────────────────────────────────────────────

/// A generated body: its statements and the steps that register its liveness.
/// Only a dispatch body has schemas and arm bodies.
pub struct GeneratedJitCodeBody<'a> {
    pub statements: Vec<Stmt<'a>>,
    /// The descriptions of the statements.
    pub op_metadata: Vec<OpMeta<'a>>,
    pub liveness_prebuild: Vec<Prebuild<'a>>,
    /// Declared greens and their types, in the order of their declaration.
    pub green_schema: Vec<(String, GreenTypeTag)>,
    /// Reds and their types.
    pub red_schema: Vec<(String, GreenTypeTag)>,
    /// The bodies that arm calls refer to.
    pub arm_bodies: Vec<LoweredSequence<'a>>,
}

/// The body of a JitCode without a dispatch loop.
pub open spec fn is_plain_body<'a>(b: GeneratedJitCodeBody<'a>, s: LowerState<'a>) -> bool {
    &&& stmt_views(b.statements@) == settled_stmts(s)
    &&& meta_views(b.op_metadata@) == settled_metas(s)
    &&& prebuild_views(b.liveness_prebuild@) == settled_prebuild(s)
    &&& b.green_schema@.len() == 0
    &&& b.red_schema@.len() == 0
    &&& b.arm_bodies@.len() == 0
}

/// The statements of an expression that is a body: those of a block, or the
/// expression itself. An empty block is no body.
pub open spec fn body_stmts<'a>(s: LowerState<'a>, body: &'a Expr) -> (LowerState<'a>, bool) {
    match body.kind {
        ExprKind::Block(b) => if b.stmts@.len() == 0 {
            (s, false)
        } else {
            lower_stmts(s, &b.stmts, 0, b.stmts.len() as int)
        },
        _ => expr_or_skip(s, body),
    }
}

/// The statements of a body only add.
pub proof fn grows_body_stmts<'a>(s: LowerState<'a>, body: &'a Expr)
    ensures
        grows(s, body_stmts(s, body).0),
{
    broadcast use grows_self;

    match body.kind {
        ExprKind::Block(b) => grows_lower_stmts(s, &b.stmts, 0, b.stmts.len() as int),
        _ => grows_expr_or_skip(s, body),
    }
}

/// Where a lowering starts, nothing has been added.
pub proof fn lemma_start_sound<'a>(
    config: Option<&'a LowererConfig>,
    call_policies: Option<&'a Vec<PolicyEntry>>,
    mode: InferenceFailureMode,
)
    ensures
        sound(start_state(config, call_policies, mode)),
{
    reveal(LowerState::bind);
}

impl<'a> Lowerer<'a> {
    fn lower_body(&mut self, body: &'a Expr) -> (r: bool)
        ensures
            final(self)@ == body_stmts(old(self)@, body).0,
            r == body_stmts(old(self)@, body).1,
    {
        match &body.kind {
            ExprKind::Block(b) => if b.stmts.len() == 0 {
                false
            } else {
                self.lower_stmts(&b.stmts, 0, b.stmts.len()).is_some()
            },
            _ => self.lower_expr_or_skip(body).is_some(),
        }
    }
}

fn plain_body<'a>(lowerer: Lowerer<'a>) -> (r: GeneratedJitCodeBody<'a>)
    requires
        sound(lowerer@),
    ensures
        is_plain_body(r, lowerer@),
{
    let (statements, op_metadata, liveness_prebuild) = settle(lowerer);
    GeneratedJitCodeBody {
        statements,
        op_metadata,
        liveness_prebuild,
        green_schema: Vec::new(),
        red_schema: Vec::new(),
        arm_bodies: Vec::new(),
    }
}

/// The state after a body was lowered by itself, and whether it could be.
pub open spec fn lowered_body<'a>(body: &'a Expr, config: Option<&'a LowererConfig>) -> (
    LowerState<'a>,
    bool,
) {
    body_stmts(config_state(config), body)
}

/// What is generated from a lowering that ended in `s`: a rejection wins over
/// everything; otherwise there is a body where all of it could be lowered.
pub open spec fn is_generated<'a>(
    r: Result<Option<GeneratedJitCodeBody<'a>>, Reject>,
    s: LowerState<'a>,
    lowered: bool,
) -> bool {
    match r {
        Err(why) => s.rejected == Some(why),
        Ok(None) => s.rejected is None && !lowered,
        Ok(Some(b)) => s.rejected is None && lowered && is_plain_body(b, s),
    }
}

fn try_generate_jitcode_body_inner<'a>(body: &'a Expr, config: Option<&'a LowererConfig>) -> (r:
    Result<Option<GeneratedJitCodeBody<'a>>, Reject>)
    ensures
        is_generated(r, lowered_body(body, config).0, lowered_body(body, config).1),
{
    let mut lowerer = Lowerer::new(config);
    proof {
        lemma_start_sound(
            config,
            match config {
                Some(c) => Some(&c.calls),
                None => None,
            },
            InferenceFailureMode::ReturnNone,
        );
        grows_body_stmts(lowerer@, body);
        reveal(grows);
    }
    let lowered = lowerer.lower_body(body);
    match lowerer.rejected {
        Some(why) => Err(why),
        None => if lowered {
            Ok(Some(plain_body(lowerer)))
        } else {
            Ok(None)
        },
    }
}

/// The statements of a body without a configuration.
pub fn try_generate_jitcode_body<'a>(body: &'a Expr) -> (r: Result<Option<Vec<Stmt<'a>>>, Reject>)
    ensures
        ({
            let (s, lowered) = lowered_body(body, None);
            match r {
                Err(why) => s.rejected == Some(why),
                Ok(None) => s.rejected is None && !lowered,
                Ok(Some(v)) => s.rejected is None && lowered && stmt_views(v@) == settled_stmts(s),
            }
        }),
{
    match try_generate_jitcode_body_inner(body, None) {
        Err(why) => Err(why),
        Ok(None) => Ok(None),
        Ok(Some(b)) => Ok(Some(b.statements)),
    }
}

/// A body, with or without a configuration.
pub fn try_generate_jitcode_body_parts<'a>(
    body: &'a Expr,
    config: Option<&'a LowererConfig>,
) -> (r: Result<Option<GeneratedJitCodeBody<'a>>, Reject>)
    ensures
        is_generated(r, lowered_body(body, config).0, lowered_body(body, config).1),
{
    try_generate_jitcode_body_inner(body, config)
}

/// The statements of a body under a configuration.
pub fn try_generate_jitcode_body_with_config<'a>(
    config: &'a LowererConfig,
    body: &'a Expr,
) -> (r: Result<Option<Vec<Stmt<'a>>>, Reject>)
    ensures
        ({
            let (s, lowered) = lowered_body(body, Some(config));
            match r {
                Err(why) => s.rejected == Some(why),
                Ok(None) => s.rejected is None && !lowered,
                Ok(Some(v)) => s.rejected is None && lowered && stmt_views(v@) == settled_stmts(s),
            }
        }),
{
    match try_generate_jitcode_body_inner(body, Some(config)) {
        Err(why) => Err(why),
        Ok(None) => Ok(None),
        Ok(Some(b)) => Ok(Some(b.statements)),
    }
}

/// A body under a configuration.
pub fn try_generate_jitcode_body_with_config_parts<'a>(
    config: &'a LowererConfig,
    body: &'a Expr,
) -> (r: Result<Option<GeneratedJitCodeBody<'a>>, Reject>)
    ensures
        is_generated(r, lowered_body(body, Some(config)).0, lowered_body(body, Some(config)).1),
{
    try_generate_jitcode_body_inner(body, Some(config))
}

// ── Bodies of dispatch arms ──────────────────────────────────────────

/// The first `n` locals of the layout are bound to their registers.
pub open spec fn bind_layout<'a>(s: LowerState<'a>, layout: Seq<LayoutView>, n: int) -> LowerState<
    'a,
>
    decreases n,
{
    if 0 < n <= layout.len() {
        bind_layout(s, layout, n - 1).bind(
            layout[n - 1].name,
            Binding::fixed(layout[n - 1].kind, layout[n - 1].callee_reg),
        )
    } else {
        s
    }
}

/// Where the lowering of an arm's body starts.
pub open spec fn arm_state<'a>(
    config: Option<&'a LowererConfig>,
    locals: Seq<(Seq<char>, Binding)>,
) -> LowerState<'a> {
    let s0 = config_state(config);
    let s1 = LowerState { ctx: LowerContext { in_dispatch_arm_body: true, ..s0.ctx }, ..s0 };
    let s2 = bind_layout(s1, packed_layout(locals), locals.len() as int);
    LowerState { next_reg: max_u16(s2.next_reg, layout_end(locals)), ..s2 }
}

/// The state after an arm's body was lowered, and whether it could be. (That the
/// body is there at all is seen first.)
pub open spec fn lowered_arm<'a>(
    body: &'a Expr,
    config: Option<&'a LowererConfig>,
    locals: Seq<(Seq<char>, Binding)>,
) -> (LowerState<'a>, bool) {
    body_stmts(arm_state(config, locals), body)
}

pub proof fn lemma_arm_state_sound<'a>(
    config: Option<&'a LowererConfig>,
    locals: Seq<(Seq<char>, Binding)>,
)
    ensures
        sound(arm_state(config, locals)),
        arm_state(config, locals).rejected is None,
{
    let s0 = config_state(config);
    lemma_start_sound(
        config,
        match config {
            Some(c) => Some(&c.calls),
            None => None,
        },
        InferenceFailureMode::ReturnNone,
    );
    let s1 = LowerState { ctx: LowerContext { in_dispatch_arm_body: true, ..s0.ctx }, ..s0 };
    lemma_bind_layout(s1, packed_layout(locals), locals.len() as int);
    assert(s1.rejected is None) by {
        reveal(LowerState::bind);
    }
}

proof fn lemma_bind_layout<'a>(s: LowerState<'a>, layout: Seq<LayoutView>, n: int)
    ensures
        sound(s) ==> sound(bind_layout(s, layout, n)),
        bind_layout(s, layout, n).rejected == s.rejected,
    decreases n,
{
    reveal(LowerState::bind);
    if 0 < n <= layout.len() {
        lemma_bind_layout(s, layout, n - 1);
    }
}

impl<'a> Lowerer<'a> {
    fn bind_locals(&mut self, layout: &Vec<CallerLocalLayout>)
        ensures
            final(self)@ == bind_layout(
                old(self)@,
                layout_views(layout@),
                layout@.len() as int,
            ),
    {
        let ghost views = layout_views(layout@);
        let mut i: usize = 0;
        while i < layout.len()
            invariant
                views == layout_views(layout@),
                i <= layout@.len(),
                self@ == bind_layout(old(self)@, views, i as int),
            decreases layout.len() - i,
        {
            assert(views[i as int] == layout@[i as int]@);
            self.bind(
                layout[i].name.clone(),
                Binding::new_fixed(layout[i].kind, layout[i].callee_reg),
            );
            i = i + 1;
        }
    }
}

/// The body of a dispatch arm, whose outer locals are bound to registers first,
/// and the layout of these registers.
pub fn try_generate_jitcode_body_parts_with_caller_bindings<'a>(
    body: &'a Expr,
    config: Option<&'a LowererConfig>,
    caller_locals: &Vec<(String, Binding)>,
) -> (r: Result<Option<(GeneratedJitCodeBody<'a>, Vec<CallerLocalLayout>)>, Reject>)
    ensures
        ({
            let locals = local_views(caller_locals@);
            let (s, lowered) = lowered_arm(body, config, locals);
            match r {
                Err(why) => s.rejected == Some(why),
                Ok(None) => s.rejected is None && !lowered,
                Ok(Some((b, layout))) => {
                    &&& s.rejected is None
                    &&& lowered
                    &&& is_plain_body(b, s)
                    &&& layout_views(layout@) == packed_layout(locals)
                },
            }
        }),
{
    let ghost locals = local_views(caller_locals@);
    let mut lowerer = Lowerer::new(config);
    lowerer.ctx.in_dispatch_arm_body = true;
    let (layout, max_pre_bound) = assign_caller_local_layout(caller_locals.as_slice());
    assert(layout@.len() == layout_views(layout@).len());
    lowerer.bind_locals(&layout);
    lowerer.next_reg = larger(lowerer.next_reg, max_pre_bound);
    assert(lowerer@ == arm_state(config, locals));
    proof {
        lemma_arm_state_sound(config, locals);
        grows_body_stmts(lowerer@, body);
        reveal(grows);
    }
    let lowered = lowerer.lower_body(body);
    match lowerer.rejected {
        Some(why) => Err(why),
        None => if lowered {
            Ok(Some((plain_body(lowerer), layout)))
        } else {
            Ok(None)
        },
    }
}

// ── Helpers that are inlined ─────────────────────────────────────────

/// Why a function cannot be an inlined helper.
#[derive(Clone, Copy, Debug, PartialEq, Eq, Structural)]
pub enum HelperError {
    Generic,
    NoReturnType,
    ReturnType,
    Receiver,
    ParameterType,
    ParameterPattern,
}

/// An inlined helper's code.
pub struct InlineHelperJitCode<'a> {
    pub statements: Vec<Stmt<'a>>,
    /// The descriptions of the statements.
    pub op_metadata: Vec<OpMeta<'a>>,
    pub return_reg: u16,
    pub return_kind: InlineReturnKind,
    pub liveness_prebuild: Vec<Prebuild<'a>>,
}

/// The bank of a parameter.
pub open spec fn param_bank(arg: FnArg) -> Result<InlineReturnKind, HelperError> {
    match arg {
        FnArg::Receiver => Err(HelperError::Receiver),
        FnArg::Typed(_, ty) => match type_bank(ty) {
            Some(kind) => Ok(kind),
            None => Err(HelperError::ParameterType),
        },
    }
}

/// What is wrong with the first parameter that has no bank.
pub open spec fn params_error(inputs: Seq<FnArg>) -> Option<HelperError>
    decreases inputs.len(),
{
    if inputs.len() == 0 {
        None
    } else {
        match param_bank(inputs[0]) {
            Err(why) => Some(why),
            Ok(_) => params_error(inputs.drop_first()),
        }
    }
}

/// How many parameters are in the bank.
pub open spec fn count_params(inputs: Seq<FnArg>, kind: InlineReturnKind) -> nat
    decreases inputs.len(),
{
    if inputs.len() == 0 {
        0
    } else if param_bank(inputs.last()) == Ok::<InlineReturnKind, HelperError>(kind) {
        count_params(inputs.drop_last(), kind) + 1
    } else {
        count_params(inputs.drop_last(), kind)
    }
}

/// Bank of each parameter, and the next register of that bank.
pub open spec fn param_layout(inputs: Seq<FnArg>) -> Seq<(InlineReturnKind, u16)> {
    Seq::new(
        inputs.len(),
        |i: int|
            (
                param_bank(inputs[i])->Ok_0,
                clamped(count_params(inputs.take(i), param_bank(inputs[i])->Ok_0)),
            ),
    )
}

/// Bank and register of each parameter.
pub fn inline_helper_param_layout(func: &ItemFn) -> (r: Result<
    Vec<(InlineReturnKind, u16)>,
    HelperError,
>)
    ensures
        match r {
            Err(why) => params_error(func.inputs@) == Some(why),
            Ok(v) => params_error(func.inputs@) is None && v@ == param_layout(func.inputs@),
        },
{
    let ghost inputs = func.inputs@;
    let mut next_i: u16 = 0;
    let mut next_r: u16 = 0;
    let mut next_f: u16 = 0;
    let mut layout: Vec<(InlineReturnKind, u16)> = Vec::new();
    let mut i: usize = 0;
    assert(inputs.skip(0) =~= inputs);
    while i < func.inputs.len()
        invariant
            inputs == func.inputs@,
            i <= inputs.len(),
            params_error(inputs) == params_error(inputs.skip(i as int)),
            next_i == clamped(count_params(inputs.take(i as int), InlineReturnKind::Int)),
            next_r == clamped(count_params(inputs.take(i as int), InlineReturnKind::Ref)),
            next_f == clamped(count_params(inputs.take(i as int), InlineReturnKind::Float)),
            layout@.len() == i,
            forall|k: int| 0 <= k < i ==> (#[trigger] layout@[k]) == param_layout(inputs)[k],
        decreases func.inputs.len() - i,
    {
        assert(inputs.skip(i as int).drop_first() =~= inputs.skip(i + 1));
        assert(inputs.take(i + 1).drop_last() =~= inputs.take(i as int));
        assert(inputs.skip(i as int)[0] == inputs[i as int]);
        let ty = match &func.inputs[i] {
            FnArg::Receiver => {
                return Err(HelperError::Receiver);
            },
            FnArg::Typed(_, ty) => ty,
        };
        let kind = match classify_param_type(ty) {
            Some(kind) => kind,
            None => {
                return Err(HelperError::ParameterType);
            },
        };
        let reg: u16 = match kind {
            InlineReturnKind::Int => {
                let reg: u16 = next_i;
                next_i = next_i.saturating_add(1);
                reg
            },
            InlineReturnKind::Ref => {
                let reg: u16 = next_r;
                next_r = next_r.saturating_add(1);
                reg
            },
            InlineReturnKind::Float => {
                let reg: u16 = next_f;
                next_f = next_f.saturating_add(1);
                reg
            },
        };
        layout.push((kind, reg));
        i = i + 1;
    }
    assert(layout@ =~= param_layout(inputs));
    Ok(layout)
}

/// How many parameters each bank has.
pub fn inline_helper_param_counts(func: &ItemFn) -> (r: Result<(u16, u16, u16), HelperError>)
    ensures
        match r {
            Err(why) => params_error(func.inputs@) == Some(why),
            Ok(n) => params_error(func.inputs@) is None && n == (
                clamped(count_params(func.inputs@, InlineReturnKind::Int)),
                clamped(count_params(func.inputs@, InlineReturnKind::Ref)),
                clamped(count_params(func.inputs@, InlineReturnKind::Float)),
            ),
        },
{
    let ghost inputs = func.inputs@;
    let layout = match inline_helper_param_layout(func) {
        Err(why) => {
            return Err(why);
        },
        Ok(layout) => layout,
    };
    proof {
        assert(inputs.skip(0) =~= inputs);
        lemma_params_banked(inputs, 0);
    }
    let mut count_i: u16 = 0;
    let mut count_r: u16 = 0;
    let mut count_f: u16 = 0;
    let mut i: usize = 0;
    while i < layout.len()
        invariant
            layout@ == param_layout(inputs),
            i <= layout@.len(),
            forall|k: int| 0 <= k < inputs.len() ==> param_bank(#[trigger] inputs[k]) is Ok,
            count_i == clamped(count_params(inputs.take(i as int), InlineReturnKind::Int)),
            count_r == clamped(count_params(inputs.take(i as int), InlineReturnKind::Ref)),
            count_f == clamped(count_params(inputs.take(i as int), InlineReturnKind::Float)),
        decreases layout.len() - i,
    {
        assert(inputs.take(i + 1).drop_last() =~= inputs.take(i as int));
        assert(param_bank(inputs[i as int]) is Ok);
        match layout[i].0 {
            InlineReturnKind::Int => {
                count_i = count_i.saturating_add(1);
            },
            InlineReturnKind::Ref => {
                count_r = count_r.saturating_add(1);
            },
            InlineReturnKind::Float => {
                count_f = count_f.saturating_add(1);
            },
        }
        i = i + 1;
    }
    assert(inputs.take(inputs.len() as int) =~= inputs);
    Ok((count_i, count_r, count_f))
}

proof fn lemma_params_banked(inputs: Seq<FnArg>, i: int)
    requires
        0 <= i <= inputs.len(),
        params_error(inputs.skip(i)) is None,
    ensures
        forall|k: int| i <= k < inputs.len() ==> param_bank(#[trigger] inputs[k]) is Ok,
    decreases inputs.len() - i,
{
    if i < inputs.len() {
        assert(inputs.skip(i)[0] == inputs[i]);
        assert(inputs.skip(i).drop_first() =~= inputs.skip(i + 1));
        lemma_params_banked(inputs, i + 1);
    }
}

/// The name of a parameter.
pub open spec fn param_name(arg: FnArg) -> Option<String> {
    match arg {
        FnArg::Typed(Pat::Ident(p), _) => Some(p.ident),
        _ => None,
    }
}

/// Whether all parameters have plain names.
pub open spec fn params_named(inputs: Seq<FnArg>) -> bool {
    forall|i: int| 0 <= i < inputs.len() ==> param_name(#[trigger] inputs[i]) is Some
}

/// What is wrong with a helper, whatever it does.
pub open spec fn helper_error(func: ItemFn) -> Option<HelperError> {
    if func.has_generics {
        Some(HelperError::Generic)
    } else {
        match func.output {
            None => Some(HelperError::NoReturnType),
            Some(ty) => if type_bank(ty) is None {
                Some(HelperError::ReturnType)
            } else {
                match params_error(func.inputs@) {
                    Some(why) => Some(why),
                    None => if params_named(func.inputs@) {
                        None
                    } else {
                        Some(HelperError::ParameterPattern)
                    },
                }
            },
        }
    }
}

/// The first `n` parameters are bound to their registers.
pub open spec fn bind_params<'a>(s: LowerState<'a>, inputs: Seq<FnArg>, n: int) -> LowerState<'a>
    decreases n,
{
    if 0 < n <= inputs.len() {
        let (kind, reg) = param_layout(inputs)[n - 1];
        let t = bind_params(s, inputs, n - 1);
        LowerState {
            next_reg: max_u16(t.next_reg, next_u16(reg)),
            ..t.bind(
                param_name(inputs[n - 1])->0@,
                Binding::fixed(kind.bank(), reg),
            )
        }
    } else {
        s
    }
}

/// Where the lowering of a helper starts.
pub open spec fn helper_state<'a>(func: &'a ItemFn, calls: &'a Vec<PolicyEntry>) -> LowerState<'a> {
    bind_params(
        start_state(None, Some(calls), InferenceFailureMode::Panic),
        func.inputs@,
        func.inputs@.len() as int,
    )
}

proof fn lemma_bind_params<'a>(s: LowerState<'a>, inputs: Seq<FnArg>, n: int)
    ensures
        sound(s) ==> sound(bind_params(s, inputs, n)),
    decreases n,
{
    reveal(LowerState::bind);
    if 0 < n <= inputs.len() {
        lemma_bind_params(s, inputs, n - 1);
    }
}

/// Why no helper code comes out.
pub enum HelperFailure {
    Error(HelperError),
    Rejected(Reject),
}

/// The code of a helper that is inlined into its callers. There is none where
/// the helper's body cannot be lowered. `calls` are the policies of the helpers
/// that it calls in turn.
pub fn generate_inline_helper_jitcode_with_calls<'a>(
    func: &'a ItemFn,
    calls: &'a Vec<PolicyEntry>,
) -> (r: Result<Option<InlineHelperJitCode<'a>>, HelperFailure>)
    ensures
        match helper_error(*func) {
            Some(why) => r == Err::<Option<InlineHelperJitCode<'a>>, HelperFailure>(
                HelperFailure::Error(why),
            ),
            None => {
                let (s, result) = block_value(helper_state(func, calls), &func.block.stmts);
                match r {
                    Err(HelperFailure::Error(_)) => false,
                    Err(HelperFailure::Rejected(why)) => s.rejected == Some(why),
                    Ok(None) => s.rejected is None && result is None,
                    Ok(Some(code)) => {
                        &&& s.rejected is None
                        &&& result is Some
                        &&& stmt_views(code.statements@) == settled_stmts(s)
                        &&& meta_views(code.op_metadata@) == settled_metas(s)
                        &&& prebuild_views(code.liveness_prebuild@) == settled_prebuild(s)
                        &&& code.return_reg == result->0.reg
                        &&& func.output is Some
                        &&& type_bank(func.output->0) == Some(code.return_kind)
                    },
                }
            },
        },
{
    if func.has_generics {
        return Err(HelperFailure::Error(HelperError::Generic));
    }
    let return_kind = match &func.output {
        None => {
            return Err(HelperFailure::Error(HelperError::NoReturnType));
        },
        Some(ty) => match classify_param_type(ty) {
            None => {
                return Err(HelperFailure::Error(HelperError::ReturnType));
            },
            Some(kind) => kind,
        },
    };
    let mut lowerer = Lowerer::new_with_call_policies(
        None,
        Some(calls),
        InferenceFailureMode::Panic,
    );
    let layout = match inline_helper_param_layout(func) {
        Err(why) => {
            return Err(HelperFailure::Error(why));
        },
        Ok(layout) => layout,
    };
    let ghost inputs = func.inputs@;
    let ghost start = lowerer@;
    let mut i: usize = 0;
    while i < func.inputs.len()
        invariant
            inputs == func.inputs@,
            layout@ == param_layout(inputs),
            i <= inputs.len(),
            forall|k: int| 0 <= k < i ==> param_name(#[trigger] inputs[k]) is Some,
            lowerer@ == bind_params(start, inputs, i as int),
            helper_error(*func) == (if params_named(inputs) {
                None
            } else {
                Some(HelperError::ParameterPattern)
            }),
        decreases func.inputs.len() - i,
    {
        let name = match &func.inputs[i] {
            FnArg::Typed(Pat::Ident(p), _) => &p.ident,
            _ => {
                assert(param_name(inputs[i as int]) is None);
                return Err(HelperFailure::Error(HelperError::ParameterPattern));
            },
        };
        let (kind, reg) = layout[i];
        lowerer.bind(name.clone(), Binding::new_fixed(kind.binding_kind(), reg));
        proof {
            reveal(LowerState::bind);
        }
        lowerer.next_reg = larger(lowerer.next_reg, successor(reg));
        i = i + 1;
    }
    proof {
        lemma_start_sound(None, Some(calls), InferenceFailureMode::Panic);
        lemma_bind_params(start, inputs, inputs.len() as int);
        grows_block_value(lowerer@, &func.block.stmts);
        reveal(grows);
    }
    let result = lowerer.lower_block_value(&func.block.stmts);
    match lowerer.rejected {
        Some(why) => Err(HelperFailure::Rejected(why)),
        None => match result {
            None => Ok(None),
            Some(b) => {
                let (statements, op_metadata, liveness_prebuild) = settle(lowerer);
                Ok(
                    Some(
                        InlineHelperJitCode {
                            statements,
                            op_metadata,
                            return_reg: b.reg,
                            return_kind,
                            liveness_prebuild,
                        },
                    ),
                )
            },
        },
    }
}

} // verus!
