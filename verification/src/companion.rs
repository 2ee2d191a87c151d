//! The names of the items that a helper attribute generates beside the helper.

use vstd::prelude::*;

use vstd::string::{StrSliceExecFns, StringExecFns};

use crate::ast::{Expr, ExprKind, Path, PathSegment};

verus! {

/// The name without the mark of a raw identifier.
pub open spec fn unraw(name: Seq<char>) -> Seq<char> {
    if name.len() >= 2 && name[0] == 'r' && name[1] == '#' {
        name.skip(2)
    } else {
        name
    }
}

/// The name between a prefix and a suffix.
pub open spec fn framed(prefix: Seq<char>, name: Seq<char>, suffix: Seq<char>) -> Seq<char> {
    prefix + unraw(name) + suffix
}

/// Whether `r` is `p` with another name for its last segment.
pub open spec fn renamed_last(p: Path, r: Path, name: Seq<char>) -> bool {
    &&& r.leading_colon == p.leading_colon
    &&& r.segments@.len() == p.segments@.len()
    &&& forall|i: int|
        0 <= i < p.segments@.len() ==> (#[trigger] r.segments@[i]).has_arguments
            == p.segments@[i].has_arguments
    &&& forall|i: int|
        0 <= i < p.segments@.len() - 1 ==> (#[trigger] r.segments@[i]).ident@
            == p.segments@[i].ident@
    &&& p.segments@.len() > 0
    &&& r.segments@.last().ident@ == name
}

/// Whether `r` names the companion of a callee. Only a path has one.
pub open spec fn is_companion(
    r: Option<Path>,
    callee: Expr,
    prefix: Seq<char>,
    suffix: Seq<char>,
) -> bool {
    match callee.kind {
        ExprKind::Path(p) => if p.path.segments@.len() > 0 {
            r is Some && renamed_last(
                p.path,
                r->0,
                framed(prefix, p.path.segments@.last().ident@, suffix),
            )
        } else {
            r is None
        },
        _ => r is None,
    }
}

/// The name between a prefix and a suffix.
fn frame(prefix: &str, name: &str, suffix: &str) -> (r: String)
    ensures
        r@ == framed(prefix@, name@, suffix@),
{
    let len: usize = name.unicode_len();
    let bare = if len >= 2 && name.get_char(0) == 'r' && name.get_char(1) == '#' {
        name.substring_char(2, len)
    } else {
        name
    };
    assert(bare@ =~= unraw(name@));
    let mut out = prefix.to_owned();
    out.append(bare);
    out.append(suffix);
    out
}

fn companion(callee: &Expr, prefix: &str, suffix: &str) -> (r: Option<Path>)
    ensures
        is_companion(r, *callee, prefix@, suffix@),
{
    let path = match &callee.kind {
        ExprKind::Path(p) => &p.path,
        _ => {
            return None;
        },
    };
    let n: usize = path.segments.len();
    if n == 0 {
        return None;
    }
    let mut segments: Vec<PathSegment> = Vec::new();
    let mut i: usize = 0;
    while i < n - 1
        invariant
            n == path.segments@.len(),
            0 < n,
            i <= n - 1,
            segments@.len() == i,
            forall|k: int|
                0 <= k < i ==> (#[trigger] segments@[k]).ident@ == path.segments@[k].ident@
                    && segments@[k].has_arguments == path.segments@[k].has_arguments,
        decreases n - i,
    {
        segments.push(
            PathSegment {
                ident: path.segments[i].ident.clone(),
                has_arguments: path.segments[i].has_arguments,
            },
        );
        i = i + 1;
    }
    let last = &path.segments[n - 1];
    segments.push(
        PathSegment {
            ident: frame(prefix, last.ident.as_str(), suffix),
            has_arguments: last.has_arguments,
        },
    );
    Some(Path { leading_colon: path.leading_colon, segments })
}

/// The function that builds the code of an inlined helper.
pub fn inline_builder_path(expr: &Expr) -> (r: Option<Path>)
    ensures
        is_companion(r, *expr, "__majit_inline_jitcode_"@, "_with_asm"@),
{
    companion(expr, "__majit_inline_jitcode_", "_with_asm")
}

/// The function that registers the liveness of an inlined helper.
pub fn inline_prebuild_path(expr: &Expr) -> (r: Option<Path>)
    ensures
        is_companion(r, *expr, "__majit_inline_jitcode_"@, "_prebuild"@),
{
    companion(expr, "__majit_inline_jitcode_", "_prebuild")
}

/// The function that publishes the policy of a helper.
pub fn helper_policy_path(expr: &Expr) -> (r: Option<Path>)
    ensures
        is_companion(r, *expr, "__majit_call_policy_"@, ""@),
{
    companion(expr, "__majit_call_policy_", "")
}

/// Helpers with different names have companions with different names.
pub proof fn law_companions_tell_helpers_apart(
    prefix: Seq<char>,
    a: Seq<char>,
    b: Seq<char>,
    suffix: Seq<char>,
)
    requires
        framed(prefix, a, suffix) == framed(prefix, b, suffix),
    ensures
        unraw(a) == unraw(b),
{
    let x = framed(prefix, a, suffix);
    let y = framed(prefix, b, suffix);
    let start = prefix.len() as int;
    assert(unraw(a) =~= x.subrange(start, x.len() - suffix.len()));
    assert(unraw(b) =~= y.subrange(start, y.len() - suffix.len()));
}

} // verus!
