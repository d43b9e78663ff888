use vstd::prelude::*;

use crate::source::SourceSpan;

verus! {

/// The fully qualified path of a called function, as `a::b::unwrap`.
#[derive(Clone, Debug)]
pub struct SymbolPath {
    pub path: String,
}

impl SymbolPath {
    pub fn new(path: String) -> (r: SymbolPath)
        ensures
            r.path@ == path@,
    {
        SymbolPath { path }
    }
}

/// What ends a basic block.
#[derive(Clone, Debug)]
pub enum TerminatorKind {
    /// A call; `callee` is `None` where the target cannot be resolved
    /// statically (an indirect or virtual call).
    Call { callee: Option<SymbolPath> },
    /// Any terminator that is not a call.
    Other,
}

#[derive(Clone, Debug)]
pub struct Terminator {
    pub kind: TerminatorKind,
    pub span: SourceSpan,
}

#[derive(Clone, Debug)]
pub struct BasicBlock {
    pub terminator: Option<Terminator>,
}

/// One function body's control-flow graph. Where `mir_available` is false the
/// body could not be retrieved and is not analysed.
#[derive(Clone, Debug)]
pub struct Body {
    pub basic_blocks: Vec<BasicBlock>,
    pub mir_available: bool,
}

/// A call whose target was resolved, with where it stands.
#[derive(Clone, Debug)]
pub struct CallSite {
    pub resolved_target: String,
    pub span: SourceSpan,
}

/// The resolved call that ends a block, if any: its target path and span.
pub open spec fn block_call(b: BasicBlock) -> Option<(Seq<char>, SourceSpan)> {
    match b.terminator {
        Some(t) => match t.kind {
            TerminatorKind::Call { callee: Some(p) } => Some((p.path@, t.span)),
            _ => None,
        },
        None => None,
    }
}

/// The resolved calls of the blocks, in block order.
pub open spec fn call_sites_of(blocks: Seq<BasicBlock>) -> Seq<(Seq<char>, SourceSpan)>
    decreases blocks.len(),
{
    if blocks.len() == 0 {
        Seq::empty()
    } else {
        let rest = call_sites_of(blocks.drop_last());
        match block_call(blocks.last()) {
            Some(c) => rest.push(c),
            None => rest,
        }
    }
}

/// The view of a call site: its target path and span.
pub open spec fn site_view(c: CallSite) -> (Seq<char>, SourceSpan) {
    (c.resolved_target@, c.span)
}

/// The resolved call that ends `b`, if there is one.
pub fn block_call_site(b: &BasicBlock) -> (r: Option<CallSite>)
    ensures
        r matches Some(c) ==> block_call(*b) == Some(site_view(c)),
        r is None ==> block_call(*b) is None,
{
    match &b.terminator {
        Some(t) => match &t.kind {
            TerminatorKind::Call { callee: Some(p) } => Some(
                CallSite { resolved_target: p.path.clone(), span: t.span },
            ),
            _ => None,
        },
        None => None,
    }
}

/// Every resolved call of the body, one per block that ends in one, in block
/// order.
pub fn scan_call_sites(body: &Body) -> (r: Vec<CallSite>)
    ensures
        r@.map_values(|c: CallSite| site_view(c)) == call_sites_of(body.basic_blocks@),
{
    let mut out: Vec<CallSite> = Vec::new();
    let mut i: usize = 0;
    while i < body.basic_blocks.len()
        invariant
            i <= body.basic_blocks@.len(),
            out@.map_values(|c: CallSite| site_view(c)) == call_sites_of(
                body.basic_blocks@.subrange(0, i as int),
            ),
        decreases body.basic_blocks@.len() - i,
    {
        let ghost before = out@;
        assert(body.basic_blocks@.subrange(0, i + 1).drop_last() =~= body.basic_blocks@.subrange(
            0,
            i as int,
        ));
        match block_call_site(&body.basic_blocks[i]) {
            Some(c) => {
                out.push(c);
                assert(out@.map_values(|c: CallSite| site_view(c)) =~= before.map_values(
                    |c: CallSite| site_view(c),
                ).push(site_view(c)));
            },
            None => {},
        }
        i = i + 1;
    }
    assert(body.basic_blocks@.subrange(0, i as int) =~= body.basic_blocks@);
    out
}

} // verus!
