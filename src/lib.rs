use vstd::prelude::*;

pub mod diagnostics;
pub mod mir;
pub mod source;
pub mod text;

use crate::diagnostics::{DiagModel, NoSeatbeltsDiag, PanicKind, Suggestion, SuggestionModel};
use crate::mir::{call_sites_of, scan_call_sites, site_view, Body, CallSite};
use crate::source::{snippet_of, SourceMap, SourceSpan};
use crate::text::{contains, last_occurrence, last_segment, occurs_at, same_text};

verus! {

/// The separator between the segments of a qualified path.
pub open spec fn path_sep() -> Seq<char> {
    "::"@
}

/// The kind of panic site that a call to `path` is, keyed on the final path
/// segment; `None` for a call that is not one.
pub open spec fn classify_spec(path: Seq<char>) -> Option<PanicKind> {
    if last_segment(path, path_sep()) == "unwrap"@ {
        Some(PanicKind::Unwrap)
    } else {
        None
    }
}

/// Maps a resolved call target to the kind of panic site it is, by its final
/// path segment.
pub fn classify(path: &str) -> (r: Option<PanicKind>)
    ensures
        r == classify_spec(path@),
{
    proof {
        reveal_strlit("::");
    }
    let name = crate::text::last_segment_str(path, "::");
    if same_text(name, "unwrap") {
        Some(PanicKind::Unwrap)
    } else {
        None
    }
}

/// The checked call syntax that an unwrap replacement rewrites.
pub open spec fn checked_call() -> Seq<char> {
    seq!['u', 'n', 'w', 'r', 'a', 'p', '(', ')']
}

/// The unchecked call syntax that takes its place.
pub open spec fn unchecked_call() -> Seq<char> {
    seq!['u', 'n', 'w', 'r', 'a', 'p', '_', 'u', 'n', 'c', 'h', 'e', 'c', 'k', 'e', 'd', '(', ')']
}

/// What opens the `unsafe` block around a replacement.
pub open spec fn unsafe_open() -> Seq<char> {
    seq!['u', 'n', 's', 'a', 'f', 'e', ' ', '{', ' ']
}

/// What closes it.
pub open spec fn unsafe_close() -> Seq<char> {
    seq![' ', '}']
}

/// The replacement for the snippet `t` of an unwrap site, inside an `unsafe`
/// block: the call at the span, which is the last checked call of `t`, becomes
/// the unchecked one, and the checked calls before it, which have spans and
/// diagnostics of their own, are kept. A snippet without a checked call (a
/// call written as `Option::unwrap(x)`) is wrapped as it stands.
pub open spec fn unwrap_replacement(t: Seq<char>) -> Seq<char> {
    let k = last_occurrence(t, checked_call());
    if k >= 0 {
        unsafe_open() + t.subrange(0, k) + unchecked_call() + t.subrange(k + 8, t.len() as int)
            + unsafe_close()
    } else {
        unsafe_open() + t + unsafe_close()
    }
}

/// The replacement owed to an unwrap at `span` of `src`: there is one exactly
/// where the span has source text.
pub open spec fn replacement_at(src: Seq<char>, span: SourceSpan) -> Option<Seq<char>> {
    match snippet_of(src, span) {
        Some(t) => Some(unwrap_replacement(t)),
        None => None,
    }
}

/// Rewrites the unwrap call under `span` into its unchecked form; `None` where
/// the span has no source text.
pub fn make_unwrap_replacement(map: &SourceMap, span: SourceSpan) -> (r: Option<String>)
    ensures
        r is Some <==> snippet_of(map.text@, span) is Some,
        r matches Some(x) ==> replacement_at(map.text@, span) == Some(x@),
{
    proof {
        reveal_strlit("unwrap()");
        reveal_strlit("unwrap_unchecked()");
        reveal_strlit("unsafe { ");
        reveal_strlit(" }");
        assert("unwrap()"@ =~= checked_call());
        assert("unwrap_unchecked()"@ =~= unchecked_call());
        assert("unsafe { "@ =~= unsafe_open());
        assert(" }"@ =~= unsafe_close());
    }
    match map.span_to_snippet(span) {
        Ok(snippet) => {
            let text = snippet.as_str();
            proof {
                crate::text::lemma_last_occurrence(text@, checked_call());
            }
            let mut out = "unsafe { ".to_owned();
            match crate::text::last_occurrence_str(text, "unwrap()") {
                Some(k) => {
                    let n = text.unicode_len();
                    out.append(text.substring_char(0, k));
                    out.append("unwrap_unchecked()");
                    out.append(text.substring_char(k + 8, n));
                },
                None => {
                    out.append(text);
                },
            }
            out.append(" }");
            Some(out)
        },
        Err(_) => None,
    }
}

/// The suggestion owed to a site of kind `k` at `span`: a replacement for an
/// unwrap whose source text is available, and nothing otherwise.
pub open spec fn suggestion_spec(k: PanicKind, src: Seq<char>, span: SourceSpan) -> Option<
    SuggestionModel,
> {
    match k {
        PanicKind::Unwrap => match snippet_of(src, span) {
            Some(t) => Some(SuggestionModel::ReplaceCall(unwrap_replacement(t))),
            None => None,
        },
        _ => None,
    }
}

/// Produces the suggestion for a panic site of kind `kind` at `span`.
pub fn synthesize_suggestion(kind: PanicKind, map: &SourceMap, span: SourceSpan) -> (r: Option<
    Suggestion,
>)
    ensures
        crate::diagnostics::opt_suggestion_view(r) == suggestion_spec(kind, map.text@, span),
{
    match kind {
        PanicKind::Unwrap => match make_unwrap_replacement(map, span) {
            Some(replacement) => Some(Suggestion::ReplaceCall { replacement }),
            None => None,
        },
        _ => None,
    }
}

/// The diagnostics owed to the resolved calls `sites`, in their order.
pub open spec fn diagnostics_of(src: Seq<char>, sites: Seq<(Seq<char>, SourceSpan)>) -> Seq<
    DiagModel,
>
    decreases sites.len(),
{
    if sites.len() == 0 {
        Seq::empty()
    } else {
        let rest = diagnostics_of(src, sites.drop_last());
        let (path, span) = sites.last();
        match classify_spec(path) {
            Some(k) => rest.push(DiagModel { span, kind: k, suggestion: suggestion_spec(k, src, span) }),
            None => rest,
        }
    }
}

/// The diagnostics owed to a body: none where it could not be retrieved.
pub open spec fn body_diagnostics(src: Seq<char>, body: Body) -> Seq<DiagModel> {
    if body.mir_available {
        diagnostics_of(src, call_sites_of(body.basic_blocks@))
    } else {
        Seq::empty()
    }
}

/// The diagnostic for one call site, if its target is a panic site.
pub fn diagnose_site(map: &SourceMap, site: &CallSite) -> (r: Option<NoSeatbeltsDiag>)
    ensures
        classify_spec(site.resolved_target@) is None ==> r is None,
        classify_spec(site.resolved_target@) matches Some(k) ==> r matches Some(d) && d@ == (
        DiagModel { span: site.span, kind: k, suggestion: suggestion_spec(k, map.text@, site.span) }),
{
    match classify(site.resolved_target.as_str()) {
        Some(kind) => {
            let suggestion = synthesize_suggestion(kind, map, site.span);
            Some(NoSeatbeltsDiag { span: site.span, kind, suggestion })
        },
        None => None,
    }
}

/// The lint pass that reports panic sites of a function body.
pub struct UncheckedFunctionPass {}

impl UncheckedFunctionPass {
    pub fn new() -> UncheckedFunctionPass {
        UncheckedFunctionPass {  }
    }

    /// The diagnostics of one body: one for each resolved call that is a panic
    /// site, in block order.
    pub fn check_body(&self, map: &SourceMap, body: &Body) -> (r: Vec<NoSeatbeltsDiag>)
        ensures
            r@.map_values(|d: NoSeatbeltsDiag| d@) == body_diagnostics(map.text@, *body),
    {
        let mut out: Vec<NoSeatbeltsDiag> = Vec::new();
        if !body.mir_available {
            assert(out@.map_values(|d: NoSeatbeltsDiag| d@) =~= Seq::<DiagModel>::empty());
            return out;
        }
        let sites = scan_call_sites(body);
        let ghost sv = sites@.map_values(|c: CallSite| site_view(c));
        let mut i: usize = 0;
        while i < sites.len()
            invariant
                i <= sites@.len(),
                sv == sites@.map_values(|c: CallSite| site_view(c)),
                out@.map_values(|d: NoSeatbeltsDiag| d@) == diagnostics_of(
                    map.text@,
                    sv.subrange(0, i as int),
                ),
            decreases sites@.len() - i,
        {
            let ghost before = out@;
            assert(sv.subrange(0, i + 1).drop_last() =~= sv.subrange(0, i as int));
            assert(sv.subrange(0, i + 1).last() == site_view(sites@[i as int]));
            match diagnose_site(map, &sites[i]) {
                Some(d) => {
                    out.push(d);
                    assert(out@.map_values(|d: NoSeatbeltsDiag| d@) =~= before.map_values(
                        |d: NoSeatbeltsDiag| d@,
                    ).push(d@));
                },
                None => {},
            }
            i = i + 1;
        }
        assert(sv.subrange(0, i as int) =~= sv);
        out
    }
}

/// An unwrap replacement opens an `unsafe` block and closes it. Where the
/// snippet holds the checked call, the replacement holds the unchecked one,
/// is longer by 21 characters, and gives the snippet back when the wrapper is
/// taken off and the unchecked call turned back into the checked one; where it
/// does not, the snippet stands inside the wrapper unchanged.
pub proof fn lemma_unwrap_replacement_shape(t: Seq<char>)
    ensures
        unwrap_replacement(t).subrange(0, 9) == unsafe_open(),
        unwrap_replacement(t).subrange(
            unwrap_replacement(t).len() - 2,
            unwrap_replacement(t).len() as int,
        ) == unsafe_close(),
        contains(t, checked_call()) ==> {
            let x = unwrap_replacement(t);
            let k = last_occurrence(t, checked_call());
            &&& 0 <= k
            &&& x.len() == t.len() + 21
            &&& occurs_at(x, unchecked_call(), k + 9)
            &&& x.subrange(9, k + 9) + checked_call() + x.subrange(k + 27, x.len() - 2) == t
        },
        !contains(t, checked_call()) ==> unwrap_replacement(t) == unsafe_open() + t
            + unsafe_close(),
{
    crate::text::lemma_last_occurrence(t, checked_call());
    let x = unwrap_replacement(t);
    let k = last_occurrence(t, checked_call());
    assert(x.subrange(0, 9) =~= unsafe_open());
    assert(x.subrange(x.len() - 2, x.len() as int) =~= unsafe_close());
    if k >= 0 {
        assert(x.subrange(k + 9, k + 27) =~= unchecked_call());
        assert(t.subrange(k, k + 8) == checked_call());
        assert(x.subrange(9, k + 9) + checked_call() + x.subrange(k + 27, x.len() - 2) =~= t);
    }
}

/// Where the snippet holds the checked call once, no checked call is left in
/// the replacement.
pub proof fn lemma_no_checked_call_left(t: Seq<char>, k: int)
    requires
        occurs_at(t, checked_call(), k),
        forall|i: int| occurs_at(t, checked_call(), i) ==> i == k,
    ensures
        !contains(unwrap_replacement(t), checked_call()),
{
    crate::text::lemma_last_occurrence(t, checked_call());
    assert(last_occurrence(t, checked_call()) == k);
    let x = unwrap_replacement(t);
    let cc = checked_call();
    let uc = unchecked_call();
    let b: int = 9 + k;
    let c: int = b + 18 + (t.len() - k - 8);
    assert(t.subrange(k, k + 8) == cc);
    assert(x.len() == c + 2);
    if contains(x, cc) {
        let i = choose|i: int| occurs_at(x, cc, i);
        let w = x.subrange(i, i + 8);
        assert(w == cc);
        assert(x[i] == cc[0]) by {
            assert(w[0] == x[i]);
        }
        assert(x[i + 6] == cc[6]) by {
            assert(w[6] == x[i + 6]);
        }
        assert(x[i + 2] == cc[2]) by {
            assert(w[2] == x[i + 2]);
        }
        if i == 0 {
            assert(x[2] == 's');
        } else if i <= 8 {
            assert(x[8] == ' ');
            assert(w[8 - i] == x[8]);
        } else if i + 8 <= b {
            assert(w =~= t.subrange(i - 9, i - 9 + 8));
            assert(occurs_at(t, cc, i - 9));
        } else if i <= b {
            assert(x[b] == 'u');
            assert(w[b - i] == x[b]);
            assert(i == b);
            assert(x[b + 6] == '_');
        } else if i < b + 18 {
            assert(x[i] == uc[i - b]);
            assert(i - b == 7);
            assert(x[i + 6] == uc[13]);
        } else if i + 8 <= c {
            assert(w =~= t.subrange(i - 19, i - 19 + 8));
            assert(occurs_at(t, cc, i - 19));
        } else {
            assert(x[c] == ' ');
            assert(w[c - i] == x[c]);
        }
    }
}

/// The suggestion for a site depends on its kind and the text under its span
/// alone: the same snippet gives the same replacement on every run.
pub proof fn lemma_suggestion_reproducible(
    k: PanicKind,
    src1: Seq<char>,
    span1: SourceSpan,
    src2: Seq<char>,
    span2: SourceSpan,
)
    requires
        snippet_of(src1, span1) == snippet_of(src2, span2),
    ensures
        suggestion_spec(k, src1, span1) == suggestion_spec(k, src2, span2),
{
}

/// A panic site whose span has no source text still gets its diagnostic, with
/// its kind and without a suggestion.
pub proof fn lemma_unavailable_snippet_keeps_diagnostic(
    src: Seq<char>,
    sites: Seq<(Seq<char>, SourceSpan)>,
    path: Seq<char>,
    span: SourceSpan,
)
    requires
        classify_spec(path) is Some,
        snippet_of(src, span) is None,
    ensures
        diagnostics_of(src, sites.push((path, span))) == diagnostics_of(src, sites).push(
            DiagModel { span, kind: classify_spec(path).unwrap(), suggestion: None },
        ),
{
    assert(sites.push((path, span)).drop_last() =~= sites);
}

/// Diagnostics follow the order of the call sites: those of a sequence of
/// sites are those of its first part, then those of the rest.
pub proof fn lemma_diagnostics_in_site_order(
    src: Seq<char>,
    a: Seq<(Seq<char>, SourceSpan)>,
    b: Seq<(Seq<char>, SourceSpan)>,
)
    ensures
        diagnostics_of(src, a + b) == diagnostics_of(src, a) + diagnostics_of(src, b),
    decreases b.len(),
{
    if b.len() == 0 {
        assert(a + b =~= a);
        assert(diagnostics_of(src, a) + diagnostics_of(src, b) =~= diagnostics_of(src, a));
    } else {
        assert((a + b).drop_last() =~= a + b.drop_last());
        assert((a + b).last() == b.last());
        lemma_diagnostics_in_site_order(src, a, b.drop_last());
        let (path, span) = b.last();
        match classify_spec(path) {
            Some(k) => {
                let d = DiagModel { span, kind: k, suggestion: suggestion_spec(k, src, span) };
                assert(diagnostics_of(src, a) + diagnostics_of(src, b.drop_last()).push(d) =~= (
                diagnostics_of(src, a) + diagnostics_of(src, b.drop_last())).push(d));
            },
            None => {},
        }
    }
}

/// Among any other calls, a call whose final path segment is `unwrap` gets
/// exactly one diagnostic, at its own place in the order, with its own span and
/// the kind `Unwrap`; where its span has no source text, that diagnostic has no
/// suggestion.
pub proof fn lemma_unwrap_site_among_others(
    src: Seq<char>,
    a: Seq<(Seq<char>, SourceSpan)>,
    path: Seq<char>,
    span: SourceSpan,
    b: Seq<(Seq<char>, SourceSpan)>,
)
    requires
        last_segment(path, path_sep()) == "unwrap"@,
    ensures
        diagnostics_of(src, a + seq![(path, span)] + b) == diagnostics_of(src, a) + seq![
            DiagModel {
                span,
                kind: PanicKind::Unwrap,
                suggestion: suggestion_spec(PanicKind::Unwrap, src, span),
            },
        ] + diagnostics_of(src, b),
        snippet_of(src, span) is None ==> suggestion_spec(PanicKind::Unwrap, src, span) is None,
{
    let one = seq![(path, span)];
    lemma_diagnostics_in_site_order(src, a + one, b);
    lemma_diagnostics_in_site_order(src, a, one);
    assert(one.drop_last() =~= Seq::<(Seq<char>, SourceSpan)>::empty());
    assert(diagnostics_of(src, one.drop_last()) =~= Seq::<DiagModel>::empty());
    assert(one.last() == (path, span));
    assert(classify_spec(path) == Some(PanicKind::Unwrap));
    assert(diagnostics_of(src, one) =~= seq![
        DiagModel {
            span,
            kind: PanicKind::Unwrap,
            suggestion: suggestion_spec(PanicKind::Unwrap, src, span),
        },
    ]);
}

/// Analysing a body is reproducible: two bodies whose resolved calls are the
/// same, in the same order, get the same diagnostics in the same order.
pub proof fn lemma_body_diagnostics_reproducible(src: Seq<char>, b1: Body, b2: Body)
    requires
        b1.mir_available == b2.mir_available,
        call_sites_of(b1.basic_blocks@) == call_sites_of(b2.basic_blocks@),
    ensures
        body_diagnostics(src, b1) == body_diagnostics(src, b2),
{
}

} // verus!
