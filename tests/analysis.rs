use no_seatbelts::diagnostics::{Applicability, NoSeatbeltsDiag, PanicKind, Suggestion};
use no_seatbelts::mir::{scan_call_sites, BasicBlock, Body, SymbolPath, Terminator, TerminatorKind};
use no_seatbelts::source::{SnippetError, SourceMap, SourceSpan};
use no_seatbelts::text::{last_occurrence_str, last_segment_str, same_text};
use no_seatbelts::{
    classify, make_unwrap_replacement, synthesize_suggestion, UncheckedFunctionPass,
};

fn call_block(path: &str, lo: u32, hi: u32) -> BasicBlock {
    BasicBlock {
        terminator: Some(Terminator {
            kind: TerminatorKind::Call { callee: Some(SymbolPath::new(path.to_string())) },
            span: SourceSpan::new(lo, hi),
        }),
    }
}

fn body_of(blocks: Vec<BasicBlock>) -> Body {
    Body { basic_blocks: blocks, mir_available: true }
}

fn replacement_of(d: &NoSeatbeltsDiag) -> Option<String> {
    match &d.suggestion {
        Some(Suggestion::ReplaceCall { replacement }) => Some(replacement.clone()),
        _ => None,
    }
}

#[test]
fn message_per_kind() {
    assert_eq!(PanicKind::Unwrap.message(), "This call may panic if the value is invalid.");
    assert_eq!(PanicKind::Expect.message(), "This call may panic if the value is invalid.");
    assert_eq!(
        PanicKind::BoundsCheck.message(),
        "This operation may panic due to an out-of-bounds access."
    );
    assert_eq!(
        PanicKind::DivByZero.message(),
        "This operation may panic due to division by zero."
    );
}

#[test]
fn classify_final_segment_unwrap() {
    assert_eq!(classify("a::b::unwrap"), Some(PanicKind::Unwrap));
    assert_eq!(classify("core::option::Option::<T>::unwrap"), Some(PanicKind::Unwrap));
    assert_eq!(classify("unwrap"), Some(PanicKind::Unwrap));
}

#[test]
fn classify_other_segments() {
    assert_eq!(classify("a::b::parse"), None);
    assert_eq!(classify("a::b::unwrap_or"), None);
    assert_eq!(classify("unwrap::parse"), None);
    assert_eq!(classify(""), None);
    assert_eq!(classify("a::b::"), None);
}

#[test]
fn last_segment_splits_left_to_right() {
    assert_eq!(last_segment_str("a::b::c", "::"), "c");
    assert_eq!(last_segment_str("abc", "::"), "abc");
    assert_eq!(last_segment_str("a::", "::"), "");
    assert_eq!(last_segment_str("a:::b", "::"), ":b");
    assert_eq!(last_segment_str("abc", ""), "");
    assert_eq!(last_segment_str("", ""), "");
}

#[test]
fn same_text_compares_characters() {
    assert!(same_text("unwrap", "unwrap"));
    assert!(!same_text("unwrap", "unwra"));
    assert!(!same_text("unwrap", "unwrbp"));
}

#[test]
fn last_occurrence_in_characters() {
    assert_eq!(last_occurrence_str("x.unwrap().unwrap()", "unwrap()"), Some(11));
    assert_eq!(last_occurrence_str("unwrap()x", "unwrap()"), Some(0));
    assert_eq!(last_occurrence_str("é.unwrap()", "unwrap()"), Some(2));
    assert_eq!(last_occurrence_str("Option::unwrap(x)", "unwrap()"), None);
    assert_eq!(last_occurrence_str("()", "unwrap()"), None);
    assert_eq!(last_occurrence_str("abc", ""), Some(3));
}

#[test]
fn snippet_lookup() {
    let map = SourceMap::new("let y = x.unwrap();".to_string());
    assert_eq!(map.span_to_snippet(SourceSpan::new(8, 18)), Ok("x.unwrap()".to_string()));
    assert_eq!(map.span_to_snippet(SourceSpan::new(0, 0)), Ok(String::new()));
    assert_eq!(map.span_to_snippet(SourceSpan::new(8, 40)), Err(SnippetError::Unavailable));
    assert_eq!(map.span_to_snippet(SourceSpan::new(9, 8)), Err(SnippetError::Unavailable));
}

#[test]
fn unwrap_replacement_text() {
    let map = SourceMap::new("x.unwrap()".to_string());
    assert_eq!(
        make_unwrap_replacement(&map, SourceSpan::new(0, 10)),
        Some("unsafe { x.unwrap_unchecked() }".to_string())
    );
    assert_eq!(make_unwrap_replacement(&map, SourceSpan::new(0, 11)), None);
}

#[test]
fn only_the_call_at_the_span_is_rewritten() {
    let map = SourceMap::new("x.unwrap().unwrap()".to_string());
    assert_eq!(
        make_unwrap_replacement(&map, SourceSpan::new(0, 19)),
        Some("unsafe { x.unwrap().unwrap_unchecked() }".to_string())
    );
    assert_eq!(
        make_unwrap_replacement(&map, SourceSpan::new(0, 10)),
        Some("unsafe { x.unwrap_unchecked() }".to_string())
    );
}

#[test]
fn checked_call_not_at_the_end() {
    let map = SourceMap::new("unwrap()x".to_string());
    assert_eq!(
        make_unwrap_replacement(&map, SourceSpan::new(0, 9)),
        Some("unsafe { unwrap_unchecked()x }".to_string())
    );
    let map = SourceMap::new("Option::unwrap(y.unwrap())".to_string());
    assert_eq!(
        make_unwrap_replacement(&map, SourceSpan::new(0, 26)),
        Some("unsafe { Option::unwrap(y.unwrap_unchecked()) }".to_string())
    );
}

#[test]
fn snippet_without_checked_call_is_wrapped() {
    let map = SourceMap::new("Option::unwrap(x)".to_string());
    assert_eq!(
        make_unwrap_replacement(&map, SourceSpan::new(0, 17)),
        Some("unsafe { Option::unwrap(x) }".to_string())
    );
    let body = body_of(vec![call_block("core::option::Option::unwrap", 0, 17)]);
    let diags = UncheckedFunctionPass::new().check_body(&map, &body);
    assert_eq!(diags.len(), 1);
    assert_eq!(diags[0].kind, PanicKind::Unwrap);
    assert_eq!(replacement_of(&diags[0]), Some("unsafe { Option::unwrap(x) }".to_string()));
}

#[test]
fn replacement_is_reproducible() {
    let map = SourceMap::new("v.unwrap()".to_string());
    let first = make_unwrap_replacement(&map, SourceSpan::new(0, 10));
    let second = make_unwrap_replacement(&map, SourceSpan::new(0, 10));
    assert_eq!(first, second);
    let text = first.unwrap();
    assert!(text.starts_with("unsafe { "));
    assert!(text.ends_with(" }"));
    assert!(text.contains("unwrap_unchecked()"));
    assert!(!text.contains("unwrap()"));
    assert_eq!(text.len(), "v.unwrap()".len() + 21);
    assert_eq!(text[9..text.len() - 2].replace("unwrap_unchecked()", "unwrap()"), "v.unwrap()");
}

#[test]
fn only_unwrap_gets_a_suggestion() {
    let map = SourceMap::new("a[i] / b".to_string());
    let span = SourceSpan::new(0, 8);
    assert!(synthesize_suggestion(PanicKind::Expect, &map, span).is_none());
    assert!(synthesize_suggestion(PanicKind::BoundsCheck, &map, span).is_none());
    assert!(synthesize_suggestion(PanicKind::DivByZero, &map, span).is_none());
    assert!(matches!(
        synthesize_suggestion(PanicKind::Unwrap, &map, span),
        Some(Suggestion::ReplaceCall { .. })
    ));
}

#[test]
fn scenario_a_one_unwrap_call() {
    let map = SourceMap::new("x.unwrap()".to_string());
    let body = body_of(vec![call_block("a::b::unwrap", 0, 10)]);
    let diags = UncheckedFunctionPass::new().check_body(&map, &body);
    assert_eq!(diags.len(), 1);
    assert_eq!(diags[0].span, SourceSpan::new(0, 10));
    assert_eq!(diags[0].kind, PanicKind::Unwrap);
    assert_eq!(replacement_of(&diags[0]), Some("unsafe { x.unwrap_unchecked() }".to_string()));
}

#[test]
fn scenario_b_unlisted_call() {
    let map = SourceMap::new("x.parse()".to_string());
    let body = body_of(vec![call_block("a::b::parse", 0, 9)]);
    assert!(UncheckedFunctionPass::new().check_body(&map, &body).is_empty());
}

#[test]
fn scenario_c_no_backing_snippet() {
    let map = SourceMap::new(String::new());
    let body = body_of(vec![call_block("a::b::unwrap", 100, 110)]);
    let diags = UncheckedFunctionPass::new().check_body(&map, &body);
    assert_eq!(diags.len(), 1);
    assert_eq!(diags[0].span, SourceSpan::new(100, 110));
    assert_eq!(diags[0].kind, PanicKind::Unwrap);
    assert!(diags[0].suggestion.is_none());
}

#[test]
fn scenario_d_two_units() {
    let map_one = SourceMap::new("a.unwrap()".to_string());
    let map_two = SourceMap::new("let z = b.unwrap();".to_string());
    let unit_one = body_of(vec![call_block("m::unwrap", 0, 10)]);
    let unit_two = body_of(vec![call_block("n::unwrap", 8, 18)]);
    let pass = UncheckedFunctionPass::new();
    let d_two = pass.check_body(&map_two, &unit_two);
    let d_one = pass.check_body(&map_one, &unit_one);
    assert_eq!(d_one.len() + d_two.len(), 2);
    assert_eq!(d_one[0].span, SourceSpan::new(0, 10));
    assert_eq!(d_two[0].span, SourceSpan::new(8, 18));
    assert_eq!(replacement_of(&d_one[0]), Some("unsafe { a.unwrap_unchecked() }".to_string()));
    assert_eq!(replacement_of(&d_two[0]), Some("unsafe { b.unwrap_unchecked() }".to_string()));
}

#[test]
fn skipped_blocks_and_unresolved_calls() {
    let map = SourceMap::new("x.unwrap(); y.unwrap()".to_string());
    let body = body_of(vec![
        BasicBlock { terminator: None },
        BasicBlock {
            terminator: Some(Terminator { kind: TerminatorKind::Other, span: SourceSpan::new(0, 1) }),
        },
        BasicBlock {
            terminator: Some(Terminator {
                kind: TerminatorKind::Call { callee: None },
                span: SourceSpan::new(0, 10),
            }),
        },
        call_block("q::unwrap", 12, 22),
    ]);
    assert_eq!(scan_call_sites(&body).len(), 1);
    let diags = UncheckedFunctionPass::new().check_body(&map, &body);
    assert_eq!(diags.len(), 1);
    assert_eq!(diags[0].span, SourceSpan::new(12, 22));
    assert_eq!(replacement_of(&diags[0]), Some("unsafe { y.unwrap_unchecked() }".to_string()));
}

#[test]
fn unavailable_body_is_skipped() {
    let map = SourceMap::new("x.unwrap()".to_string());
    let body = Body { basic_blocks: vec![call_block("a::unwrap", 0, 10)], mir_available: false };
    assert!(UncheckedFunctionPass::new().check_body(&map, &body).is_empty());
}

#[test]
fn diagnostics_follow_block_order() {
    let map = SourceMap::new("a.unwrap() b.parse() c.unwrap()".to_string());
    let body = body_of(vec![
        call_block("k::unwrap", 21, 31),
        call_block("k::parse", 11, 20),
        call_block("k::unwrap", 0, 10),
    ]);
    let pass = UncheckedFunctionPass::new();
    let first: Vec<SourceSpan> = pass.check_body(&map, &body).iter().map(|d| d.span).collect();
    let second: Vec<SourceSpan> = pass.check_body(&map, &body).iter().map(|d| d.span).collect();
    assert_eq!(first, vec![SourceSpan::new(21, 31), SourceSpan::new(0, 10)]);
    assert_eq!(first, second);
}

#[test]
fn decorate_replacement() {
    let d = NoSeatbeltsDiag::new(
        SourceSpan::new(3, 9),
        PanicKind::Unwrap,
        Some(Suggestion::ReplaceCall { replacement: "r".to_string() }),
    );
    let report = d.decorate_lint();
    assert_eq!(report.primary_message, "This call may panic if the value is invalid.");
    let edit = report.suggestion.unwrap();
    assert_eq!(edit.span, SourceSpan::new(3, 9));
    assert_eq!(edit.message, "replace this call with its unchecked variant");
    assert_eq!(edit.replacement, "r");
    assert_eq!(edit.applicability, Applicability::MaybeIncorrect);
    assert!(report.note.is_none());
}

#[test]
fn decorate_advisory_notes() {
    let span = SourceSpan::new(0, 1);
    let assert_report = NoSeatbeltsDiag::new(
        span,
        PanicKind::BoundsCheck,
        Some(Suggestion::InsertAssertUnchecked { condition: "i < v.len()" }),
    )
    .decorate_lint();
    assert!(assert_report.suggestion.is_none());
    assert_eq!(
        assert_report.note,
        Some(
            "You may insert `unsafe { core::hint::assert_unchecked(i < v.len()) }` before this operation."
                .to_string()
        )
    );
    let guard_report = NoSeatbeltsDiag::new(
        span,
        PanicKind::DivByZero,
        Some(Suggestion::GuardWithIf { condition: "d != 0" }),
    )
    .decorate_lint();
    assert_eq!(guard_report.primary_message, "This operation may panic due to division by zero.");
    assert_eq!(guard_report.note, Some("You may guard this operation with `if d != 0`.".to_string()));
    let bare = NoSeatbeltsDiag::new(span, PanicKind::Expect, None).decorate_lint();
    assert!(bare.suggestion.is_none());
    assert!(bare.note.is_none());
}
