use vstd::prelude::*;

use crate::source::SourceSpan;

verus! {

/// The kind of panic site that a call was classified as.
#[derive(Clone, Copy, Debug, PartialEq, Eq, Structural)]
pub enum PanicKind {
    Unwrap,
    Expect,
    BoundsCheck,
    DivByZero,
}

/// The headline text reported for each kind of panic site.
pub open spec fn kind_message(k: PanicKind) -> Seq<char> {
    match k {
        PanicKind::Unwrap | PanicKind::Expect => "This call may panic if the value is invalid."@,
        PanicKind::BoundsCheck => "This operation may panic due to an out-of-bounds access."@,
        PanicKind::DivByZero => "This operation may panic due to division by zero."@,
    }
}

impl PanicKind {
    /// High-level explanation of the panic site.
    pub fn message(&self) -> (r: &'static str)
        ensures
            r@ == kind_message(*self),
    {
        match self {
            PanicKind::Unwrap | PanicKind::Expect => "This call may panic if the value is invalid.",
            PanicKind::BoundsCheck => "This operation may panic due to an out-of-bounds access.",
            PanicKind::DivByZero => "This operation may panic due to division by zero.",
        }
    }
}

/// A structured remedy attached to a diagnostic.
#[derive(Clone, Debug)]
pub enum Suggestion {
    /// Replace the panicking call with an unchecked variant.
    ReplaceCall { replacement: String },
    /// Insert `core::hint::assert_unchecked(cond)` before the operation.
    InsertAssertUnchecked { condition: &'static str },
    /// Guard the operation with a runtime check.
    GuardWithIf { condition: &'static str },
}

/// The mathematical value of a `Suggestion`: its variant and its text.
pub enum SuggestionModel {
    ReplaceCall(Seq<char>),
    InsertAssertUnchecked(Seq<char>),
    GuardWithIf(Seq<char>),
}

impl View for Suggestion {
    type V = SuggestionModel;

    open spec fn view(&self) -> SuggestionModel {
        match self {
            Suggestion::ReplaceCall { replacement } => SuggestionModel::ReplaceCall(replacement@),
            Suggestion::InsertAssertUnchecked { condition } => SuggestionModel::InsertAssertUnchecked(
                condition@,
            ),
            Suggestion::GuardWithIf { condition } => SuggestionModel::GuardWithIf(condition@),
        }
    }
}

/// The view of an optional suggestion.
pub open spec fn opt_suggestion_view(s: Option<Suggestion>) -> Option<SuggestionModel> {
    match s {
        Some(x) => Some(x@),
        None => None,
    }
}

/// The one diagnostic reported for a panic site.
pub struct NoSeatbeltsDiag {
    pub span: SourceSpan,
    pub kind: PanicKind,
    pub suggestion: Option<Suggestion>,
}

/// The mathematical value of a diagnostic.
pub struct DiagModel {
    pub span: SourceSpan,
    pub kind: PanicKind,
    pub suggestion: Option<SuggestionModel>,
}

impl View for NoSeatbeltsDiag {
    type V = DiagModel;

    open spec fn view(&self) -> DiagModel {
        DiagModel {
            span: self.span,
            kind: self.kind,
            suggestion: opt_suggestion_view(self.suggestion),
        }
    }
}

/// How confident a suggested edit is.
#[derive(Clone, Copy, Debug, PartialEq, Eq, Structural)]
pub enum Applicability {
    MachineApplicable,
    MaybeIncorrect,
    HasPlaceholders,
    Unspecified,
}

/// A suggested edit of the source at a span.
pub struct SpanSuggestion {
    pub span: SourceSpan,
    pub message: &'static str,
    pub replacement: String,
    pub applicability: Applicability,
}

/// What is handed to the reporting channel for one diagnostic: a headline, and
/// at most one of an edit and an advisory note.
pub struct LintReport {
    pub primary_message: &'static str,
    pub suggestion: Option<SpanSuggestion>,
    pub note: Option<String>,
}

/// The advisory note that suggests an unchecked assertion of `cond`.
pub open spec fn assert_note(cond: Seq<char>) -> Seq<char> {
    "You may insert `unsafe { core::hint::assert_unchecked("@ + cond + ") }` before this operation."@
}

/// The advisory note that suggests guarding with `cond`.
pub open spec fn guard_note(cond: Seq<char>) -> Seq<char> {
    "You may guard this operation with `if "@ + cond + "`."@
}

/// The message that accompanies a replacement edit.
pub open spec fn replace_message() -> Seq<char> {
    "replace this call with its unchecked variant"@
}

fn three_parts(a: &str, b: &str, c: &str) -> (r: String)
    ensures
        r@ == a@ + b@ + c@,
{
    let mut out = a.to_owned();
    out.append(b);
    out.append(c);
    out
}

impl NoSeatbeltsDiag {
    pub fn new(span: SourceSpan, kind: PanicKind, suggestion: Option<Suggestion>) -> (r: NoSeatbeltsDiag)
        ensures
            r.span == span,
            r.kind == kind,
            r.suggestion == suggestion,
    {
        NoSeatbeltsDiag { span, kind, suggestion }
    }

    /// Turns the diagnostic into what the reporting channel takes: the kind's
    /// message, and the suggestion as an edit at the span (for a replacement)
    /// or as a note (for an advisory).
    pub fn decorate_lint(self) -> (r: LintReport)
        ensures
            r.primary_message@ == kind_message(self.kind),
            match self.suggestion {
                Some(Suggestion::ReplaceCall { replacement }) => {
                    &&& r.suggestion matches Some(e)
                    &&& e.span == self.span
                    &&& e.message@ == replace_message()
                    &&& e.replacement@ == replacement@
                    &&& e.applicability == Applicability::MaybeIncorrect
                    &&& r.note is None
                },
                Some(Suggestion::InsertAssertUnchecked { condition }) => {
                    &&& r.suggestion is None
                    &&& r.note matches Some(n)
                    &&& n@ == assert_note(condition@)
                },
                Some(Suggestion::GuardWithIf { condition }) => {
                    &&& r.suggestion is None
                    &&& r.note matches Some(n)
                    &&& n@ == guard_note(condition@)
                },
                None => r.suggestion is None && r.note is None,
            },
    {
        let primary_message = self.kind.message();
        match self.suggestion {
            Some(Suggestion::ReplaceCall { replacement }) => LintReport {
                primary_message,
                suggestion: Some(
                    SpanSuggestion {
                        span: self.span,
                        message: "replace this call with its unchecked variant",
                        replacement,
                        applicability: Applicability::MaybeIncorrect,
                    },
                ),
                note: None,
            },
            Some(Suggestion::InsertAssertUnchecked { condition }) => LintReport {
                primary_message,
                suggestion: None,
                note: Some(
                    three_parts(
                        "You may insert `unsafe { core::hint::assert_unchecked(",
                        condition,
                        ") }` before this operation.",
                    ),
                ),
            },
            Some(Suggestion::GuardWithIf { condition }) => LintReport {
                primary_message,
                suggestion: None,
                note: Some(three_parts("You may guard this operation with `if ", condition, "`.")),
            },
            None => LintReport { primary_message, suggestion: None, note: None },
        }
    }
}

} // verus!
