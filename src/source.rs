use vstd::prelude::*;

verus! {

/// A region of a source text, as character positions `lo..hi`.
#[derive(Clone, Copy, Debug, PartialEq, Eq, Structural)]
pub struct SourceSpan {
    pub lo: u32,
    pub hi: u32,
}

impl SourceSpan {
    pub fn new(lo: u32, hi: u32) -> (r: SourceSpan)
        ensures
            r.lo == lo,
            r.hi == hi,
    {
        SourceSpan { lo, hi }
    }
}

/// Why no source text could be had for a span.
#[derive(Clone, Copy, Debug, PartialEq, Eq, Structural)]
pub enum SnippetError {
    /// The span does not lie within the text (synthesized or expanded code).
    Unavailable,
}

/// The source text that spans point into.
pub struct SourceMap {
    pub text: String,
}

/// The text under `span`, where the span lies within `src`.
pub open spec fn snippet_of(src: Seq<char>, span: SourceSpan) -> Option<Seq<char>> {
    if span.lo <= span.hi && span.hi <= src.len() {
        Some(src.subrange(span.lo as int, span.hi as int))
    } else {
        None
    }
}

impl SourceMap {
    pub fn new(text: String) -> (r: SourceMap)
        ensures
            r.text@ == text@,
    {
        SourceMap { text }
    }

    /// The exact source text under `span`.
    pub fn span_to_snippet(&self, span: SourceSpan) -> (r: Result<String, SnippetError>)
        ensures
            r is Ok <==> snippet_of(self.text@, span) is Some,
            r matches Ok(t) ==> snippet_of(self.text@, span) == Some(t@),
            r matches Err(e) ==> e == SnippetError::Unavailable,
    {
        let text = self.text.as_str();
        let n = text.unicode_len();
        if span.lo <= span.hi && (span.hi as usize) <= n {
            let piece = text.substring_char(span.lo as usize, span.hi as usize);
            Ok(piece.to_owned())
        } else {
            Err(SnippetError::Unavailable)
        }
    }
}

} // verus!
