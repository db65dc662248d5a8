use vstd::prelude::*;

verus! {

/// A half-open span `[start, end)` of byte offsets into a source text.
#[derive(Clone, Copy, Debug, PartialEq, Eq, Structural)]
pub struct SourceRange {
    pub start: u32,
    pub end: u32,
}

impl SourceRange {
    /// A span never ends before it starts.
    pub open spec fn wf(self) -> bool {
        self.start <= self.end
    }

    /// Whether a cursor at `offset` is on the span. A cursor stands between
    /// two characters, so the one right after the last character of the span
    /// is still on it.
    pub open spec fn spec_touches(self, offset: u32) -> bool {
        self.start <= offset <= self.end
    }

    #[verifier::when_used_as_spec(spec_touches)]
    pub fn touches(self, offset: u32) -> (on: bool)
        ensures
            on == self.spec_touches(offset),
    {
        self.start <= offset && offset <= self.end
    }

    /// Whether `inner` lies wholly inside this span.
    pub open spec fn spec_encloses(self, inner: SourceRange) -> bool {
        self.start <= inner.start && inner.end <= self.end
    }

    #[verifier::when_used_as_spec(spec_encloses)]
    pub fn encloses(self, inner: SourceRange) -> (inside: bool)
        ensures
            inside == self.spec_encloses(inner),
    {
        self.start <= inner.start && inner.end <= self.end
    }
}

/// Whether every offset into `text` fits a span: the text, written as
/// UTF-8, has no more than `u32::MAX` bytes.
pub open spec fn fits_offsets(text: Seq<char>) -> bool {
    vstd::utf8::encode_utf8(text).len() <= u32::MAX
}

} // verus!
