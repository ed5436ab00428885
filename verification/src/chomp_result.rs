use crate::position::Span;
use crate::position::ToSpan;
use vstd::prelude::*;

verus! {

/// The outcome of one scan: the span consumed, and whether the scan ended
/// because the source was exhausted (`hit_eof`) rather than because a
/// stopping predicate fired on a real character.
///
/// A `ChompResult` never stores the matched text; the text is recovered on
/// demand by slicing the source text with the span (`Chomper::value`).
#[derive(Debug, PartialEq, Eq, Structural, Copy, Clone)]
pub struct ChompResult {
    pub span: Span,
    pub hit_eof: bool,
}

/// Two results are contiguous when the second starts at exactly the index
/// where the first ends: no gap and no overlap.
pub open spec fn contiguous(first: ChompResult, second: ChompResult) -> bool {
    second.span.start_pos.index == first.span.end_pos.index
}

impl ChompResult {
    /// The merge of two adjacent results: it spans from the start of `self`
    /// to the end of `rhs`, and the later scan decides whether exhaustion was
    /// reached.
    pub open spec fn spec_combine(self, rhs: ChompResult) -> ChompResult {
        ChompResult {
            span: Span { start_pos: self.span.start_pos, end_pos: rhs.span.end_pos },
            hit_eof: rhs.hit_eof,
        }
    }

    /// Merges two textually adjacent results into one contiguous result.
    /// The two results must be contiguous: merging scans with a gap or an
    /// overlap between them is a caller logic error, so it is ruled out by
    /// precondition rather than reported.
    pub fn combine(self, rhs: ChompResult) -> (r: ChompResult)
        requires
            contiguous(self, rhs),
        ensures
            r == self.spec_combine(rhs),
    {
        ChompResult {
            span: Span { start_pos: self.span.start_pos, end_pos: rhs.span.end_pos },
            hit_eof: rhs.hit_eof,
        }
    }

    /// Merges with an optional second operand: an absent operand leaves
    /// `self` unchanged, supporting optional trailing sub-scans in
    /// composition chains without caller-side branching.
    pub fn combine_opt(self, rhs: Option<ChompResult>) -> (r: ChompResult)
        requires
            rhs matches Some(cr) ==> contiguous(self, cr),
        ensures
            rhs is None ==> r == self,
            rhs matches Some(cr) ==> r == self.spec_combine(cr),
    {
        match rhs {
            None => self,
            Some(cr) => self.combine(cr),
        }
    }
}

impl ToSpan for ChompResult {
    open spec fn spec_span(&self) -> Span {
        self.span
    }

    fn to_span(&self) -> (r: &Span) {
        &self.span
    }
}

/// Combining is associative: over any pairwise contiguous triple, merging the
/// left pair first and merging the right pair first give the same result, and
/// both intermediate merges are themselves contiguous with the remaining
/// operand.
pub proof fn lemma_combine_associative(a: ChompResult, b: ChompResult, c: ChompResult)
    requires
        contiguous(a, b),
        contiguous(b, c),
    ensures
        contiguous(a.spec_combine(b), c),
        contiguous(a, b.spec_combine(c)),
        a.spec_combine(b).spec_combine(c) == a.spec_combine(b.spec_combine(c)),
{
}

} // verus!
