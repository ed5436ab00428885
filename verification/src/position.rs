use vstd::prelude::*;

verus! {

/// A point in source text: `index` is the 0-based scalar-value (character)
/// offset, `line_no` starts at 1, and `col_no` starts at 0 and resets to 0
/// immediately after a newline is consumed.
#[derive(Debug, PartialEq, Eq, Structural, Copy, Clone)]
pub struct Position {
    pub index: usize,
    pub line_no: usize,
    pub col_no: usize,
}

/// A half-open range of source text: `start_pos` inclusive, `end_pos`
/// exclusive. The character at `end_pos.index` was not consumed by the scan
/// that produced the span.
#[derive(Debug, PartialEq, Eq, Structural, Copy, Clone)]
pub struct Span {
    pub start_pos: Position,
    pub end_pos: Position,
}

/// Anything that carries a [`Span`].
pub trait ToSpan {
    /// The span this value stands for.
    spec fn spec_span(&self) -> Span;

    fn to_span(&self) -> (r: &Span)
        ensures
            *r == self.spec_span(),
    ;
}

impl ToSpan for Span {
    open spec fn spec_span(&self) -> Span {
        *self
    }

    fn to_span(&self) -> (r: &Span) {
        self
    }
}

/// How many of the first `i` characters of `s` are newlines.
pub open spec fn newlines_before(s: Seq<char>, i: int) -> nat
    decreases i,
{
    if i <= 0 {
        0
    } else {
        newlines_before(s, i - 1) + if s[i - 1] == '\n' {
            1nat
        } else {
            0nat
        }
    }
}

/// The 1-based line number of the character at offset `i` of `s`: one more
/// than the number of newlines consumed before it.
pub open spec fn line_at(s: Seq<char>, i: int) -> nat {
    newlines_before(s, i) + 1
}

/// The 0-based column of the character at offset `i` of `s`: how many
/// characters have been consumed since the most recent newline.
pub open spec fn col_at(s: Seq<char>, i: int) -> nat
    decreases i,
{
    if i <= 0 {
        0
    } else if s[i - 1] == '\n' {
        0
    } else {
        col_at(s, i - 1) + 1
    }
}

/// There can be no more newlines among the first `i` characters than there
/// are characters.
pub proof fn lemma_newlines_before_bound(s: Seq<char>, i: int)
    requires
        0 <= i,
    ensures
        newlines_before(s, i) <= i,
    decreases i,
{
    if i > 0 {
        lemma_newlines_before_bound(s, i - 1);
    }
}

/// A column number never exceeds the offset it is taken at.
pub proof fn lemma_col_at_bound(s: Seq<char>, i: int)
    requires
        0 <= i,
    ensures
        col_at(s, i) <= i,
    decreases i,
{
    if i > 0 && s[i - 1] != '\n' {
        lemma_col_at_bound(s, i - 1);
    }
}

/// Consuming a newline increments the line number by exactly one and resets
/// the column to zero; consuming any other character keeps the line number
/// and advances the column by one.
pub proof fn lemma_line_col_step(s: Seq<char>, i: int)
    requires
        0 <= i < s.len(),
    ensures
        s[i] == '\n' ==> line_at(s, i + 1) == line_at(s, i) + 1 && col_at(s, i + 1) == 0,
        s[i] != '\n' ==> line_at(s, i + 1) == line_at(s, i) && col_at(s, i + 1) == col_at(s, i)
            + 1,
{
}

} // verus!
