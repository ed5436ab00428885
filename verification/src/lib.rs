//! A low-level text-scanning cursor for building hand-written lexers and
//! parsers over in-memory source text.
//!
//! A [`Chomper`] tracks a read position through a borrowed source string and
//! advances character by character under caller-supplied stopping predicates.
//! Each scan returns the consumed range as a position-stamped [`Span`] inside
//! a [`ChompResult`] rather than a copy of the text; the text itself is
//! recovered on demand by slicing the source with the span.
//!
//! All indices are scalar-value (character) offsets into the source, never
//! byte offsets: `Position.index`, slicing and contiguity checks all agree on
//! that policy.

pub mod chomp_result;
pub mod chomper;
pub mod position;

pub use chomp_result::ChompResult;
pub use chomper::Chomper;
pub use position::Position;
pub use position::Span;
pub use position::ToSpan;
