use crate::chomp_result::ChompResult;
use crate::position::Position;
use crate::position::Span;
use crate::position::col_at;
use crate::position::line_at;
use vstd::prelude::*;
use vstd::string::StrSliceExecFns;

verus! {

/// The character a scan that began at offset `start` had accepted last when
/// it reached offset `i`: absent for the very first candidate.
pub open spec fn prev_char(s: Seq<char>, start: int, i: int) -> Option<char> {
    if i == start {
        None
    } else {
        Some(s[i - 1])
    }
}

/// A character-level stopping predicate can answer "keep going" at offset
/// `i` of a scan of `s` that began at `start`.
pub open spec fn char_continues<F: Fn(char, Option<char>) -> bool>(
    f: F,
    s: Seq<char>,
    start: int,
    i: int,
) -> bool {
    call_ensures(f, (s[i], prev_char(s, start, i)), false)
}

/// A character-level stopping predicate can answer "stop" at offset `i` of a
/// scan of `s` that began at `start`.
pub open spec fn char_stops<F: Fn(char, Option<char>) -> bool>(
    f: F,
    s: Seq<char>,
    start: int,
    i: int,
) -> bool {
    call_ensures(f, (s[i], prev_char(s, start, i)), true)
}

/// A remaining-text stopping predicate can answer "keep going" when handed
/// the suffix of `s` that starts at offset `i`.
pub open spec fn str_continues<G: Fn(&str, Option<char>) -> bool>(
    g: G,
    s: Seq<char>,
    start: int,
    i: int,
) -> bool {
    exists|t: &str|
        t@ == s.subrange(i, s.len() as int) && call_ensures(
            g,
            (t, prev_char(s, start, i)),
            false,
        )
}

/// A remaining-text stopping predicate can answer "stop" when handed the
/// suffix of `s` that starts at offset `i`.
pub open spec fn str_stops<G: Fn(&str, Option<char>) -> bool>(
    g: G,
    s: Seq<char>,
    start: int,
    i: int,
) -> bool {
    exists|t: &str|
        t@ == s.subrange(i, s.len() as int) && call_ensures(g, (t, prev_char(s, start, i)), true)
}

/// A plain character predicate can answer "keep going" for the character at
/// offset `i` of `s`.
pub open spec fn chomp_continues<F: Fn(char) -> bool>(f: F, s: Seq<char>, i: int) -> bool {
    call_ensures(f, (s[i],), false)
}

/// A plain character predicate can answer "stop" for the character at offset
/// `i` of `s`.
pub open spec fn chomp_stops<F: Fn(char) -> bool>(f: F, s: Seq<char>, i: int) -> bool {
    call_ensures(f, (s[i],), true)
}

/// A plain remaining-text predicate can answer "keep going" when handed the
/// suffix of `s` that starts at offset `i`.
pub open spec fn till_str_continues<F: Fn(&str) -> bool>(f: F, s: Seq<char>, i: int) -> bool {
    exists|t: &str| t@ == s.subrange(i, s.len() as int) && call_ensures(f, (t,), false)
}

/// A plain remaining-text predicate can answer "stop" when handed the suffix
/// of `s` that starts at offset `i`.
pub open spec fn till_str_stops<F: Fn(&str) -> bool>(f: F, s: Seq<char>, i: int) -> bool {
    exists|t: &str| t@ == s.subrange(i, s.len() as int) && call_ensures(f, (t,), true)
}

/// What every scan does to the cursor, whatever its stopping predicates say:
/// the cursor stays well formed over the same source and only moves forward;
/// a scan begun on an exhausted cursor returns absent and changes nothing; a
/// present result spans exactly the characters consumed, from the position
/// before the call to the position after it, and so never has length zero;
/// its `hit_eof` flag is set exactly when the scan exhausted the source; and
/// an absent result means no character was accepted, leaving the cursor
/// where it stood (merely marked exhausted if the scan began at the very end
/// of the source).
pub open spec fn scan_frame(pre: Chomper, post: Chomper, r: Option<ChompResult>) -> bool {
    &&& post.wf()
    &&& post.code == pre.code
    &&& (pre.is_eof ==> r is None && post == pre)
    &&& (!pre.is_eof ==> {
        &&& pre.index <= post.index <= pre.src().len()
        &&& (r is None <==> post.index == pre.index)
        &&& match r {
            Some(cr) => {
                &&& cr.span.start_pos == pre.position_spec()
                &&& cr.span.end_pos == post.position_spec()
                &&& cr.span.start_pos.index < cr.span.end_pos.index
                &&& cr.hit_eof == post.is_eof
                &&& (!cr.hit_eof ==> post.index < pre.src().len())
            },
            None => {
                &&& (pre.index < pre.src().len() ==> post == pre)
                &&& (pre.index == pre.src().len() ==> post.is_eof && post.position_spec()
                    == pre.position_spec())
            },
        }
    })
}

/// Every present scan result measures its own consumption: the span is a
/// well-formed range within the source, bounded by the cursor positions
/// before and after the scan, so the distance between its end and start
/// indices is exactly the number of characters the scan accepted, and the
/// span is always a valid request for `value` on the same source.
pub proof fn lemma_span_measures_consumption(pre: Chomper, post: Chomper, cr: ChompResult)
    requires
        scan_frame(pre, post, Some(cr)),
    ensures
        cr.span.end_pos.index - cr.span.start_pos.index == post.index - pre.index,
        cr.span.start_pos.index <= cr.span.end_pos.index <= post.src().len(),
{
}

/// The mutable cursor: it owns the current index, line and column, an
/// exhaustion flag, and a read-only borrow of the full source text. Position
/// only moves forward; there is no rewind.
///
/// `index` counts scalar values (characters), not bytes.
pub struct Chomper<'c> {
    pub code: &'c str,
    pub index: usize,
    pub is_eof: bool,
    pub line_no: usize,
    pub col_no: usize,
}

impl<'c> Chomper<'c> {
    /// The source text as a sequence of characters.
    pub open spec fn src(self) -> Seq<char> {
        self.code@
    }

    /// The cursor is well formed: the index never passes the end of the
    /// source, the line and column are exactly those of the consumed prefix,
    /// and the exhaustion flag can only be set once everything is consumed.
    pub open spec fn wf(self) -> bool {
        &&& self.index <= self.src().len() < usize::MAX
        &&& self.line_no == line_at(self.src(), self.index as int)
        &&& self.col_no == col_at(self.src(), self.index as int)
        &&& (self.is_eof ==> self.index == self.src().len())
    }

    /// The position the cursor currently stands at.
    pub open spec fn position_spec(self) -> Position {
        Position { index: self.index, line_no: self.line_no, col_no: self.col_no }
    }

    /// What `peek` sees: the character under the cursor, or nothing at the
    /// end of the source.
    pub open spec fn peek_spec(self) -> Option<char> {
        if self.index < self.src().len() {
            Some(self.src()[self.index as int])
        } else {
            None
        }
    }

    /// The unconsumed suffix of the source.
    pub open spec fn remaining(self) -> Seq<char> {
        self.src().subrange(self.index as int, self.src().len() as int)
    }

    /// Builds a cursor over `code`, standing at index 0, line 1, column 0,
    /// not exhausted. The source must stay valid and unchanged for the
    /// cursor's whole lifetime, which the borrow enforces.
    pub fn new(code: &'c str) -> (r: Chomper<'c>)
        requires
            code@.len() < usize::MAX,
        ensures
            r.wf(),
            r.code == code,
            r.index == 0,
            r.line_no == 1,
            r.col_no == 0,
            !r.is_eof,
    {
        Chomper { code, index: 0, is_eof: false, line_no: 1, col_no: 0 }
    }

    /// A snapshot of the current cursor location. Pure; no side effect.
    pub fn position(&self) -> (r: Position)
        ensures
            r == self.position_spec(),
    {
        Position { index: self.index, line_no: self.line_no, col_no: self.col_no }
    }

    /// The character at the current index, without advancing, or `None` at
    /// or past the end of the source. The result is a pure function of the
    /// cursor state, and the cursor is borrowed immutably, so repeated calls
    /// return the same character and never move the cursor.
    pub fn peek(&self) -> (r: Option<char>)
        ensures
            r == self.peek_spec(),
    {
        if self.index >= self.code.unicode_len() {
            return None;
        }
        Some(self.code.get_char(self.index))
    }

    /// Advances the cursor by exactly one character and returns the consumed
    /// (index, character) pair. Consuming a newline increments the line
    /// number and resets the column to 0; any other character advances the
    /// column. If there is no next character, the call sets the exhaustion
    /// flag, leaves the position counters unchanged and returns `None`.
    ///
    /// Calling `next` on an already exhausted cursor is a caller logic
    /// error, not a data condition, so it is ruled out by precondition.
    pub fn next(&mut self) -> (r: Option<(usize, char)>)
        requires
            old(self).wf(),
            !old(self).is_eof,
        ensures
            final(self).wf(),
            final(self).code == old(self).code,
            old(self).index < old(self).src().len() ==> {
                &&& r == Some((old(self).index, old(self).src()[old(self).index as int]))
                &&& final(self).index == old(self).index + 1
                &&& !final(self).is_eof
            },
            old(self).index == old(self).src().len() ==> {
                &&& r is None
                &&& final(self).is_eof
                &&& final(self).position_spec() == old(self).position_spec()
            },
    {
        match self.peek() {
            None => {
                self.is_eof = true;
                None
            },
            Some(ch) => {
                let consumed_at = self.index;
                proof {
                    crate::position::lemma_newlines_before_bound(
                        self.src(),
                        self.index as int,
                    );
                    crate::position::lemma_col_at_bound(self.src(), self.index as int);
                    crate::position::lemma_line_col_step(self.src(), self.index as int);
                }
                self.index = self.index + 1;
                if ch == '\n' {
                    self.line_no = self.line_no + 1;
                    self.col_no = 0;
                } else {
                    self.col_no = self.col_no + 1;
                }
                Some((consumed_at, ch))
            },
        }
    }

    /// Consumes exactly the next `expectation` worth of characters. The
    /// remaining text must start with `expectation`, and `expectation` must
    /// not be empty: handing anything else to `expect` is a caller logic
    /// error, ruled out by precondition rather than reported. The result
    /// spans exactly the consumed literal, with `hit_eof` set when the
    /// literal reached the end of the source.
    pub fn expect(&mut self, expectation: &str) -> (r: ChompResult)
        requires
            old(self).wf(),
            expectation@.len() > 0,
            old(self).index + expectation@.len() <= old(self).src().len(),
            old(self).src().subrange(
                old(self).index as int,
                old(self).index + expectation@.len(),
            ) == expectation@,
        ensures
            final(self).wf(),
            final(self).code == old(self).code,
            final(self).index == old(self).index + expectation@.len(),
            r.span.start_pos == old(self).position_spec(),
            r.span.end_pos == final(self).position_spec(),
            r.hit_eof == final(self).is_eof,
            r.hit_eof <==> final(self).index == old(self).src().len(),
    {
        let want = expectation.unicode_len();
        match self.chomp_count(want) {
            Some(cr) => cr,
            None => vstd::pervasive::unreached(),
        }
    }

    /// Consumes the next `count` characters, or everything that is left if
    /// fewer remain: the scan stops after exactly `count` acceptances, or
    /// with `hit_eof` set once the source is exhausted. Absent when nothing
    /// was consumed: when `count` is zero, or the cursor stands at or past
    /// the end of the source.
    pub fn chomp_count(&mut self, count: usize) -> (r: Option<ChompResult>)
        requires
            old(self).wf(),
        ensures
            scan_frame(*old(self), *final(self), r),
            !old(self).is_eof ==> final(self).index as int == (if old(self).index + count
                <= old(self).src().len() {
                old(self).index + count
            } else {
                old(self).src().len() as int
            }),
            !old(self).is_eof ==> (final(self).is_eof <==> old(self).src().len() <= old(
                self,
            ).index + count),
    {
        if self.is_eof {
            return None;
        }
        let start = self.position();
        let ghost pre = *self;
        let ghost s = pre.src();
        let ghost i0 = pre.index as int;
        let ghost n = s.len() as int;
        let mut accepted: usize = 0;
        loop
            invariant
                pre == *old(self),
                pre.wf(),
                !pre.is_eof,
                self.wf(),
                self.code == pre.code,
                !self.is_eof,
                s == self.src(),
                n == s.len(),
                i0 == pre.index as int,
                i0 <= self.index as int <= n,
                start == pre.position_spec(),
                accepted as int == self.index as int - i0,
                accepted <= count,
            decreases n - self.index as int,
        {
            match self.peek() {
                None => {
                    let end = self.position();
                    let _ = self.next();
                    if accepted == 0 {
                        return None;
                    }
                    return Some(
                        ChompResult {
                            span: Span { start_pos: start, end_pos: end },
                            hit_eof: true,
                        },
                    );
                },
                Some(_ch) => {
                    if accepted >= count {
                        let end = self.position();
                        if accepted == 0 {
                            return None;
                        }
                        return Some(
                            ChompResult {
                                span: Span { start_pos: start, end_pos: end },
                                hit_eof: false,
                            },
                        );
                    }
                    accepted = accepted + 1;
                    let _ = self.next();
                },
            }
        }
    }

    /// The exact substring a result spans, recovered by slicing the source
    /// between its start and end indices. Pure; the cursor's current
    /// position plays no part. The result must have been derived from this
    /// cursor's own source, which is what keeps its indices within bounds.
    pub fn value(&self, chomp_result: &ChompResult) -> (r: &'c str)
        requires
            chomp_result.span.start_pos.index <= chomp_result.span.end_pos.index,
            chomp_result.span.end_pos.index <= self.src().len(),
        ensures
            r@ == self.src().subrange(
                chomp_result.span.start_pos.index as int,
                chomp_result.span.end_pos.index as int,
            ),
    {
        self.code.substring_char(
            chomp_result.span.start_pos.index,
            chomp_result.span.end_pos.index,
        )
    }

    /// Scans while showing `quit` each candidate character together with the
    /// previously accepted character (absent on the very first candidate),
    /// enabling lookbehind-sensitive stopping rules such as "stop at this
    /// delimiter unless escaped by the previous character". Every accepted
    /// character got "keep going" from `quit`, and a scan that stopped on a
    /// real character got "stop" for it; an absent result means the very
    /// first candidate already stopped the scan, or nothing was left.
    pub fn chomp_and_see_previous<F: Fn(char, Option<char>) -> bool>(&mut self, quit: F) -> (r:
        Option<ChompResult>)
        requires
            old(self).wf(),
            forall|c: char, p: Option<char>| call_requires(quit, (c, p)),
        ensures
            scan_frame(*old(self), *final(self), r),
            forall|i: int|
                old(self).index <= i < final(self).index ==> char_continues(
                    quit,
                    old(self).src(),
                    old(self).index as int,
                    i,
                ),
            r matches Some(cr) ==> (!cr.hit_eof ==> char_stops(
                quit,
                old(self).src(),
                old(self).index as int,
                final(self).index as int,
            )),
            !old(self).is_eof && r is None && old(self).index < old(self).src().len()
                ==> char_stops(
                quit,
                old(self).src(),
                old(self).index as int,
                old(self).index as int,
            ),
    {
        let never_str = |_t: &str, _p: Option<char>| -> (b: bool)
            ensures
                !b,
            { false };
        self.chomp_internal(quit, never_str)
    }

    /// Scans while showing `quit` each candidate character alone: the scan
    /// stops at the first character `quit` says to stop on, without
    /// consuming it. Every accepted character got "keep going" from `quit`;
    /// an absent result means the very first candidate already stopped the
    /// scan, or nothing was left.
    pub fn chomp<F: Fn(char) -> bool + Copy>(&mut self, quit: F) -> (r: Option<ChompResult>)
        requires
            old(self).wf(),
            forall|c: char| call_requires(quit, (c,)),
        ensures
            scan_frame(*old(self), *final(self), r),
            forall|i: int|
                old(self).index <= i < final(self).index ==> chomp_continues(
                    quit,
                    old(self).src(),
                    i,
                ),
            r matches Some(cr) ==> (!cr.hit_eof ==> chomp_stops(
                quit,
                old(self).src(),
                final(self).index as int,
            )),
            !old(self).is_eof && r is None && old(self).index < old(self).src().len()
                ==> chomp_stops(quit, old(self).src(), old(self).index as int),
    {
        let see_char = |c: char, _p: Option<char>| -> (b: bool)
            requires
                call_requires(quit, (c,)),
            ensures
                call_ensures(quit, (c,), b),
            { quit(c) };
        let never_str = |_t: &str, _p: Option<char>| -> (b: bool)
            ensures
                !b,
            { false };
        let r = self.chomp_internal(see_char, never_str);
        proof {
            let s = old(self).src();
            let i0 = old(self).index as int;
            let k = self.index as int;
            assert forall|i: int| i0 <= i < k implies chomp_continues(quit, s, i) by {
                assert(char_continues(see_char, s, i0, i));
            };
            if !old(self).is_eof && i0 < s.len() {
                if r is None {
                    assert(!str_stops(never_str, s, i0, i0));
                    assert(chomp_stops(quit, s, i0));
                } else if !r->Some_0.hit_eof {
                    assert(!str_stops(never_str, s, i0, k));
                    assert(chomp_stops(quit, s, k));
                }
            }
        }
        r
    }

    /// Scans while showing `quit` the whole remaining unconsumed text at
    /// each candidate, enabling multi-character lookahead such as "stop when
    /// the remaining text starts with this keyword". The scan stops at the
    /// first position whose suffix `quit` says to stop on, consuming nothing
    /// of it. An absent result means the suffix at the starting position
    /// already stopped the scan, or nothing was left.
    pub fn chomp_till_str<F: Fn(&str) -> bool + Copy>(&mut self, quit: F) -> (r: Option<
        ChompResult,
    >)
        requires
            old(self).wf(),
            forall|t: &str| call_requires(quit, (t,)),
        ensures
            scan_frame(*old(self), *final(self), r),
            forall|i: int|
                old(self).index <= i < final(self).index ==> till_str_continues(
                    quit,
                    old(self).src(),
                    i,
                ),
            r matches Some(cr) ==> (!cr.hit_eof ==> till_str_stops(
                quit,
                old(self).src(),
                final(self).index as int,
            )),
            !old(self).is_eof && r is None && old(self).index < old(self).src().len()
                ==> till_str_stops(quit, old(self).src(), old(self).index as int),
    {
        let never_char = |_c: char, _p: Option<char>| -> (b: bool)
            ensures
                !b,
            { false };
        let see_text = |t: &str, _p: Option<char>| -> (b: bool)
            requires
                call_requires(quit, (t,)),
            ensures
                call_ensures(quit, (t,), b),
            { quit(t) };
        let r = self.chomp_internal(never_char, see_text);
        proof {
            let s = old(self).src();
            let i0 = old(self).index as int;
            let k = self.index as int;
            assert forall|i: int| i0 <= i < k implies till_str_continues(quit, s, i) by {
                assert(str_continues(see_text, s, i0, i));
                let t = choose|t: &str|
                    t@ == s.subrange(i, s.len() as int) && call_ensures(
                        see_text,
                        (t, prev_char(s, i0, i)),
                        false,
                    );
                assert(call_ensures(quit, (t,), false));
            };
            if !old(self).is_eof && i0 < s.len() {
                if r is None {
                    assert(!char_stops(never_char, s, i0, i0));
                    assert(str_stops(see_text, s, i0, i0));
                    let t = choose|t: &str|
                        t@ == s.subrange(i0, s.len() as int) && call_ensures(
                            see_text,
                            (t, prev_char(s, i0, i0)),
                            true,
                        );
                    assert(call_ensures(quit, (t,), true));
                    assert(till_str_stops(quit, s, i0));
                } else if !r->Some_0.hit_eof {
                    assert(!char_stops(never_char, s, i0, k));
                    assert(str_stops(see_text, s, i0, k));
                    let t = choose|t: &str|
                        t@ == s.subrange(k, s.len() as int) && call_ensures(
                            see_text,
                            (t, prev_char(s, i0, k)),
                            true,
                        );
                    assert(call_ensures(quit, (t,), true));
                    assert(till_str_stops(quit, s, k));
                }
            }
        }
        r
    }

    /// Scans while showing `quit` the whole remaining unconsumed text and
    /// the previously accepted character at each candidate: the combination
    /// of multi-character lookahead and lookbehind.
    pub fn chomp_till_str_with_previous<F: Fn(&str, Option<char>) -> bool>(
        &mut self,
        quit: F,
    ) -> (r: Option<ChompResult>)
        requires
            old(self).wf(),
            forall|t: &str, p: Option<char>| call_requires(quit, (t, p)),
        ensures
            scan_frame(*old(self), *final(self), r),
            forall|i: int|
                old(self).index <= i < final(self).index ==> str_continues(
                    quit,
                    old(self).src(),
                    old(self).index as int,
                    i,
                ),
            r matches Some(cr) ==> (!cr.hit_eof ==> str_stops(
                quit,
                old(self).src(),
                old(self).index as int,
                final(self).index as int,
            )),
            !old(self).is_eof && r is None && old(self).index < old(self).src().len()
                ==> str_stops(
                quit,
                old(self).src(),
                old(self).index as int,
                old(self).index as int,
            ),
    {
        let never_char = |_c: char, _p: Option<char>| -> (b: bool)
            ensures
                !b,
            { false };
        self.chomp_internal(never_char, quit)
    }

    /// The generalized scan engine behind every public scan operation.
    ///
    /// Starting at the current position it inspects one character at a time.
    /// A candidate character is shown to `char_quit` (together with the
    /// previously accepted character) and, if that keeps going, the whole
    /// remaining text is shown to `str_quit`; if either says stop, the scan
    /// ends without consuming the candidate. Otherwise the candidate is
    /// accepted and the cursor advances. Running off the end of the source
    /// marks the cursor exhausted and ends the scan with `hit_eof` set. A
    /// scan that accepted no character at all returns absent: an empty match
    /// is deliberately not a representable `ChompResult`.
    fn chomp_internal<F: Fn(char, Option<char>) -> bool, G: Fn(&str, Option<char>) -> bool>(
        &mut self,
        char_quit: F,
        str_quit: G,
    ) -> (r: Option<ChompResult>)
        requires
            old(self).wf(),
            forall|c: char, p: Option<char>| call_requires(char_quit, (c, p)),
            forall|t: &str, p: Option<char>| call_requires(str_quit, (t, p)),
        ensures
            scan_frame(*old(self), *final(self), r),
            forall|i: int|
                old(self).index <= i < final(self).index ==> char_continues(
                    char_quit,
                    old(self).src(),
                    old(self).index as int,
                    i,
                ) && str_continues(str_quit, old(self).src(), old(self).index as int, i),
            r matches Some(cr) ==> (!cr.hit_eof ==> (char_stops(
                char_quit,
                old(self).src(),
                old(self).index as int,
                final(self).index as int,
            ) || str_stops(
                str_quit,
                old(self).src(),
                old(self).index as int,
                final(self).index as int,
            ))),
            !old(self).is_eof && r is None && old(self).index < old(self).src().len() ==> (
            char_stops(char_quit, old(self).src(), old(self).index as int, old(self).index as int)
                || str_stops(
                str_quit,
                old(self).src(),
                old(self).index as int,
                old(self).index as int,
            )),
    {
        if self.is_eof {
            return None;
        }
        let start = self.position();
        let ghost pre = *self;
        let ghost s = pre.src();
        let ghost i0 = pre.index as int;
        let ghost n = s.len() as int;
        let mut prev: Option<char> = None;
        let mut any: bool = false;
        loop
            invariant
                pre == *old(self),
                pre.wf(),
                !pre.is_eof,
                self.wf(),
                self.code == pre.code,
                !self.is_eof,
                s == self.src(),
                n == s.len(),
                i0 == pre.index as int,
                i0 <= self.index as int <= n,
                start == pre.position_spec(),
                any <==> self.index as int > i0,
                prev == prev_char(s, i0, self.index as int),
                forall|i: int|
                    i0 <= i < self.index as int ==> char_continues(char_quit, s, i0, i)
                        && str_continues(str_quit, s, i0, i),
                forall|c: char, p: Option<char>| call_requires(char_quit, (c, p)),
                forall|t: &str, p: Option<char>| call_requires(str_quit, (t, p)),
            decreases n - self.index as int,
        {
            match self.peek() {
                None => {
                    // There is no next character: the scan ran off the end.
                    // One more advance formally marks the cursor exhausted.
                    let end = self.position();
                    let _ = self.next();
                    if !any {
                        return None;
                    }
                    return Some(
                        ChompResult {
                            span: Span { start_pos: start, end_pos: end },
                            hit_eof: true,
                        },
                    );
                },
                Some(ch) => {
                    let quit_now = if char_quit(ch, prev) {
                        true
                    } else {
                        str_quit(self.text(), prev)
                    };
                    if quit_now {
                        // Stop without consuming the triggering character.
                        let end = self.position();
                        if !any {
                            return None;
                        }
                        return Some(
                            ChompResult {
                                span: Span { start_pos: start, end_pos: end },
                                hit_eof: false,
                            },
                        );
                    }
                    prev = Some(ch);
                    any = true;
                    let _ = self.next();
                },
            }
        }
    }

    /// The remaining unconsumed suffix of the source.
    pub fn text(&self) -> (r: &'c str)
        requires
            self.wf(),
        ensures
            r@ == self.remaining(),
    {
        self.code.substring_char(self.index, self.code.unicode_len())
    }
}

} // verus!
