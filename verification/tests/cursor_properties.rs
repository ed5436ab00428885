use chomp::ChompResult;
use chomp::Chomper;
use chomp::ToSpan;

#[test]
fn value_returns_the_exact_substring_and_span_length_counts_acceptances() {
    let code = "hello world";
    let mut chomper = Chomper::new(code);
    let cr = chomper.chomp(|c| c == ' ').unwrap();
    assert_eq!(chomper.value(&cr), "hello");
    assert_eq!(cr.span.end_pos.index - cr.span.start_pos.index, 5);
    assert_eq!(cr.hit_eof, false);
}

#[test]
fn next_resets_column_and_advances_line_after_a_newline() {
    let code = "a\nb";
    let mut chomper = Chomper::new(code);

    assert_eq!(chomper.next(), Some((0, 'a')));
    let after_a = chomper.position();
    assert_eq!((after_a.index, after_a.line_no, after_a.col_no), (1, 1, 1));

    assert_eq!(chomper.next(), Some((1, '\n')));
    let after_newline = chomper.position();
    assert_eq!(
        (after_newline.index, after_newline.line_no, after_newline.col_no),
        (2, 2, 0)
    );

    assert_eq!(chomper.next(), Some((2, 'b')));
    let after_b = chomper.position();
    assert_eq!((after_b.index, after_b.line_no, after_b.col_no), (3, 2, 1));
}

#[test]
fn next_at_the_end_reports_exhaustion_and_keeps_the_position_counters() {
    let code = "x";
    let mut chomper = Chomper::new(code);
    assert_eq!(chomper.next(), Some((0, 'x')));
    let before = chomper.position();
    assert_eq!(chomper.next(), None);
    assert!(chomper.is_eof);
    assert_eq!(chomper.position(), before);
}

#[test]
fn a_stop_on_the_first_character_yields_absent_not_a_zero_length_result() {
    let code = "xyz";
    let mut chomper = Chomper::new(code);
    let before = chomper.position();
    let cr = chomper.chomp(|c| c == 'x');
    assert!(cr.is_none());
    assert_eq!(chomper.position(), before);
    assert!(!chomper.is_eof);
}

#[test]
fn every_scan_variant_returns_absent_on_an_exhausted_cursor() {
    let code = "ab";
    let mut chomper = Chomper::new(code);
    chomper.chomp(|_| false).unwrap();
    assert!(chomper.is_eof);

    assert!(chomper.chomp(|_| false).is_none());
    assert!(chomper.chomp_and_see_previous(|_, _| false).is_none());
    assert!(chomper.chomp_till_str(|_| false).is_none());
    assert!(chomper.chomp_till_str_with_previous(|_, _| false).is_none());
    assert!(chomper.chomp_count(1).is_none());
}

#[test]
fn combine_is_associative_over_a_contiguous_triple() {
    let code = "abcdef";
    let mut chomper = Chomper::new(code);
    let a = chomper.expect("ab");
    let b = chomper.expect("cd");
    let c = chomper.expect("ef");

    let left_first = a.combine(b).combine(c);
    let right_first = a.combine(b.combine(c));
    assert_eq!(left_first, right_first);
    assert_eq!(chomper.value(&left_first), "abcdef");

    assert_eq!(a.combine_opt(None), a);
}

#[test]
fn peek_is_idempotent() {
    let code = "ab";
    let mut chomper = Chomper::new(code);
    let before = chomper.position();
    assert_eq!(chomper.peek(), Some('a'));
    assert_eq!(chomper.peek(), Some('a'));
    assert_eq!(chomper.peek(), Some('a'));
    assert_eq!(chomper.position(), before);

    chomper.next();
    assert_eq!(chomper.peek(), Some('b'));
    assert_eq!(chomper.peek(), Some('b'));
}

#[test]
fn chomp_count_consumes_exactly_the_requested_characters() {
    let code = "abcdef";
    let mut chomper = Chomper::new(code);
    let cr = chomper.chomp_count(4).unwrap();
    assert_eq!(chomper.value(&cr), "abcd");
    assert_eq!(cr.span.start_pos.index, 0);
    assert_eq!(cr.span.end_pos.index, 4);
    assert_eq!(cr.hit_eof, false);
    assert_eq!(chomper.position().index, 4);
}

#[test]
fn chomp_count_of_zero_is_absent() {
    let code = "abc";
    let mut chomper = Chomper::new(code);
    assert!(chomper.chomp_count(0).is_none());
    assert_eq!(chomper.position().index, 0);
}

#[test]
fn chomp_count_of_exactly_the_remainder_hits_the_end_of_the_source() {
    let code = "abc";
    let mut chomper = Chomper::new(code);
    let cr = chomper.chomp_count(3).unwrap();
    assert_eq!(chomper.value(&cr), "abc");
    assert_eq!(cr.hit_eof, true);
    assert!(chomper.is_eof);
}

#[test]
fn chomp_count_past_the_remainder_consumes_what_is_left() {
    let code = "abc";
    let mut chomper = Chomper::new(code);
    let cr = chomper.chomp_count(10).unwrap();
    assert_eq!(chomper.value(&cr), "abc");
    assert_eq!(cr.span.end_pos.index, 3);
    assert_eq!(cr.hit_eof, true);
}

#[test]
fn expect_tracks_lines_through_an_embedded_newline() {
    let code = "ab\ncd";
    let mut chomper = Chomper::new(code);
    let cr = chomper.expect("ab\n");
    assert_eq!(cr.span.end_pos.index, 3);
    assert_eq!(cr.span.end_pos.line_no, 2);
    assert_eq!(cr.span.end_pos.col_no, 0);
    let rest = chomper.expect("cd");
    assert_eq!(rest.span.end_pos.line_no, 2);
    assert_eq!(rest.span.end_pos.col_no, 2);
    assert!(rest.hit_eof);
}

#[test]
fn an_empty_source_is_exhausted_by_the_first_scan() {
    let code = "";
    let mut chomper = Chomper::new(code);
    assert_eq!(chomper.peek(), None);
    assert!(!chomper.is_eof);
    assert!(chomper.chomp(|_| false).is_none());
    assert!(chomper.is_eof);
}

#[test]
fn text_shrinks_as_the_cursor_advances() {
    let code = "hello";
    let mut chomper = Chomper::new(code);
    assert_eq!(chomper.text(), "hello");
    chomper.next();
    chomper.next();
    assert_eq!(chomper.text(), "llo");
    chomper.chomp(|_| false);
    assert_eq!(chomper.text(), "");
}

#[test]
fn value_of_a_combined_result_is_the_concatenation_of_its_parts() {
    let code = "one two";
    let mut chomper = Chomper::new(code);
    let word = chomper.chomp(|c| c == ' ').unwrap();
    let space = chomper.chomp_count(1).unwrap();
    let both = word.combine(space);
    assert_eq!(chomper.value(&both), "one ");
    assert_eq!(both.hit_eof, false);
}

#[test]
fn to_span_hands_back_the_span_a_result_carries() {
    let code = "seek";
    let mut chomper = Chomper::new(code);
    let cr = chomper.expect("seek");
    assert_eq!(*cr.to_span(), cr.span);
    assert_eq!(*cr.span.to_span(), cr.span);
}

#[test]
fn lookbehind_lets_an_escape_character_suppress_a_stop() {
    let code = r"one\;two;three";
    let mut chomper = Chomper::new(code);
    let cr = chomper
        .chomp_and_see_previous(|c, prev| c == ';' && prev != Some('\\'))
        .unwrap();
    assert_eq!(chomper.value(&cr), r"one\;two");
    assert_eq!(cr.hit_eof, false);
}

#[test]
fn multibyte_characters_count_as_single_positions() {
    let code = "héllo wörld";
    let mut chomper = Chomper::new(code);
    let cr = chomper.chomp(|c| c == ' ').unwrap();
    assert_eq!(chomper.value(&cr), "héllo");
    assert_eq!(cr.span.end_pos.index, 5);
    let _ = chomper.next();
    let rest = chomper.chomp(|_| false).unwrap();
    assert_eq!(chomper.value(&rest), "wörld");
    assert_eq!(rest.span.start_pos.index, 6);
    assert_eq!(rest.span.end_pos.index, 11);
}

#[test]
fn a_chomp_result_is_only_as_exhausted_as_the_later_operand() {
    let code = "abcd";
    let mut chomper = Chomper::new(code);
    let a = chomper.expect("ab");
    let b = chomper.expect("cd");
    assert_eq!(a.hit_eof, false);
    assert_eq!(b.hit_eof, true);
    let combined: ChompResult = a.combine(b);
    assert_eq!(combined.hit_eof, true);
}
