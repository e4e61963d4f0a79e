use aott::error::{Simple, Span};
use aott::grammars::{bf_file, serialize_program, Instruction};
use aott::parser::Parser;
use aott::primitive::just::just;
use aott::error::Located;
use aott::input::Input;
use aott::parser::Emitter;
use aott::recovery::{noop, recover_with, via_parser};

#[test]
fn balanced_brackets_parse_into_nested_structure() {
    // P6: a recursive grammar for balanced brackets parses "[[][]]" into a
    // structure matching bracket depth.
    let src: Vec<char> = "[[][]]".chars().collect();
    let r = bf_file(&src);
    assert_eq!(
        r,
        Ok(vec![Instruction::Loop(vec![
            Instruction::Loop(vec![]),
            Instruction::Loop(vec![]),
        ])])
    );
}

#[test]
fn unbalanced_brackets_fail_with_an_end_of_input_error() {
    // P6: "[[]" is rejected with an end-of-input error, not silently
    // accepted as a partial tree.
    let src: Vec<char> = "[[]".chars().collect();
    assert_eq!(
        bf_file(&src),
        Err(Simple::UnexpectedEOF {
            span: Span { start: 3, end: 3 },
            expected: Some(vec![']']),
        })
    );
}

#[test]
fn trailing_content_fails_with_an_expected_eof_error() {
    let src: Vec<char> = "+]".chars().collect();
    assert_eq!(
        bf_file(&src),
        Err(Simple::ExpectedEOF { found: ']', span: Span { start: 1, end: 2 } })
    );
}

#[test]
fn instructions_parse_in_order() {
    let src: Vec<char> = "--[>--]".chars().collect();
    assert_eq!(
        bf_file(&src),
        Ok(vec![
            Instruction::Decrement,
            Instruction::Decrement,
            Instruction::Loop(vec![
                Instruction::Right,
                Instruction::Decrement,
                Instruction::Decrement,
            ]),
        ])
    );
}

#[test]
fn round_trip_depth_one() {
    // P8: parse, re-serialize, parse again: the same structure comes back.
    let src: Vec<char> = "--[>--]".chars().collect();
    let p1 = bf_file(&src).unwrap();
    let s = serialize_program(&p1);
    assert_eq!(s, src);
    let p2 = bf_file(&s).unwrap();
    assert_eq!(p1, p2);
}

#[test]
fn round_trip_depth_two() {
    let src: Vec<char> = "+[>[,.]<]-".chars().collect();
    let p1 = bf_file(&src).unwrap();
    let s = serialize_program(&p1);
    assert_eq!(s, src);
    let p2 = bf_file(&s).unwrap();
    assert_eq!(p1, p2);
}

#[test]
fn round_trip_depth_three() {
    let src: Vec<char> = "--[>--->[->[+]]<<]>.".chars().collect();
    let p1 = bf_file(&src).unwrap();
    let s = serialize_program(&p1);
    assert_eq!(s, src);
    let p2 = bf_file(&s).unwrap();
    assert_eq!(p1, p2);
}

#[test]
fn comments_stop_the_top_level_program() {
    // a character no instruction starts with ends the program; the full
    // parse then reports it as trailing input
    let src: Vec<char> = "++ hello".chars().collect();
    assert_eq!(
        bf_file(&src),
        Err(Simple::ExpectedEOF { found: ' ', span: Span { start: 2, end: 3 } })
    );
}

#[test]
fn recovery_via_parser_substitutes_a_value() {
    let src: Vec<char> = "bb".chars().collect();
    let p = recover_with(
        just("aa".chars().collect()),
        via_parser(just("bb".chars().collect())),
    );
    assert_eq!(p.parse(&src), Ok("bb".chars().collect::<Vec<char>>()));
}

#[test]
fn recovery_noop_keeps_the_original_error() {
    let src: Vec<char> = "bb".chars().collect();
    let p = recover_with(just("aa".chars().collect()), noop());
    assert_eq!(
        p.parse(&src),
        Err(Simple::ExpectedTokenFound {
            span: Span { start: 0, end: 1 },
            expected: vec!['a'],
            found: 'b',
        })
    );
}

#[test]
fn failed_recovery_reports_the_original_error() {
    let src: Vec<char> = "cc".chars().collect();
    let p = recover_with(
        just("aa".chars().collect()),
        via_parser(just("bb".chars().collect())),
    );
    assert_eq!(
        p.parse(&src),
        Err(Simple::ExpectedTokenFound {
            span: Span { start: 0, end: 1 },
            expected: vec!['a'],
            found: 'c',
        })
    );
}

#[test]
fn successful_recovery_records_the_original_error_as_secondary() {
    let src: Vec<char> = "bb".chars().collect();
    let mut inp = Input::new(&src);
    let mut diagnostics = Emitter(Vec::new());
    let p = recover_with(
        just("aa".chars().collect()),
        via_parser(just("bb".chars().collect())),
    );
    let r = p.parse_recovering(&mut inp, &mut diagnostics);
    assert_eq!(r, Ok("bb".chars().collect::<Vec<char>>()));
    assert_eq!(diagnostics.0.len(), 1);
    let recorded: &Located<usize, Simple> = &diagnostics.0[0];
    assert_eq!(recorded.pos, 2);
    assert_eq!(
        recorded.err,
        Simple::ExpectedTokenFound {
            span: Span { start: 0, end: 1 },
            expected: vec!['a'],
            found: 'b',
        }
    );
}

#[test]
fn nothing_is_recorded_without_a_recovery() {
    let src: Vec<char> = "aa".chars().collect();
    let mut inp = Input::new(&src);
    let mut diagnostics = Emitter(Vec::new());
    let p = recover_with(
        just("aa".chars().collect()),
        via_parser(just("bb".chars().collect())),
    );
    assert!(p.parse_recovering(&mut inp, &mut diagnostics).is_ok());
    assert_eq!(diagnostics.0.len(), 0);

    let bad: Vec<char> = "cc".chars().collect();
    let mut inp2 = Input::new(&bad);
    let mut diagnostics2 = Emitter(Vec::new());
    assert!(p.parse_recovering(&mut inp2, &mut diagnostics2).is_err());
    assert_eq!(diagnostics2.0.len(), 0);
}

#[test]
fn a_failed_noop_recovery_leaves_the_cursor_where_the_parser_started() {
    let src: Vec<char> = "bb".chars().collect();
    let mut inp = Input::new(&src);
    let p = recover_with(just("aa".chars().collect()), noop());
    assert!(p.parse_with(&mut inp).is_err());
    assert_eq!(inp.offset(), 0);
}
