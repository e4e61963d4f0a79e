use aott::error::Simple;
use aott::input::Input;
use aott::parser::Parser;
use aott::iter::IterParser;
use aott::primitive::just::just;
use aott::text::{
    self, digits, inline_whitespace, integer, just_ignore_case, newline, padded, whitespace, Char,
};

#[test]
fn unicode_ident_accepts_identifiers() {
    let src: Vec<char> = "defun".chars().collect();
    assert_eq!(text::ident().parse(&src), Ok("defun".chars().collect::<Vec<char>>()));
    let kw: Vec<char> = "fn".chars().collect();
    assert_eq!(text::ident().parse(&kw), Ok("fn".chars().collect::<Vec<char>>()));
}

#[test]
fn unicode_ident_stops_at_non_identifier_characters() {
    let src: Vec<char> = "hello world".chars().collect();
    let mut inp = Input::new(&src);
    assert_eq!(
        text::ident().parse_with(&mut inp),
        Ok("hello".chars().collect::<Vec<char>>())
    );
    assert_eq!(inp.offset(), 5);
}

#[test]
fn unicode_ident_rejects_a_non_start_character() {
    // exercises the identifier-start lookup: a digit continues identifiers
    // but cannot start one, so if the start and continue classes were
    // confused this would wrongly succeed.
    let src: Vec<char> = "1abc".chars().collect();
    assert!(matches!(text::ident().parse(&src), Err(Simple::Text { .. })));
    let under: Vec<char> = "_x".chars().collect();
    // an underscore lacks the identifier-start property in this profile
    assert!(text::ident().parse(&under).is_err());
}

#[test]
fn unicode_keyword_rejects_longer_identifiers() {
    let def: Vec<char> = "def".chars().collect();
    let kw = text::keyword("def".chars().collect());
    assert_eq!(kw.parse(&def), Ok("def".chars().collect::<Vec<char>>()));
    let call: Vec<char> = "def(foo)".chars().collect();
    assert_eq!(kw.parse(&call), Ok("def".chars().collect::<Vec<char>>()));
    let longer: Vec<char> = "define".chars().collect();
    assert!(kw.parse(&longer).is_err());
}

#[test]
fn ascii_ident_and_keyword() {
    let src: Vec<char> = "catch".chars().collect();
    assert_eq!(
        text::ascii::ident().parse(&src),
        Ok("catch".chars().collect::<Vec<char>>())
    );
    let under: Vec<char> = "_private9".chars().collect();
    assert_eq!(
        text::ascii::ident().parse(&under),
        Ok("_private9".chars().collect::<Vec<char>>())
    );
    let kw = text::ascii::keyword("if".chars().collect());
    let hit: Vec<char> = "if x".chars().collect();
    assert_eq!(kw.parse(&hit), Ok("if".chars().collect::<Vec<char>>()));
    let miss: Vec<char> = "iffy".chars().collect();
    assert!(kw.parse(&miss).is_err());
}

#[test]
fn newline_accepts_every_newline_form() {
    for s in ["\n", "\r", "\r\n", "\x0B", "\x0C", "\u{0085}", "\u{2028}", "\u{2029}"] {
        let src: Vec<char> = s.chars().collect();
        let mut inp = Input::new(&src);
        assert_eq!(newline().parse_with(&mut inp), Ok(()));
        assert_eq!(inp.offset(), src.len());
    }
    let not: Vec<char> = "x".chars().collect();
    assert!(matches!(newline().parse(&not), Err(Simple::Text { .. })));
}

#[test]
fn line_ending_primitives() {
    let lf_src: Vec<char> = "\n".chars().collect();
    assert_eq!(text::lf().parse(&lf_src), Ok(vec!['\n']));
    let cr_src: Vec<char> = "\r".chars().collect();
    assert_eq!(text::cr().parse(&cr_src), Ok(vec!['\r']));
    let crlf_src: Vec<char> = "\r\n".chars().collect();
    assert_eq!(text::crlf().parse(&crlf_src), Ok(vec!['\r', '\n']));
}

#[test]
fn digits_needs_at_least_one_digit() {
    let src: Vec<char> = "01234x".chars().collect();
    let mut inp = Input::new(&src);
    let p = digits(10).collect();
    assert_eq!(
        p.parse_with(&mut inp),
        Ok("01234".chars().collect::<Vec<char>>())
    );
    assert_eq!(inp.offset(), 5);
    let empty: Vec<char> = Vec::new();
    assert!(p.parse(&empty).is_err());
}

#[test]
fn integer_takes_a_zero_or_a_nonzero_run() {
    let zero: Vec<char> = "0".chars().collect();
    assert_eq!(integer(10).parse(&zero), Ok(vec!['0']));
    let n: Vec<char> = "98345 tail".chars().collect();
    let mut inp = Input::new(&n);
    assert_eq!(
        integer(10).parse_with(&mut inp),
        Ok("98345".chars().collect::<Vec<char>>())
    );
    assert_eq!(inp.offset(), 5);
    let hex: Vec<char> = "ff".chars().collect();
    assert_eq!(integer(16).parse(&hex), Ok(vec!['f', 'f']));
    let bad: Vec<char> = "x1".chars().collect();
    assert!(matches!(integer(10).parse(&bad), Err(Simple::Text { .. })));
}

#[test]
fn whitespace_accepts_any_amount_including_none() {
    let src: Vec<char> = "\t \n  \r ".chars().collect();
    let mut inp = Input::new(&src);
    let p = whitespace().collect();
    assert!(p.parse_with(&mut inp).is_ok());
    assert_eq!(inp.offset(), src.len());
    let empty: Vec<char> = Vec::new();
    assert!(p.parse(&empty).is_ok());
}

#[test]
fn inline_whitespace_stops_at_newlines() {
    let src: Vec<char> = "\t  \n".chars().collect();
    let mut inp = Input::new(&src);
    let p = inline_whitespace().collect();
    assert!(p.parse_with(&mut inp).is_ok());
    assert_eq!(inp.offset(), 3);
    let newline_only: Vec<char> = "\n\r".chars().collect();
    let strict = inline_whitespace().at_least(1).collect();
    assert!(strict.parse(&newline_only).is_err());
}

#[test]
fn padded_strips_whitespace_on_both_sides() {
    let src: Vec<char> = "  ab\t ".chars().collect();
    let mut inp = Input::new(&src);
    let p = padded(just("ab".chars().collect()));
    assert_eq!(p.parse_with(&mut inp), Ok("ab".chars().collect::<Vec<char>>()));
    assert_eq!(inp.offset(), src.len());
}

#[test]
fn just_ignore_case_matches_either_case_and_returns_the_input_text() {
    let src: Vec<char> = "HeLLo!".chars().collect();
    let mut inp = Input::new(&src);
    let p = just_ignore_case("hello".chars().collect());
    assert_eq!(
        p.parse_with(&mut inp),
        Ok("HeLLo".chars().collect::<Vec<char>>())
    );
    assert_eq!(inp.offset(), 5);
    let miss: Vec<char> = "help".chars().collect();
    assert!(p.parse(&miss).is_err());
}

#[test]
fn char_classes_answer_like_their_specifications() {
    assert!(Char::is_whitespace(&' '));
    assert!(Char::is_whitespace(&'\u{2028}'));
    assert!(!Char::is_whitespace(&'x'));
    assert!(Char::is_inline_whitespace(&'\t'));
    assert!(!Char::is_inline_whitespace(&'\n'));
    assert!(Char::is_digit(&'7', 10));
    assert!(!Char::is_digit(&'a', 10));
    assert!(Char::is_digit(&'a', 16));
    assert!(Char::is_ident_start(&'a'));
    assert!(!Char::is_ident_start(&'1'));
    assert!(Char::is_ident_continue(&'1'));
    assert_eq!(Char::to_char(&'q'), 'q');
    assert_eq!(<char as Char>::digit_zero(), '0');
    assert_eq!(<char as Char>::from_ascii(b'a'), 'a');
}
