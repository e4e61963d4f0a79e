use aott::error::{filtering, Simple, Span};
use aott::parser::Parser;
use aott::primitive::filter::{filter, filter_map, rewind};
use aott::primitive::just::just;
use aott::primitive::map::try_map_with;
use aott::primitive::sequence::{delimited, none_of, one_of};
use aott::primitive::take::{take, take_exact};
use aott::primitive::tuple::{ignore_then, then, then_ignore, tuple};
use aott::primitive::{any, end, maybe};
use aott::input::Input;

#[test]
fn just_consumes_exactly_the_sequence() {
    // P1: on `S ++ rest`, just(S) consumes exactly S and leaves the cursor
    // at the start of rest.
    let src: Vec<char> = "abcrest".chars().collect();
    let mut inp = Input::new(&src);
    let p = just("abc".chars().collect());
    let r = p.parse_with(&mut inp);
    assert_eq!(r, Ok("abc".chars().collect::<Vec<char>>()));
    assert_eq!(inp.offset(), 3);
}

#[test]
fn just_reports_the_first_mismatch() {
    let src: Vec<char> = "abX".chars().collect();
    let p = just("abc".chars().collect());
    assert_eq!(
        p.parse(&src),
        Err(Simple::ExpectedTokenFound {
            span: Span { start: 2, end: 3 },
            expected: vec!['c'],
            found: 'X',
        })
    );
}

#[test]
fn just_reports_premature_end_of_input() {
    let src: Vec<char> = "ab".chars().collect();
    let p = just("abc".chars().collect());
    assert_eq!(
        p.parse(&src),
        Err(Simple::UnexpectedEOF {
            span: Span { start: 2, end: 2 },
            expected: Some(vec!['c']),
        })
    );
}

#[test]
fn any_returns_the_next_token_and_fails_at_eof() {
    let src: Vec<char> = "x".chars().collect();
    assert_eq!(any().parse(&src), Ok('x'));
    let empty: Vec<char> = Vec::new();
    assert_eq!(
        any().parse(&empty),
        Err(Simple::UnexpectedEOF { span: Span { start: 0, end: 0 }, expected: None })
    );
}

#[test]
fn end_accepts_only_the_end_of_input() {
    let empty: Vec<char> = Vec::new();
    assert_eq!(end().parse(&empty), Ok(()));
    let src: Vec<char> = "x".chars().collect();
    assert_eq!(
        end().parse(&src),
        Err(Simple::ExpectedEOF { found: 'x', span: Span { start: 0, end: 1 } })
    );
}

#[test]
fn or_takes_the_second_alternative_with_full_rewind() {
    // P2: where A fails and B succeeds, the result is B's, with the cursor
    // positioned as if A had never been tried.
    let src: Vec<char> = "world".chars().collect();
    let mut inp = Input::new(&src);
    let p = just("hello".chars().collect()).or(just("world".chars().collect()));
    let r = p.parse_with(&mut inp);
    assert_eq!(r, Ok("world".chars().collect::<Vec<char>>()));
    assert_eq!(inp.offset(), 5);
}

#[test]
fn choice_takes_the_first_success_and_keeps_the_last_error() {
    let src: Vec<char> = "c".chars().collect();
    let p = aott::primitive::choice::choice(vec![
        just("a".chars().collect()),
        just("c".chars().collect()),
        just("b".chars().collect()),
    ]);
    assert_eq!(p.parse(&src), Ok(vec!['c']));
    let bad: Vec<char> = "z".chars().collect();
    let p2 = aott::primitive::choice::choice(vec![
        just("a".chars().collect()),
        just("b".chars().collect()),
    ]);
    // all alternatives fail: the last error is reported
    assert_eq!(
        p2.parse(&bad),
        Err(Simple::ExpectedTokenFound {
            span: Span { start: 0, end: 1 },
            expected: vec!['b'],
            found: 'z',
        })
    );
}

#[test]
fn maybe_rewinds_and_returns_none_on_failure() {
    let src: Vec<char> = "dontmatch".chars().collect();
    let mut inp = Input::new(&src);
    let p = maybe(just("domatch".chars().collect()));
    assert_eq!(p.parse_with(&mut inp), Ok(None));
    assert_eq!(inp.offset(), 0);
    let hit: Vec<char> = "domatch".chars().collect();
    assert_eq!(
        p.parse(&hit),
        Ok(Some("domatch".chars().collect::<Vec<char>>()))
    );
}

#[test]
fn filter_accepts_and_rejects_by_predicate() {
    let src: Vec<char> = "q".chars().collect();
    let p = filter(|c: &char| *c == 'q', filtering("the letter q"));
    assert_eq!(p.parse(&src), Ok('q'));
    let bad: Vec<char> = "r".chars().collect();
    let e = p.parse(&bad);
    assert!(matches!(e, Err(Simple::Filtering { .. })));
}

#[test]
fn filter_map_maps_or_raises_the_label() {
    let src: Vec<char> = "7".chars().collect();
    let p = filter_map(
        |c: char| c.to_digit(10),
        filtering("a digit"),
    );
    assert_eq!(p.parse(&src), Ok(7));
    let bad: Vec<char> = "x".chars().collect();
    assert!(matches!(p.parse(&bad), Err(Simple::Filtering { .. })));
}

#[test]
fn rewind_restores_the_position_after_success() {
    let src: Vec<char> = "ab".chars().collect();
    let mut inp = Input::new(&src);
    let p = rewind(just("ab".chars().collect()));
    assert_eq!(p.parse_with(&mut inp), Ok("ab".chars().collect::<Vec<char>>()));
    assert_eq!(inp.offset(), 0);
}

#[test]
fn one_of_and_none_of_partition_tokens() {
    let src: Vec<char> = "abcd".chars().collect();
    assert_eq!(none_of("bcd".chars().collect()).parse(&src), Ok('a'));
    assert_eq!(one_of("ba".chars().collect()).parse(&src), Ok('a'));
    let e = one_of("xy".chars().collect()).parse(&src);
    assert!(matches!(e, Err(Simple::Sequence { .. })));
}

#[test]
fn then_keeps_both_ignore_then_and_then_ignore_pick_one() {
    let src: Vec<char> = "abcd".chars().collect();
    let both = then(just("ab".chars().collect()), just("cd".chars().collect()));
    assert_eq!(
        both.parse(&src),
        Ok(("ab".chars().collect::<Vec<char>>(), "cd".chars().collect::<Vec<char>>()))
    );
    let second = ignore_then(just("ab".chars().collect()), just("cd".chars().collect()));
    assert_eq!(second.parse(&src), Ok("cd".chars().collect::<Vec<char>>()));
    let first = then_ignore(just("ab".chars().collect()), just("cd".chars().collect()));
    assert_eq!(first.parse(&src), Ok("ab".chars().collect::<Vec<char>>()));
}

#[test]
fn tuples_run_in_order_and_fail_on_the_first_failure() {
    let src: Vec<char> = "abc".chars().collect();
    let p = tuple((just("a".chars().collect()), just("b".chars().collect()), just(
        "c".chars().collect(),
    )));
    assert_eq!(
        p.parse(&src),
        Ok((vec!['a'], vec!['b'], vec!['c']))
    );
    let bad: Vec<char> = "axc".chars().collect();
    assert!(p.parse(&bad).is_err());
}

#[test]
fn delimited_keeps_only_the_content() {
    let src: Vec<char> = "\"h\"".chars().collect();
    let p = delimited(just("\"".chars().collect()), any(), just("\"".chars().collect()));
    assert_eq!(p.parse(&src), Ok('h'));
}

#[test]
fn map_and_to_transform_the_output() {
    let src: Vec<char> = "ab".chars().collect();
    let p = just("ab".chars().collect()).map(|v: Vec<char>| v.len());
    assert_eq!(p.parse(&src), Ok(2));
    let q = just("ab".chars().collect()).to(7u32);
    assert_eq!(q.parse(&src), Ok(7));
}

#[test]
fn try_map_failures_surface_at_the_consumed_span() {
    let src: Vec<char> = "ab".chars().collect();
    let p = try_map_with(just("ab".chars().collect()), |v: Vec<char>, _sp: Span| {
        Ok::<usize, Simple>(v.len())
    });
    assert_eq!(p.parse(&src), Ok(2));
    let q = just("ab".chars().collect()).try_map(|_v: Vec<char>, sp: Span| {
        Err::<usize, Simple>(Simple::ExpectedEOF { found: 'a', span: sp })
    });
    assert_eq!(
        q.parse(&src),
        Err(Simple::ExpectedEOF { found: 'a', span: Span { start: 0, end: 2 } })
    );
}

#[test]
fn take_returns_up_to_the_requested_tokens() {
    let src: Vec<char> = "abcde".chars().collect();
    assert_eq!(take(3usize).parse(&src), Ok(vec!['a', 'b', 'c']));
    assert_eq!(take((2usize, 9usize)).parse(&src), Ok("abcde".chars().collect::<Vec<char>>()));
    let short: Vec<char> = "a".chars().collect();
    assert!(take((2usize, 4usize)).parse(&short).is_err());
}

#[test]
fn take_exact_needs_exactly_that_many() {
    let src: Vec<char> = "abc".chars().collect();
    assert_eq!(take_exact::<2>().parse(&src), Ok(vec!['a', 'b']));
    let short: Vec<char> = "a".chars().collect();
    assert!(take_exact::<2>().parse(&short).is_err());
}

#[test]
fn ignored_discards_the_output() {
    let src: Vec<char> = "ab".chars().collect();
    let p = just("ab".chars().collect()).ignored();
    assert_eq!(p.parse(&src), Ok(()));
}

#[test]
fn check_with_consumes_like_parse_with() {
    let src: Vec<char> = "abcd".chars().collect();
    let p = just("ab".chars().collect());
    let mut i1 = Input::new(&src);
    let mut i2 = Input::new(&src);
    assert!(p.parse_with(&mut i1).is_ok());
    assert!(p.check_with(&mut i2).is_ok());
    assert_eq!(i1.offset(), i2.offset());
    let bad: Vec<char> = "axcd".chars().collect();
    let mut j1 = Input::new(&bad);
    let mut j2 = Input::new(&bad);
    let e1 = p.parse_with(&mut j1);
    let e2 = p.check_with(&mut j2);
    assert_eq!(e1.unwrap_err(), e2.unwrap_err());
    assert_eq!(j1.offset(), j2.offset());
}
