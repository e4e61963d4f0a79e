use aott::error::{Simple, Span};
use aott::input::Input;
use aott::iter::IterParser;
use aott::parser::Parser;
use aott::primitive::just::just;
use aott::primitive::sequence::{separated_by, slice, with_slice, Repeated};
use aott::primitive::tuple::{then, then_ignore};
use aott::primitive::{any, end};

#[test]
fn repeated_without_bounds_never_fails() {
    // P3: the longest run is taken and the cursor ends exactly after the
    // last successful match.
    let src: Vec<char> = "ababx".chars().collect();
    let mut inp = Input::new(&src);
    let p = just("ab".chars().collect()).repeated().collect();
    let r = p.parse_with(&mut inp);
    assert_eq!(
        r,
        Ok(vec![
            "ab".chars().collect::<Vec<char>>(),
            "ab".chars().collect::<Vec<char>>(),
        ])
    );
    assert_eq!(inp.offset(), 4);

    let empty: Vec<char> = Vec::new();
    let q = just("ab".chars().collect()).repeated().collect();
    assert_eq!(q.parse(&empty), Ok(Vec::<Vec<char>>::new()));
}

#[test]
fn repeated_at_least_raises_not_enough() {
    let src: Vec<char> = "ab".chars().collect();
    let p = just("ab".chars().collect()).repeated().at_least(2).collect();
    let e = p.parse(&src);
    match e {
        Err(Simple::Sequence { label, .. }) => {
            assert_eq!(
                label,
                aott::error::SeqLabel::NotEnough { expected: 2, found: 1 }
            );
        },
        other => panic!("expected a not-enough failure, got {:?}", other),
    }
}

#[test]
fn repeated_at_most_stops_at_the_cap() {
    let src: Vec<char> = "aaaa".chars().collect();
    let mut inp = Input::new(&src);
    let p = just("a".chars().collect()).repeated().at_most(2).collect();
    let r = p.parse_with(&mut inp);
    assert_eq!(r, Ok(vec![vec!['a'], vec!['a']]));
    assert_eq!(inp.offset(), 2);
}

#[test]
fn repeated_exactly_is_both_bounds() {
    let src: Vec<char> = "aaa".chars().collect();
    let mut inp = Input::new(&src);
    let p = just("a".chars().collect()).repeated().exactly(3).collect();
    assert_eq!(p.parse_with(&mut inp), Ok(vec![vec!['a'], vec!['a'], vec!['a']]));
    assert_eq!(inp.offset(), 3);
}

#[test]
fn separated_by_with_and_without_trailing() {
    // P4: with allow_trailing, "a,b,c," produces [a,b,c]; without it the
    // trailing comma is left unconsumed.
    let src: Vec<char> = "a,b,c,".chars().collect();

    let mut inp = Input::new(&src);
    let plain = separated_by(just("a".chars().collect()).or(just("b".chars().collect())).or(
        just("c".chars().collect()),
    ), just(",".chars().collect())).collect();
    let r = plain.parse_with(&mut inp);
    assert_eq!(
        r,
        Ok(vec![vec!['a'], vec!['b'], vec!['c']])
    );
    assert_eq!(inp.offset(), 5);

    let mut inp2 = Input::new(&src);
    let trailing = separated_by(just("a".chars().collect()).or(just("b".chars().collect())).or(
        just("c".chars().collect()),
    ), just(",".chars().collect())).allow_trailing().collect();
    let r2 = trailing.parse_with(&mut inp2);
    assert_eq!(
        r2,
        Ok(vec![vec!['a'], vec!['b'], vec!['c']])
    );
    assert_eq!(inp2.offset(), 6);
}

#[test]
fn separated_by_allow_leading_accepts_a_leading_delimiter() {
    let src: Vec<char> = ",a,b".chars().collect();
    let p = separated_by(
        just("a".chars().collect()).or(just("b".chars().collect())),
        just(",".chars().collect()),
    )
        .allow_leading()
        .collect();
    assert_eq!(p.parse(&src), Ok(vec![vec!['a'], vec!['b']]));
}

#[test]
fn separated_by_under_minimum_raises_not_enough() {
    let src: Vec<char> = "a".chars().collect();
    let p = separated_by(just("a".chars().collect()), just(",".chars().collect()))
        .at_least(2)
        .collect();
    assert!(matches!(
        p.parse(&src),
        Err(Simple::Sequence { label: aott::error::SeqLabel::NotEnough { expected: 2, found: 1 }, .. })
    ));
}

#[test]
fn until_stops_before_the_terminator_without_consuming_it() {
    let src: Vec<char> = "ab!".chars().collect();
    let mut inp = Input::new(&src);
    let items = Repeated {
        parser: any(),
        at_least: 0,
        at_most: u64::MAX,
        phantom: core::marker::PhantomData,
    };
    let p = items.until(just("!".chars().collect())).collect();
    assert_eq!(p.parse_with(&mut inp), Ok(vec!['a', 'b']));
    assert_eq!(inp.offset(), 2);
}

#[test]
fn slice_returns_the_exact_consumed_text() {
    // P7: slice() over just("ab").then(just("cd")) on "abcd" is "abcd".
    let src: Vec<char> = "abcd".chars().collect();
    let p = slice(then(just("ab".chars().collect()), just("cd".chars().collect())));
    assert_eq!(p.parse(&src), Ok("abcd".chars().collect::<Vec<char>>()));

    let q = then(just("ab".chars().collect()), just("cd".chars().collect())).slice();
    assert_eq!(q.parse(&src), Ok("abcd".chars().collect::<Vec<char>>()));
}

#[test]
fn with_slice_hands_back_the_borrowed_range() {
    let src: Vec<char> = "abcd".chars().collect();
    let mut inp = Input::new(&src);
    let p = then(just("ab".chars().collect()), just("cd".chars().collect()));
    let s = with_slice(&mut inp, &p).unwrap();
    assert_eq!(s, &src[..]);
    assert_eq!(inp.offset(), 4);
}

#[test]
fn repetition_composes_with_end() {
    let src: Vec<char> = "aaa".chars().collect();
    let p = then_ignore(just("a".chars().collect()).repeated().collect(), end());
    assert_eq!(p.parse(&src), Ok(vec![vec!['a'], vec!['a'], vec!['a']]));
    let bad: Vec<char> = "aab".chars().collect();
    assert_eq!(
        p.parse(&bad),
        Err(Simple::ExpectedEOF { found: 'b', span: Span { start: 2, end: 3 } })
    );
}
