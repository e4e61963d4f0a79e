use aott::error::{Error, Simple, Span};
use aott::input::{Input, InputOwned};
use aott::parser::Parser;
use aott::primitive::just::just;

#[test]
fn rewind_is_idempotent() {
    // P5: rewinding to a marker any number of times in a row leaves the
    // cursor in the exact state at the save.
    let src: Vec<char> = "abcdef".chars().collect();
    let mut inp = Input::new(&src);
    assert_eq!(inp.next(), Ok('a'));
    assert_eq!(inp.next(), Ok('b'));
    let m = inp.save();
    let saved_offset = inp.offset();
    assert_eq!(inp.next(), Ok('c'));
    assert_eq!(inp.next(), Ok('d'));
    inp.rewind(m);
    assert_eq!(inp.offset(), saved_offset);
    inp.rewind(m);
    assert_eq!(inp.offset(), saved_offset);
    inp.rewind(m);
    assert_eq!(inp.offset(), saved_offset);
    assert_eq!(inp.next(), Ok('c'));
}

#[test]
fn next_peek_current_and_spans() {
    let src: Vec<char> = "xy".chars().collect();
    let mut inp = Input::new(&src);
    assert_eq!(inp.peek(), Ok('x'));
    assert_eq!(inp.offset(), 0);
    assert_eq!(inp.next(), Ok('x'));
    assert_eq!(inp.current(), Some('x'));
    assert_eq!(inp.span_since(0), Span { start: 0, end: 1 });
    assert_eq!(inp.next_or_none(), Some('y'));
    assert_eq!(inp.next_or_none(), None);
    assert_eq!(
        inp.next(),
        Err(Simple::UnexpectedEOF { span: Span { start: 2, end: 2 }, expected: None })
    );
}

#[test]
fn skip_consumes_one_token() {
    let src: Vec<char> = "ab".chars().collect();
    let mut inp = Input::new(&src);
    assert_eq!(inp.skip(), Ok(()));
    assert_eq!(inp.offset(), 1);
}

#[test]
fn slices_are_zero_copy_views_of_the_source() {
    let src: Vec<char> = "hello".chars().collect();
    let mut inp = Input::new(&src);
    inp.next().unwrap();
    inp.next().unwrap();
    assert_eq!(inp.slice_since(0), &src[0..2]);
    assert_eq!(inp.full_slice(), &src[..]);
    assert_eq!(inp.slice(Span { start: 1, end: 4 }), &src[1..4]);
}

#[test]
fn contexts_are_threaded_through_the_parse() {
    let src: Vec<char> = "ab".chars().collect();
    let cx = 42u64;
    let inp = Input::new_with_context(&src, &cx);
    assert_eq!(*inp.context(), 42);
    let no = inp.no_context();
    assert_eq!(no.offset(), 0);
    let other = 7u32;
    let with = inp.with_context(&other);
    assert_eq!(*with.context(), 7);
    let p = just("ab".chars().collect());
    assert_eq!(
        p.parse_with_context(&src, &cx),
        Ok("ab".chars().collect::<Vec<char>>())
    );
}

#[test]
fn input_owned_hands_out_cursors_at_zero() {
    let mut owned = InputOwned::from_input("abc".chars().collect());
    let mut inp = owned.as_ref_at_zero();
    assert_eq!(inp.next(), Ok('a'));

    let mut owned2 = InputOwned::from_input_with_context("z".chars().collect(), 5u8);
    let mut inp2 = owned2.as_ref_at_zero();
    assert_eq!(*inp2.context(), 5);
    assert_eq!(inp2.next(), Ok('z'));
}

#[test]
fn maybe_deref_borrows_and_clones() {
    let v = 10u32;
    let r = aott::MaybeDeref::Ref(&v);
    assert_eq!(*r.borrow_as_t(), 10);
    assert_eq!(r.into_clone(), 10);
    let o = aott::MaybeDeref::<u32>::Val(3);
    assert_eq!(*o.borrow_as_t(), 3);
    assert_eq!(o.into_clone(), 3);
}

#[test]
fn emitters_collect_errors_in_order() {
    let mut em = aott::parser::Emitter::<u32>(Vec::new());
    em.emit(1);
    em.emit(2);
    assert_eq!(em.0, vec![1, 2]);
}

#[test]
fn located_pairs_an_error_with_its_position() {
    let l = aott::error::Located::at(3usize, 'x');
    assert_eq!(l.pos, 3);
    assert_eq!(l.err, 'x');
}

#[test]
fn error_constructors_build_the_described_failures() {
    let span = Span { start: 1, end: 2 };
    assert_eq!(
        <Simple as Error>::expected_eof_found(span, 'x'),
        Simple::ExpectedEOF { found: 'x', span }
    );
    assert_eq!(
        <Simple as Error>::unexpected_eof(span, Some(vec!['a'])),
        Simple::UnexpectedEOF { span, expected: Some(vec!['a']) }
    );
    assert_eq!(
        <Simple as Error>::expected_token_found(span, vec!['a', 'b'], 'z'),
        Simple::ExpectedTokenFound { span, expected: vec!['a', 'b'], found: 'z' }
    );
}

#[test]
fn the_dispatcher_picks_the_variant_by_what_was_found() {
    let span = Span { start: 0, end: 1 };
    assert_eq!(
        <Simple as Error>::expected_token_found_or_eof(span, vec!['a'], Some('b')),
        Simple::ExpectedTokenFound { span, expected: vec!['a'], found: 'b' }
    );
    assert_eq!(
        <Simple as Error>::expected_token_found_or_eof(span, vec!['a'], None),
        Simple::UnexpectedEOF { span, expected: Some(vec!['a']) }
    );
}

#[test]
fn errors_duplicate_with_the_same_content() {
    let e = Simple::ExpectedTokenFound {
        span: Span { start: 3, end: 4 },
        expected: vec!['q'],
        found: 'r',
    };
    assert_eq!(e.dup(), e);
}
