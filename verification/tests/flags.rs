use combine::consumed::Consumed;
use combine::error::ParseError;
use combine::info::{Error, Info};
use combine::position::SourcePosition;
use combine::state::{ParseResult, State};

fn at(line: i32, column: i32) -> SourcePosition {
    SourcePosition { line: line, column: column }
}

fn state(column: i32, input: &'static str) -> State<&'static str> {
    State { position: at(1, column), input: input }
}

fn failure(column: i32) -> ParseError<&'static str> {
    ParseError::new(at(1, column), Error::Expected(Info::Borrowed("x")))
}

#[test]
fn projections_of_the_flag() {
    assert!(Consumed::Empty(1).is_empty());
    assert!(!Consumed::Consumed(1).is_empty());
    assert_eq!(Consumed::Empty(7).into_inner(), 7);
    assert_eq!(Consumed::Consumed(8).into_inner(), 8);
    assert_eq!(Consumed::Empty(7).as_consumed(), Consumed::Consumed(7));
    assert_eq!(Consumed::Consumed(7).as_consumed(), Consumed::Consumed(7));
    assert_eq!(Consumed::Empty(7).as_empty(), Consumed::Empty(7));
    assert_eq!(Consumed::Consumed(7).as_empty(), Consumed::Empty(7));
}

#[test]
fn map_keeps_the_flag() {
    assert_eq!(Consumed::Empty(2).map(|x| x * 10), Consumed::Empty(20));
    assert_eq!(Consumed::Consumed(2).map(|x| x + 1), Consumed::Consumed(3));
    assert_eq!(Consumed::Consumed("ab").map(|s| s.len()), Consumed::Consumed(2));
}

#[test]
fn combine_on_empty_returns_what_the_function_does() {
    let r: ParseResult<char, &str> =
        Consumed::Empty(state(1, "ab")).combine(|s| Ok(('v', Consumed::Empty(s))));
    assert_eq!(r, Ok(('v', Consumed::Empty(state(1, "ab")))));
    let r: ParseResult<char, &str> =
        Consumed::Empty(state(1, "ab")).combine(|_| Ok(('v', Consumed::Consumed(state(2, "b")))));
    assert_eq!(r, Ok(('v', Consumed::Consumed(state(2, "b")))));
    let r: ParseResult<char, &str> =
        Consumed::Empty(state(1, "ab")).combine(|_| Err(Consumed::Empty(failure(1))));
    assert_eq!(r, Err(Consumed::Empty(failure(1))));
    let r: ParseResult<char, &str> =
        Consumed::Empty(state(1, "ab")).combine(|_| Err(Consumed::Consumed(failure(2))));
    assert_eq!(r, Err(Consumed::Consumed(failure(2))));
}

#[test]
fn combine_on_consumed_never_returns_empty() {
    let r: ParseResult<char, &str> =
        Consumed::Consumed(state(2, "b")).combine(|s| Ok(('v', Consumed::Empty(s))));
    assert_eq!(r, Ok(('v', Consumed::Consumed(state(2, "b")))));
    let r: ParseResult<char, &str> =
        Consumed::Consumed(state(2, "b")).combine(|_| Ok(('v', Consumed::Consumed(state(3, "")))));
    assert_eq!(r, Ok(('v', Consumed::Consumed(state(3, "")))));
    let r: ParseResult<char, &str> =
        Consumed::Consumed(state(2, "b")).combine(|_| Err(Consumed::Empty(failure(2))));
    assert_eq!(r, Err(Consumed::Consumed(failure(2))));
    let r: ParseResult<char, &str> =
        Consumed::Consumed(state(2, "b")).combine(|_| Err(Consumed::Consumed(failure(3))));
    assert_eq!(r, Err(Consumed::Consumed(failure(3))));
}

#[test]
fn combine_hands_the_contained_value_on() {
    let r: ParseResult<i32, &str> =
        Consumed::Consumed(41).combine(|n| Ok((n + 1, Consumed::Empty(state(1, "")))));
    assert_eq!(r, Ok((42, Consumed::Consumed(state(1, "")))));
}
