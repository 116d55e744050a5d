use combine::consumed::Consumed;
use combine::error::ParseError;
use combine::info::{Error, Info};
use combine::parser::{finish, Parser};
use combine::position::SourcePosition;
use combine::positioner::Positioner;
use combine::state::{ParseResult, State};

fn at(line: i32, column: i32) -> SourcePosition {
    SourcePosition { line: line, column: column }
}

/// Takes one digit; says what it expected through `add_error`.
struct Digit;

impl Parser for Digit {
    type Input = &'static str;
    type Output = char;

    fn parse_lazy(&mut self, input: State<&'static str>) -> ParseResult<char, &'static str> {
        let position = input.position;
        match input.uncons() {
            Ok((c, rest)) if c.is_ascii_digit() => Ok((c, rest)),
            Ok(_) => Err(Consumed::Empty(ParseError::empty(position))),
            Err(error) => Err(error),
        }
    }

    fn add_error(&mut self, error: &mut ParseError<&'static str>) {
        error.add_error(Error::Expected(Info::Borrowed("digit")));
    }
}

/// Takes two digits; the second failure comes after something was consumed.
struct TwoDigits;

impl Parser for TwoDigits {
    type Input = &'static str;
    type Output = (char, char);

    fn parse_lazy(
        &mut self,
        input: State<&'static str>,
    ) -> ParseResult<(char, char), &'static str> {
        let (a, rest) = Digit.parse_state(input)?;
        rest.combine(|rest| {
            let (b, rest) = Digit.parse_state(rest)?;
            Ok(((a, b), rest))
        })
    }
}

/// Succeeds without drawing anything.
struct Nothing;

impl Parser for Nothing {
    type Input = &'static str;
    type Output = ();

    fn parse_lazy(&mut self, input: State<&'static str>) -> ParseResult<(), &'static str> {
        Ok(((), Consumed::Empty(input)))
    }
}

#[test]
fn parse_returns_output_and_rest() {
    assert_eq!(Digit.parse("12"), Ok(('1', "2")));
    assert_eq!(TwoDigits.parse("123"), Ok((('1', '2'), "3")));
    assert_eq!(Nothing.parse("abc"), Ok(((), "abc")));
}

#[test]
fn success_is_consumed_exactly_when_items_are_gone() {
    let r = Digit.parse_state(State::new("7x"));
    assert_eq!(r, Ok(('7', Consumed::Consumed(State { position: at(1, 2), input: "x" }))));
    let r = Nothing.parse_state(State::new("7x"));
    assert_eq!(r, Ok(((), Consumed::Empty(State { position: at(1, 1), input: "7x" }))));
}

#[test]
fn empty_failure_names_the_token_and_the_expectation() {
    let r = Digit.parse_state(State::new("x1"));
    assert_eq!(
        r,
        Err(Consumed::Empty(ParseError::from_errors(
            at(1, 1),
            vec![
                Error::Unexpected(Info::Token('x')),
                Error::Expected(Info::Borrowed("digit")),
            ]
        )))
    );
    assert_eq!(
        Digit.parse("x1"),
        Err(ParseError::from_errors(
            at(1, 1),
            vec![
                Error::Unexpected(Info::Token('x')),
                Error::Expected(Info::Borrowed("digit")),
            ]
        ))
    );
}

#[test]
fn empty_failure_at_the_end_comes_back_as_it_is() {
    let r = Digit.parse_state(State::new(""));
    assert_eq!(r, Digit.parse_lazy(State::new("")));
    assert_eq!(
        r,
        Err(Consumed::Empty(ParseError::from_errors(
            at(1, 1),
            vec![Error::Message(Info::Borrowed("End of input"))]
        )))
    );
}

#[test]
fn success_comes_back_as_parse_lazy_gave_it() {
    assert_eq!(Digit.parse_state(State::new("7x")), Digit.parse_lazy(State::new("7x")));
    assert_eq!(Nothing.parse_state(State::new("7x")), Nothing.parse_lazy(State::new("7x")));
}

#[test]
fn consumed_failure_comes_back_as_parse_lazy_gave_it() {
    assert_eq!(TwoDigits.parse_state(State::new("1x")), TwoDigits.parse_lazy(State::new("1x")));
}

/// Fails without consuming, with the token already noted.
struct Noted;

impl Parser for Noted {
    type Input = &'static str;
    type Output = char;

    fn parse_lazy(&mut self, input: State<&'static str>) -> ParseResult<char, &'static str> {
        Err(Consumed::Empty(ParseError::from_errors(
            input.position,
            vec![
                Error::Message(Info::Borrowed("m")),
                Error::Unexpected(Info::Token('x')),
            ],
        )))
    }
}

#[test]
fn the_token_is_noted_once_and_is_the_first_of_the_input() {
    let r = Noted.parse_state(State { position: at(3, 4), input: "xy" });
    assert_eq!(
        r,
        Err(Consumed::Empty(ParseError::from_errors(
            at(3, 4),
            vec![
                Error::Message(Info::Borrowed("m")),
                Error::Unexpected(Info::Token('x')),
            ]
        )))
    );
    let r = Noted.parse_state(State { position: at(3, 4), input: "yx" });
    assert_eq!(
        r,
        Err(Consumed::Empty(ParseError::from_errors(
            at(3, 4),
            vec![
                Error::Message(Info::Borrowed("m")),
                Error::Unexpected(Info::Token('x')),
                Error::Unexpected(Info::Token('y')),
            ]
        )))
    );
}

#[test]
fn parse_lazy_leaves_the_failure_as_it_is() {
    let r = Digit.parse_lazy(State::new("x1"));
    assert_eq!(r, Err(Consumed::Empty(ParseError::empty(at(1, 1)))));
}

#[test]
fn failure_after_consuming_is_flagged_consumed() {
    let r = TwoDigits.parse_state(State::new("1x"));
    assert_eq!(
        r,
        Err(Consumed::Consumed(ParseError::from_errors(
            at(1, 2),
            vec![
                Error::Unexpected(Info::Token('x')),
                Error::Expected(Info::Borrowed("digit")),
            ]
        )))
    );
    let r = TwoDigits.parse_state(State::new("x"));
    match r {
        Err(error) => {
            assert!(error.is_empty());
            assert_eq!(error.into_inner().position, at(1, 1));
        }
        Ok(_) => panic!("no digit stands first"),
    }
}

/// Runs every method of a parser that is known by its trait alone.
fn all_of<P>(mut parser: P) -> (
    Result<(char, &'static str), ParseError<&'static str>>,
    ParseResult<char, &'static str>,
    ParseResult<char, &'static str>,
    ParseError<&'static str>,
)
where
    P: Parser<Input = &'static str, Output = char>,
{
    let parsed = parser.parse("5x");
    let state = parser.parse_state(State::new("x"));
    let lazy = parser.parse_lazy(State::new("x"));
    let mut error = ParseError::empty(at(1, 1));
    parser.add_error(&mut error);
    (parsed, state, lazy, error)
}

#[test]
fn borrowed_and_boxed_parsers_do_as_the_parser_does() {
    let direct = all_of(Digit);
    assert_eq!(direct.0, Ok(('5', "x")));
    assert_eq!(direct.3.errors, vec![Error::Expected(Info::Borrowed("digit"))]);
    let mut digit = Digit;
    assert_eq!(all_of(&mut digit), direct);
    assert_eq!(all_of(Box::new(Digit)), direct);
    let mut boxed: Box<dyn Parser<Input = &'static str, Output = char>> = Box::new(Digit);
    assert_eq!(all_of(&mut boxed), direct);
    assert_eq!(all_of(boxed), direct);
    let mut nothing = Box::new(Nothing);
    let mut error = ParseError::empty(at(1, 1));
    nothing.add_error(&mut error);
    assert_eq!(error.errors, vec![]);
}

#[test]
fn finish_takes_the_flags_off() {
    let ok: ParseResult<u8, &str> =
        Ok((1, Consumed::Consumed(State { position: at(1, 2), input: "rest" })));
    assert_eq!(finish(ok), Ok((1, "rest")));
    let ok: ParseResult<u8, &str> =
        Ok((1, Consumed::Empty(State { position: at(1, 1), input: "all" })));
    assert_eq!(finish(ok), Ok((1, "all")));
    let failed: ParseResult<u8, &str> = Err(Consumed::Empty(ParseError::empty(at(1, 1))));
    assert_eq!(finish(failed), Err(ParseError::empty(at(1, 1))));
    let failed: ParseResult<u8, &str> = Err(Consumed::Consumed(ParseError::empty(at(3, 1))));
    assert_eq!(finish(failed), Err(ParseError::empty(at(3, 1))));
}

/// A token of a lexer's making, with a position that counts tokens.
#[derive(Clone, Copy, Debug, PartialEq)]
enum Word {
    Name,
    Stop,
}

impl Positioner for Word {
    type Position = i64;

    fn start_spec() -> i64 {
        0
    }

    fn can_update(&self, position: i64) -> bool {
        position < i64::MAX
    }

    fn update_spec(&self, position: i64) -> i64 {
        position + 1
    }

    fn start() -> i64 {
        0
    }

    fn update(&self, position: &mut i64) {
        *position += 1;
    }

    fn same(&self, other: &Word) -> bool {
        self == other
    }

    fn same_as(&self, other: &Word) -> bool {
        self == other
    }

    fn lemma_position_clone(_a: i64, _b: i64) {}

    fn lemma_same(_a: &Word, _b: &Word, _c: &Word) {}
}

#[test]
fn streams_of_other_tokens_keep_their_own_positions() {
    let words: &[Word] = &[Word::Name, Word::Stop];
    let state = State::new(words);
    assert_eq!(state.position, 0);
    let (w, rest) = state.uncons().unwrap();
    assert_eq!(w, Word::Name);
    let (w, rest) = rest.into_inner().uncons().unwrap();
    assert_eq!(w, Word::Stop);
    let state = rest.into_inner();
    assert_eq!(state.position, 2);
    assert_eq!(state.uncons(), Err(Consumed::Empty(ParseError::end_of_input(2))));
    assert!(Word::Name.same_as(&Word::Name));
    assert!(!Word::Name.same_as(&Word::Stop));
    let a: ParseError<&[Word]> = ParseError::new(1, Error::Unexpected(Info::Token(Word::Stop)));
    let b: ParseError<&[Word]> = ParseError::new(1, Error::Expected(Info::Borrowed("name")));
    assert_eq!(
        a.merge(b).errors,
        vec![
            Error::Unexpected(Info::Token(Word::Stop)),
            Error::Expected(Info::Borrowed("name")),
        ]
    );
}
