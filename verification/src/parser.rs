//! What a parser is: the four methods, what each owes its caller, and how
//! the provided ones are made of the others.
use crate::consumed::Consumed;
use crate::error::{insert, ParseError};
use crate::info::{Error, Info};
use crate::positioner::{lemma_update_all_concat, update_all, Positioner};
use crate::state::{ParseResult, State};
use crate::stream::Stream;
use vstd::prelude::*;

verus! {

/// The rule on flags that every parser keeps.
///
/// On success the state that comes back holds what is left of the input's
/// items, at the position moved past those that are gone, and it is flagged
/// empty exactly when none is gone. A failure that is flagged empty stands at
/// the position at which the parser started.
pub open spec fn follows_discipline<O, I: Stream>(input: State<I>, result: ParseResult<O, I>) -> bool {
    match result {
        Ok((_, state)) => I::obeys_items_spec() ==> {
            let before = input.input.items();
            let after = state.inner().input.items();
            let drawn = before.len() - after.len();
            &&& drawn >= 0
            &&& after == before.skip(drawn)
            &&& state.inner().position == update_all(before.take(drawn), input.position)
            &&& state is Empty <==> drawn == 0
        },
        Err(error) => error is Empty ==> error.inner().position == input.position,
    }
}

/// What `parse` returns for a result of `parse_state`: the same without the
/// flags, and with the stream alone in place of the state.
pub open spec fn finished<O, I: Stream>(result: ParseResult<O, I>) -> Result<(O, I), ParseError<I>> {
    match result {
        Ok((value, state)) => Ok((value, state.inner().input)),
        Err(error) => Err(error.inner()),
    }
}

/// Takes the flags off a parse result and keeps, of the state, the stream.
pub fn finish<O, I: Stream>(result: ParseResult<O, I>) -> (r: Result<(O, I), ParseError<I>>)
    ensures
        r == finished(result),
{
    match result {
        Ok((v, state)) => Ok((v, state.into_inner().input)),
        Err(error) => Err(error.into_inner()),
    }
}

/// A state that can be moved past all its items can still be, after any
/// number of them has been drawn.
pub proof fn lemma_advanceable_after<I: Stream>(input: State<I>, rest: State<I>, drawn: int)
    requires
        input.advanceable(),
        I::obeys_items_spec() ==> {
            &&& 0 <= drawn <= input.input.items().len()
            &&& rest.input.items() == input.input.items().skip(drawn)
            &&& rest.position == update_all(input.input.items().take(drawn), input.position)
        },
    ensures
        rest.advanceable(),
{
    if I::obeys_items_spec() {
        let items = input.input.items();
        assert(items.take(drawn) + items.skip(drawn) =~= items);
        lemma_update_all_concat(items.take(drawn), items.skip(drawn), input.position);
    }
}

/// The state that a parser returns on success can be handed to the next parser.
pub proof fn lemma_discipline_keeps_advanceable<O, I: Stream>(
    input: State<I>,
    result: ParseResult<O, I>,
)
    requires
        input.advanceable(),
        follows_discipline(input, result),
    ensures
        result matches Ok((_, state)) ==> state.inner().advanceable(),
{
    if let Ok((_, state)) = result {
        lemma_advanceable_after(
            input,
            state.inner(),
            input.input.items().len() - state.inner().input.items().len(),
        );
    }
}

///By implementing the `Parser` trait a type says that it can be used to parse an input stream into
///the type `Output`.
///
/// `parse_lazy` is the method to write. `parse_state` is made of it: it adds,
/// to a failure that consumed nothing, the token that stood in the way and
/// what `add_error` has to say. A parser that writes `parse_state` itself
/// writes `parse_lazy` as a call of it, and says so in `wired`.
pub trait Parser {
    /// Whether `parse_state` is the provided one, made of `parse_lazy` and
    /// `add_error`. A parser that writes `parse_state` itself says `false`.
    open spec fn wired(&self) -> bool {
        true
    }

    ///A type implementing the `Stream` trait which is the specific type
    ///that is parsed.
    type Input: Stream;

    ///The type which is returned when the parsing is successful.
    type Output;

    ///Entrypoint of the parser
    ///Takes some input and tries to parse it returning a `ParseResult`
    ///
    /// The result is what `parse_state` returns for the state that
    /// `State::new` makes of `input`, with the flags taken off as `finish`
    /// does; the parser is left as that call of `parse_state` leaves it.
    fn parse(&mut self, input: Self::Input) -> (r: Result<
        (Self::Output, Self::Input),
        ParseError<Self::Input>,
    >)
        requires
            State::start(input).advanceable(),
        ensures
            exists|parser: &mut Self, result: ParseResult<Self::Output, Self::Input>|
                {
                    &&& &*parser == &*old(self)
                    &&& &*final(parser) == &*final(self)
                    &&& #[trigger] call_ensures(
                        Self::parse_state,
                        (parser, State::start(input)),
                        result,
                    )
                    &&& r == finished(result)
                },
            r matches Ok((_, rest)) ==> Self::Input::obeys_items_spec() ==> {
                &&& rest.items().len() <= input.items().len()
                &&& rest.items() == input.items().skip(input.items().len() - rest.items().len())
            },
    {
        finish(self.parse_state(State::new(input)))
    }

    ///Parses using the state `input` by calling Stream::uncons one or more times
    ///On success returns `Ok((value, new_state))` on failure it returns `Err(error)`
    ///
    /// The provided method calls `parse_lazy` on a clone of `input`. A
    /// success, and a failure that consumed something, are returned as they
    /// came. A failure that consumed nothing is looked at again: where
    /// `input` still holds an item, `Unexpected` with that item is added to
    /// the error, unless it is there, then `add_error` has its say; at the
    /// end of the input the failure is returned as it came.
    fn parse_state(&mut self, input: State<Self::Input>) -> (r: ParseResult<
        Self::Output,
        Self::Input,
    >)
        requires
            input.advanceable(),
        ensures
            follows_discipline(input, r),
            Self::wired(&*old(self)) ==> exists|
                parser: &mut Self,
                given: State<Self::Input>,
                lazy: ParseResult<Self::Output, Self::Input>,
            |
                {
                    &&& &*parser == &*old(self)
                    &&& given.position == input.position
                    &&& cloned(input.input, given.input)
                    &&& #[trigger] call_ensures(Self::parse_lazy, (parser, given), lazy)
                    &&& match lazy {
                        Err(Consumed::Empty(error)) => exists|
                            peeked: Result<
                                (<Self::Input as Stream>::Item, Self::Input),
                                Error<
                                    <Self::Input as Stream>::Item,
                                    <Self::Input as Stream>::Range,
                                >,
                            >,
                        |
                            {
                                &&& #[trigger] call_ensures(
                                    <Self::Input as Stream>::uncons,
                                    (input.input,),
                                    peeked,
                                )
                                &&& match peeked {
                                    Ok((token, _)) => exists|
                                        second: &mut Self,
                                        noted: &mut ParseError<Self::Input>,
                                    |
                                        {
                                            &&& &*second == &*final(parser)
                                            &&& &*final(second) == &*final(self)
                                            &&& noted.position == error.position
                                            &&& noted.errors@ == insert(
                                                error.errors@,
                                                Error::Unexpected(Info::Token(token)),
                                            )
                                            &&& #[trigger] call_ensures(
                                                Self::add_error,
                                                (second, noted),
                                                (),
                                            )
                                            &&& r == Err::<
                                                (Self::Output, Consumed<State<Self::Input>>),
                                                Consumed<ParseError<Self::Input>>,
                                            >(Consumed::Empty(*final(noted)))
                                        },
                                    Err(_) => r == lazy && &*final(parser) == &*final(self),
                                }
                            },
                        _ => r == lazy && &*final(parser) == &*final(self),
                    }
                },
    {
        match self.parse_lazy(input.clone()) {
            Err(Consumed::Empty(error)) => {
                match input.input.uncons() {
                    Ok((t, _)) => {
                        let mut error = error;
                        error.add_error(Error::Unexpected(Info::Token(t)));
                        self.add_error(&mut error);
                        Err(Consumed::Empty(error))
                    },
                    Err(_) => Err(Consumed::Empty(error)),
                }
            },
            result => result,
        }
    }

    ///Specialized version of parse_state where the parser does not need to add an error to the
    ///`ParseError` when it does not consume any input before encountering the error.
    ///Instead the error can be added later through the `add_error` method
    fn parse_lazy(&mut self, input: State<Self::Input>) -> (r: ParseResult<
        Self::Output,
        Self::Input,
    >)
        requires
            input.advanceable(),
        ensures
            follows_discipline(input, r),
    ;

    ///Adds the first error that would normally be returned by this parser if it failed
    fn add_error(&mut self, error: &mut ParseError<Self::Input>)
        ensures
            final(error).position == old(error).position,
    {
    }
}

impl<'a, P: ?Sized> Parser for &'a mut P where P: Parser {
    type Input = P::Input;

    type Output = P::Output;

    /// `parse_state` is written here: it is that of the parser behind the reference.
    open spec fn wired(&self) -> bool {
        false
    }

    /// Does what `parse_state` of the parser behind the reference does.
    fn parse_state(&mut self, input: State<P::Input>) -> (r: ParseResult<P::Output, P::Input>)
        ensures
            exists|parser: &mut P|
                {
                    &&& &*parser == &**old(self)
                    &&& &*final(parser) == &**final(self)
                    &&& #[trigger] call_ensures(P::parse_state, (parser, input), r)
                },
    {
        assert(!Self::wired(&*self));
        (**self).parse_state(input)
    }

    /// Does what `parse_lazy` of the parser behind the reference does.
    fn parse_lazy(&mut self, input: State<P::Input>) -> (r: ParseResult<P::Output, P::Input>)
        ensures
            exists|parser: &mut P|
                {
                    &&& &*parser == &**old(self)
                    &&& &*final(parser) == &**final(self)
                    &&& #[trigger] call_ensures(P::parse_lazy, (parser, input), r)
                },
    {
        (**self).parse_lazy(input)
    }

    /// Does what `add_error` of the parser behind the reference does.
    fn add_error(&mut self, error: &mut ParseError<P::Input>)
        ensures
            exists|parser: &mut P, e: &mut ParseError<P::Input>|
                {
                    &&& &*parser == &**old(self)
                    &&& &*final(parser) == &**final(self)
                    &&& *e == *old(error)
                    &&& *final(e) == *final(error)
                    &&& #[trigger] call_ensures(P::add_error, (parser, e), ())
                },
    {
        (**self).add_error(error)
    }
}

impl<P: ?Sized> Parser for Box<P> where P: Parser {
    type Input = P::Input;

    type Output = P::Output;

    /// `parse_state` is written here: it is that of the parser in the box.
    open spec fn wired(&self) -> bool {
        false
    }

    /// Does what `parse_state` of the parser in the box does.
    fn parse_state(&mut self, input: State<P::Input>) -> (r: ParseResult<P::Output, P::Input>)
        ensures
            exists|parser: &mut P|
                {
                    &&& &*parser == &**old(self)
                    &&& &*final(parser) == &**final(self)
                    &&& #[trigger] call_ensures(P::parse_state, (parser, input), r)
                },
    {
        assert(!Self::wired(&*self));
        let parser: &mut P = &mut **self;
        parser.parse_state(input)
    }

    /// Does what `parse_lazy` of the parser in the box does.
    fn parse_lazy(&mut self, input: State<P::Input>) -> (r: ParseResult<P::Output, P::Input>)
        ensures
            exists|parser: &mut P|
                {
                    &&& &*parser == &**old(self)
                    &&& &*final(parser) == &**final(self)
                    &&& #[trigger] call_ensures(P::parse_lazy, (parser, input), r)
                },
    {
        let parser: &mut P = &mut **self;
        parser.parse_lazy(input)
    }

    /// Does what `add_error` of the parser in the box does.
    fn add_error(&mut self, error: &mut ParseError<P::Input>)
        ensures
            exists|parser: &mut P, e: &mut ParseError<P::Input>|
                {
                    &&& &*parser == &**old(self)
                    &&& &*final(parser) == &**final(self)
                    &&& *e == *old(error)
                    &&& *final(e) == *final(error)
                    &&& #[trigger] call_ensures(P::add_error, (parser, e), ())
                },
    {
        let parser: &mut P = &mut **self;
        parser.add_error(error)
    }
}

} // verus!
