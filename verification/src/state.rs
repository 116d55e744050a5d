//! A stream together with the position that has been reached in it.
use crate::consumed::Consumed;
use crate::error::ParseError;
use crate::info::Error;
use crate::parser::follows_discipline;
use crate::positioner::{
    can_update_all, lemma_bytes_can_update, lemma_text_can_update, lemma_update_all_first,
    update_all, Positioner,
};
use crate::stream::{PositionOf, Stream};
use vstd::prelude::*;

verus! {

///The `State<I>` struct keeps track of the current position in the stream `I`
#[derive(PartialEq, Debug)]
pub struct State<I> where I: Stream {
    pub position: <I::Item as Positioner>::Position,
    pub input: I,
}

///A type alias over the specific `Result` type used by parsers to indicate wether they were
///successful or not.
///`O` is the type that is output on success
///`I` is the specific stream type used in the parser
pub type ParseResult<O, I> = Result<(O, Consumed<State<I>>), Consumed<ParseError<I>>>;

/// What `State::uncons` makes of what the stream returned: on an item, the
/// item and the rest at the position moved past the item, flagged consumed; on
/// an error, that error alone at the unmoved position, flagged empty.
pub open spec fn step_outcome<I: Stream>(
    position: PositionOf<I>,
    drawn: Result<(I::Item, I), Error<I::Item, I::Range>>,
    result: ParseResult<I::Item, I>,
) -> bool {
    match drawn {
        Ok((item, rest)) => {
            &&& result matches Ok((first, Consumed::Consumed(state)))
            &&& first == item
            &&& state.input == rest
            &&& state.position == item.update_spec(position)
        },
        Err(error) => {
            &&& result matches Err(Consumed::Empty(failure))
            &&& failure.position == position
            &&& failure.errors@ == seq![error]
        },
    }
}

/// What one draw does to a state whose items are known: `item` is the first
/// of them, and `after` holds the others at the position moved past `item`.
pub open spec fn drew<I: Stream>(before: State<I>, item: I::Item, after: State<I>) -> bool {
    &&& before.input.items().len() > 0
    &&& item == before.input.items()[0]
    &&& after.input.items() == before.input.items().skip(1)
    &&& after.position == item.update_spec(before.position)
}

/// A state whose items are known has none left.
pub open spec fn ended<I: Stream>(state: State<I>) -> bool {
    state.input.items().len() == 0
}

/// Drawn to its end, a state gives back the items of its stream, and the
/// position at which it ends is the one moved past all of them.
///
/// `states` are the states that a run of draws goes through, from the first
/// to the one that has ended, and `drawn` are the items that the draws gave.
pub proof fn lemma_drawn_to_the_end<I: Stream>(states: Seq<State<I>>, drawn: Seq<I::Item>)
    requires
        states.len() == drawn.len() + 1,
        forall|k: int|
            0 <= k < drawn.len() ==> drew(states[k], #[trigger] drawn[k], states[k + 1]),
        ended(states.last()),
    ensures
        drawn == states[0].input.items(),
        states.last().position == update_all(drawn, states[0].position),
{
    lemma_items_from(states, drawn, 0);
    assert(drawn.skip(0) =~= drawn);
    lemma_position_at(states, drawn, drawn.len() as int);
    assert(drawn.take(drawn.len() as int) =~= drawn);
}

proof fn lemma_items_from<I: Stream>(states: Seq<State<I>>, drawn: Seq<I::Item>, from: int)
    requires
        states.len() == drawn.len() + 1,
        forall|k: int|
            0 <= k < drawn.len() ==> drew(states[k], #[trigger] drawn[k], states[k + 1]),
        ended(states.last()),
        0 <= from <= drawn.len(),
    ensures
        states[from].input.items() == drawn.skip(from),
    decreases drawn.len() - from,
{
    if from < drawn.len() {
        lemma_items_from(states, drawn, from + 1);
        assert(drew(states[from], drawn[from], states[from + 1]));
        let items = states[from].input.items();
        assert(items.len() == items.skip(1).len() + 1);
        assert forall|i: int| 0 <= i < items.len() implies items[i] == drawn.skip(from)[i] by {
            if i > 0 {
                assert(items[i] == items.skip(1)[i - 1]);
                assert(drawn.skip(from + 1)[i - 1] == drawn[from + i]);
            }
        }
        assert(items =~= drawn.skip(from));
    } else {
        assert(states[from].input.items() =~= drawn.skip(from));
    }
}

proof fn lemma_position_at<I: Stream>(states: Seq<State<I>>, drawn: Seq<I::Item>, upto: int)
    requires
        states.len() == drawn.len() + 1,
        forall|k: int|
            0 <= k < drawn.len() ==> drew(states[k], #[trigger] drawn[k], states[k + 1]),
        0 <= upto <= drawn.len(),
    ensures
        states[upto].position == update_all(drawn.take(upto), states[0].position),
    decreases upto,
{
    if upto > 0 {
        lemma_position_at(states, drawn, upto - 1);
        assert(drew(states[upto - 1], drawn[upto - 1], states[upto - 1 + 1]));
        assert(drawn.take(upto).drop_last() =~= drawn.take(upto - 1));
        assert(drawn.take(upto).last() == drawn[upto - 1]);
    } else {
        assert(drawn.take(0) =~= Seq::<I::Item>::empty());
    }
}

/// A state that can be moved past all its items can be moved past the first,
/// and the state after that draw can be moved past all of its own.
pub proof fn lemma_advanceable_steps<I: Stream>(before: State<I>, item: I::Item, after: State<I>)
    requires
        before.advanceable(),
    ensures
        before.can_step(),
        I::obeys_items_spec() && drew(before, item, after) ==> after.advanceable(),
{
    if I::obeys_items_spec() && before.input.items().len() > 0 {
        lemma_update_all_first(before.input.items(), before.position);
    }
}

/// A state over characters can be moved past all its items, whatever the
/// stream that holds them.
pub proof fn lemma_text_state_advanceable<I: Stream<Item = char>>(state: State<I>)
    ensures
        state.advanceable(),
        state.can_step(),
{
    lemma_text_can_update(state.input.items(), state.position);
    if I::obeys_items_spec() && state.input.items().len() > 0 {
        lemma_update_all_first(state.input.items(), state.position);
    }
}

/// A state over bytes can be moved past all its items, whatever the stream
/// that holds them.
pub proof fn lemma_byte_state_advanceable<I: Stream<Item = u8>>(state: State<I>)
    ensures
        state.advanceable(),
        state.can_step(),
{
    lemma_bytes_can_update(state.input.items(), state.position);
    if I::obeys_items_spec() && state.input.items().len() > 0 {
        lemma_update_all_first(state.input.items(), state.position);
    }
}

impl<I: Stream> Clone for State<I> {
    fn clone(&self) -> (r: State<I>)
        ensures
            r.position == self.position,
            cloned(self.input, r.input),
            I::obeys_items_spec() ==> r.input.items() == self.input.items(),
    {
        self.as_empty()
    }
}

impl<I: Stream> State<I> {
    /// The state that `new` makes of `input`.
    pub open spec fn start(input: I) -> State<I> {
        State { position: <I::Item as Positioner>::start_spec(), input: input }
    }

    /// Whether the position can be moved past the item that comes next, if
    /// there is one. Where nothing is known of the stream's items, this asks
    /// it of every item.
    pub open spec fn can_step(self) -> bool {
        if I::obeys_items_spec() {
            self.input.items().len() > 0 ==> self.input.items()[0].can_update(self.position)
        } else {
            forall|item: I::Item| #[trigger] item.can_update(self.position)
        }
    }

    /// Whether the position can be moved past every item of the stream in
    /// turn. Where nothing is known of the stream's items, this asks that any
    /// item can move any position.
    pub open spec fn advanceable(self) -> bool {
        if I::obeys_items_spec() {
            can_update_all(self.input.items(), self.position)
        } else {
            forall|item: I::Item, position: PositionOf<I>| #[trigger] item.can_update(position)
        }
    }

    /// A state at the start position that holds all of `input`.
    pub fn new(input: I) -> (s: State<I>)
        ensures
            s == State::start(input),
    {
        State { position: <I::Item as Positioner>::start(), input: input }
    }

    /// A copy of the state, made by cloning its position and its stream.
    pub fn as_empty(&self) -> (r: State<I>)
        ensures
            r.position == self.position,
            cloned(self.input, r.input),
            I::obeys_items_spec() ==> r.input.items() == self.input.items(),
    {
        let position = self.position.clone();
        let input = self.input.clone();
        proof {
            <I::Item as Positioner>::lemma_position_clone(self.position, position);
            I::lemma_stream_clone(self.input, input);
        }
        State { position: position, input: input }
    }

    ///`uncons` is the most general way of extracting and item from a stream
    ///
    /// It draws one item from the stream. On success it returns the item and,
    /// flagged consumed, the state that holds the rest, its position moved
    /// past the item. At the end of the stream it returns, flagged empty, the
    /// stream's error at the unmoved position.
    pub fn uncons(self) -> (r: ParseResult<I::Item, I>)
        requires
            self.can_step(),
        ensures
            exists|drawn: Result<(I::Item, I), Error<I::Item, I::Range>>| #[trigger]
                call_ensures(I::uncons, (self.input,), drawn) && step_outcome(
                    self.position,
                    drawn,
                    r,
                ),
            match r {
                Ok((item, state)) => {
                    &&& state is Consumed
                    &&& state.inner().position == item.update_spec(self.position)
                    &&& I::obeys_items_spec() ==> drew(self, item, state.inner())
                },
                Err(error) => {
                    &&& error is Empty
                    &&& error.inner().position == self.position
                    &&& error.inner().errors@.len() == 1
                    &&& I::obeys_items_spec() ==> ended(self)
                },
            },
            follows_discipline(self, r),
    {
        proof {
            let items = self.input.items();
            if items.len() > 0 {
                assert(items.take(1).drop_last() =~= Seq::<I::Item>::empty());
                assert(items.take(1).last() == items[0]);
                assert(update_all(items.take(1).drop_last(), self.position) == self.position);
            }
        }
        let State { position, input } = self;
        let mut position = position;
        match input.uncons() {
            Ok((c, input)) => {
                c.update(&mut position);
                Ok((c, Consumed::Consumed(State { position: position, input: input })))
            },
            Err(err) => Err(Consumed::Empty(ParseError::new(position, err))),
        }
    }

    /// The state after `i` has been drawn and `rest` is what is left: the
    /// position is moved past `i`, and the result is flagged consumed.
    pub fn update(self, i: I::Item, rest: I) -> (r: ParseResult<I::Item, I>)
        requires
            i.can_update(self.position),
        ensures
            r matches Ok((item, Consumed::Consumed(state))) && item == i && state.input == rest
                && state.position == i.update_spec(self.position),
    {
        let mut state = self;
        i.update(&mut state.position);
        state.input = rest;
        Ok((i, Consumed::Consumed(state)))
    }
}

} // verus!
