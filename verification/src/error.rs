//! Parse errors: a position and what went wrong there, and the rules by which
//! two of them become one.
use crate::algebra::{
    lemma_insert_all_keeps_distinct, lemma_insert_keeps_distinct, lemma_with_expected_keeps_distinct,
    with_expected,
};
use crate::info::{same_error, Error, ErrorView, Info, InfoView};
use crate::order::{follows, later, obeys_order, precedes};
use crate::positioner::Positioner;
use crate::stream::{PositionOf, Stream};
use vstd::prelude::*;
use vstd::std_specs::cmp::{PartialEqSpec, PartialEqSpecImpl};
use vstd::std_specs::convert::IntoSpec;

verus! {

/// Struct which hold information about an error that occured at a specific position.
/// Can hold multiple instances of `Error` if more that one error occured at the position.
#[derive(Debug)]
pub struct ParseError<P: Stream> {
    /// The position where the error occured
    pub position: <P::Item as Positioner>::Position,
    /// A vector containing specific information on what errors occured at `position`
    pub errors: Vec<Error<P::Item, P::Range>>,
}

/// Some entry of `errors` equals `e`.
pub open spec fn holds<T: Positioner, R: Positioner>(errors: Seq<Error<T, R>>, e: Error<T, R>) -> bool {
    exists|i: int| 0 <= i < errors.len() && same_error((#[trigger] errors[i])@, e@)
}

/// `errors` with `e` at its end, unless an entry already equals `e`.
pub open spec fn insert<T: Positioner, R: Positioner>(
    errors: Seq<Error<T, R>>,
    e: Error<T, R>,
) -> Seq<Error<T, R>> {
    if holds(errors, e) {
        errors
    } else {
        errors.push(e)
    }
}

/// `errors` after each entry of `more` has been inserted in turn.
pub open spec fn insert_all<T: Positioner, R: Positioner>(
    errors: Seq<Error<T, R>>,
    more: Seq<Error<T, R>>,
) -> Seq<Error<T, R>>
    decreases more.len(),
{
    if more.len() == 0 {
        errors
    } else {
        insert(insert_all(errors, more.drop_last()), more.last())
    }
}

/// No entry of `errors` equals an earlier one.
pub open spec fn distinct<T: Positioner, R: Positioner>(errors: Seq<Error<T, R>>) -> bool {
    forall|i: int, j: int|
        0 <= i < j < errors.len() ==> !same_error((#[trigger] errors[i])@, (#[trigger] errors[j])@)
}

/// The entries of `errors` that are not `Expected`, in their order.
pub open spec fn without_expected<T, R>(errors: Seq<Error<T, R>>) -> Seq<Error<T, R>> {
    errors.filter(|e: Error<T, R>| !(e is Expected))
}

/// Two lists of errors of one length whose entries are equal one by one.
pub open spec fn same_errors<T: Positioner, R: Positioner>(
    a: Seq<Error<T, R>>,
    b: Seq<Error<T, R>>,
) -> bool {
    a.len() == b.len() && forall|i: int|
        0 <= i < a.len() ==> same_error((#[trigger] a[i])@, (#[trigger] b[i])@)
}

/// What `without_expected` makes of a list with one more entry.
pub proof fn lemma_without_expected_push<T, R>(errors: Seq<Error<T, R>>, e: Error<T, R>)
    ensures
        without_expected(errors.push(e)) == if e is Expected {
            without_expected(errors)
        } else {
            without_expected(errors).push(e)
        },
{
    reveal(Seq::filter);
    assert(errors.push(e).drop_last() =~= errors);
}

/// Of no entries, `without_expected` leaves none.
pub proof fn lemma_without_expected_empty<T, R>()
    ensures
        without_expected(Seq::<Error<T, R>>::empty()) == Seq::<Error<T, R>>::empty(),
{
    reveal(Seq::filter);
}

impl<S: Stream> ParseError<S> {
    /// An error at `position` that holds `error` alone.
    pub fn new(position: PositionOf<S>, error: Error<S::Item, S::Range>) -> (r: ParseError<S>)
        ensures
            r.position == position,
            r.errors@ == seq![error],
            distinct(r.errors@),
    {
        ParseError::from_errors(position, vec![error])
    }

    /// An error at `position` that holds nothing.
    pub fn empty(position: PositionOf<S>) -> (r: ParseError<S>)
        ensures
            r.position == position,
            r.errors@ == Seq::<Error<S::Item, S::Range>>::empty(),
            distinct(r.errors@),
    {
        ParseError::from_errors(position, vec![])
    }

    /// An error at `position` that holds `errors` as they are given.
    pub fn from_errors(position: PositionOf<S>, errors: Vec<Error<S::Item, S::Range>>) -> (r:
        ParseError<S>)
        ensures
            r.position == position,
            r.errors == errors,
    {
        ParseError { position: position, errors: errors }
    }

    /// The error of a stream that ended at `position`.
    pub fn end_of_input(position: PositionOf<S>) -> (r: ParseError<S>)
        ensures
            r.position == position,
            r.errors@.len() == 1,
            r.errors@[0]@ == ErrorView::<S::Item, S::Range>::Message(
                InfoView::Message("End of input"@),
            ),
            distinct(r.errors@),
    {
        ParseError::from_errors(position, vec![Error::end_of_input()])
    }

    /// Adds `message` as an `Error::Message`, unless an equal entry is there.
    pub fn add_message<M>(&mut self, message: M) where M: Into<Info<S::Item, S::Range>>
        ensures
            final(self).position == old(self).position,
            final(self).errors@ == old(self).errors@ || {
                &&& final(self).errors@.drop_last() == old(self).errors@
                &&& final(self).errors@.len() == old(self).errors@.len() + 1
                &&& final(self).errors@.last() is Message
            },
            M::obeys_into_spec() ==> final(self).errors@ == insert(
                old(self).errors@,
                Error::Message(message.into_spec()),
            ),
            distinct(old(self).errors@) ==> distinct(final(self).errors@),
    {
        self.add_error(Error::Message(message.into()));
        assert(self.errors@ != old(self).errors@ ==> self.errors@.drop_last() =~= old(
            self,
        ).errors@);
    }

    /// Adds `message` at the end, unless an entry equal to it is there already.
    pub fn add_error(&mut self, message: Error<S::Item, S::Range>)
        ensures
            final(self).position == old(self).position,
            final(self).errors@ == insert(old(self).errors@, message),
            distinct(old(self).errors@) ==> distinct(final(self).errors@),
    {
        proof {
            if distinct(self.errors@) {
                lemma_insert_keeps_distinct(self.errors@, message);
            }
        }
        //Don't add duplicate errors
        let n = self.errors.len();
        let mut i: usize = 0;
        while i < n
            invariant
                n == self.errors.len(),
                i <= n,
                self.errors@ == old(self).errors@,
                self.position == old(self).position,
                forall|k: int| 0 <= k < i ==> !same_error((#[trigger] self.errors@[k])@, message@),
            decreases n - i,
        {
            if self.errors[i].equals(&message) {
                return ;
            }
            i += 1;
        }
        self.errors.push(message);
    }

    /// Removes every `Expected` entry and puts `Expected(message)` at the end.
    pub fn set_expected(&mut self, message: Info<S::Item, S::Range>)
        ensures
            final(self).position == old(self).position,
            final(self).errors@ == with_expected(old(self).errors@, message),
            distinct(old(self).errors@) ==> distinct(final(self).errors@),
    {
        proof {
            if distinct(self.errors@) {
                lemma_with_expected_keeps_distinct(self.errors@, message);
            }
        }
        //Remove all other expected messages
        let mut previous: Vec<Error<S::Item, S::Range>> = Vec::new();
        std::mem::swap(&mut self.errors, &mut previous);
        let ghost all = previous@;
        proof {
            lemma_without_expected_empty::<S::Item, S::Range>();
            assert(all.take(0) =~= Seq::<Error<S::Item, S::Range>>::empty());
        }
        for e in it: previous.into_iter()
            invariant
                it.seq() == all,
                self.position == old(self).position,
                self.errors@ == without_expected(all.take(it.index())),
        {
            proof {
                assert(all.take(it.index() + 1) =~= all.take(it.index()).push(e));
                lemma_without_expected_push(all.take(it.index()), e);
            }
            match e {
                Error::Expected(_) => {},
                other => {
                    self.errors.push(other);
                },
            }
        }
        assert(all.take(all.len() as int) =~= all);
        self.errors.push(Error::Expected(message));
    }

    /// Makes one error of two: the one at the later position, or, where they
    /// stand at the same position, the first with the entries of the second
    /// inserted in their order.
    pub fn merge(self, other: ParseError<S>) -> (r: ParseError<S>)
        ensures
            obeys_order::<PositionOf<S>>() ==> r.position == later(self.position, other.position),
            obeys_order::<PositionOf<S>>() ==> if precedes(self.position, other.position) {
                r == other
            } else if follows(self.position, other.position) {
                r == self
            } else {
                r.errors@ == insert_all(self.errors@, other.errors@)
            },
            obeys_order::<PositionOf<S>>() && distinct(self.errors@) && distinct(other.errors@)
                ==> distinct(r.errors@),
    {
        proof {
            if distinct(self.errors@) {
                lemma_insert_all_keeps_distinct(self.errors@, other.errors@);
            }
        }
        let mut merged = self;
        //Only keep the errors which occured after consuming the most amount of data
        if merged.position < other.position {
            other
        } else if merged.position > other.position {
            merged
        } else {
            let ghost more = other.errors@;
            assert(more.take(0) =~= Seq::<Error<S::Item, S::Range>>::empty());
            for message in it: other.errors.into_iter()
                invariant
                    it.seq() == more,
                    merged.position == self.position,
                    merged.errors@ == insert_all(self.errors@, more.take(it.index())),
            {
                proof {
                    assert(more.take(it.index() + 1).drop_last() =~= more.take(it.index()));
                    assert(more.take(it.index() + 1).last() == message);
                }
                merged.add_error(message);
            }
            assert(more.take(more.len() as int) =~= more);
            merged
        }
    }
}

impl<S: Stream> PartialEq for ParseError<S> {
    fn eq(&self, other: &ParseError<S>) -> (r: bool) {
        if !(self.position == other.position) {
            return false;
        }
        let n = self.errors.len();
        if n != other.errors.len() {
            return false;
        }
        let mut i: usize = 0;
        while i < n
            invariant
                n == self.errors.len(),
                n == other.errors.len(),
                i <= n,
                forall|k: int|
                    0 <= k < i ==> same_error(
                        (#[trigger] self.errors@[k])@,
                        (#[trigger] other.errors@[k])@,
                    ),
            decreases n - i,
        {
            if !self.errors[i].equals(&other.errors[i]) {
                return false;
            }
            i += 1;
        }
        true
    }
}

impl<S: Stream> PartialEqSpecImpl for ParseError<S> {
    open spec fn obeys_eq_spec() -> bool {
        <PositionOf<S> as PartialEqSpec>::obeys_eq_spec()
    }

    open spec fn eq_spec(&self, other: &ParseError<S>) -> bool {
        self.position.eq_spec(&other.position) && same_errors(self.errors@, other.errors@)
    }
}

} // verus!
