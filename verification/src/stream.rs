//! Streams: sequences of items that are drawn one at a time.
use crate::info::{Error, ErrorView, InfoView};
use crate::positioner::Positioner;
use std::str::Chars;
use vstd::prelude::*;
use vstd::slice::slice_subrange;
use vstd::std_specs::iter::IteratorSpec;

verus! {

/// A stream is a sequence of items that can be extracted one by one
pub trait Stream: Clone {
    /// What is drawn from the stream.
    type Item: Positioner + Clone;

    /// A run of consecutive items of the stream.
    type Range: Positioner + Clone;

    /// Whether `items` tells what streams of this type hold. Where it does
    /// not, `uncons` promises nothing in terms of `items`.
    spec fn obeys_items_spec() -> bool;

    /// The items that are still to be drawn, in the order in which they come.
    spec fn items(&self) -> Seq<Self::Item>;

    /// Takes a stream and removes its first item, yielding the item and the rest of the elements
    /// Returns `Err` when no more elements could be retrieved
    fn uncons(self) -> (r: Result<(Self::Item, Self), Error<Self::Item, Self::Range>>)
        ensures
            Self::obeys_items_spec() ==> match r {
                Ok((item, rest)) => {
                    &&& self.items().len() > 0
                    &&& item == self.items()[0]
                    &&& rest.items() == self.items().skip(1)
                },
                Err(_) => self.items().len() == 0,
            },
    ;

    /// A clone of a stream holds the items of that stream.
    proof fn lemma_stream_clone(a: Self, b: Self)
        requires
            cloned(a, b),
        ensures
            Self::obeys_items_spec() ==> a.items() == b.items(),
    ;
}

/// The position that the items of the stream `S` move.
pub type PositionOf<S> = <<S as Stream>::Item as Positioner>::Position;

/// `Chars::as_str`: the part of the string slice that the iterator has not
/// yet gone through.
#[verifier::external_body]
fn chars_as_str<'a>(chars: &Chars<'a>) -> (rest: &'a str)
    ensures
        rest@ == chars.remaining(),
{
    chars.as_str()
}

impl<'a> Stream for &'a str {
    type Item = char;

    type Range = &'a str;

    open spec fn obeys_items_spec() -> bool {
        true
    }

    open spec fn items(&self) -> Seq<char> {
        self@
    }

    fn uncons(self) -> (r: Result<(char, &'a str), Error<char, &'a str>>)
        ensures
            r matches Err(e) ==> e@ == ErrorView::<char, &'a str>::Message(
                InfoView::Message("End of input"@),
            ),
    {
        broadcast use vstd::string::group_string_axioms;

        let mut chars = self.chars();
        match chars.next() {
            Some(c) => Ok((c, chars_as_str(&chars))),
            None => Err(Error::end_of_input()),
        }
    }

    proof fn lemma_stream_clone(a: &'a str, b: &'a str) {
        assert(vstd::pervasive::strictly_cloned(a, b) ==> b == a);
    }
}

impl<'a, T> Stream for &'a [T] where T: Positioner + Copy {
    type Item = T;

    type Range = &'a [T];

    open spec fn obeys_items_spec() -> bool {
        true
    }

    open spec fn items(&self) -> Seq<T> {
        self@
    }

    fn uncons(self) -> (r: Result<(T, &'a [T]), Error<T, &'a [T]>>)
        ensures
            r matches Err(e) ==> e@ == ErrorView::<T, &'a [T]>::Message(
                InfoView::Message("End of input"@),
            ),
    {
        if self.len() > 0 {
            Ok((self[0], slice_subrange(self, 1, self.len())))
        } else {
            Err(Error::end_of_input())
        }
    }

    proof fn lemma_stream_clone(a: &'a [T], b: &'a [T]) {
        assert(vstd::pervasive::strictly_cloned(a, b) ==> b == a);
    }
}

/// Wrapper around iterators which allows them to be treated as a stream.
/// Returned by `from_iter`.
#[derive(Clone, Debug)]
pub struct IteratorStream<I>(I) where I: Iterator + Clone;

impl<I: Iterator + Clone> IteratorStream<I> {
    /// The iterator that the stream draws from.
    pub closed spec fn iter(self) -> I {
        self.0
    }
}

/// Converts an `Iterator` into a stream.
pub fn from_iter<I>(iter: I) -> (stream: IteratorStream<I>) where I: Iterator + Clone
    ensures
        stream.iter() == iter,
{
    IteratorStream(iter)
}

impl<I: Iterator + Clone> Stream for IteratorStream<I> where I::Item: Positioner + Clone {
    type Item = I::Item;

    type Range = I::Item;

    /// What an iterator will yield is known only as a prophecy, which `items`
    /// cannot hold: `uncons` states its result over the iterator instead.
    open spec fn obeys_items_spec() -> bool {
        false
    }

    open spec fn items(&self) -> Seq<I::Item> {
        Seq::empty()
    }

    fn uncons(self) -> (r: Result<(I::Item, Self), Error<I::Item, I::Item>>)
        ensures
            r matches Err(e) ==> e@ == ErrorView::<I::Item, I::Item>::Message(
                InfoView::Message("End of input"@),
            ),
            self.iter().obeys_prophetic_iter_laws() ==> match r {
                Ok((item, rest)) => {
                    &&& self.iter().remaining().len() > 0
                    &&& item == self.iter().remaining()[0]
                    &&& rest.iter().remaining() == self.iter().remaining().skip(1)
                    &&& rest.iter().obeys_prophetic_iter_laws()
                },
                Err(_) => self.iter().remaining().len() == 0,
            },
    {
        let mut stream = self;
        match stream.0.next() {
            Some(item) => Ok((item, stream)),
            None => Err(Error::end_of_input()),
        }
    }

    proof fn lemma_stream_clone(a: Self, b: Self) {
    }
}

} // verus!
