//! The flag that says whether a parser drew anything from its stream.
use crate::state::ParseResult;
use crate::stream::Stream;
use vstd::prelude::*;

verus! {

/// Enum used to indicate if a parser consumed any items of the stream it was given as an input
#[derive(Clone, PartialEq, Debug, Copy)]
pub enum Consumed<T> {
    /// Constructor indicating that the parser has consumed elements
    Consumed(T),
    /// Constructor indicating that the parser did not consume any elements
    Empty(T),
}

/// The flag of a parse result says that nothing was consumed.
pub open spec fn is_empty_result<O, I: Stream>(result: ParseResult<O, I>) -> bool {
    match result {
        Ok((_, state)) => state is Empty,
        Err(error) => error is Empty,
    }
}

/// A parse result with its flag set to consumed and all else as it was.
pub open spec fn promoted<O, I: Stream>(result: ParseResult<O, I>) -> ParseResult<O, I> {
    match result {
        Ok((value, state)) => Ok((value, Consumed::Consumed(state.inner()))),
        Err(error) => Err(Consumed::Consumed(error.inner())),
    }
}

impl<T> Consumed<T> {
    /// The value that the flag is attached to.
    pub open spec fn inner(self) -> T {
        match self {
            Consumed::Consumed(x) => x,
            Consumed::Empty(x) => x,
        }
    }

    ///Returns true if `self` is empty
    pub fn is_empty(&self) -> (r: bool)
        ensures
            r == (*self is Empty),
    {
        match *self {
            Consumed::Empty(_) => true,
            Consumed::Consumed(_) => false,
        }
    }

    ///Extracts the contained value
    pub fn into_inner(self) -> (r: T)
        ensures
            r == self.inner(),
    {
        match self {
            Consumed::Empty(x) => x,
            Consumed::Consumed(x) => x,
        }
    }

    ///Converts `self` into the Consumed state
    pub fn as_consumed(self) -> (r: Consumed<T>)
        ensures
            r == Consumed::Consumed(self.inner()),
    {
        Consumed::Consumed(self.into_inner())
    }

    ///Converts `self` into theEmpty state
    pub fn as_empty(self) -> (r: Consumed<T>)
        ensures
            r == Consumed::Empty(self.inner()),
    {
        Consumed::Empty(self.into_inner())
    }

    ///Maps over the contained value without changing the consumed state
    pub fn map<F, U>(self, f: F) -> (r: Consumed<U>) where F: FnOnce(T) -> U
        requires
            f.requires((self.inner(),)),
        ensures
            (r is Empty) == (self is Empty),
            f.ensures((self.inner(),), r.inner()),
    {
        match self {
            Consumed::Empty(x) => Consumed::Empty(f(x)),
            Consumed::Consumed(x) => Consumed::Consumed(f(x)),
        }
    }

    ///Combines the Consumed flags from `self` and the result of `f`
    ///
    /// Where `self` is empty, the result is what `f` returns for the contained
    /// value. Where `self` is consumed, it is that with the flag set to
    /// consumed: once something has been consumed, what follows cannot make
    /// the whole empty again.
    pub fn combine<F, U, I>(self, f: F) -> (r: ParseResult<U, I>) where
        F: FnOnce(T) -> ParseResult<U, I>,
        I: Stream,

        requires
            f.requires((self.inner(),)),
        ensures
            exists|y: ParseResult<U, I>| #[trigger]
                f.ensures((self.inner(),), y) && r == (if self is Consumed {
                    promoted(y)
                } else {
                    y
                }),
            self is Consumed ==> !is_empty_result(r),
            self is Empty ==> f.ensures((self.inner(),), r),
    {
        match self {
            Consumed::Consumed(x) => {
                match f(x) {
                    Ok((v, Consumed::Empty(rest))) => Ok((v, Consumed::Consumed(rest))),
                    Err(Consumed::Empty(err)) => Err(Consumed::Consumed(err)),
                    y => y,
                }
            },
            Consumed::Empty(x) => f(x),
        }
    }
}

/// A promoted result is never empty, and promoting it again changes nothing.
pub proof fn lemma_promoted<O, I: Stream>(result: ParseResult<O, I>)
    ensures
        !is_empty_result(promoted(result)),
        promoted(promoted(result)) == promoted(result),
        !is_empty_result(result) ==> promoted(result) == result,
{
}

} // verus!
