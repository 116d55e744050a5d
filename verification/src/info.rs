//! What a parse error says: a piece of context, and the kind of complaint
//! that it belongs to.
use crate::positioner::{str_eq, Positioner};
use vstd::prelude::*;
use vstd::std_specs::cmp::PartialEqSpecImpl;
use vstd::std_specs::convert::FromSpecImpl;
use vstd::string::to_string_from_display_ensures;

verus! {

/// One piece of context for an error: an item of the stream, a range of it,
/// or a message.
///
/// A message is held either as an owned string or as a static one; which of
/// the two is a matter of storage only, and neither equality nor the view
/// tells them apart.
#[derive(Clone, Debug)]
pub enum Info<T, R> {
    Token(T),
    Range(R),
    Owned(String),
    Borrowed(&'static str),
}

/// What an [`Info`] stands for: messages are their characters.
pub enum InfoView<T, R> {
    Token(T),
    Range(R),
    Message(Seq<char>),
}

/// Enum used to store information about an error that has occured
#[derive(Debug)]
pub enum Error<T, R> {
    /// Error indicating an unexpected token has been encountered in the stream
    Unexpected(Info<T, R>),
    /// Error indicating that the parser expected something else
    Expected(Info<T, R>),
    /// Generic message
    Message(Info<T, R>),
    /// An error from elsewhere, held by the text that it displays as
    Other(String),
}

/// What an [`Error`] stands for.
pub enum ErrorView<T, R> {
    Unexpected(InfoView<T, R>),
    Expected(InfoView<T, R>),
    Message(InfoView<T, R>),
    Other(Seq<char>),
}

impl<T, R> View for Info<T, R> {
    type V = InfoView<T, R>;

    open spec fn view(&self) -> InfoView<T, R> {
        match *self {
            Info::Token(t) => InfoView::Token(t),
            Info::Range(r) => InfoView::Range(r),
            Info::Owned(s) => InfoView::Message(s@),
            Info::Borrowed(s) => InfoView::Message(s@),
        }
    }
}

impl<T, R> View for Error<T, R> {
    type V = ErrorView<T, R>;

    open spec fn view(&self) -> ErrorView<T, R> {
        match *self {
            Error::Unexpected(i) => ErrorView::Unexpected(i@),
            Error::Expected(i) => ErrorView::Expected(i@),
            Error::Message(i) => ErrorView::Message(i@),
            Error::Other(s) => ErrorView::Other(s@),
        }
    }
}

/// Equality of infos: tokens where they are the same token, ranges where they
/// are the same range, messages where they have the same characters; infos of
/// different kinds are never equal.
pub open spec fn same_info<T: Positioner, R: Positioner>(a: InfoView<T, R>, b: InfoView<T, R>) -> bool {
    match (a, b) {
        (InfoView::Token(l), InfoView::Token(r)) => l.same(&r),
        (InfoView::Range(l), InfoView::Range(r)) => l.same(&r),
        (InfoView::Message(l), InfoView::Message(r)) => l == r,
        _ => false,
    }
}

/// Equality of errors: the same kind with equal infos. An error from
/// elsewhere equals nothing, not even itself.
pub open spec fn same_error<T: Positioner, R: Positioner>(
    a: ErrorView<T, R>,
    b: ErrorView<T, R>,
) -> bool {
    match (a, b) {
        (ErrorView::Unexpected(l), ErrorView::Unexpected(r)) => same_info(l, r),
        (ErrorView::Expected(l), ErrorView::Expected(r)) => same_info(l, r),
        (ErrorView::Message(l), ErrorView::Message(r)) => same_info(l, r),
        _ => false,
    }
}

impl<T: Positioner, R: Positioner> Info<T, R> {
    /// Whether `self` and `other` are equal: what `==` returns.
    pub fn equals(&self, other: &Info<T, R>) -> (r: bool)
        ensures
            r == same_info(self@, other@),
    {
        match (self, other) {
            (Info::Token(l), Info::Token(r)) => l.same_as(r),
            (Info::Range(l), Info::Range(r)) => l.same_as(r),
            (Info::Owned(l), Info::Owned(r)) => str_eq(l.as_str(), r.as_str()),
            (Info::Borrowed(l), Info::Owned(r)) => str_eq(l, r.as_str()),
            (Info::Owned(l), Info::Borrowed(r)) => str_eq(l.as_str(), r),
            (Info::Borrowed(l), Info::Borrowed(r)) => str_eq(l, r),
            _ => false,
        }
    }
}

impl<T: Positioner, R: Positioner> PartialEq for Info<T, R> {
    fn eq(&self, other: &Info<T, R>) -> (r: bool) {
        self.equals(other)
    }
}

impl<T: Positioner, R: Positioner> PartialEqSpecImpl for Info<T, R> {
    open spec fn obeys_eq_spec() -> bool {
        true
    }

    open spec fn eq_spec(&self, other: &Info<T, R>) -> bool {
        same_info(self@, other@)
    }
}

impl<T: Positioner, R: Positioner> Error<T, R> {
    /// Whether `self` and `other` are equal: what `==` returns.
    pub fn equals(&self, other: &Error<T, R>) -> (r: bool)
        ensures
            r == same_error(self@, other@),
    {
        match (self, other) {
            (Error::Unexpected(l), Error::Unexpected(r)) => l.equals(r),
            (Error::Expected(l), Error::Expected(r)) => l.equals(r),
            (Error::Message(l), Error::Message(r)) => l.equals(r),
            _ => false,
        }
    }
}

impl<T: Positioner, R: Positioner> PartialEq for Error<T, R> {
    fn eq(&self, other: &Error<T, R>) -> (r: bool) {
        self.equals(other)
    }
}

impl<T: Positioner, R: Positioner> PartialEqSpecImpl for Error<T, R> {
    open spec fn obeys_eq_spec() -> bool {
        true
    }

    open spec fn eq_spec(&self, other: &Error<T, R>) -> bool {
        same_error(self@, other@)
    }
}

impl<R> From<char> for Info<char, R> {
    fn from(s: char) -> (r: Info<char, R>) {
        Info::Token(s)
    }
}

impl<R> FromSpecImpl<char> for Info<char, R> {
    open spec fn obeys_from_spec() -> bool {
        true
    }

    open spec fn from_spec(s: char) -> Info<char, R> {
        Info::Token(s)
    }
}

impl<T, R> From<String> for Info<T, R> {
    fn from(s: String) -> (r: Info<T, R>) {
        Info::Owned(s)
    }
}

impl<T, R> FromSpecImpl<String> for Info<T, R> {
    open spec fn obeys_from_spec() -> bool {
        true
    }

    open spec fn from_spec(s: String) -> Info<T, R> {
        Info::Owned(s)
    }
}

impl<T, R> From<&'static str> for Info<T, R> {
    fn from(s: &'static str) -> (r: Info<T, R>) {
        Info::Borrowed(s)
    }
}

impl<T, R> FromSpecImpl<&'static str> for Info<T, R> {
    open spec fn obeys_from_spec() -> bool {
        true
    }

    open spec fn from_spec(s: &'static str) -> Info<T, R> {
        Info::Borrowed(s)
    }
}

impl<T, R> Error<T, R> {
    /// The error of a stream that has no item left: the message "End of input".
    pub fn end_of_input() -> (e: Error<T, R>)
        ensures
            e@ == ErrorView::<T, R>::Message(InfoView::Message("End of input"@)),
    {
        Error::Message(Info::Borrowed("End of input"))
    }

    /// Takes in an error from elsewhere, keeping the text that it displays as.
    pub fn other<E: core::fmt::Display>(error: &E) -> (e: Error<T, R>)
        ensures
            e matches Error::Other(text) && to_string_from_display_ensures(error, text),
    {
        Error::Other(error.to_string())
    }
}

/// An error from elsewhere is equal to no error.
pub proof fn lemma_other_equals_nothing<T: Positioner, R: Positioner>(
    a: ErrorView<T, R>,
    b: ErrorView<T, R>,
)
    requires
        a is Other || b is Other,
    ensures
        !same_error(a, b),
{
}

/// An owned and a static message with the same characters are equal.
pub proof fn lemma_messages_equal_by_text<T: Positioner, R: Positioner>(
    a: Info<T, R>,
    b: Info<T, R>,
)
    requires
        a is Owned || a is Borrowed,
        b is Owned || b is Borrowed,
    ensures
        same_info(a@, b@) <==> a@ == b@,
{
}

} // verus!
