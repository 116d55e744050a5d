//! The text of positions, infos and errors, as it is shown to a user.
use crate::error::ParseError;
use crate::info::{Error, Info};
use crate::position::{BytePosition, SourcePosition};
use crate::stream::{PositionOf, Stream};
use vstd::prelude::*;
use vstd::string::StringExecFns;

verus! {

/// A value that has a text form.
pub trait Render {
    /// The text of `self`.
    spec fn rendered(&self) -> Seq<char>;

    /// Writes `self` out as a string.
    fn render(&self) -> (text: String)
        ensures
            text@ == self.rendered(),
    ;
}

/// The character that stands for a digit.
pub open spec fn digit(d: int) -> char {
    if d == 0 {
        '0'
    } else if d == 1 {
        '1'
    } else if d == 2 {
        '2'
    } else if d == 3 {
        '3'
    } else if d == 4 {
        '4'
    } else if d == 5 {
        '5'
    } else if d == 6 {
        '6'
    } else if d == 7 {
        '7'
    } else if d == 8 {
        '8'
    } else {
        '9'
    }
}

/// A natural number in decimal digits, without leading zeros.
pub open spec fn decimal_nat(n: nat) -> Seq<char>
    decreases n,
{
    if n < 10 {
        seq![digit(n as int)]
    } else {
        decimal_nat(n / 10).push(digit((n % 10) as int))
    }
}

/// An integer in decimal digits, with a minus sign where it is negative.
pub open spec fn decimal(n: int) -> Seq<char> {
    if n < 0 {
        seq!['-'] + decimal_nat((-n) as nat)
    } else {
        decimal_nat(n as nat)
    }
}

/// `String::push`: puts the character at the end of the string.
#[verifier::external_body]
fn push_char(text: &mut String, c: char)
    ensures
        final(text)@ == old(text)@.push(c),
{
    text.push(c)
}

fn digit_char(d: u64) -> (c: char)
    requires
        d < 10,
    ensures
        c == digit(d as int),
{
    if d == 0 {
        '0'
    } else if d == 1 {
        '1'
    } else if d == 2 {
        '2'
    } else if d == 3 {
        '3'
    } else if d == 4 {
        '4'
    } else if d == 5 {
        '5'
    } else if d == 6 {
        '6'
    } else if d == 7 {
        '7'
    } else if d == 8 {
        '8'
    } else {
        '9'
    }
}

/// Puts the decimal digits of `n` at the end of `text`.
fn push_decimal_nat(text: &mut String, n: u64)
    ensures
        final(text)@ == old(text)@ + decimal_nat(n as nat),
    decreases n,
{
    if n >= 10 {
        push_decimal_nat(text, n / 10);
    }
    push_char(text, digit_char(n % 10));
}

/// Puts `n` in decimal at the end of `text`.
fn push_decimal(text: &mut String, n: i64)
    ensures
        final(text)@ == old(text)@ + decimal(n as int),
{
    if n < 0 {
        push_char(text, '-');
        if n == i64::MIN {
            push_decimal_nat(text, 9223372036854775808u64);
        } else {
            push_decimal_nat(text, (-n) as u64);
        }
    } else {
        push_decimal_nat(text, n as u64);
    }
}

impl Render for char {
    open spec fn rendered(&self) -> Seq<char> {
        seq![*self]
    }

    fn render(&self) -> (text: String) {
        let mut text = String::new();
        push_char(&mut text, *self);
        text
    }
}

impl Render for u8 {
    open spec fn rendered(&self) -> Seq<char> {
        decimal_nat(*self as nat)
    }

    fn render(&self) -> (text: String) {
        let mut text = String::new();
        push_decimal_nat(&mut text, *self as u64);
        text
    }
}

impl Render for str {
    open spec fn rendered(&self) -> Seq<char> {
        self@
    }

    fn render(&self) -> (text: String) {
        String::from_str(self)
    }
}

impl<'a, T: ?Sized + Render> Render for &'a T {
    open spec fn rendered(&self) -> Seq<char> {
        (**self).rendered()
    }

    fn render(&self) -> (text: String) {
        (**self).render()
    }
}

impl Render for SourcePosition {
    open spec fn rendered(&self) -> Seq<char> {
        "line: "@ + decimal(self.line as int) + ", column: "@ + decimal(self.column as int)
    }

    fn render(&self) -> (text: String) {
        let mut text = String::from_str("line: ");
        push_decimal(&mut text, self.line as i64);
        text.append(", column: ");
        push_decimal(&mut text, self.column as i64);
        text
    }
}

impl Render for BytePosition {
    open spec fn rendered(&self) -> Seq<char> {
        "position: "@ + decimal_nat(self.position as nat)
    }

    fn render(&self) -> (text: String) {
        let mut text = String::from_str("position: ");
        push_decimal_nat(&mut text, self.position as u64);
        text
    }
}

impl<T: Render, R: Render> Render for Info<T, R> {
    /// A token or a range as it renders itself, a message as it stands.
    open spec fn rendered(&self) -> Seq<char> {
        match *self {
            Info::Token(t) => t.rendered(),
            Info::Range(r) => r.rendered(),
            Info::Owned(s) => s@,
            Info::Borrowed(s) => s@,
        }
    }

    fn render(&self) -> (text: String) {
        match self {
            Info::Token(c) => c.render(),
            Info::Range(c) => c.render(),
            Info::Owned(s) => s.clone(),
            Info::Borrowed(s) => String::from_str(s),
        }
    }
}

impl<T: Render, R: Render> Render for Error<T, R> {
    open spec fn rendered(&self) -> Seq<char> {
        match *self {
            Error::Unexpected(c) => "Unexpected token '"@ + c.rendered() + "'"@,
            Error::Expected(s) => "Expected "@ + s.rendered(),
            Error::Message(msg) => msg.rendered(),
            Error::Other(err) => err@,
        }
    }

    fn render(&self) -> (text: String) {
        match self {
            Error::Unexpected(c) => {
                let mut text = String::from_str("Unexpected token '");
                text.append(c.render().as_str());
                text.append("'");
                text
            },
            Error::Expected(s) => {
                let mut text = String::from_str("Expected ");
                text.append(s.render().as_str());
                text
            },
            Error::Message(msg) => msg.render(),
            Error::Other(err) => err.clone(),
        }
    }
}

/// One line for each `Unexpected` entry, in the entries' order.
pub open spec fn unexpected_lines<T: Render, R: Render>(errors: Seq<Error<T, R>>) -> Seq<char>
    decreases errors.len(),
{
    if errors.len() == 0 {
        Seq::empty()
    } else if errors.last() is Unexpected {
        unexpected_lines(errors.drop_last()) + errors.last().rendered() + seq!['\n']
    } else {
        unexpected_lines(errors.drop_last())
    }
}

/// The number of `Expected` entries.
pub open spec fn count_expected<T, R>(errors: Seq<Error<T, R>>) -> nat
    decreases errors.len(),
{
    if errors.len() == 0 {
        0
    } else if errors.last() is Expected {
        count_expected(errors.drop_last()) + 1
    } else {
        count_expected(errors.drop_last())
    }
}

/// What stands before the `k`-th of `total` expected things: the word
/// `Expected` before the first, ` or` before the last, a comma before the
/// others.
pub open spec fn expected_lead(k: nat, total: nat) -> Seq<char> {
    if k == 1 {
        "Expected"@
    } else if k == total {
        " or"@
    } else {
        ","@
    }
}

/// The `Expected` entries of `errors` as a list in words, each in quotes,
/// where the whole list has `total` of them.
pub open spec fn expected_list<T: Render, R: Render>(errors: Seq<Error<T, R>>, total: nat) -> Seq<
    char,
>
    decreases errors.len(),
{
    if errors.len() == 0 {
        Seq::empty()
    } else {
        match errors.last() {
            Error::Expected(message) => expected_list(errors.drop_last(), total) + expected_lead(
                count_expected(errors),
                total,
            ) + " '"@ + message.rendered() + seq!['\''],
            _ => expected_list(errors.drop_last(), total),
        }
    }
}

/// Where there is no `Expected` entry, the list is empty.
pub proof fn lemma_expected_list_empty<T: Render, R: Render>(errors: Seq<Error<T, R>>, total: nat)
    requires
        count_expected(errors) == 0,
    ensures
        expected_list(errors, total) == Seq::<char>::empty(),
    decreases errors.len(),
{
    if errors.len() > 0 {
        lemma_expected_list_empty(errors.drop_last(), total);
    }
}

/// The one line that lists what was expected; nothing where nothing was.
pub open spec fn expected_line<T: Render, R: Render>(errors: Seq<Error<T, R>>) -> Seq<char> {
    if count_expected(errors) == 0 {
        Seq::empty()
    } else {
        expected_list(errors, count_expected(errors)) + seq!['\n']
    }
}

/// One line for each `Message` and each `Other` entry, in the entries' order.
pub open spec fn message_lines<T: Render, R: Render>(errors: Seq<Error<T, R>>) -> Seq<char>
    decreases errors.len(),
{
    if errors.len() == 0 {
        Seq::empty()
    } else if errors.last() is Message || errors.last() is Other {
        message_lines(errors.drop_last()) + errors.last().rendered() + seq!['\n']
    } else {
        message_lines(errors.drop_last())
    }
}

impl<S: Stream> ParseError<S> where S::Item: Render, S::Range: Render, PositionOf<S>: Render {
    /// The text of the error: a line that names the position, a line for each
    /// unexpected token, one line that lists what was expected, and a line
    /// for each message.
    pub open spec fn rendered(&self) -> Seq<char> {
        "Parse error at "@ + self.position.rendered() + seq!['\n'] + unexpected_lines(self.errors@)
            + expected_line(self.errors@) + message_lines(self.errors@)
    }

    /// Writes the error out for a user to read.
    pub fn render(&self) -> (text: String)
        ensures
            text@ == self.rendered(),
    {
        let mut text = String::from_str("Parse error at ");
        text.append(self.position.render().as_str());
        push_char(&mut text, '\n');
        let n = self.errors.len();

        //First print the token that we did not expect
        //There should really just be one unexpected message at this point though we print them
        //all to be safe
        let ghost head = text@;
        let mut i: usize = 0;
        assert(self.errors@.take(0) =~= Seq::<Error<S::Item, S::Range>>::empty());
        while i < n
            invariant
                n == self.errors.len(),
                i <= n,
                text@ == head + unexpected_lines(self.errors@.take(i as int)),
            decreases n - i,
        {
            assert(self.errors@.take(i as int + 1).drop_last() =~= self.errors@.take(i as int));
            assert(self.errors@.take(i as int + 1).last() == self.errors@[i as int]);
            match &self.errors[i] {
                Error::Unexpected(_) => {
                    text.append(self.errors[i].render().as_str());
                    push_char(&mut text, '\n');
                },
                _ => {},
            }
            i += 1;
        }
        assert(self.errors@.take(n as int) =~= self.errors@);

        //Then we print out all the things that were expected in a comma separated list
        //'Expected 'a', 'expression' or 'let'
        let mut expected_count: usize = 0;
        i = 0;
        while i < n
            invariant
                n == self.errors.len(),
                i <= n,
                expected_count <= i,
                expected_count == count_expected(self.errors@.take(i as int)),
            decreases n - i,
        {
            assert(self.errors@.take(i as int + 1).drop_last() =~= self.errors@.take(i as int));
            assert(self.errors@.take(i as int + 1).last() == self.errors@[i as int]);
            match &self.errors[i] {
                Error::Expected(_) => {
                    expected_count += 1;
                },
                _ => {},
            }
            i += 1;
        }
        let ghost head = text@;
        let mut seen: usize = 0;
        i = 0;
        while i < n
            invariant
                n == self.errors.len(),
                i <= n,
                seen <= i,
                seen == count_expected(self.errors@.take(i as int)),
                expected_count == count_expected(self.errors@),
                text@ == head + expected_list(self.errors@.take(i as int), expected_count as nat),
            decreases n - i,
        {
            assert(self.errors@.take(i as int + 1).drop_last() =~= self.errors@.take(i as int));
            assert(self.errors@.take(i as int + 1).last() == self.errors@[i as int]);
            match &self.errors[i] {
                Error::Expected(message) => {
                    seen += 1;
                    if seen == 1 {
                        text.append("Expected");
                    } else if seen == expected_count {
                        //Last expected message to be written
                        text.append(" or");
                    } else {
                        text.append(",");
                    }
                    text.append(" '");
                    text.append(message.render().as_str());
                    push_char(&mut text, '\'');
                },
                _ => {},
            }
            i += 1;
        }
        if expected_count != 0 {
            push_char(&mut text, '\n');
        }
        proof {
            if expected_count == 0 {
                lemma_expected_list_empty(self.errors@, 0);
            }
            assert(text@ == head + expected_line(self.errors@));
        }
        //If there are any generic messages we print them out last

        let ghost head = text@;
        i = 0;
        while i < n
            invariant
                n == self.errors.len(),
                i <= n,
                text@ == head + message_lines(self.errors@.take(i as int)),
            decreases n - i,
        {
            assert(self.errors@.take(i as int + 1).drop_last() =~= self.errors@.take(i as int));
            assert(self.errors@.take(i as int + 1).last() == self.errors@[i as int]);
            match &self.errors[i] {
                Error::Message(_) | Error::Other(_) => {
                    text.append(self.errors[i].render().as_str());
                    push_char(&mut text, '\n');
                },
                _ => {},
            }
            i += 1;
        }
        text
    }
}

} // verus!
