//! How drawing an item from a stream moves the position.
use crate::position::{BytePosition, SourcePosition};
use vstd::prelude::*;

verus! {

/// `==` of `str`: two string slices are equal exactly when they hold the same
/// characters.
#[verifier::external_body]
pub(crate) fn str_eq(a: &str, b: &str) -> (r: bool)
    ensures
        r == (a@ == b@),
{
    a == b
}

/// An item that knows how to move a position past itself, and which items
/// are the same as itself.
///
/// A stream's item type implements this, so that a state can keep track of
/// where it is as items are drawn, and so that errors that name items can be
/// told apart.
pub trait Positioner: PartialEq {
    /// The position that items of this type move.
    type Position: Clone + Ord + core::fmt::Debug;

    /// The position before any item has been drawn.
    spec fn start_spec() -> Self::Position;

    /// Whether `position` can be moved past `self`. An item type whose
    /// `update` works on every position says `true`, as `char` and `u8` do.
    spec fn can_update(&self, position: Self::Position) -> bool;

    /// The position reached from `position` by drawing `self`.
    spec fn update_spec(&self, position: Self::Position) -> Self::Position;

    /// Creates a start position
    fn start() -> (p: Self::Position)
        ensures
            p == Self::start_spec(),
    ;

    /// Updates the position given that `self` has been taken from the stream
    fn update(&self, position: &mut Self::Position)
        requires
            self.can_update(*old(position)),
        ensures
            *final(position) == self.update_spec(*old(position)),
    ;

    /// Whether `self` and `other` are the same item. This is to be what `==`
    /// decides on the type; it has a name of its own because `==` on items
    /// of any type has no meaning that a contract could speak of.
    spec fn same(&self, other: &Self) -> bool;

    /// Compares as `==` does.
    fn same_as(&self, other: &Self) -> (r: bool)
        ensures
            r == self.same(other),
    ;

    /// A clone of a position is that position.
    proof fn lemma_position_clone(a: Self::Position, b: Self::Position)
        requires
            cloned(a, b),
        ensures
            a == b,
    ;

    /// Being the same item is symmetric and transitive.
    proof fn lemma_same(a: &Self, b: &Self, c: &Self)
        ensures
            a.same(b) ==> b.same(a),
            a.same(b) && b.same(c) ==> a.same(c),
    ;
}

/// Whether `position` can be moved past every item of `items` in turn.
pub open spec fn can_update_all<T: Positioner>(items: Seq<T>, position: T::Position) -> bool
    decreases items.len(),
{
    if items.len() == 0 {
        true
    } else {
        can_update_all(items.drop_last(), position) && items.last().can_update(
            update_all(items.drop_last(), position),
        )
    }
}

/// The position reached from `position` by drawing the items of `items` in order.
pub open spec fn update_all<T: Positioner>(items: Seq<T>, position: T::Position) -> T::Position
    decreases items.len(),
{
    if items.len() == 0 {
        position
    } else {
        items.last().update_spec(update_all(items.drop_last(), position))
    }
}

/// Drawing `a` then `b` is drawing their concatenation.
pub proof fn lemma_update_all_concat<T: Positioner>(a: Seq<T>, b: Seq<T>, position: T::Position)
    ensures
        update_all(a + b, position) == update_all(b, update_all(a, position)),
        can_update_all(a + b, position) == (can_update_all(a, position) && can_update_all(
            b,
            update_all(a, position),
        )),
    decreases b.len(),
{
    if b.len() == 0 {
        assert(a + b =~= a);
    } else {
        assert((a + b).drop_last() =~= a + b.drop_last());
        assert((a + b).last() == b.last());
        lemma_update_all_concat(a, b.drop_last(), position);
    }
}

/// Drawing the first item and then the rest is drawing all of them.
pub proof fn lemma_update_all_first<T: Positioner>(items: Seq<T>, position: T::Position)
    requires
        items.len() > 0,
    ensures
        update_all(items, position) == update_all(
            items.skip(1),
            items[0].update_spec(position),
        ),
        can_update_all(items, position) == (items[0].can_update(position) && can_update_all(
            items.skip(1),
            items[0].update_spec(position),
        )),
{
    let head = items.take(1);
    assert(head + items.skip(1) =~= items);
    assert(head.drop_last() =~= Seq::<T>::empty());
    assert(head.last() == items[0]);
    assert(update_all(head.drop_last(), position) == position);
    assert(can_update_all(head.drop_last(), position));
    assert(update_all(head, position) == items[0].update_spec(position));
    assert(can_update_all(head, position) == items[0].can_update(position));
    lemma_update_all_concat(head, items.skip(1), position);
}

/// The next line or column: one more, but never past `i32::MAX`.
pub open spec fn next_i32(n: i32) -> i32 {
    if n < i32::MAX {
        (n + 1) as i32
    } else {
        n
    }
}

/// `n`, or `limit` where `n` is past it.
pub open spec fn at_most(n: int, limit: int) -> int {
    if n <= limit {
        n
    } else {
        limit
    }
}

impl Positioner for char {
    type Position = SourcePosition;

    open spec fn start_spec() -> SourcePosition {
        SourcePosition { line: 1, column: 1 }
    }

    /// A character moves every position: see `update_spec`.
    open spec fn can_update(&self, position: SourcePosition) -> bool {
        true
    }

    /// A line feed leads to column 1 of the next line, any other character to
    /// the next column. A line or a column that stands at `i32::MAX` stays
    /// there.
    open spec fn update_spec(&self, position: SourcePosition) -> SourcePosition {
        if *self == '\n' {
            SourcePosition { line: next_i32(position.line), column: 1 }
        } else {
            SourcePosition { line: position.line, column: next_i32(position.column) }
        }
    }

    fn start() -> (p: SourcePosition) {
        SourcePosition { line: 1, column: 1 }
    }

    fn update(&self, position: &mut SourcePosition) {
        if position.column < i32::MAX {
            position.column += 1;
        }
        if *self == '\n' {
            position.column = 1;
            if position.line < i32::MAX {
                position.line += 1;
            }
        }
    }

    open spec fn same(&self, other: &char) -> bool {
        *self == *other
    }

    fn same_as(&self, other: &char) -> (r: bool) {
        *self == *other
    }

    proof fn lemma_position_clone(a: SourcePosition, b: SourcePosition) {
        assert(vstd::pervasive::strictly_cloned(a, b) ==> b == a);
    }

    proof fn lemma_same(a: &char, b: &char, c: &char) {
    }
}

impl Positioner for u8 {
    type Position = BytePosition;

    open spec fn start_spec() -> BytePosition {
        BytePosition { position: 0 }
    }

    /// A byte moves every position: see `update_spec`.
    open spec fn can_update(&self, position: BytePosition) -> bool {
        true
    }

    /// The next offset. An offset that stands at `usize::MAX` stays there.
    open spec fn update_spec(&self, position: BytePosition) -> BytePosition {
        if position.position < usize::MAX {
            BytePosition { position: (position.position + 1) as usize }
        } else {
            position
        }
    }

    fn start() -> (p: BytePosition) {
        BytePosition { position: 0 }
    }

    fn update(&self, b: &mut BytePosition) {
        if b.position < usize::MAX {
            b.position += 1;
        }
    }

    open spec fn same(&self, other: &u8) -> bool {
        *self == *other
    }

    fn same_as(&self, other: &u8) -> (r: bool) {
        *self == *other
    }

    proof fn lemma_position_clone(a: BytePosition, b: BytePosition) {
        assert(vstd::pervasive::strictly_cloned(a, b) ==> b == a);
    }

    proof fn lemma_same(a: &u8, b: &u8, c: &u8) {
    }
}

impl<'a, T: ?Sized> Positioner for &'a T where T: Positioner {
    type Position = <T as Positioner>::Position;

    open spec fn start_spec() -> <T as Positioner>::Position {
        <T as Positioner>::start_spec()
    }

    open spec fn can_update(&self, position: <T as Positioner>::Position) -> bool {
        (**self).can_update(position)
    }

    open spec fn update_spec(&self, position: <T as Positioner>::Position) -> <
        T as Positioner
    >::Position {
        (**self).update_spec(position)
    }

    fn start() -> (p: <T as Positioner>::Position) {
        <T as Positioner>::start()
    }

    fn update(&self, position: &mut <T as Positioner>::Position) {
        (*self).update(position)
    }

    open spec fn same(&self, other: &&'a T) -> bool {
        (**self).same(*other)
    }

    fn same_as(&self, other: &&'a T) -> (r: bool) {
        (**self).same_as(*other)
    }

    proof fn lemma_position_clone(a: <T as Positioner>::Position, b: <T as Positioner>::Position) {
        T::lemma_position_clone(a, b);
    }

    proof fn lemma_same(a: &&'a T, b: &&'a T, c: &&'a T) {
        T::lemma_same(*a, *b, *c);
    }
}

impl<T> Positioner for [T] where T: Positioner {
    type Position = <T as Positioner>::Position;

    open spec fn start_spec() -> <T as Positioner>::Position {
        <T as Positioner>::start_spec()
    }

    open spec fn can_update(&self, position: <T as Positioner>::Position) -> bool {
        can_update_all(self@, position)
    }

    open spec fn update_spec(&self, position: <T as Positioner>::Position) -> <
        T as Positioner
    >::Position {
        update_all(self@, position)
    }

    fn start() -> (p: <T as Positioner>::Position) {
        <T as Positioner>::start()
    }

    fn update(&self, position: &mut <T as Positioner>::Position) {
        let n = self.len();
        let mut i: usize = 0;
        assert(self@.take(0) =~= Seq::<T>::empty());
        while i < n
            invariant
                n == self@.len(),
                i <= n,
                can_update_all(self@, *old(position)),
                *position == update_all(self@.take(i as int), *old(position)),
            decreases n - i,
        {
            proof {
                assert(self@.take(i as int + 1).drop_last() =~= self@.take(i as int));
                assert(self@.take(i as int + 1).last() == self@[i as int]);
                assert(self@.take(i as int + 1) + self@.skip(i as int + 1) =~= self@);
                lemma_update_all_concat(
                    self@.take(i as int + 1),
                    self@.skip(i as int + 1),
                    *old(position),
                );
            }
            self[i].update(position);
            i += 1;
        }
        assert(self@.take(n as int) =~= self@);
    }

    /// Slices are the same where they are as long as each other and their
    /// items are the same one by one.
    open spec fn same(&self, other: &[T]) -> bool {
        self@.len() == other@.len() && forall|i: int|
            0 <= i < self@.len() ==> (#[trigger] self@[i]).same(&other@[i])
    }

    fn same_as(&self, other: &[T]) -> (r: bool) {
        let n = self.len();
        if n != other.len() {
            return false;
        }
        let mut i: usize = 0;
        while i < n
            invariant
                n == self@.len(),
                n == other@.len(),
                i <= n,
                forall|k: int| 0 <= k < i ==> (#[trigger] self@[k]).same(&other@[k]),
            decreases n - i,
        {
            if !self[i].same_as(&other[i]) {
                return false;
            }
            i += 1;
        }
        true
    }

    proof fn lemma_position_clone(a: <T as Positioner>::Position, b: <T as Positioner>::Position) {
        T::lemma_position_clone(a, b);
    }

    proof fn lemma_same(a: &[T], b: &[T], c: &[T]) {
        if a.same(b) {
            assert forall|i: int| 0 <= i < b@.len() implies (#[trigger] b@[i]).same(&a@[i]) by {
                assert(a@[i].same(&b@[i]));
                T::lemma_same(&a@[i], &b@[i], &c@[i]);
            }
            if b.same(c) {
                assert forall|i: int| 0 <= i < a@.len() implies (#[trigger] a@[i]).same(
                    &c@[i],
                ) by {
                    assert(a@[i].same(&b@[i]));
                    assert(b@[i].same(&c@[i]));
                    T::lemma_same(&a@[i], &b@[i], &c@[i]);
                }
            }
        }
    }
}

impl Positioner for str {
    type Position = SourcePosition;

    open spec fn start_spec() -> SourcePosition {
        char::start_spec()
    }

    open spec fn can_update(&self, position: SourcePosition) -> bool {
        can_update_all(self@, position)
    }

    open spec fn update_spec(&self, position: SourcePosition) -> SourcePosition {
        update_all(self@, position)
    }

    fn start() -> (p: SourcePosition) {
        char::start()
    }

    fn update(&self, position: &mut SourcePosition) {
        broadcast use vstd::string::group_string_axioms;

        assert(self@.take(0) =~= Seq::<char>::empty());
        for t in it: self.chars()
            invariant
                it.seq() == self@,
                can_update_all(self@, *old(position)),
                *position == update_all(self@.take(it.index()), *old(position)),
        {
            proof {
                let i = it.index();
                assert(self@.take(i + 1).drop_last() =~= self@.take(i));
                assert(self@.take(i + 1).last() == self@[i]);
                assert(self@.take(i + 1) + self@.skip(i + 1) =~= self@);
                lemma_update_all_concat(self@.take(i + 1), self@.skip(i + 1), *old(position));
            }
            t.update(position);
        }
        assert(self@.take(self@.len() as int) =~= self@);
    }

    open spec fn same(&self, other: &str) -> bool {
        self@ == other@
    }

    fn same_as(&self, other: &str) -> (r: bool) {
        str_eq(self, other)
    }

    proof fn lemma_position_clone(a: SourcePosition, b: SourcePosition) {
        assert(vstd::pervasive::strictly_cloned(a, b) ==> b == a);
    }

    proof fn lemma_same(a: &str, b: &str, c: &str) {
    }
}

/// The number of line feeds in `text`.
pub open spec fn newlines(text: Seq<char>) -> nat
    decreases text.len(),
{
    if text.len() == 0 {
        0
    } else if text.last() == '\n' {
        newlines(text.drop_last()) + 1
    } else {
        newlines(text.drop_last())
    }
}

/// The number of characters of `text` after its last line feed; all of them
/// where it has none.
pub open spec fn trailing(text: Seq<char>) -> nat
    decreases text.len(),
{
    if text.len() == 0 || text.last() == '\n' {
        0
    } else {
        trailing(text.drop_last()) + 1
    }
}

/// After a text has been drawn from the start, the line is one more than the
/// line feeds drawn, and the column one more than the characters drawn since
/// the last of them; neither goes past `i32::MAX`.
pub proof fn lemma_text_position(text: Seq<char>)
    ensures
        update_all::<char>(text, char::start_spec()).line == at_most(
            newlines(text) + 1int,
            i32::MAX as int,
        ),
        update_all::<char>(text, char::start_spec()).column == at_most(
            trailing(text) + 1int,
            i32::MAX as int,
        ),
    decreases text.len(),
{
    if text.len() > 0 {
        lemma_text_position(text.drop_last());
    }
}

/// Any text can be drawn to its end from any position.
pub proof fn lemma_text_can_update(text: Seq<char>, position: SourcePosition)
    ensures
        can_update_all::<char>(text, position),
    decreases text.len(),
{
    if text.len() > 0 {
        lemma_text_can_update(text.drop_last(), position);
    }
}

/// After bytes have been drawn from the start, the offset is their number,
/// or `usize::MAX` where they are more.
pub proof fn lemma_byte_position(bytes: Seq<u8>)
    ensures
        update_all::<u8>(bytes, u8::start_spec()).position == at_most(
            bytes.len() as int,
            usize::MAX as int,
        ),
    decreases bytes.len(),
{
    if bytes.len() > 0 {
        lemma_byte_position(bytes.drop_last());
    }
}

/// Any bytes can be drawn to their end from any position.
pub proof fn lemma_bytes_can_update(bytes: Seq<u8>, position: BytePosition)
    ensures
        can_update_all::<u8>(bytes, position),
    decreases bytes.len(),
{
    if bytes.len() > 0 {
        lemma_bytes_can_update(bytes.drop_last(), position);
    }
}

} // verus!
