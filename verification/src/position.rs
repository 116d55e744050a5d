//! The two standard positions: line and column for text, an offset for bytes.
use crate::order::{follows, later, obeys_order, precedes};
use std::cmp::Ordering;
use vstd::prelude::*;
use vstd::std_specs::cmp::{PartialEqSpecImpl, PartialOrdSpecImpl};

verus! {

/// A place in a text: line and column, both counted from 1.
///
/// Positions are ordered by line first, then by column.
#[derive(Copy, Debug, Eq, Ord)]
pub struct SourcePosition {
    /// Current line of the input
    pub line: i32,
    /// Current column of the input
    pub column: i32,
}

/// A place in a byte stream: the number of items before it.
#[derive(Copy, Debug, Eq, Ord)]
pub struct BytePosition {
    /// Current position
    pub position: usize,
}

impl SourcePosition {
    /// `self` lies strictly before `other`.
    pub open spec fn before(self, other: SourcePosition) -> bool {
        self.line < other.line || (self.line == other.line && self.column < other.column)
    }
}

impl BytePosition {
    /// `self` lies strictly before `other`.
    pub open spec fn before(self, other: BytePosition) -> bool {
        self.position < other.position
    }
}

impl Clone for SourcePosition {
    fn clone(&self) -> (r: SourcePosition)
        ensures
            r == *self,
    {
        *self
    }
}

impl Clone for BytePosition {
    fn clone(&self) -> (r: BytePosition)
        ensures
            r == *self,
    {
        *self
    }
}

impl PartialEq for SourcePosition {
    fn eq(&self, other: &SourcePosition) -> (r: bool) {
        self.line == other.line && self.column == other.column
    }
}

impl PartialEqSpecImpl for SourcePosition {
    open spec fn obeys_eq_spec() -> bool {
        true
    }

    open spec fn eq_spec(&self, other: &SourcePosition) -> bool {
        *self == *other
    }
}

impl PartialOrd for SourcePosition {
    fn partial_cmp(&self, other: &SourcePosition) -> (r: Option<Ordering>) {
        if self.line < other.line {
            Some(Ordering::Less)
        } else if self.line > other.line {
            Some(Ordering::Greater)
        } else if self.column < other.column {
            Some(Ordering::Less)
        } else if self.column > other.column {
            Some(Ordering::Greater)
        } else {
            Some(Ordering::Equal)
        }
    }
}

impl PartialOrdSpecImpl for SourcePosition {
    open spec fn obeys_partial_cmp_spec() -> bool {
        true
    }

    open spec fn partial_cmp_spec(&self, other: &SourcePosition) -> Option<Ordering> {
        if self.before(*other) {
            Some(Ordering::Less)
        } else if other.before(*self) {
            Some(Ordering::Greater)
        } else {
            Some(Ordering::Equal)
        }
    }
}

impl PartialEq for BytePosition {
    fn eq(&self, other: &BytePosition) -> (r: bool) {
        self.position == other.position
    }
}

impl PartialEqSpecImpl for BytePosition {
    open spec fn obeys_eq_spec() -> bool {
        true
    }

    open spec fn eq_spec(&self, other: &BytePosition) -> bool {
        *self == *other
    }
}

impl PartialOrd for BytePosition {
    fn partial_cmp(&self, other: &BytePosition) -> (r: Option<Ordering>) {
        if self.position < other.position {
            Some(Ordering::Less)
        } else if self.position > other.position {
            Some(Ordering::Greater)
        } else {
            Some(Ordering::Equal)
        }
    }
}

impl PartialOrdSpecImpl for BytePosition {
    open spec fn obeys_partial_cmp_spec() -> bool {
        true
    }

    open spec fn partial_cmp_spec(&self, other: &BytePosition) -> Option<Ordering> {
        if self.before(*other) {
            Some(Ordering::Less)
        } else if other.before(*self) {
            Some(Ordering::Greater)
        } else {
            Some(Ordering::Equal)
        }
    }
}

/// Source positions are ordered as `<` says: by line, then by column. The
/// later of two of them is one of the two, and neither lies after it.
pub proof fn lemma_source_position_order(a: SourcePosition, b: SourcePosition)
    ensures
        obeys_order::<SourcePosition>(),
        precedes(a, b) <==> a.before(b),
        follows(a, b) <==> b.before(a),
        !precedes(a, b) && !follows(a, b) <==> a == b,
        later(a, b) == a || later(a, b) == b,
        !later(a, b).before(a),
        !later(a, b).before(b),
{
}

/// Byte positions are ordered as `<` says: by their offset. The later of two
/// of them holds the larger offset.
pub proof fn lemma_byte_position_order(a: BytePosition, b: BytePosition)
    ensures
        obeys_order::<BytePosition>(),
        precedes(a, b) <==> a.position < b.position,
        follows(a, b) <==> a.position > b.position,
        !precedes(a, b) && !follows(a, b) <==> a == b,
        later(a, b).position == if a.position < b.position {
            b.position
        } else {
            a.position
        },
{
}

} // verus!
