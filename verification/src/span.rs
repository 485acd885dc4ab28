use vstd::prelude::*;

verus! {

/// A region of the source text: `len` characters beginning at offset `start`.
///
/// Offsets count characters, not bytes.
#[derive(Debug, Clone, Copy, PartialEq, Eq, Structural)]
pub struct Span {
    pub start: usize,
    pub len: usize,
}

impl Span {
    /// The offset one past the last character of the region.
    pub open spec fn end(self) -> int {
        self.start + self.len
    }

    /// Whether every offset of `other` lies inside `self`.
    pub open spec fn covers(self, other: Span) -> bool {
        self.start <= other.start && other.end() <= self.end()
    }

    /// The region from the earlier of the two starts to the later of the two ends.
    pub open spec fn hull(self, other: Span) -> Span {
        let start = if self.start <= other.start { self.start } else { other.start };
        let end = if self.end() >= other.end() { self.end() } else { other.end() };
        Span { start, len: (end - start) as usize }
    }

    /// The smallest span that covers both `self` and `other`.
    pub fn merge(&self, other: Self) -> (merged: Self)
        requires
            self.end() <= usize::MAX,
            other.end() <= usize::MAX,
        ensures
            merged == self.hull(other),
            merged.covers(*self),
            merged.covers(other),
    {
        let start = if self.start <= other.start { self.start } else { other.start };
        let mine = self.start + self.len;
        let theirs = other.start + other.len;
        let end = if mine >= theirs { mine } else { theirs };
        Span { start, len: end - start }
    }
}

/// Merging yields a lower bound of all common covers: any span that covers
/// both inputs also covers their hull.
pub proof fn hull_is_least(a: Span, b: Span, c: Span)
    requires
        a.end() <= usize::MAX,
        b.end() <= usize::MAX,
        c.covers(a),
        c.covers(b),
    ensures
        c.covers(a.hull(b)),
        a.hull(b).covers(a),
        a.hull(b).covers(b),
{
}

/// Merging does not depend on the order of its arguments.
pub proof fn hull_commutes(a: Span, b: Span)
    ensures
        a.hull(b) == b.hull(a),
{
}

} // verus!
