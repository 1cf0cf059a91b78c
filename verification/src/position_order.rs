//! The order of positions: lexicographic by `(x, y, z)`.

use vstd::prelude::*;
use crate::position::Position;
use std::cmp::Ordering;

verus! {

/// Whether `a` comes strictly before `b`, lexicographically by `(x, y, z)`.
pub open spec fn lex_less(a: Position, b: Position) -> bool {
    a.x < b.x || (a.x == b.x && (a.y < b.y || (a.y == b.y && a.z < b.z)))
}

/// How `a` stands to `b` in the lexicographic order.
pub open spec fn lex_order(a: Position, b: Position) -> Ordering {
    if lex_less(a, b) {
        Ordering::Less
    } else if a == b {
        Ordering::Equal
    } else {
        Ordering::Greater
    }
}

impl Position {
    /// Compares two positions lexicographically by `(x, y, z)`.
    pub fn compare(&self, other: &Position) -> (r: Ordering)
        ensures
            r == lex_order(*self, *other),
    {
        if self.x > other.x {
            return Ordering::Greater;
        }
        if self.x < other.x {
            return Ordering::Less;
        }
        if self.y > other.y {
            return Ordering::Greater;
        }
        if self.y < other.y {
            return Ordering::Less;
        }
        if self.z > other.z {
            return Ordering::Greater;
        }
        if self.z < other.z {
            return Ordering::Less;
        }
        Ordering::Equal
    }
}

impl PartialOrd for Position {
    fn partial_cmp(&self, other: &Position) -> (r: Option<Ordering>) {
        Some(self.compare(other))
    }
}

impl vstd::std_specs::cmp::PartialOrdSpecImpl for Position {
    open spec fn obeys_partial_cmp_spec() -> bool {
        true
    }

    open spec fn partial_cmp_spec(&self, other: &Position) -> Option<Ordering> {
        Some(lex_order(*self, *other))
    }
}

/// The lexicographic order is a strict total order: irreflexive,
/// transitive, and any two distinct positions are comparable.
pub proof fn lemma_lex_total_order(a: Position, b: Position, c: Position)
    ensures
        !lex_less(a, a),
        lex_less(a, b) && lex_less(b, c) ==> lex_less(a, c),
        a != b ==> (lex_less(a, b) <==> !lex_less(b, a)),
        a == b ==> !lex_less(a, b) && !lex_less(b, a),
{
}

} // verus!
