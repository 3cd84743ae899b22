//! Prices as the band and cross logic compares them: a place in a total
//! order, or no place at all.
//!
//! A finite or infinite price maps to an integer key whose order is the
//! order of the prices. A price that is not a number has no key: every
//! comparison with it is false, and `lower`/`higher` pass over it in favour
//! of the other operand, as the floating-point `min` and `max` do.
use vstd::prelude::*;

verus! {

/// A price as an order key, or a price with no place in the order.
#[derive(Debug, Clone, Copy, PartialEq, Eq, Structural)]
pub enum Level {
    Unordered,
    Ordered(i64),
}

/// The lower of two levels; an unordered level yields to the other one.
pub open spec fn lower_level(a: Level, b: Level) -> Level {
    match (a, b) {
        (Level::Unordered, _) => b,
        (_, Level::Unordered) => a,
        (Level::Ordered(x), Level::Ordered(y)) => if y < x {
            b
        } else {
            a
        },
    }
}

/// The higher of two levels; an unordered level yields to the other one.
pub open spec fn higher_level(a: Level, b: Level) -> Level {
    match (a, b) {
        (Level::Unordered, _) => b,
        (_, Level::Unordered) => a,
        (Level::Ordered(x), Level::Ordered(y)) => if y > x {
            b
        } else {
            a
        },
    }
}

/// `a < b`; false when either is unordered.
pub open spec fn level_below(a: Level, b: Level) -> bool {
    a matches Level::Ordered(x) && b matches Level::Ordered(y) && x < y
}

/// `a <= b`; false when either is unordered.
pub open spec fn level_at_most(a: Level, b: Level) -> bool {
    a matches Level::Ordered(x) && b matches Level::Ordered(y) && x <= y
}

/// Ordered levels compare and combine as their keys do; an unordered level
/// makes every comparison false and yields to the other operand of `lower`
/// and `higher`.
pub proof fn lemma_levels_follow_keys(x: i64, y: i64, other: Level)
    ensures
        level_below(Level::Ordered(x), Level::Ordered(y)) <==> x < y,
        level_at_most(Level::Ordered(x), Level::Ordered(y)) <==> x <= y,
        lower_level(Level::Ordered(x), Level::Ordered(y)) == Level::Ordered(if y < x { y } else { x }),
        higher_level(Level::Ordered(x), Level::Ordered(y)) == Level::Ordered(if y > x { y } else { x }),
        !level_below(Level::Unordered, other) && !level_below(other, Level::Unordered),
        !level_at_most(Level::Unordered, other) && !level_at_most(other, Level::Unordered),
        lower_level(Level::Unordered, other) == other && lower_level(other, Level::Unordered) == other,
        higher_level(Level::Unordered, other) == other && higher_level(other, Level::Unordered) == other,
{
}

impl Level {
    /// The lower of `self` and `other`, passing over an unordered operand.
    pub fn lower(self, other: Level) -> (r: Level)
        ensures
            r == lower_level(self, other),
    {
        match (self, other) {
            (Level::Unordered, _) => other,
            (_, Level::Unordered) => self,
            (Level::Ordered(x), Level::Ordered(y)) => if y < x {
                other
            } else {
                self
            },
        }
    }

    /// The higher of `self` and `other`, passing over an unordered operand.
    pub fn higher(self, other: Level) -> (r: Level)
        ensures
            r == higher_level(self, other),
    {
        match (self, other) {
            (Level::Unordered, _) => other,
            (_, Level::Unordered) => self,
            (Level::Ordered(x), Level::Ordered(y)) => if y > x {
                other
            } else {
                self
            },
        }
    }

    /// Whether `self < other`.
    pub fn below(self, other: Level) -> (r: bool)
        ensures
            r == level_below(self, other),
    {
        match (self, other) {
            (Level::Ordered(x), Level::Ordered(y)) => x < y,
            _ => false,
        }
    }

    /// Whether `self <= other`.
    pub fn at_most(self, other: Level) -> (r: bool)
        ensures
            r == level_at_most(self, other),
    {
        match (self, other) {
            (Level::Ordered(x), Level::Ordered(y)) => x <= y,
            _ => false,
        }
    }
}

} // verus!
