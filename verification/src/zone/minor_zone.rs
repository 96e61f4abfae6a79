//! The 2x2 grid of minor zones inside one major zone.
//!
//! A minor zone only matters from the outside: when a node in one major zone
//! interacts with an adjacent major zone, the members of each of that zone's
//! four minor zones are aggregated into a single point mass.  Within its own
//! major zone a node's minor zone has no effect.

use vstd::prelude::*;

verus! {

#[derive(Debug, Clone, Copy, PartialEq, Eq, Structural)]
pub enum MinorZone {
    TopLeft,
    TopRight,
    BottomLeft,
    BottomRight,
}

impl MinorZone {
    /// Position of the minor zone in its 2x2 grid, row-major from the top
    /// left.
    pub open spec fn spec_index(self) -> int {
        match self {
            MinorZone::TopLeft => 0,
            MinorZone::TopRight => 1,
            MinorZone::BottomLeft => 2,
            MinorZone::BottomRight => 3,
        }
    }

    /// Minor zones with the same grid position are the same zone.
    pub proof fn lemma_index_injective(a: MinorZone, b: MinorZone)
        requires
            a.spec_index() == b.spec_index(),
        ensures
            a == b,
    {
    }

    pub fn from_index(index: usize) -> (r: Self)
        requires
            index < 4,
        ensures
            r.spec_index() == index,
    {
        match index {
            0 => MinorZone::TopLeft,
            1 => MinorZone::TopRight,
            2 => MinorZone::BottomLeft,
            _ => MinorZone::BottomRight,
        }
    }

    pub fn get_zone_index(&self) -> (r: usize)
        ensures
            r == self.spec_index(),
    {
        match self {
            MinorZone::TopLeft => 0,
            MinorZone::TopRight => 1,
            MinorZone::BottomLeft => 2,
            MinorZone::BottomRight => 3,
        }
    }
}

} // verus!
