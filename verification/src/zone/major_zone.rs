//! The 3x3 grid of major zones covering the simulation's bounding region.
//!
//! Every node is assigned to exactly one major zone per step.  Two distinct
//! major zones are adjacent when they share a side or a corner of the grid;
//! the zoned force mode treats nodes in the same zone exactly, nodes in
//! adjacent zones through their minor-zone aggregates, and nodes in
//! non-adjacent zones through one aggregate per zone.

use vstd::prelude::*;

verus! {

/// The nine major zones, row-major from the top left:
///
/// ```text
/// +---+---+---+
/// | 0 | 1 | 2 |
/// +---+---+---+
/// | 3 | 4 | 5 |
/// +---+---+---+
/// | 6 | 7 | 8 |
/// +---+---+---+
/// ```
#[derive(Debug, Clone, Copy, PartialEq, Eq, Structural)]
pub enum MajorZone {
    TopLeft,
    TopMiddle,
    TopRight,
    MiddleLeft,
    MiddleMiddle,
    MiddleRight,
    BottomLeft,
    BottomMiddle,
    BottomRight,
}

impl MajorZone {
    /// Row of the zone in the 3x3 grid, counted from the top.
    pub open spec fn spec_row(self) -> int {
        match self {
            MajorZone::TopLeft => 0,
            MajorZone::TopMiddle => 0,
            MajorZone::TopRight => 0,
            MajorZone::MiddleLeft => 1,
            MajorZone::MiddleMiddle => 1,
            MajorZone::MiddleRight => 1,
            MajorZone::BottomLeft => 2,
            MajorZone::BottomMiddle => 2,
            MajorZone::BottomRight => 2,
        }
    }

    /// Column of the zone in the 3x3 grid, counted from the left.
    pub open spec fn spec_col(self) -> int {
        match self {
            MajorZone::TopLeft => 0,
            MajorZone::TopMiddle => 1,
            MajorZone::TopRight => 2,
            MajorZone::MiddleLeft => 0,
            MajorZone::MiddleMiddle => 1,
            MajorZone::MiddleRight => 2,
            MajorZone::BottomLeft => 0,
            MajorZone::BottomMiddle => 1,
            MajorZone::BottomRight => 2,
        }
    }

    /// Row-major position of the zone in the grid, between 0 and 8.
    pub open spec fn spec_index(self) -> int {
        3 * self.spec_row() + self.spec_col()
    }

    /// Two major zones are adjacent when they are distinct and share a side
    /// or a corner: their rows and columns each differ by at most one.
    pub open spec fn spec_adjacent(self, other: MajorZone) -> bool {
        &&& self != other
        &&& -1 <= self.spec_row() - other.spec_row() <= 1
        &&& -1 <= self.spec_col() - other.spec_col() <= 1
    }

    /// Major zones with the same grid position are the same zone.
    pub proof fn lemma_index_injective(a: MajorZone, b: MajorZone)
        requires
            a.spec_index() == b.spec_index(),
        ensures
            a == b,
    {
    }

    /// Adjacency does not depend on which zone of the pair is asked.
    pub proof fn lemma_adjacent_symmetric(a: MajorZone, b: MajorZone)
        ensures
            a.spec_adjacent(b) == b.spec_adjacent(a),
    {
    }

    /// No major zone is adjacent to itself.
    pub proof fn lemma_adjacent_irreflexive(a: MajorZone)
        ensures
            !a.spec_adjacent(a),
    {
    }

    /// Every major zone sits at one of the nine grid positions.
    pub proof fn lemma_index_range(a: MajorZone)
        ensures
            0 <= a.spec_index() < 9,
    {
    }

    /// Zone at the given row-major position; the position must be valid.
    pub fn from_index(index: usize) -> (r: Self)
        requires
            index < 9,
        ensures
            r.spec_index() == index,
    {
        match index {
            0 => MajorZone::TopLeft,
            1 => MajorZone::TopMiddle,
            2 => MajorZone::TopRight,
            3 => MajorZone::MiddleLeft,
            4 => MajorZone::MiddleMiddle,
            5 => MajorZone::MiddleRight,
            6 => MajorZone::BottomLeft,
            7 => MajorZone::BottomMiddle,
            _ => MajorZone::BottomRight,
        }
    }

    /// Zone with the given one-based number, row-major from the top left.
    pub fn from_zone_number(zone_number: usize) -> (r: Self)
        requires
            1 <= zone_number <= 9,
        ensures
            r.spec_index() == zone_number - 1,
    {
        Self::from_index(zone_number - 1)
    }

    /// One-based number of the zone, between 1 and 9.
    pub fn get_zone_number(&self) -> (r: usize)
        ensures
            r == self.spec_index() + 1,
    {
        self.get_zone_index() + 1
    }

    /// Row-major position of the zone, between 0 and 8.
    pub fn get_zone_index(&self) -> (r: usize)
        ensures
            r == self.spec_index(),
    {
        match self {
            MajorZone::TopLeft => 0,
            MajorZone::TopMiddle => 1,
            MajorZone::TopRight => 2,
            MajorZone::MiddleLeft => 3,
            MajorZone::MiddleMiddle => 4,
            MajorZone::MiddleRight => 5,
            MajorZone::BottomLeft => 6,
            MajorZone::BottomMiddle => 7,
            MajorZone::BottomRight => 8,
        }
    }

    /// Whether the two zones share a side or a corner of the grid.
    pub fn is_adjacent_to(&self, other: &MajorZone) -> (r: bool)
        ensures
            r == self.spec_adjacent(*other),
    {
        let si = self.get_zone_index();
        let oi = other.get_zone_index();
        let row_diff = if si / 3 >= oi / 3 {
            si / 3 - oi / 3
        } else {
            oi / 3 - si / 3
        };
        let col_diff = if si % 3 >= oi % 3 {
            si % 3 - oi % 3
        } else {
            oi % 3 - si % 3
        };
        proof {
            if si == oi {
                Self::lemma_index_injective(*self, *other);
            }
        }
        si != oi && row_diff <= 1 && col_diff <= 1
    }

    /// Whether the two zones are distinct and share neither a side nor a
    /// corner.
    pub fn not_adjacent_to(&self, other: &MajorZone) -> (r: bool)
        ensures
            r == !self.spec_adjacent(*other),
    {
        !self.is_adjacent_to(other)
    }

    /// All major zones adjacent to this one, in grid order.
    pub fn adjacent(&self) -> (r: Vec<MajorZone>)
        ensures
            forall|z: MajorZone| #![trigger r@.contains(z)]
                r@.contains(z) <==> self.spec_adjacent(z),
            forall|k1: int, k2: int|
                0 <= k1 < k2 < r@.len() ==> r@[k1].spec_index() < r@[k2].spec_index(),
            r@.no_duplicates(),
    {
        self.select_zones(true)
    }

    /// All major zones other than this one that are not adjacent to it, in
    /// grid order.
    pub fn not_adjacent(&self) -> (r: Vec<MajorZone>)
        ensures
            forall|z: MajorZone| #![trigger r@.contains(z)]
                r@.contains(z) <==> (z != *self && !self.spec_adjacent(z)),
            forall|k1: int, k2: int|
                0 <= k1 < k2 < r@.len() ==> r@[k1].spec_index() < r@[k2].spec_index(),
            r@.no_duplicates(),
    {
        let r = self.select_zones(false);
        proof {
            assert forall|z: MajorZone|
                r@.contains(z) <==> (z != *self && !self.spec_adjacent(z)) by {
                assert(r@.contains(z) <==> (z != *self && self.spec_adjacent(z) == false));
            }
        }
        r
    }

    /// Walks the grid in order and keeps the zones whose adjacency verdict
    /// against `self` matches `want_adjacent`; the zone itself never
    /// qualifies.
    fn select_zones(&self, want_adjacent: bool) -> (r: Vec<MajorZone>)
        ensures
            forall|z: MajorZone| #![trigger r@.contains(z)]
                r@.contains(z) <==> (z != *self && self.spec_adjacent(z) == want_adjacent),
            forall|k1: int, k2: int|
                0 <= k1 < k2 < r@.len() ==> r@[k1].spec_index() < r@[k2].spec_index(),
            r@.no_duplicates(),
    {
        let mut r: Vec<MajorZone> = Vec::new();
        let mut k: usize = 0;
        while k < 9
            invariant
                k <= 9,
                forall|m: int|
                    0 <= m < r@.len() ==> (#[trigger] r@[m]) != *self && self.spec_adjacent(
                        r@[m],
                    ) == want_adjacent && r@[m].spec_index() < k,
                forall|z: MajorZone|
                    (z != *self && self.spec_adjacent(z) == want_adjacent && z.spec_index()
                        < k) ==> r@.contains(z),
                forall|k1: int, k2: int|
                    0 <= k1 < k2 < r@.len() ==> r@[k1].spec_index() < r@[k2].spec_index(),
            decreases 9 - k,
        {
            let z = Self::from_index(k);
            let keep = if want_adjacent {
                self.is_adjacent_to(&z)
            } else {
                z.get_zone_index() != self.get_zone_index() && self.not_adjacent_to(&z)
            };
            proof {
                if z.spec_index() == self.spec_index() {
                    Self::lemma_index_injective(z, *self);
                }
            }
            let ghost prev = r@;
            if keep {
                r.push(z);
            }
            proof {
                assert forall|z2: MajorZone|
                    (z2 != *self && self.spec_adjacent(z2) == want_adjacent && z2.spec_index() < k
                        + 1) implies r@.contains(z2) by {
                    if z2.spec_index() < k {
                        let i = choose|i: int| 0 <= i < prev.len() && prev[i] == z2;
                        assert(r@[i] == z2);
                    } else {
                        Self::lemma_index_injective(z2, z);
                        assert(r@[r@.len() - 1] == z2);
                    }
                }
            }
            k = k + 1;
        }
        proof {
            assert forall|z: MajorZone|
                (z != *self && self.spec_adjacent(z) == want_adjacent) implies r@.contains(z) by {
                Self::lemma_index_range(z);
            }
            assert forall|z: MajorZone|
                r@.contains(z) implies (z != *self && self.spec_adjacent(z)
                == want_adjacent) by {
                let i = choose|i: int| 0 <= i < r@.len() && r@[i] == z;
                assert(r@[i] != *self && self.spec_adjacent(r@[i]) == want_adjacent);
            }
            assert forall|k1: int, k2: int|
                0 <= k1 < r@.len() && 0 <= k2 < r@.len() && k1 != k2 implies r@[k1]
                != r@[k2] by {
                if k1 < k2 {
                    assert(r@[k1].spec_index() < r@[k2].spec_index());
                } else {
                    assert(r@[k2].spec_index() < r@[k1].spec_index());
                }
            }
        }
        r
    }
}

} // verus!
