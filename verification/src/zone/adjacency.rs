//! A two-valued adjacency verdict with integer and boolean encodings.

use vstd::prelude::*;

verus! {

#[derive(Debug, Clone, Copy, PartialEq, Eq, Structural)]
pub enum Adjacency {
    Adjacent,
    NotAdjacent,
}

impl Adjacency {
    /// Decodes `1` as adjacent and `0` as not adjacent.
    pub fn from_int(adj: i8) -> (r: Self)
        requires
            adj == 0 || adj == 1,
        ensures
            r == (if adj == 1 {
                Adjacency::Adjacent
            } else {
                Adjacency::NotAdjacent
            }),
    {
        if adj == 1 {
            Adjacency::Adjacent
        } else {
            Adjacency::NotAdjacent
        }
    }

    pub fn to_int(&self) -> (r: i8)
        ensures
            r == (if self is Adjacent {
                1int
            } else {
                0int
            }),
    {
        match self {
            Adjacency::Adjacent => 1,
            Adjacency::NotAdjacent => 0,
        }
    }

    pub fn from_bool(adj: bool) -> (r: Self)
        ensures
            r == (if adj {
                Adjacency::Adjacent
            } else {
                Adjacency::NotAdjacent
            }),
    {
        if adj {
            Adjacency::Adjacent
        } else {
            Adjacency::NotAdjacent
        }
    }

    pub fn to_bool(&self) -> (r: bool)
        ensures
            r == (*self is Adjacent),
    {
        match self {
            Adjacency::Adjacent => true,
            Adjacency::NotAdjacent => false,
        }
    }
}

} // verus!
