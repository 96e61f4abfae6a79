//! The three levels of the spatial partition: the whole canvas, a major
//! zone, and a minor zone.

use vstd::prelude::*;

verus! {

#[derive(Debug, Clone, Copy, PartialEq, Eq, Structural)]
pub enum ZoneType {
    Canvas,
    Major,
    Minor,
}

impl ZoneType {
    /// How many zones of the next level down this level is divided into: the
    /// canvas holds nine major zones, a major zone holds four minor zones,
    /// and a minor zone is not subdivided.
    pub fn n_sub_zones(&self) -> (r: Option<u8>)
        ensures
            r == (match *self {
                ZoneType::Canvas => Some(9u8),
                ZoneType::Major => Some(4u8),
                ZoneType::Minor => Some(0u8),
            }),
    {
        match self {
            ZoneType::Canvas => Some(9),
            ZoneType::Major => Some(4),
            ZoneType::Minor => Some(0),
        }
    }

    /// The level of this level's sub-zones, if it has any.
    pub fn sub_zone_type(&self) -> (r: Option<ZoneType>)
        ensures
            r == (match *self {
                ZoneType::Canvas => Some(ZoneType::Major),
                ZoneType::Major => Some(ZoneType::Minor),
                ZoneType::Minor => None,
            }),
    {
        match self {
            ZoneType::Canvas => Some(ZoneType::Major),
            ZoneType::Major => Some(ZoneType::Minor),
            ZoneType::Minor => None,
        }
    }

    /// One sub-zone level marker per sub-zone, or `None` for a level that is
    /// not subdivided.
    pub fn sub_zone_vec(&self) -> (r: Option<Vec<ZoneType>>)
        ensures
            *self is Minor <==> r is None,
            r is Some ==> {
                let v = r->0;
                &&& v@.len() == (if *self is Canvas {
                    9int
                } else {
                    4int
                })
                &&& forall|m: int|
                    0 <= m < v@.len() ==> v@[m] == (if *self is Canvas {
                        ZoneType::Major
                    } else {
                        ZoneType::Minor
                    })
            },
    {
        let n_sub_zones = self.n_sub_zones();
        let sub_zone_type = self.sub_zone_type();
        match (n_sub_zones, sub_zone_type) {
            (Some(n), Some(t)) => {
                let mut v: Vec<ZoneType> = Vec::new();
                let mut i: u8 = 0;
                while i < n
                    invariant
                        i <= n,
                        v@.len() == i as int,
                        forall|m: int| 0 <= m < v@.len() ==> v@[m] == t,
                    decreases n - i,
                {
                    v.push(t);
                    i = i + 1;
                }
                Some(v)
            },
            _ => None,
        }
    }
}

} // verus!
