//! The static two-level spatial partition used by the zoned force mode: a 3x3
//! grid of major zones, each split into a 2x2 grid of minor zones.

pub mod adjacency;
pub mod major_zone;
pub mod minor_zone;
pub mod zone_type;
