use vstd::prelude::*;

verus! {

/// Identifies a floor style.
pub type FloorId = usize;

/// Identifies a solid style.
pub type SolidId = usize;

/// A space in the tilemap.
#[derive(Copy, Clone, Debug, PartialEq, Eq, Structural)]
pub enum Tile {
    /// Empty like a hole to a lower level or the empty sky around a flying island.
    Empty,
    /// The ground outside or the floor of a building.
    Floor(FloorId),
    /// Full of a solid material like earth or stone. E.g. underground
    Solid(SolidId),
}

} // verus!
