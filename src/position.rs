//! Positions as the map projection sees them.
use vstd::prelude::*;

verus! {

/// A position on the map: its longitude and the Mercator ordinate of its latitude.
///
/// The longitude is held in millionths of a degree. The Mercator ordinate of a latitude `lat`
/// (in radians) is `ln(tan(lat / 2 + π / 4))`, held in billionths.
#[derive(Clone, Copy, Debug, PartialEq, Eq, Structural)]
pub struct MapPosition {
    /// The longitude, in millionths of a degree.
    pub lon: i64,
    /// The Mercator ordinate of the latitude, in billionths.
    pub merc: i64,
}

impl MapPosition {
    /// Creates a new map position.
    pub fn new(lon: i64, merc: i64) -> (p: MapPosition)
        ensures
            p == (MapPosition { lon, merc }),
    {
        MapPosition { lon, merc }
    }
}

/// A reference point: a position and the pixel at which a map draws it.
#[derive(Clone, Copy, Debug, PartialEq, Eq, Structural)]
pub struct RefPoint {
    /// The position of the reference point.
    pub position: MapPosition,
    /// The pixel column of the reference point.
    pub x: u32,
    /// The pixel row of the reference point.
    pub y: u32,
}

/// Two reference points that fix a projection: they differ in longitude and in latitude.
pub open spec fn refs_wf(refs: (RefPoint, RefPoint)) -> bool {
    &&& refs.0.position.lon != refs.1.position.lon
    &&& refs.0.position.merc != refs.1.position.merc
}

/// The reference points of the pollen and UV index maps.
///
/// Vlissingen (51.44° N, 3.57° E) is drawn at pixel (84, 745). The latitude of Lauwersoog
/// (53.40° N) is drawn at row 111 and the longitude of Enschede (6.90° E) at column 694.
pub open spec fn buienradar_refs() -> (RefPoint, RefPoint) {
    (
        RefPoint { position: MapPosition { lon: 3_570_000, merc: 1_050_384_587 }, x: 84, y: 745 },
        RefPoint { position: MapPosition { lon: 6_900_000, merc: 1_106_488_081 }, x: 694, y: 111 },
    )
}

/// Returns the reference points of the pollen and UV index maps, see [`buienradar_refs`].
pub fn buienradar_ref_points() -> (r: (RefPoint, RefPoint))
    ensures
        r == buienradar_refs(),
        refs_wf(r),
{
    (
        RefPoint { position: MapPosition { lon: 3_570_000, merc: 1_050_384_587 }, x: 84, y: 745 },
        RefPoint { position: MapPosition { lon: 6_900_000, merc: 1_106_488_081 }, x: 694, y: 111 },
    )
}

} // verus!
