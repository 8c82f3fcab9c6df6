//! Air quality, pollen and UV index forecasts for a position.
//!
//! The library holds the raster map cache and its refresh policy, the projection of positions
//! onto the maps, the sampling of map colors into scores and the merging of two forecast series.
use vstd::prelude::*;

pub mod forecast;
pub mod maps;
pub mod position;
pub mod providers;

use crate::forecast::Metric;
use crate::maps::Maps;
use crate::providers::combined::MergeError;

verus! {

/// The possible provider errors that can occur.
#[derive(Debug)]
pub enum Error {
    /// Failed to merge AQI & pollen items.
    Merge(MergeError),
    /// Failed to retrieve or sample the maps.
    Maps(maps::Error),
    /// No geocoded position could be found.
    NoPositionFound,
    /// Encountered an unsupported metric.
    UnsupportedMetric(Metric),
}

/// The HTTP status code that reports an error: "not found" for a position that cannot be
/// geocoded or that lies outside the maps' bounds (in place or in time), "service unavailable"
/// while there are no maps yet, and "internal server error" otherwise.
pub open spec fn status_code_of(e: Error) -> u16 {
    match e {
        Error::NoPositionFound => 404,
        Error::Maps(maps::Error::NoMapsYet) => 503,
        Error::Maps(maps::Error::OutOfBoundCoords(_, _)) => 404,
        Error::Maps(maps::Error::OutOfBoundOffset(_)) => 404,
        _ => 500,
    }
}

impl Error {
    /// Returns the HTTP status code that reports this error, see [`status_code_of`].
    pub fn status_code(&self) -> (r: u16)
        ensures
            r == status_code_of(*self),
    {
        match self {
            Error::NoPositionFound => 404,
            Error::Maps(maps::Error::NoMapsYet) => 503,
            Error::Maps(maps::Error::OutOfBoundCoords(_, _)) => 404,
            Error::Maps(maps::Error::OutOfBoundOffset(_)) => 404,
            _ => 500,
        }
    }
}

/// Sets up the maps cache that the maps refresher and the forecasts share: it starts empty.
pub fn setup() -> (m: Maps)
    ensures
        m.pollen is None,
        m.uvi is None,
        m.wf(),
{
    Maps::new()
}

} // verus!
