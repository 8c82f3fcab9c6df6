//! Raster maps: caching, projection, sampling and marking.
//!
//! A map series is a single image that holds a number of time slices side by side. Each slice
//! covers a fixed interval, starting at the series' base timestamp.
use vstd::prelude::*;

pub mod cache;
pub mod marker;
pub mod projector;
pub mod raster;
pub mod retrieval;
pub mod sampler;

pub use cache::{MapKind, Maps, RetrievedMaps, map_kind, mark_map};
pub use marker::{map_at, mark};
pub use projector::project;
pub use raster::{Color, Raster};
pub use retrieval::{image_path_timestamp, retrieved_maps};
pub use sampler::{MAP_KEY_LEN, SAMPLE_RADIUS, Sample, map_key_color, sample};

verus! {

/// Declares `image::ImageError`, the error of decoding or encoding an image, as an opaque type.
#[verifier::external_type_specification]
#[verifier::external_body]
pub struct ExImageError(image::ImageError);

/// Declares `chrono::ParseError`, the error of parsing a date and time, as an opaque type.
#[verifier::external_type_specification]
#[verifier::external_body]
pub struct ExParseError(chrono::ParseError);

/// The possible maps errors that can occur.
#[derive(Debug)]
pub enum Error {
    /// A timestamp parse error occurred.
    ChronoParse(chrono::ParseError),
    /// The maps could not be fetched.
    FetchFailed(String),
    /// An image error occurred.
    Image(image::ImageError),
    /// The decoded image data does not match the image's dimensions.
    InvalidImageData,
    /// Encountered an invalid image file path.
    InvalidImagePath(String),
    /// Did not find any known (map key) colors in samples.
    NoKnownColorsInSamples,
    /// No maps found (yet).
    NoMapsYet,
    /// Got out of bound coordinates for a map.
    OutOfBoundCoords(i128, i128),
    /// Got out of bound offset for a map.
    OutOfBoundOffset(i128),
    /// The time of a slice of a map series lies outside the range of timestamps.
    TimestampOutOfRange,
}

} // verus!
