//! The maps cache: one series per kind of map, its refresh policy, and the samples and marked
//! maps it yields.
use crate::forecast::Metric;
use crate::maps::marker::{map_at, mark, mark_color, slice_offset};
use crate::maps::projector::{project, projected};
use crate::maps::raster::{Raster, rgba_bytes};
use crate::maps::retrieval::{encode_map, png_encoding};
use crate::maps::sampler::{Sample, sample, sampled};
use crate::maps::Error;
use crate::position::{MapPosition, buienradar_ref_points, buienradar_refs};
use vstd::prelude::*;

verus! {

/// The kinds of map series that are cached.
#[derive(Clone, Copy, Debug, PartialEq, Eq, Structural)]
pub enum MapKind {
    /// The pollen maps: 24 maps of one hour each.
    Pollen,
    /// The UV index maps: 5 maps of one day each.
    Uvi,
}

/// The number of slices in a series of the given kind.
pub open spec fn slice_count(kind: MapKind) -> u32 {
    match kind {
        MapKind::Pollen => 24,
        MapKind::Uvi => 5,
    }
}

/// The number of seconds each slice of a series of the given kind is for.
pub open spec fn slice_interval(kind: MapKind) -> i64 {
    match kind {
        MapKind::Pollen => 3_600,
        MapKind::Uvi => 86_400,
    }
}

/// The number of seconds after which a series of the given kind is due for a refresh.
pub open spec fn refresh_interval(kind: MapKind) -> i64 {
    match kind {
        MapKind::Pollen => 3_600,
        MapKind::Uvi => 86_400,
    }
}

impl MapKind {
    /// Returns the number of slices in a series of this kind.
    pub fn count(self) -> (r: u32)
        ensures
            r == slice_count(self),
    {
        match self {
            MapKind::Pollen => 24,
            MapKind::Uvi => 5,
        }
    }

    /// Returns the number of seconds each slice of a series of this kind is for.
    pub fn interval(self) -> (r: i64)
        ensures
            r == slice_interval(self),
    {
        match self {
            MapKind::Pollen => 3_600,
            MapKind::Uvi => 86_400,
        }
    }

    /// Returns the number of seconds that all slices of a series of this kind cover together.
    pub fn coverage(self) -> (r: i64)
        ensures
            r == slice_count(self) * slice_interval(self),
    {
        match self {
            MapKind::Pollen => 86_400,
            MapKind::Uvi => 432_000,
        }
    }

    /// Returns the number of seconds after which a series of this kind is due for a refresh.
    pub fn refresh(self) -> (r: i64)
        ensures
            r == refresh_interval(self),
    {
        match self {
            MapKind::Pollen => 3_600,
            MapKind::Uvi => 86_400,
        }
    }
}

/// A retrieved map series with some metadata.
#[derive(Clone, Debug)]
pub struct RetrievedMaps {
    /// The image data.
    pub image: Raster,
    /// The time the image was last modified, in seconds since the UNIX epoch.
    pub mtime: i64,
    /// The time the first slice of the image starts at, in seconds since the UNIX epoch.
    pub timestamp_base: i64,
}

impl RetrievedMaps {
    /// The image is well formed.
    pub open spec fn wf(&self) -> bool {
        self.image.wf()
    }
}

/// Whether the series in a cache slot is stale at time `now`: every slice's interval has passed
/// since it was last modified.
pub open spec fn is_stale_at(slot: Option<RetrievedMaps>, kind: MapKind, now: int) -> bool {
    match slot {
        Some(m) => now - m.mtime > slice_count(kind) * slice_interval(kind),
        None => false,
    }
}

/// Whether the series in a cache slot is due for a refresh at time `now`: it is absent, or its
/// refresh interval has passed since it was last modified.
pub open spec fn needs_refresh_at(slot: Option<RetrievedMaps>, kind: MapKind, now: int) -> bool {
    match slot {
        Some(m) => now - m.mtime > refresh_interval(kind),
        None => true,
    }
}

/// The cache slot after a retrieval with the given result at time `now`: a success replaces the
/// series, a failure clears it only when it is stale.
pub open spec fn slot_after_set(
    slot: Option<RetrievedMaps>,
    kind: MapKind,
    result: Result<RetrievedMaps, Error>,
    now: int,
) -> Option<RetrievedMaps> {
    match result {
        Ok(m) => Some(m),
        Err(_) => if is_stale_at(slot, kind, now) {
            None
        } else {
            slot
        },
    }
}

/// Container type for all in-memory cached maps.
#[derive(Clone, Debug)]
pub struct Maps {
    /// The pollen maps.
    pub pollen: Option<RetrievedMaps>,
    /// The UV index maps.
    pub uvi: Option<RetrievedMaps>,
}

impl Maps {
    /// The cache slot of the given kind.
    pub open spec fn slot(&self, kind: MapKind) -> Option<RetrievedMaps> {
        match kind {
            MapKind::Pollen => self.pollen,
            MapKind::Uvi => self.uvi,
        }
    }

    /// Every cached series is well formed.
    pub open spec fn wf(&self) -> bool {
        &&& (self.pollen matches Some(m) ==> m.wf())
        &&& (self.uvi matches Some(m) ==> m.wf())
    }

    /// Creates a new, empty maps cache.
    pub fn new() -> (m: Maps)
        ensures
            m.pollen is None,
            m.uvi is None,
            m.wf(),
    {
        Maps { pollen: None, uvi: None }
    }

    fn slot_ref(&self, kind: MapKind) -> (r: &Option<RetrievedMaps>)
        ensures
            *r == self.slot(kind),
    {
        match kind {
            MapKind::Pollen => &self.pollen,
            MapKind::Uvi => &self.uvi,
        }
    }

    /// Determines whether the maps of the given kind are stale at time `now`.
    pub fn is_stale(&self, kind: MapKind, now: i64) -> (r: bool)
        ensures
            r == is_stale_at(self.slot(kind), kind, now as int),
    {
        match self.slot_ref(kind) {
            Some(maps) => (now as i128 - maps.mtime as i128) > kind.coverage() as i128,
            None => false,
        }
    }

    /// Determines whether the maps of the given kind need to be refreshed at time `now`.
    pub fn needs_refresh(&self, kind: MapKind, now: i64) -> (r: bool)
        ensures
            r == needs_refresh_at(self.slot(kind), kind, now as int),
    {
        match self.slot_ref(kind) {
            Some(maps) => (now as i128 - maps.mtime as i128) > kind.refresh() as i128,
            None => true,
        }
    }

    /// Updates the maps of the given kind with the result of a retrieval at time `now`.
    ///
    /// A retrieved series always replaces the cached one. A failed retrieval only clears the
    /// cached series when it is stale.
    pub fn set(&mut self, kind: MapKind, result: Result<RetrievedMaps, Error>, now: i64)
        requires
            old(self).wf(),
            result matches Ok(m) ==> m.wf(),
        ensures
            final(self).wf(),
            final(self).slot(kind) == slot_after_set(
                old(self).slot(kind),
                kind,
                result,
                now as int,
            ),
            kind != MapKind::Pollen ==> final(self).pollen == old(self).pollen,
            kind != MapKind::Uvi ==> final(self).uvi == old(self).uvi,
    {
        let stale = self.is_stale(kind, now);
        let new_slot = match result {
            Ok(maps) => Some(maps),
            Err(_) => if stale {
                None
            } else {
                return ;
            },
        };
        match kind {
            MapKind::Pollen => {
                self.pollen = new_slot;
            },
            MapKind::Uvi => {
                self.uvi = new_slot;
            },
        }
    }

    /// Whether `r` is the outcome of sampling the maps of the given kind at the given position.
    pub open spec fn sampling(
        &self,
        kind: MapKind,
        position: MapPosition,
        r: Result<Vec<Sample>, Error>,
    ) -> bool {
        match self.slot(kind) {
            None => r matches Err(Error::NoMapsYet),
            Some(m) => {
                let (x, y) = projected(buienradar_refs(), position);
                let count = slice_count(kind) as int;
                if 0 <= x < m.image.width as int / count && 0 <= y < m.image.height {
                    sampled(
                        m.image,
                        m.timestamp_base as int,
                        slice_interval(kind) as int,
                        count,
                        (x as u32, y as u32),
                        r,
                    )
                } else {
                    r matches Err(Error::OutOfBoundCoords(ex, ey)) && ex == x && ey == y
                }
            },
        }
    }

    /// Samples the maps of the given kind at the given position.
    pub fn samples(&self, kind: MapKind, position: MapPosition) -> (r: Result<Vec<Sample>, Error>)
        requires
            self.wf(),
        ensures
            self.sampling(kind, position, r),
    {
        let maps = match self.slot_ref(kind) {
            Some(maps) => maps,
            None => {
                return Err(Error::NoMapsYet);
            },
        };
        let count = kind.count();
        let interval = kind.interval();
        let image = &maps.image;
        let coords = project(image.width / count, image.height, buienradar_ref_points(), position)?;
        sample(image, maps.timestamp_base, interval, count, coords)
    }

    /// Whether `r` is the outcome of marking the given position on the map of the given kind for
    /// time `now`.
    pub open spec fn marking(
        &self,
        kind: MapKind,
        position: MapPosition,
        now: int,
        r: Result<Raster, Error>,
    ) -> bool {
        match self.slot(kind) {
            None => r matches Err(Error::NoMapsYet),
            Some(m) => {
                let count = slice_count(kind) as int;
                let k = slice_offset(m.timestamp_base as int, slice_interval(kind) as int, now);
                let w = m.image.width as int / count;
                let (x, y) = projected(buienradar_refs(), position);
                if k < 0 || k >= count {
                    r matches Err(Error::OutOfBoundOffset(ek)) && ek == k
                } else if !(0 <= x < w && 0 <= y < m.image.height) {
                    r matches Err(Error::OutOfBoundCoords(ex, ey)) && ex == x && ey == y
                } else {
                    r matches Ok(marked) && {
                        &&& marked.wf()
                        &&& marked.width == w
                        &&& marked.height == m.image.height
                        &&& forall|i: int, j: int|
                            0 <= i < w && 0 <= j < m.image.height ==> #[trigger] marked.pixel(i, j)
                                == if i == x || j == y {
                                mark_color()
                            } else {
                                m.image.pixel(k * w + i, j)
                            }
                    }
                }
            },
        }
    }

    /// Returns the map of the given kind for time `now`, marked at the given position.
    pub fn marked_map(&self, kind: MapKind, position: MapPosition, now: i64) -> (r: Result<
        Raster,
        Error,
    >)
        requires
            self.wf(),
        ensures
            self.marking(kind, position, now as int, r),
    {
        let maps = match self.slot_ref(kind) {
            Some(maps) => maps,
            None => {
                return Err(Error::NoMapsYet);
            },
        };
        let slice = map_at(&maps.image, maps.timestamp_base, kind.interval(), kind.count(), now)?;
        let coords = project(slice.width, slice.height, buienradar_ref_points(), position)?;
        Ok(mark(slice, coords))
    }
}

/// Once stale, a cached series stays stale: staleness is monotonic in time.
pub proof fn lemma_stale_monotonic(slot: Option<RetrievedMaps>, kind: MapKind, now: int, later: int)
    requires
        is_stale_at(slot, kind, now),
        now <= later,
    ensures
        is_stale_at(slot, kind, later),
{
}

/// A failed retrieval leaves a cached series that is not stale as it was.
pub proof fn lemma_set_failure_keeps_fresh(
    slot: Option<RetrievedMaps>,
    kind: MapKind,
    err: Error,
    now: int,
)
    requires
        slot is Some,
        !is_stale_at(slot, kind, now),
    ensures
        slot_after_set(slot, kind, Err(err), now) == slot,
{
}

/// The kind of maps that a metric is sampled from, if any.
pub open spec fn metric_map_kind(metric: Metric) -> Option<MapKind> {
    match metric {
        Metric::Pollen => Some(MapKind::Pollen),
        Metric::UVI => Some(MapKind::Uvi),
        _ => None,
    }
}

/// Returns the kind of maps that a metric is sampled from, if any.
pub fn map_kind(metric: Metric) -> (r: Option<MapKind>)
    ensures
        r == metric_map_kind(metric),
{
    match metric {
        Metric::Pollen => Some(MapKind::Pollen),
        Metric::UVI => Some(MapKind::Uvi),
        _ => None,
    }
}

/// Returns the PNG image data of the map for the given metric at time `now`, with a crosshair
/// drawn at the given position.
///
/// A marked map is never empty, so its encoding always succeeds.
pub fn mark_map(maps: &Maps, position: MapPosition, metric: Metric, now: i64) -> (r: Result<
    Vec<u8>,
    crate::Error,
>)
    requires
        maps.wf(),
    ensures
        match metric_map_kind(metric) {
            None => r matches Err(crate::Error::UnsupportedMetric(m)) && m == metric,
            Some(kind) => match r {
                Ok(bytes) => exists|m: Raster|
                    #[trigger] maps.marking(kind, position, now as int, Ok(m)) && bytes@
                        == png_encoding(m.width as int, m.height as int, rgba_bytes(m.pixels@)),
                Err(crate::Error::Maps(e)) => maps.marking(kind, position, now as int, Err(e)),
                Err(_) => false,
            },
        },
{
    let kind = match map_kind(metric) {
        Some(kind) => kind,
        None => {
            return Err(crate::Error::UnsupportedMetric(metric));
        },
    };
    let image = match maps.marked_map(kind, position, now) {
        Ok(image) => image,
        Err(err) => {
            return Err(crate::Error::Maps(err));
        },
    };
    match encode_map(&image) {
        Ok(bytes) => Ok(bytes),
        Err(err) => Err(crate::Error::Maps(err)),
    }
}

} // verus!
