//! The precipitation and map data provider.
use crate::forecast::Metric;
use crate::maps::cache::{Maps, map_kind, metric_map_kind};
use crate::position::MapPosition;
use crate::Error;
use chrono::{Datelike, TimeZone};
use vstd::prelude::*;

pub use crate::maps::Sample;

verus! {

/// A precipitation data item.
#[derive(Clone, Copy, Debug, PartialEq, Eq, Structural)]
pub struct Item {
    /// The time(stamp) of the forecast, in seconds since the UNIX epoch.
    pub time: i64,
    /// The forecasted precipitation, in tenths of mm/h.
    pub value: u32,
}

impl Item {
    /// Creates a new precipitation item.
    pub fn new(time: i64, value: u32) -> (i: Item)
        ensures
            i == (Item { time, value }),
    {
        Item { time, value }
    }
}

/// The number of seconds in a day.
pub const DAY: i64 = 86_400;

/// The hour of the day that separates the items of the day before from those of the day after.
pub const NOON_HOUR: u32 = 12;

/// The time `hour`:00 in the Europe/Amsterdam time zone on the local date of `now`, in seconds
/// since the UNIX epoch; `None` where that local time does not exist or is ambiguous.
pub uninterp spec fn amsterdam_time_at_hour(now: int, hour: int) -> Option<int>;

/// Noon in the Europe/Amsterdam time zone on the local date of `now`.
pub open spec fn amsterdam_noon(now: int) -> Option<int> {
    amsterdam_time_at_hour(now, NOON_HOUR as int)
}

/// Relies on `chrono_tz::Europe::Amsterdam` with `TimeZone::with_ymd_and_hms` and
/// `LocalResult::single`: the result depends on the instant and the hour alone.
#[verifier::external_body]
fn time_in_amsterdam_at_hour(now: i64, hour: u32) -> (r: Option<i64>)
    ensures
        match r {
            Some(t) => amsterdam_time_at_hour(now as int, hour as int) == Some(t as int),
            None => amsterdam_time_at_hour(now as int, hour as int) is None,
        },
{
    let zone = chrono_tz::Europe::Amsterdam;
    let local = chrono::DateTime::from_timestamp(now, 0)?.with_timezone(&zone);
    match zone.with_ymd_and_hms(local.year(), local.month(), local.day(), hour, 0, 0).single() {
        Some(time) => Some(time.timestamp()),
        None => None,
    }
}

/// The item with its time moved to the same side of the day boundary as `now`, given noon of
/// the day of `now`.
///
/// Before noon, items after noon belong to the previous day; from noon on, items before noon
/// belong to the next day.
pub open spec fn day_fixed_item(item: Item, now: int, noon: int) -> Item {
    if now < noon {
        if item.time > noon {
            Item { time: (item.time - DAY) as i64, value: item.value }
        } else {
            item
        }
    } else {
        if item.time < noon {
            Item { time: (item.time + DAY) as i64, value: item.value }
        } else {
            item
        }
    }
}

/// Noon values for which moving an item by a day stays within the timestamp range.
pub open spec fn noon_in_range(noon: int) -> bool {
    i64::MIN + DAY <= noon <= i64::MAX - DAY
}

/// Fixes the timestamps of the items before or after the day boundary with respect to now,
/// given noon of the day of `now`, see [`day_fixed_item`].
pub fn fix_items_day_boundary_at(items: Vec<Item>, now: i64, noon: i64) -> (r: Vec<Item>)
    requires
        noon_in_range(noon as int),
    ensures
        r@.len() == items@.len(),
        forall|k: int|
            0 <= k < items@.len() ==> #[trigger] r@[k] == day_fixed_item(
                items@[k],
                now as int,
                noon as int,
            ),
{
    let mut r: Vec<Item> = Vec::new();
    let mut i: usize = 0;
    while i < items.len()
        invariant
            noon_in_range(noon as int),
            0 <= i <= items@.len(),
            r@.len() == i,
            forall|k: int|
                0 <= k < i ==> #[trigger] r@[k] == day_fixed_item(
                    items@[k],
                    now as int,
                    noon as int,
                ),
        decreases items@.len() - i,
    {
        let item = items[i];
        let fixed = if now < noon {
            if item.time > noon {
                Item { time: item.time - DAY, value: item.value }
            } else {
                item
            }
        } else {
            if item.time < noon {
                Item { time: item.time + DAY, value: item.value }
            } else {
                item
            }
        };
        r.push(fixed);
        i = i + 1;
    }
    r
}

/// Fixes the timestamps of the items before or after the day boundary with respect to now.
///
/// If in the Europe/Amsterdam time zone it is still before noon, all items after noon are moved
/// a day back. If it is noon or later, all items before noon are moved a day forward. Where
/// noon of the day of `now` cannot be determined, the items are returned as they are.
pub fn fix_items_day_boundary(items: Vec<Item>, now: i64) -> (r: Vec<Item>)
    ensures
        match amsterdam_noon(now as int) {
            Some(noon) if noon_in_range(noon) => {
                &&& r@.len() == items@.len()
                &&& forall|k: int|
                    0 <= k < items@.len() ==> #[trigger] r@[k] == day_fixed_item(
                        items@[k],
                        now as int,
                        noon,
                    )
            },
            _ => r@ == items@,
        },
{
    match time_in_amsterdam_at_hour(now, NOON_HOUR) {
        Some(noon) => {
            if DAY - 1 + i64::MIN < noon && noon <= i64::MAX - DAY {
                fix_items_day_boundary_at(items, now, noon)
            } else {
                items
            }
        },
        None => items,
    }
}

/// Puts the items of a day's precipitation text on the right days with respect to now.
///
/// The text only holds times of day, which are read as times of the current day. When the first
/// item is later than the last one, the items straddle midnight and are fixed with
/// [`fix_items_day_boundary`]; otherwise they are returned as they are.
pub fn order_items(items: Vec<Item>, now: i64) -> (r: Vec<Item>)
    ensures
        items@.len() > 0 && items@[0].time > items@.last().time ==> match amsterdam_noon(
            now as int,
        ) {
            Some(noon) if noon_in_range(noon) => {
                &&& r@.len() == items@.len()
                &&& forall|k: int|
                    0 <= k < items@.len() ==> #[trigger] r@[k] == day_fixed_item(
                        items@[k],
                        now as int,
                        noon,
                    )
            },
            _ => r@ == items@,
        },
        !(items@.len() > 0 && items@[0].time > items@.last().time) ==> r@ == items@,
{
    let n = items.len();
    if n > 0 && items[0].time > items[n - 1].time {
        fix_items_day_boundary(items, now)
    } else {
        items
    }
}

/// Retrieves the forecasted map samples for the provided position.
///
/// It only supports the metrics [`Metric::Pollen`] and [`Metric::UVI`].
pub fn get_samples(maps: &Maps, position: MapPosition, metric: Metric) -> (r: Result<
    Vec<Sample>,
    Error,
>)
    requires
        maps.wf(),
    ensures
        match metric_map_kind(metric) {
            None => r matches Err(Error::UnsupportedMetric(m)) && m == metric,
            Some(kind) => match r {
                Ok(samples) => maps.sampling(kind, position, Ok(samples)),
                Err(Error::Maps(e)) => maps.sampling(kind, position, Err(e)),
                Err(_) => false,
            },
        },
{
    match map_kind(metric) {
        Some(kind) => match maps.samples(kind, position) {
            Ok(samples) => Ok(samples),
            Err(err) => Err(Error::Maps(err)),
        },
        None => Err(Error::UnsupportedMetric(metric)),
    }
}

} // verus!
