//! The air quality provider: its items, the formulas of its metrics and the items it keeps.
use crate::forecast::Metric;
use crate::providers::combined::{recent_items, retain_recent_items};
use crate::Error;
use vstd::prelude::*;

verus! {

/// The number of value units per unit of a metric: values are held in thousandths.
pub const VALUE_SCALE: i64 = 1000;

/// An air quality data item.
#[derive(Clone, Copy, Debug, PartialEq, Eq, Structural)]
pub struct Item {
    /// The time(stamp) of the forecast, in seconds since the UNIX epoch.
    pub time: i64,
    /// The forecasted value, in thousandths of the metric's unit.
    pub value: i64,
}

impl Item {
    /// Creates a new item.
    pub fn new(time: i64, value: i64) -> (i: Item)
        ensures
            i == (Item { time, value }),
    {
        Item { time, value }
    }
}

/// The provider's name of the formula of a metric, if it provides the metric.
pub open spec fn metric_formula(metric: Metric) -> Option<Seq<char>> {
    match metric {
        Metric::AQI => Some("lki"@),
        Metric::NO2 => Some("no2"@),
        Metric::O3 => Some("o3"@),
        Metric::PM10 => Some("pm10"@),
        _ => None,
    }
}

/// Returns the provider's name of the formula of a metric.
///
/// It supports the metrics [`Metric::AQI`], [`Metric::NO2`], [`Metric::O3`] and
/// [`Metric::PM10`].
pub fn formula(metric: Metric) -> (r: Result<&'static str, Error>)
    ensures
        match metric_formula(metric) {
            Some(f) => r matches Ok(s) && s@ == f,
            None => r matches Err(Error::UnsupportedMetric(m)) && m == metric,
        },
{
    match metric {
        Metric::AQI => Ok("lki"),
        Metric::NO2 => Ok("no2"),
        Metric::O3 => Ok("o3"),
        Metric::PM10 => Ok("pm10"),
        _ => Err(Error::UnsupportedMetric(metric)),
    }
}

/// Keeps the items that are less than an hour older than `now`, in their order.
pub fn retain_recent(items: Vec<Item>, now: i64) -> (r: Vec<Item>)
    ensures
        r@ == recent_items(items@, now as int),
{
    retain_recent_items(&items, now)
}

} // verus!
