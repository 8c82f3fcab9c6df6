//! Forecast metrics and the selection of the metrics a forecast holds.
use vstd::prelude::*;

verus! {

/// The supported forecast metrics.
///
/// This is used for selecting which metrics should be calculated & returned.
#[allow(non_camel_case_types, clippy::upper_case_acronyms)]
#[derive(Clone, Copy, Debug, PartialEq, Eq, Structural, Hash, PartialOrd, Ord)]
pub enum Metric {
    /// All metrics.
    All,
    /// The air quality index.
    AQI,
    /// The NO₂ concentration.
    NO2,
    /// The O₃ concentration.
    O3,
    /// The combination of pollen + air quality index.
    PAQI,
    /// The particulate matter in the air.
    PM10,
    /// The pollen in the air.
    Pollen,
    /// The precipitation.
    Precipitation,
    /// The UV index.
    UVI,
}

/// Every metric but [`Metric::All`], in order.
pub open spec fn all_metrics() -> Seq<Metric> {
    seq![
        Metric::AQI,
        Metric::NO2,
        Metric::O3,
        Metric::PAQI,
        Metric::PM10,
        Metric::Pollen,
        Metric::Precipitation,
        Metric::UVI,
    ]
}

/// The name of a metric.
pub open spec fn metric_name(m: Metric) -> Seq<char> {
    match m {
        Metric::All => "All"@,
        Metric::AQI => "AQI"@,
        Metric::NO2 => "NO2"@,
        Metric::O3 => "O3"@,
        Metric::PAQI => "PAQI"@,
        Metric::PM10 => "PM10"@,
        Metric::Pollen => "pollen"@,
        Metric::Precipitation => "precipitation"@,
        Metric::UVI => "UVI"@,
    }
}

/// The sequence without the elements that equal the element just before them.
pub open spec fn dedup_consecutive(s: Seq<Metric>) -> Seq<Metric>
    decreases s.len(),
{
    if s.len() == 0 {
        s
    } else {
        let rest = dedup_consecutive(s.drop_last());
        if s.len() >= 2 && s[s.len() - 2] == s.last() {
            rest
        } else {
            rest.push(s.last())
        }
    }
}

/// The metrics a forecast for the requested metrics holds: every metric when
/// [`Metric::All`] is requested, else the requested ones without consecutive repeats.
pub open spec fn selected_metrics(requested: Seq<Metric>) -> Seq<Metric> {
    if requested.contains(Metric::All) {
        all_metrics()
    } else {
        dedup_consecutive(requested)
    }
}

impl Metric {
    /// Returns all supported metrics.
    pub fn all() -> (r: Vec<Metric>)
        ensures
            r@ == all_metrics(),
    {
        let r = vec![
            Metric::AQI,
            Metric::NO2,
            Metric::O3,
            Metric::PAQI,
            Metric::PM10,
            Metric::Pollen,
            Metric::Precipitation,
            Metric::UVI,
        ];
        assert(r@ =~= all_metrics());
        r
    }

    /// Returns the name of the metric.
    pub fn name(&self) -> (r: &'static str)
        ensures
            r@ == metric_name(*self),
    {
        match self {
            Metric::All => "All",
            Metric::AQI => "AQI",
            Metric::NO2 => "NO2",
            Metric::O3 => "O3",
            Metric::PAQI => "PAQI",
            Metric::PM10 => "PM10",
            Metric::Pollen => "pollen",
            Metric::Precipitation => "precipitation",
            Metric::UVI => "UVI",
        }
    }
}

/// Determines the metrics a forecast holds, see [`selected_metrics`].
pub fn select_metrics(metrics: Vec<Metric>) -> (r: Vec<Metric>)
    ensures
        r@ == selected_metrics(metrics@),
{
    let mut i: usize = 0;
    while i < metrics.len()
        invariant
            0 <= i <= metrics@.len(),
            forall|j: int| 0 <= j < i ==> metrics@[j] != Metric::All,
        decreases metrics@.len() - i,
    {
        if metrics[i] == Metric::All {
            assert(metrics@[i as int] == Metric::All);
            return Metric::all();
        }
        i = i + 1;
    }
    assert(!metrics@.contains(Metric::All));
    let mut r: Vec<Metric> = Vec::new();
    let mut k: usize = 0;
    while k < metrics.len()
        invariant
            0 <= k <= metrics@.len(),
            r@ == dedup_consecutive(metrics@.subrange(0, k as int)),
        decreases metrics@.len() - k,
    {
        assert(metrics@.subrange(0, k + 1).drop_last() =~= metrics@.subrange(0, k as int));
        if k == 0 || metrics[k - 1] != metrics[k] {
            r.push(metrics[k]);
        }
        k = k + 1;
    }
    assert(metrics@.subrange(0, metrics@.len() as int) =~= metrics@);
    r
}

} // verus!
