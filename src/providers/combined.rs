//! The combined data provider: merges pollen samples and air quality items into one series.
use crate::forecast::Metric;
use crate::maps::Sample;
use crate::Error;
use crate::providers::luchtmeetnet::{Item as AqiItem, VALUE_SCALE};
use vstd::prelude::*;

verus! {

/// The possible merge errors that can occur.
#[derive(Clone, Copy, Debug, PartialEq, Eq, Structural)]
pub enum MergeError {
    /// No AQI item found.
    NoAqiItemFound,
    /// No pollen item found.
    NoPollenItemFound,
    /// No AQI item found within 30 minutes of first pollen item.
    NoCloseAqiItemFound,
    /// No pollen item found within 30 minutes of first AQI item.
    NoClosePollenItemFound,
}

/// The combined data item.
#[derive(Clone, Copy, Debug, PartialEq, Eq, Structural)]
pub struct Item {
    /// The time(stamp) of the forecast, in seconds since the UNIX epoch.
    pub time: i64,
    /// The forecasted value, in thousandths.
    pub value: i64,
}

impl Item {
    /// Creates a new combined item.
    pub fn new(time: i64, value: i64) -> (i: Item)
        ensures
            i == (Item { time, value }),
    {
        Item { time, value }
    }
}

/// Samples and items older than this many seconds before now are dropped.
pub const RETENTION: i64 = 3600;

/// Two timestamps line up when they are less than this many seconds apart.
pub const ALIGNMENT: i64 = 1800;

/// Whether a timestamp is recent enough to be retained.
pub open spec fn is_recent(t: int, now: int) -> bool {
    t - now > -RETENTION
}

/// Whether two timestamps line up.
pub open spec fn lines_up(t: int, u: int) -> bool {
    -ALIGNMENT < t - u < ALIGNMENT
}

/// The pollen samples that are recent enough, in their order.
pub open spec fn recent_samples(s: Seq<Sample>, now: int) -> Seq<Sample> {
    s.filter(|x: Sample| is_recent(x.time as int, now))
}

/// The AQI items that are recent enough, in their order.
pub open spec fn recent_items(s: Seq<AqiItem>, now: int) -> Seq<AqiItem> {
    s.filter(|x: AqiItem| is_recent(x.time as int, now))
}

/// The index of the first element of `s` that satisfies `p`, if any.
pub open spec fn first_index<A>(s: Seq<A>, p: spec_fn(A) -> bool) -> Option<int>
    decreases s.len(),
{
    if s.len() == 0 {
        None
    } else {
        match first_index(s.drop_last(), p) {
            Some(i) => Some(i),
            None => if p(s.last()) {
                Some(s.len() - 1)
            } else {
                None
            },
        }
    }
}

/// The index of the first pollen sample that lines up with `t`, if any.
pub open spec fn first_sample_near(s: Seq<Sample>, t: int) -> Option<int> {
    first_index(s, |x: Sample| lines_up(x.time as int, t))
}

/// The index of the first AQI item that lines up with `t`, if any.
pub open spec fn first_item_near(s: Seq<AqiItem>, t: int) -> Option<int> {
    first_index(s, |x: AqiItem| lines_up(x.time as int, t))
}

/// The combination of a pollen sample and an AQI item: the maximum of the two values at the
/// time of the pollen sample.
pub open spec fn combine_one(p: Sample, a: AqiItem) -> Item {
    let score = p.score * VALUE_SCALE;
    Item { time: p.time, value: if score >= a.value { score as i64 } else { a.value } }
}

/// Pairs the two series position by position, up to the end of the shorter one.
pub open spec fn combine(p: Seq<Sample>, a: Seq<AqiItem>) -> Seq<Item> {
    let n = if p.len() <= a.len() {
        p.len()
    } else {
        a.len()
    };
    Seq::new(n, |i: int| combine_one(p[i], a[i]))
}

/// The outcome of merging pollen samples and AQI items at time `now`.
///
/// The series are first stripped of old entries. Then the series that starts earlier loses the
/// entries before the first one that lines up with the start of the other series, and the two
/// are combined position by position.
pub open spec fn merged(pollen: Seq<Sample>, aqi: Seq<AqiItem>, now: int) -> Result<
    Seq<Item>,
    MergeError,
> {
    let p = recent_samples(pollen, now);
    let a = recent_items(aqi, now);
    if p.len() == 0 {
        Err(MergeError::NoPollenItemFound)
    } else if a.len() == 0 {
        Err(MergeError::NoAqiItemFound)
    } else if p[0].time < a[0].time {
        match first_sample_near(p, a[0].time as int) {
            Some(i) => Ok(combine(p.subrange(i, p.len() as int), a)),
            None => Err(MergeError::NoCloseAqiItemFound),
        }
    } else {
        match first_item_near(a, p[0].time as int) {
            Some(i) => Ok(combine(p, a.subrange(i, a.len() as int))),
            None => Err(MergeError::NoClosePollenItemFound),
        }
    }
}

/// Whether `r` is what merging the two series at time `now` yields.
pub open spec fn merge_outcome(
    pollen: Seq<Sample>,
    aqi: Seq<AqiItem>,
    now: int,
    r: Result<Vec<Item>, MergeError>,
) -> bool {
    match r {
        Ok(items) => merged(pollen, aqi, now) == Ok::<Seq<Item>, MergeError>(items@),
        Err(e) => merged(pollen, aqi, now) == Err::<Seq<Item>, MergeError>(e),
    }
}

proof fn lemma_first_index_extends<A>(s: Seq<A>, p: spec_fn(A) -> bool, n: int)
    requires
        0 <= n <= s.len(),
        first_index(s.subrange(0, n), p) is Some,
    ensures
        first_index(s, p) == first_index(s.subrange(0, n), p),
    decreases s.len() - n,
{
    if n < s.len() {
        assert(s.subrange(0, n + 1).drop_last() =~= s.subrange(0, n));
        lemma_first_index_extends(s, p, n + 1);
    } else {
        assert(s.subrange(0, n) =~= s);
    }
}

fn is_recent_exec(t: i64, now: i64) -> (r: bool)
    ensures
        r == is_recent(t as int, now as int),
{
    (t as i128) - (now as i128) > -(RETENTION as i128)
}

fn lines_up_exec(t: i64, u: i64) -> (r: bool)
    ensures
        r == lines_up(t as int, u as int),
{
    let d = (t as i128) - (u as i128);
    -(ALIGNMENT as i128) < d && d < ALIGNMENT as i128
}

fn retain_recent_samples(s: &Vec<Sample>, now: i64) -> (r: Vec<Sample>)
    ensures
        r@ == recent_samples(s@, now as int),
{
    let mut r: Vec<Sample> = Vec::new();
    let mut i: usize = 0;
    while i < s.len()
        invariant
            0 <= i <= s@.len(),
            r@ == recent_samples(s@.subrange(0, i as int), now as int),
        decreases s@.len() - i,
    {
        proof {
            reveal(Seq::filter);
            assert(s@.subrange(0, i + 1).drop_last() =~= s@.subrange(0, i as int));
        }
        if is_recent_exec(s[i].time, now) {
            r.push(s[i]);
        }
        i = i + 1;
    }
    assert(s@.subrange(0, s@.len() as int) =~= s@);
    r
}

pub(crate) fn retain_recent_items(s: &Vec<AqiItem>, now: i64) -> (r: Vec<AqiItem>)
    ensures
        r@ == recent_items(s@, now as int),
{
    let mut r: Vec<AqiItem> = Vec::new();
    let mut i: usize = 0;
    while i < s.len()
        invariant
            0 <= i <= s@.len(),
            r@ == recent_items(s@.subrange(0, i as int), now as int),
        decreases s@.len() - i,
    {
        proof {
            reveal(Seq::filter);
            assert(s@.subrange(0, i + 1).drop_last() =~= s@.subrange(0, i as int));
        }
        if is_recent_exec(s[i].time, now) {
            r.push(s[i]);
        }
        i = i + 1;
    }
    assert(s@.subrange(0, s@.len() as int) =~= s@);
    r
}

fn find_sample_near(s: &Vec<Sample>, t: i64) -> (r: Option<usize>)
    ensures
        match r {
            Some(i) => i < s@.len() && first_sample_near(s@, t as int) == Some(i as int),
            None => first_sample_near(s@, t as int) is None,
        },
{
    let mut i: usize = 0;
    while i < s.len()
        invariant
            0 <= i <= s@.len(),
            first_sample_near(s@.subrange(0, i as int), t as int) is None,
        decreases s@.len() - i,
    {
        assert(s@.subrange(0, i + 1).drop_last() =~= s@.subrange(0, i as int));
        if lines_up_exec(s[i].time, t) {
            proof {
                lemma_first_index_extends(
                    s@,
                    |x: Sample| lines_up(x.time as int, t as int),
                    i + 1,
                );
            }
            return Some(i);
        }
        i = i + 1;
    }
    assert(s@.subrange(0, s@.len() as int) =~= s@);
    None
}

fn find_item_near(s: &Vec<AqiItem>, t: i64) -> (r: Option<usize>)
    ensures
        match r {
            Some(i) => i < s@.len() && first_item_near(s@, t as int) == Some(i as int),
            None => first_item_near(s@, t as int) is None,
        },
{
    let mut i: usize = 0;
    while i < s.len()
        invariant
            0 <= i <= s@.len(),
            first_item_near(s@.subrange(0, i as int), t as int) is None,
        decreases s@.len() - i,
    {
        assert(s@.subrange(0, i + 1).drop_last() =~= s@.subrange(0, i as int));
        if lines_up_exec(s[i].time, t) {
            proof {
                lemma_first_index_extends(
                    s@,
                    |x: AqiItem| lines_up(x.time as int, t as int),
                    i + 1,
                );
            }
            return Some(i);
        }
        i = i + 1;
    }
    assert(s@.subrange(0, s@.len() as int) =~= s@);
    None
}

/// Combines `p[sp..]` with `a[sa..]` position by position.
fn combine_from(p: &Vec<Sample>, sp: usize, a: &Vec<AqiItem>, sa: usize) -> (r: Vec<Item>)
    requires
        sp <= p@.len(),
        sa <= a@.len(),
    ensures
        r@ == combine(
            p@.subrange(sp as int, p@.len() as int),
            a@.subrange(sa as int, a@.len() as int),
        ),
{
    let p_len = p.len();
    let a_len = a.len();
    let n = if p_len - sp <= a_len - sa {
        p_len - sp
    } else {
        a_len - sa
    };
    let mut r: Vec<Item> = Vec::new();
    let mut j: usize = 0;
    while j < n
        invariant
            p_len == p@.len(),
            a_len == a@.len(),
            sp <= p@.len(),
            sa <= a@.len(),
            n <= p@.len() - sp,
            n <= a@.len() - sa,
            0 <= j <= n,
            r@.len() == j,
            forall|k: int| 0 <= k < j ==> #[trigger] r@[k] == combine_one(p@[sp + k], a@[sa + k]),
        decreases n - j,
    {
        let ps = p[sp + j];
        let ai = a[sa + j];
        let score = ps.score as i64 * VALUE_SCALE;
        let value = if score >= ai.value {
            score
        } else {
            ai.value
        };
        r.push(Item { time: ps.time, value });
        j = j + 1;
    }
    assert(r@ =~= combine(
        p@.subrange(sp as int, p@.len() as int),
        a@.subrange(sa as int, a@.len() as int),
    ));
    r
}

/// Merges pollen samples and AQI items into combined items, as of time `now`.
///
/// The merging drops samples and items that are an hour old or older, then drops items from
/// whichever series starts first until it lines up (within half an hour) with the first item
/// of the other series. The remaining items are paired position by position, and each pair
/// yields the maximum of the pollen score and the AQI value at the time of the pollen sample.
pub fn merge(pollen_samples: Vec<Sample>, aqi_items: Vec<AqiItem>, now: i64) -> (r: Result<
    Vec<Item>,
    MergeError,
>)
    ensures
        merge_outcome(pollen_samples@, aqi_items@, now as int, r),
{
    let p = retain_recent_samples(&pollen_samples, now);
    let a = retain_recent_items(&aqi_items, now);
    if p.len() == 0 {
        return Err(MergeError::NoPollenItemFound);
    }
    if a.len() == 0 {
        return Err(MergeError::NoAqiItemFound);
    }
    let pollen_first_time = p[0].time;
    let aqi_first_time = a[0].time;
    if pollen_first_time < aqi_first_time {
        match find_sample_near(&p, aqi_first_time) {
            Some(idx) => {
                assert(a@.subrange(0, a@.len() as int) =~= a@);
                Ok(combine_from(&p, idx, &a, 0))
            },
            None => Err(MergeError::NoCloseAqiItemFound),
        }
    } else {
        match find_item_near(&a, pollen_first_time) {
            Some(idx) => {
                assert(p@.subrange(0, p@.len() as int) =~= p@);
                Ok(combine_from(&p, 0, &a, idx))
            },
            None => Err(MergeError::NoClosePollenItemFound),
        }
    }
}

proof fn lemma_filter_keeps_all<A>(s: Seq<A>, p: spec_fn(A) -> bool)
    requires
        forall|i: int| 0 <= i < s.len() ==> #[trigger] p(s[i]),
    ensures
        s.filter(p) == s,
    decreases s.len(),
{
    reveal(Seq::filter);
    if s.len() > 0 {
        assert forall|i: int| 0 <= i < s.drop_last().len() implies
            #[trigger] p(s.drop_last()[i]) by {
            assert(p(s[i]));
        }
        lemma_filter_keeps_all(s.drop_last(), p);
        assert(p(s[s.len() - 1]));
        assert(s.drop_last().push(s.last()) =~= s);
    }
}

proof fn lemma_first_index_none<A>(s: Seq<A>, p: spec_fn(A) -> bool)
    requires
        forall|i: int| 0 <= i < s.len() ==> !#[trigger] p(s[i]),
    ensures
        first_index(s, p) is None,
    decreases s.len(),
{
    if s.len() > 0 {
        assert forall|i: int| 0 <= i < s.drop_last().len() implies
            !#[trigger] p(s.drop_last()[i]) by {
            assert(!p(s[i]));
        }
        lemma_first_index_none(s.drop_last(), p);
        assert(!p(s[s.len() - 1]));
    }
}

/// Merging is deterministic: two merges of the same series at the same time yield the same
/// combined items, or the same error.
pub proof fn lemma_merge_deterministic(
    pollen: Seq<Sample>,
    aqi: Seq<AqiItem>,
    now: int,
    r1: Result<Vec<Item>, MergeError>,
    r2: Result<Vec<Item>, MergeError>,
)
    requires
        merge_outcome(pollen, aqi, now, r1),
        merge_outcome(pollen, aqi, now, r2),
    ensures
        match (r1, r2) {
            (Ok(a), Ok(b)) => a@ == b@,
            (Err(e1), Err(e2)) => e1 == e2,
            _ => false,
        },
{
}

/// Merging fails with [`MergeError::NoCloseAqiItemFound`] when all samples and items are
/// recent, the pollen series starts before the AQI series, and no pollen sample lines up with
/// (lies within half an hour of) the first AQI item.
pub proof fn lemma_merge_without_close_match(pollen: Seq<Sample>, aqi: Seq<AqiItem>, now: int)
    requires
        pollen.len() > 0,
        aqi.len() > 0,
        forall|i: int| 0 <= i < pollen.len() ==> is_recent(#[trigger] pollen[i].time as int, now),
        forall|i: int| 0 <= i < aqi.len() ==> is_recent(#[trigger] aqi[i].time as int, now),
        pollen[0].time < aqi[0].time,
        forall|i: int|
            0 <= i < pollen.len() ==> !lines_up(
                #[trigger] pollen[i].time as int,
                aqi[0].time as int,
            ),
    ensures
        merged(pollen, aqi, now) == Err::<Seq<Item>, MergeError>(MergeError::NoCloseAqiItemFound),
{
    let ps = |x: Sample| is_recent(x.time as int, now);
    let ai = |x: AqiItem| is_recent(x.time as int, now);
    assert forall|i: int| 0 <= i < pollen.len() implies #[trigger] ps(pollen[i]) by {
        assert(is_recent(pollen[i].time as int, now));
    }
    assert forall|i: int| 0 <= i < aqi.len() implies #[trigger] ai(aqi[i]) by {
        assert(is_recent(aqi[i].time as int, now));
    }
    lemma_filter_keeps_all(pollen, ps);
    lemma_filter_keeps_all(aqi, ai);
    let near = |x: Sample| lines_up(x.time as int, aqi[0].time as int);
    assert forall|i: int| 0 <= i < pollen.len() implies !#[trigger] near(pollen[i]) by {
        assert(!lines_up(pollen[i].time as int, aqi[0].time as int));
    }
    lemma_first_index_none(pollen, near);
}

/// Checks that the combined provider supports the metric: it supports [`Metric::PAQI`] only.
pub fn check_metric(metric: Metric) -> (r: Result<(), Error>)
    ensures
        metric == Metric::PAQI ==> r is Ok,
        metric != Metric::PAQI ==> (r matches Err(Error::UnsupportedMetric(m)) && m == metric),
{
    if metric != Metric::PAQI {
        Err(Error::UnsupportedMetric(metric))
    } else {
        Ok(())
    }
}

/// Combines the pollen samples and AQI items for the provided metric, as of time `now`: the
/// two series merged, see [`merge`].
///
/// It supports the metric [`Metric::PAQI`].
pub fn get(metric: Metric, pollen_samples: Vec<Sample>, aqi_items: Vec<AqiItem>, now: i64) -> (r:
    Result<Vec<Item>, Error>)
    ensures
        metric != Metric::PAQI ==> (r matches Err(Error::UnsupportedMetric(m)) && m == metric),
        metric == Metric::PAQI ==> match r {
            Ok(items) => merge_outcome(pollen_samples@, aqi_items@, now as int, Ok(items)),
            Err(Error::Merge(e)) => merge_outcome(
                pollen_samples@,
                aqi_items@,
                now as int,
                Err(e),
            ),
            Err(_) => false,
        },
{
    check_metric(metric)?;
    match merge(pollen_samples, aqi_items, now) {
        Ok(items) => Ok(items),
        Err(err) => Err(Error::Merge(err)),
    }
}

} // verus!
