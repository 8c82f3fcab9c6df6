//! The sampler: scores of map slices by the map key colors around a coordinate.
use crate::maps::raster::{Color, Raster, lemma_pixel_index};
use crate::maps::Error;
use vstd::arithmetic::div_mod::{lemma_fundamental_div_mod, lemma_mod_pos_bound};
use vstd::prelude::*;

verus! {

/// The number of map key colors.
pub const MAP_KEY_LEN: usize = 10;

/// The half width (and half height) of the neighborhood that is sampled around a coordinate.
pub const SAMPLE_RADIUS: u32 = 5;

/// The map key: entry `i` is the color of score `i + 1`.
pub open spec fn map_key(i: int) -> Color {
    if i == 0 {
        Color { r: 0x49, g: 0xDA, b: 0x21, a: 0xFF }
    } else if i == 1 {
        Color { r: 0x30, g: 0xD2, b: 0x00, a: 0xFF }
    } else if i == 2 {
        Color { r: 0xFF, g: 0xF8, b: 0x8B, a: 0xFF }
    } else if i == 3 {
        Color { r: 0xFF, g: 0xF6, b: 0x42, a: 0xFF }
    } else if i == 4 {
        Color { r: 0xFD, g: 0xBB, b: 0x31, a: 0xFF }
    } else if i == 5 {
        Color { r: 0xFD, g: 0x8E, b: 0x24, a: 0xFF }
    } else if i == 6 {
        Color { r: 0xFC, g: 0x10, b: 0x3E, a: 0xFF }
    } else if i == 7 {
        Color { r: 0x97, g: 0x0A, b: 0x33, a: 0xFF }
    } else if i == 8 {
        Color { r: 0xA6, g: 0x6D, b: 0xBC, a: 0xFF }
    } else {
        Color { r: 0xB3, g: 0x30, b: 0xA1, a: 0xFF }
    }
}

/// Returns the map key color of score `i + 1`.
pub fn map_key_color(i: usize) -> (c: Color)
    requires
        i < MAP_KEY_LEN,
    ensures
        c == map_key(i as int),
{
    match i {
        0 => Color { r: 0x49, g: 0xDA, b: 0x21, a: 0xFF },
        1 => Color { r: 0x30, g: 0xD2, b: 0x00, a: 0xFF },
        2 => Color { r: 0xFF, g: 0xF8, b: 0x8B, a: 0xFF },
        3 => Color { r: 0xFF, g: 0xF6, b: 0x42, a: 0xFF },
        4 => Color { r: 0xFD, g: 0xBB, b: 0x31, a: 0xFF },
        5 => Color { r: 0xFD, g: 0x8E, b: 0x24, a: 0xFF },
        6 => Color { r: 0xFC, g: 0x10, b: 0x3E, a: 0xFF },
        7 => Color { r: 0x97, g: 0x0A, b: 0x33, a: 0xFF },
        8 => Color { r: 0xA6, g: 0x6D, b: 0xBC, a: 0xFF },
        _ => Color { r: 0xB3, g: 0x30, b: 0xA1, a: 0xFF },
    }
}

/// The number of pixels in columns `x0..x1` of row `y` whose color matches `c`.
pub open spec fn row_matches(img: Raster, y: int, x0: int, x1: int, c: Color) -> nat
    decreases x1 - x0,
{
    if x1 <= x0 {
        0
    } else {
        row_matches(img, y, x0, x1 - 1, c) + if img.pixel(x1 - 1, y).same_rgb(c) {
            1nat
        } else {
            0nat
        }
    }
}

/// The number of pixels in columns `x0..x1` of rows `y0..y1` whose color matches `c`.
pub open spec fn window_matches(img: Raster, x0: int, x1: int, y0: int, y1: int, c: Color) -> nat
    decreases y1 - y0,
{
    if y1 <= y0 {
        0
    } else {
        window_matches(img, x0, x1, y0, y1 - 1, c) + row_matches(img, y1 - 1, x0, x1, c)
    }
}

/// The index of the first map key color that occurs most often in the window, among the first
/// `n` map key colors.
pub open spec fn best_key(img: Raster, x0: int, x1: int, y0: int, y1: int, n: int) -> int
    decreases n,
{
    if n <= 1 {
        0
    } else {
        let b = best_key(img, x0, x1, y0, y1, n - 1);
        if window_matches(img, x0, x1, y0, y1, map_key(n - 1)) > window_matches(
            img,
            x0,
            x1,
            y0,
            y1,
            map_key(b),
        ) {
            n - 1
        } else {
            b
        }
    }
}

proof fn lemma_best_key_range(img: Raster, x0: int, x1: int, y0: int, y1: int, n: int)
    requires
        n >= 1,
    ensures
        0 <= best_key(img, x0, x1, y0, y1, n) < n,
    decreases n,
{
    if n > 1 {
        lemma_best_key_range(img, x0, x1, y0, y1, n - 1);
    }
}

/// The score of a window: one plus the index of the map key color that occurs most often in
/// it (the first one on a tie), or `None` when no map key color occurs in it at all.
pub open spec fn window_score(img: Raster, x0: int, x1: int, y0: int, y1: int) -> Option<u8> {
    let b = best_key(img, x0, x1, y0, y1, MAP_KEY_LEN as int);
    if window_matches(img, x0, x1, y0, y1, map_key(b)) == 0 {
        None
    } else {
        Some((b + 1) as u8)
    }
}

/// Counts the pixels in the window whose color matches `c`.
fn count_matches(img: &Raster, x0: u32, x1: u32, y0: u32, y1: u32, c: Color) -> (n: u32)
    requires
        img.wf(),
        x0 <= x1 <= img.width,
        y0 <= y1 <= img.height,
        x1 - x0 <= 2 * SAMPLE_RADIUS + 1,
        y1 - y0 <= 2 * SAMPLE_RADIUS + 1,
    ensures
        n == window_matches(*img, x0 as int, x1 as int, y0 as int, y1 as int, c),
{
    let len = img.pixels.len();
    let mut n: u32 = 0;
    let mut y: u32 = y0;
    while y < y1
        invariant
            img.wf(),
            len == img.pixels@.len(),
            x0 <= x1 <= img.width,
            y0 <= y <= y1 <= img.height,
            x1 - x0 <= 11,
            y1 - y0 <= 11,
            n == window_matches(*img, x0 as int, x1 as int, y0 as int, y as int, c),
            n <= 11 * (y - y0),
        decreases y1 - y,
    {
        let mut m: u32 = 0;
        let mut x: u32 = x0;
        while x < x1
            invariant
                img.wf(),
                len == img.pixels@.len(),
                x0 <= x <= x1 <= img.width,
                x1 - x0 <= 11,
                y0 <= y < y1 <= img.height,
                m == row_matches(*img, y as int, x0 as int, x as int, c),
                m <= x - x0,
            decreases x1 - x,
        {
            proof {
                lemma_pixel_index(x as int, y as int, img.width as int, img.height as int);
            }
            let idx: usize = y as usize * img.width as usize + x as usize;
            if img.pixels[idx].eq_rgb(&c) {
                m = m + 1;
            }
            x = x + 1;
        }
        n = n + m;
        y = y + 1;
    }
    n
}

/// Determines the score of a window, see [`window_score`].
fn score_window(img: &Raster, x0: u32, x1: u32, y0: u32, y1: u32) -> (r: Option<u8>)
    requires
        img.wf(),
        x0 <= x1 <= img.width,
        y0 <= y1 <= img.height,
        x1 - x0 <= 2 * SAMPLE_RADIUS + 1,
        y1 - y0 <= 2 * SAMPLE_RADIUS + 1,
    ensures
        r == window_score(*img, x0 as int, x1 as int, y0 as int, y1 as int),
        r matches Some(s) ==> 1 <= s <= MAP_KEY_LEN,
{
    let mut best: usize = 0;
    let mut best_n = count_matches(img, x0, x1, y0, y1, map_key_color(0));
    let mut i: usize = 1;
    while i < MAP_KEY_LEN
        invariant
            img.wf(),
            x0 <= x1 <= img.width,
            y0 <= y1 <= img.height,
            x1 - x0 <= 2 * SAMPLE_RADIUS + 1,
            y1 - y0 <= 2 * SAMPLE_RADIUS + 1,
            1 <= i <= MAP_KEY_LEN,
            best as int == best_key(*img, x0 as int, x1 as int, y0 as int, y1 as int, i as int),
            best_n == window_matches(
                *img,
                x0 as int,
                x1 as int,
                y0 as int,
                y1 as int,
                map_key(best as int),
            ),
        decreases MAP_KEY_LEN - i,
    {
        let n = count_matches(img, x0, x1, y0, y1, map_key_color(i));
        if n > best_n {
            best = i;
            best_n = n;
        }
        i = i + 1;
    }
    proof {
        lemma_best_key_range(*img, x0 as int, x1 as int, y0 as int, y1 as int, MAP_KEY_LEN as int);
    }
    if best_n == 0 {
        None
    } else {
        Some((best + 1) as u8)
    }
}

/// A map sample: the score of a map at a given time.
#[derive(Clone, Copy, Debug, PartialEq, Eq, Structural)]
pub struct Sample {
    /// The time(stamp) of the forecast, in seconds since the UNIX epoch.
    pub time: i64,
    /// The forecasted score, in the range `1..=10`.
    pub score: u8,
}

impl Sample {
    /// Creates a new sample.
    pub fn new(time: i64, score: u8) -> (s: Sample)
        ensures
            s == (Sample { time, score }),
    {
        Sample { time, score }
    }
}

/// Whether `(x, y)` lies within a single slice of a series of `count` slices.
pub open spec fn in_slice(img: Raster, count: int, x: int, y: int) -> bool {
    0 <= x < img.width as int / count && 0 <= y < img.height
}

/// The lower end of the sampled neighborhood around `c`, clamped at zero.
pub open spec fn window_lo(c: int) -> int {
    if c >= SAMPLE_RADIUS {
        c - SAMPLE_RADIUS
    } else {
        0
    }
}

/// The (exclusive) upper end of the sampled neighborhood around `c`, clamped at `bound`.
pub open spec fn window_hi(c: int, bound: int) -> int {
    if c + SAMPLE_RADIUS + 1 <= bound {
        c + SAMPLE_RADIUS + 1
    } else {
        bound
    }
}

/// The score of slice `k` of a series of `count` slices at the (slice-relative) coordinates
/// `(x, y)`: the score of the neighborhood around them, clamped at the slice's edges.
pub open spec fn slice_score(img: Raster, count: int, k: int, x: int, y: int) -> Option<u8> {
    let w = img.width as int / count;
    window_score(
        img,
        k * w + window_lo(x),
        k * w + window_hi(x, w),
        window_lo(y),
        window_hi(y, img.height as int),
    )
}

pub(crate) proof fn lemma_slices_fit(total: int, count: int, k: int)
    requires
        count > 0,
        total >= 0,
        0 <= k < count,
    ensures
        0 <= k * (total / count),
        (k + 1) * (total / count) <= total,
{
    lemma_fundamental_div_mod(total, count);
    lemma_mod_pos_bound(total, count);
    let w = total / count;
    assert(w >= 0) by {
        if w < 0 {
            assert(count * w < 0) by (nonlinear_arith)
                requires
                    count > 0,
                    w < 0,
            ;
        }
    }
    assert(0 <= k * w && (k + 1) * w <= count * w) by (nonlinear_arith)
        requires
            0 <= k < count,
            w >= 0,
    ;
}

/// Whether the times of all `count` slices, `stamp + k * interval`, are valid timestamps.
pub open spec fn slice_times_fit(stamp: int, interval: int, count: int) -> bool {
    &&& i64::MIN <= stamp <= i64::MAX
    &&& i64::MIN <= stamp + (count - 1) * interval <= i64::MAX
}

proof fn lemma_slice_time_fits(stamp: int, interval: int, count: int, k: int)
    requires
        slice_times_fit(stamp, interval, count),
        0 <= k < count,
    ensures
        i64::MIN <= stamp + k * interval <= i64::MAX,
{
    if interval >= 0 {
        assert(0 <= k * interval <= (count - 1) * interval) by (nonlinear_arith)
            requires
                0 <= k <= count - 1,
                interval >= 0,
        ;
    } else {
        assert((count - 1) * interval <= k * interval <= 0) by (nonlinear_arith)
            requires
                0 <= k <= count - 1,
                interval < 0,
        ;
    }
}

/// Whether `r` is the outcome of sampling a series of `count` slices at the (slice-relative)
/// coordinates `coords`, starting at `stamp` with `interval` seconds per slice.
pub open spec fn sampled(
    image: Raster,
    stamp: int,
    interval: int,
    count: int,
    coords: (u32, u32),
    r: Result<Vec<Sample>, Error>,
) -> bool {
    match r {
        Ok(samples) => {
            &&& in_slice(image, count, coords.0 as int, coords.1 as int)
            &&& samples@.len() == count
            &&& forall|k: int|
                0 <= k < count ==> {
                    &&& #[trigger] samples@[k].time == stamp + k * interval
                    &&& slice_score(image, count, k, coords.0 as int, coords.1 as int)
                        == Some(samples@[k].score)
                    &&& 1 <= samples@[k].score <= MAP_KEY_LEN
                }
        },
        Err(Error::OutOfBoundCoords(x, y)) => {
            &&& !in_slice(image, count, coords.0 as int, coords.1 as int)
            &&& x == coords.0
            &&& y == coords.1
        },
        Err(Error::NoKnownColorsInSamples) => {
            &&& in_slice(image, count, coords.0 as int, coords.1 as int)
            &&& exists|k: int|
                0 <= k < count && #[trigger] slice_score(
                    image,
                    count,
                    k,
                    coords.0 as int,
                    coords.1 as int,
                ) is None
        },
        Err(Error::TimestampOutOfRange) => {
            &&& in_slice(image, count, coords.0 as int, coords.1 as int)
            &&& forall|k: int|
                0 <= k < count ==> #[trigger] slice_score(
                    image,
                    count,
                    k,
                    coords.0 as int,
                    coords.1 as int,
                ) is Some
            &&& !slice_times_fit(stamp, interval, count)
        },
        Err(_) => false,
    }
}

/// Samples the map series at the given (slice-relative) coordinates.
///
/// Slice `k` yields the sample at `stamp + k * interval` with the score of the neighborhood
/// around the coordinates in that slice. Coordinates outside a slice, a slice without map key
/// colors around them, or a slice time outside the timestamp range (checked in that order) are
/// errors.
pub fn sample(image: &Raster, stamp: i64, interval: i64, count: u32, coords: (u32, u32)) -> (r:
    Result<Vec<Sample>, Error>)
    requires
        image.wf(),
        count > 0,
    ensures
        sampled(*image, stamp as int, interval as int, count as int, coords, r),
{
    let (x, y) = coords;
    let width = image.width / count;
    let height = image.height;
    if x >= width || y >= height {
        return Err(Error::OutOfBoundCoords(x as i128, y as i128));
    }
    let x_lo = if x >= SAMPLE_RADIUS {
        x - SAMPLE_RADIUS
    } else {
        0
    };
    let x_hi = if width - x > SAMPLE_RADIUS {
        x + SAMPLE_RADIUS + 1
    } else {
        width
    };
    let y_lo = if y >= SAMPLE_RADIUS {
        y - SAMPLE_RADIUS
    } else {
        0
    };
    let y_hi = if height - y > SAMPLE_RADIUS {
        y + SAMPLE_RADIUS + 1
    } else {
        height
    };
    let mut scores: Vec<u8> = Vec::new();
    let mut offset: u32 = 0;
    let mut k: u32 = 0;
    while k < count
        invariant
            image.wf(),
            count > 0,
            width == image.width / count,
            height == image.height,
            x == coords.0,
            y == coords.1,
            x < width,
            y < height,
            x_lo == window_lo(x as int),
            x_hi == window_hi(x as int, width as int),
            y_lo == window_lo(y as int),
            y_hi == window_hi(y as int, height as int),
            0 <= k <= count,
            offset == k * width,
            scores@.len() == k,
            forall|j: int|
                0 <= j < k ==> {
                    &&& slice_score(*image, count as int, j, x as int, y as int) == Some(
                        #[trigger] scores@[j],
                    )
                    &&& 1 <= scores@[j] <= MAP_KEY_LEN
                },
        decreases count - k,
    {
        proof {
            lemma_slices_fit(image.width as int, count as int, k as int);
            assert((k + 1) * width == k * width + width) by (nonlinear_arith);
        }
        match score_window(image, offset + x_lo, offset + x_hi, y_lo, y_hi) {
            None => {
                assert(slice_score(*image, count as int, k as int, x as int, y as int) is None);
                return Err(Error::NoKnownColorsInSamples);
            },
            Some(score) => {
                scores.push(score);
            },
        }
        k = k + 1;
        offset = offset + width;
    }
    assert forall|j: int| 0 <= j < count implies #[trigger] slice_score(
        *image,
        count as int,
        j,
        x as int,
        y as int,
    ) is Some by {
        assert(slice_score(*image, count as int, j, x as int, y as int) == Some(scores@[j]));
    }
    proof {
        assert(-0x1_0000_0000 * 0x8000_0000_0000_0000 <= (count - 1) * interval
            <= 0x1_0000_0000 * 0x8000_0000_0000_0000) by (nonlinear_arith)
            requires
                0 <= count - 1 < 0x1_0000_0000,
                -0x8000_0000_0000_0000 <= interval < 0x8000_0000_0000_0000,
        ;
    }
    let last: i128 = stamp as i128 + (count as i128 - 1) * interval as i128;
    if last < i64::MIN as i128 || last > i64::MAX as i128 {
        return Err(Error::TimestampOutOfRange);
    }
    let mut samples: Vec<Sample> = Vec::new();
    let mut i: u32 = 0;
    while i < count
        invariant
            count > 0,
            x == coords.0,
            y == coords.1,
            scores@.len() == count,
            slice_times_fit(stamp as int, interval as int, count as int),
            forall|j: int|
                0 <= j < count ==> {
                    &&& slice_score(*image, count as int, j, x as int, y as int) == Some(
                        #[trigger] scores@[j],
                    )
                    &&& 1 <= scores@[j] <= MAP_KEY_LEN
                },
            0 <= i <= count,
            samples@.len() == i,
            forall|j: int|
                0 <= j < i ==> {
                    &&& #[trigger] samples@[j].time == stamp + j * interval
                    &&& samples@[j].score == scores@[j]
                },
        decreases count - i,
    {
        proof {
            lemma_slice_time_fits(stamp as int, interval as int, count as int, i as int);
            assert(-0x1_0000_0000 * 0x8000_0000_0000_0000 <= i * interval
                <= 0x1_0000_0000 * 0x8000_0000_0000_0000) by (nonlinear_arith)
                requires
                    0 <= i < 0x1_0000_0000,
                    -0x8000_0000_0000_0000 <= interval < 0x8000_0000_0000_0000,
            ;
        }
        let time = (stamp as i128 + i as i128 * interval as i128) as i64;
        let ghost before = samples@;
        samples.push(Sample { time, score: scores[i as usize] });
        assert forall|j: int| 0 <= j < i + 1 implies {
            &&& #[trigger] samples@[j].time == stamp + j * interval
            &&& samples@[j].score == scores@[j]
        } by {
            if j < i {
                assert(samples@[j] == before[j]);
                assert(before[j].time == stamp + j * interval);
            }
        }
        i = i + 1;
    }
    assert forall|j: int| 0 <= j < count implies {
        &&& #[trigger] samples@[j].time == stamp + j * interval
        &&& slice_score(*image, count as int, j, coords.0 as int, coords.1 as int) == Some(
            samples@[j].score,
        )
        &&& 1 <= samples@[j].score <= MAP_KEY_LEN
    } by {
        assert(samples@[j].time == stamp + j * interval);
        assert(slice_score(*image, count as int, j, x as int, y as int) == Some(scores@[j]));
    }
    Ok(samples)
}

proof fn lemma_no_row_matches(img: Raster, y: int, x0: int, x1: int, c: Color)
    requires
        forall|x: int| x0 <= x < x1 ==> !#[trigger] img.pixel(x, y).same_rgb(c),
    ensures
        row_matches(img, y, x0, x1, c) == 0,
    decreases x1 - x0,
{
    if x1 > x0 {
        lemma_no_row_matches(img, y, x0, x1 - 1, c);
    }
}

proof fn lemma_no_window_matches(img: Raster, x0: int, x1: int, y0: int, y1: int, c: Color)
    requires
        forall|x: int, y: int|
            x0 <= x < x1 && y0 <= y < y1 ==> !#[trigger] img.pixel(x, y).same_rgb(c),
    ensures
        window_matches(img, x0, x1, y0, y1, c) == 0,
    decreases y1 - y0,
{
    if y1 > y0 {
        lemma_no_window_matches(img, x0, x1, y0, y1 - 1, c);
        lemma_no_row_matches(img, y1 - 1, x0, x1, c);
    }
}

/// A neighborhood in which no pixel has a map key color (whatever its alpha) has no score.
pub proof fn lemma_unknown_colors_have_no_score(img: Raster, x0: int, x1: int, y0: int, y1: int)
    requires
        forall|x: int, y: int, i: int|
            x0 <= x < x1 && y0 <= y < y1 && 0 <= i < MAP_KEY_LEN ==> !#[trigger] img.pixel(
                x,
                y,
            ).same_rgb(map_key(i)),
    ensures
        window_score(img, x0, x1, y0, y1) is None,
{
    let b = best_key(img, x0, x1, y0, y1, MAP_KEY_LEN as int);
    lemma_best_key_range(img, x0, x1, y0, y1, MAP_KEY_LEN as int);
    assert forall|x: int, y: int| x0 <= x < x1 && y0 <= y < y1 implies !#[trigger] img.pixel(
        x,
        y,
    ).same_rgb(map_key(b)) by {
        assert(!img.pixel(x, y).same_rgb(map_key(b)));
    }
    lemma_no_window_matches(img, x0, x1, y0, y1, map_key(b));
}

/// Sampling fails with `NoKnownColorsInSamples` when the coordinates lie within a slice and the
/// neighborhood of some slice holds no map key color.
pub proof fn lemma_sampling_unknown_colors_fails(
    image: Raster,
    stamp: int,
    interval: int,
    count: int,
    coords: (u32, u32),
    k: int,
    r: Result<Vec<Sample>, Error>,
)
    requires
        count > 0,
        0 <= k < count,
        in_slice(image, count, coords.0 as int, coords.1 as int),
        forall|x: int, y: int, i: int|
            k * (image.width as int / count) + window_lo(coords.0 as int) <= x < k * (
            image.width as int / count) + window_hi(coords.0 as int, image.width as int / count)
                && window_lo(coords.1 as int) <= y < window_hi(
                coords.1 as int,
                image.height as int,
            ) && 0 <= i < MAP_KEY_LEN ==> !#[trigger] image.pixel(x, y).same_rgb(map_key(i)),
        sampled(image, stamp, interval, count, coords, r),
    ensures
        r matches Err(Error::NoKnownColorsInSamples),
{
    let w = image.width as int / count;
    lemma_unknown_colors_have_no_score(
        image,
        k * w + window_lo(coords.0 as int),
        k * w + window_hi(coords.0 as int, w),
        window_lo(coords.1 as int),
        window_hi(coords.1 as int, image.height as int),
    );
    assert(slice_score(image, count, k, coords.0 as int, coords.1 as int) is None);
    if let Ok(samples) = r {
        assert(samples@[k].time == stamp + k * interval);
        assert(slice_score(image, count, k, coords.0 as int, coords.1 as int) == Some(
            samples@[k].score,
        ));
    }
}

/// Sampling at coordinates within a single slice, where every slice's neighborhood holds a map
/// key color and every slice's time is a valid timestamp, yields exactly one sample per slice,
/// each with a score in `1..=10`.
pub proof fn lemma_sampling_in_slice_succeeds(
    image: Raster,
    stamp: int,
    interval: int,
    count: int,
    coords: (u32, u32),
    r: Result<Vec<Sample>, Error>,
)
    requires
        count > 0,
        in_slice(image, count, coords.0 as int, coords.1 as int),
        forall|k: int|
            0 <= k < count ==> #[trigger] slice_score(
                image,
                count,
                k,
                coords.0 as int,
                coords.1 as int,
            ) is Some,
        slice_times_fit(stamp, interval, count),
        sampled(image, stamp, interval, count, coords, r),
    ensures
        r matches Ok(samples) && samples@.len() == count && forall|k: int|
            0 <= k < count ==> 1 <= #[trigger] samples@[k].score <= MAP_KEY_LEN,
{
    if let Ok(samples) = r {
        assert forall|k: int| 0 <= k < count implies 1 <= #[trigger] samples@[k].score
            <= MAP_KEY_LEN by {
            assert(samples@[k].time == stamp + k * interval);
        }
    }
}

} // verus!
