//! The marker: the slice of a series for an instant, and a crosshair on it.
use crate::maps::raster::{
    Color, Raster, crop, is_crop, lemma_index_injective, lemma_pixel_index,
};
use crate::maps::projector::floor_div;
use crate::maps::sampler::lemma_slices_fit;
use crate::maps::Error;
use vstd::arithmetic::div_mod::{lemma_fundamental_div_mod, lemma_mod_pos_bound};
use vstd::prelude::*;

verus! {

/// The offset of the slice whose interval holds `instant`: the number of whole intervals from
/// `stamp` to `instant`, rounded down (negative before the series starts).
pub open spec fn slice_offset(stamp: int, interval: int, instant: int) -> int {
    (instant - stamp) / interval
}

/// Returns the slice of the map series that covers the given instant.
///
/// The slice at offset `k` covers the instants from `stamp + k * interval` up to (not
/// including) `stamp + (k + 1) * interval`. Instants before the first slice or after the last
/// one are out of bounds.
pub fn map_at(image: &Raster, stamp: i64, interval: i64, count: u32, instant: i64) -> (r: Result<
    Raster,
    Error,
>)
    requires
        image.wf(),
        interval > 0,
        count > 0,
    ensures
        match r {
            Ok(slice) => {
                let k = slice_offset(stamp as int, interval as int, instant as int);
                let w = image.width as int / count as int;
                &&& 0 <= k < count
                &&& is_crop(*image, k * w, w, slice)
            },
            Err(Error::OutOfBoundOffset(k)) => {
                &&& k == slice_offset(stamp as int, interval as int, instant as int)
                &&& (k < 0 || k >= count)
            },
            Err(_) => false,
        },
{
    let duration = instant as i128 - stamp as i128;
    let offset = floor_div(duration, interval as i128);
    if offset < 0 || offset >= count as i128 {
        return Err(Error::OutOfBoundOffset(offset));
    }
    let width = image.width / count;
    let k = offset as u32;
    proof {
        lemma_slices_fit(image.width as int, count as int, k as int);
        assert((k + 1) * width == k * width + width) by (nonlinear_arith);
    }
    Ok(crop(image, k * width, width))
}

/// The color of the crosshair that marks a position.
pub open spec fn mark_color() -> Color {
    Color { r: 0x00, g: 0x00, b: 0x00, a: 0x70 }
}

/// Marks the provided coordinates on the map using a horizontal and a vertical line.
pub fn mark(image: Raster, coords: (u32, u32)) -> (r: Raster)
    requires
        image.wf(),
        coords.0 < image.width,
        coords.1 < image.height,
    ensures
        r.wf(),
        r.width == image.width,
        r.height == image.height,
        forall|x: int, y: int|
            0 <= x < image.width && 0 <= y < image.height ==> #[trigger] r.pixel(x, y) == if x
                == coords.0 || y == coords.1 {
                mark_color()
            } else {
                image.pixel(x, y)
            },
{
    let (cx, cy) = coords;
    let width = image.width;
    let height = image.height;
    let ghost old_image = image;
    let len = image.pixels.len();
    let mut image = image;
    let color = Color { r: 0x00, g: 0x00, b: 0x00, a: 0x70 };
    let mut py: u32 = 0;
    while py < height
        invariant
            image.wf(),
            len == image.pixels@.len(),
            image.width == width,
            image.height == height,
            old_image.wf(),
            old_image.width == width,
            old_image.height == height,
            cx < width,
            cy < height,
            color == mark_color(),
            0 <= py <= height,
            forall|x: int, y: int|
                0 <= x < width && 0 <= y < height ==> #[trigger] image.pixel(x, y) == if x == cx
                    && y < py {
                    mark_color()
                } else {
                    old_image.pixel(x, y)
                },
        decreases height - py,
    {
        proof {
            lemma_pixel_index(cx as int, py as int, width as int, height as int);
        }
        let ghost before = image;
        image.pixels.set(py as usize * width as usize + cx as usize, color);
        proof {
            assert forall|x: int, y: int| 0 <= x < width && 0 <= y < height implies
                #[trigger] image.pixel(x, y) == if x == cx && y < py + 1 {
                mark_color()
            } else {
                old_image.pixel(x, y)
            } by {
                lemma_pixel_index(x, y, width as int, height as int);
                if x != cx || y != py {
                    if y * width + x == py * width + cx {
                        lemma_index_injective(x, y, cx as int, py as int, width as int);
                    }
                    assert(image.pixel(x, y) == before.pixel(x, y));
                }
            }
        }
        py = py + 1;
    }
    let mut px: u32 = 0;
    while px < width
        invariant
            image.wf(),
            len == image.pixels@.len(),
            image.width == width,
            image.height == height,
            old_image.wf(),
            old_image.width == width,
            old_image.height == height,
            cx < width,
            cy < height,
            color == mark_color(),
            0 <= px <= width,
            forall|x: int, y: int|
                0 <= x < width && 0 <= y < height ==> #[trigger] image.pixel(x, y) == if x == cx
                    || (y == cy && x < px) {
                    mark_color()
                } else {
                    old_image.pixel(x, y)
                },
        decreases width - px,
    {
        proof {
            lemma_pixel_index(px as int, cy as int, width as int, height as int);
        }
        let ghost before = image;
        image.pixels.set(cy as usize * width as usize + px as usize, color);
        proof {
            assert forall|x: int, y: int| 0 <= x < width && 0 <= y < height implies
                #[trigger] image.pixel(x, y) == if x == cx || (y == cy && x < px + 1) {
                mark_color()
            } else {
                old_image.pixel(x, y)
            } by {
                lemma_pixel_index(x, y, width as int, height as int);
                if x != px || y != cy {
                    if y * width + x == cy * width + px {
                        lemma_index_injective(x, y, px as int, cy as int, width as int);
                    }
                    assert(image.pixel(x, y) == before.pixel(x, y));
                }
            }
        }
        px = px + 1;
    }
    image
}

/// An instant `count * interval` seconds or more after the start of a series lies past its last
/// slice: its offset is out of bounds, so [`map_at`] fails with `OutOfBoundOffset` for it.
pub proof fn lemma_offset_past_coverage(stamp: int, interval: int, count: int, instant: int)
    requires
        interval > 0,
        count > 0,
        instant - stamp >= count * interval,
    ensures
        slice_offset(stamp, interval, instant) >= count,
{
    let d = instant - stamp;
    assert(d > 0) by (nonlinear_arith)
        requires
            interval > 0,
            count > 0,
            d >= count * interval,
    ;
    lemma_fundamental_div_mod(d, interval);
    lemma_mod_pos_bound(d, interval);
    let q = d / interval;
    assert(q >= count) by (nonlinear_arith)
        requires
            interval > 0,
            d == interval * q + d % interval,
            d % interval < interval,
            d >= count * interval,
    ;
}

} // verus!
