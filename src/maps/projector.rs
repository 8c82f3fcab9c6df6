//! The projector: pixel coordinates of positions, from two reference points.
use crate::maps::Error;
use crate::position::{MapPosition, RefPoint, refs_wf};
use vstd::arithmetic::div_mod::{
    lemma_fundamental_div_mod, lemma_fundamental_div_mod_converse, lemma_mod_pos_bound,
};
use vstd::prelude::*;

verus! {

/// `n / d` rounded to the nearest integer (halves are rounded up), for `d > 0`.
pub open spec fn round_div(n: int, d: int) -> int {
    (2 * n + d) / (2 * d)
}

/// The pixel coordinate of `v` on the straight line through `(v1, p1)` and `(v2, p2)`, rounded
/// to the nearest integer.
pub open spec fn interpolate(v: int, v1: int, v2: int, p1: int, p2: int) -> int {
    let d = v2 - v1;
    let n = p1 * d + (v - v1) * (p2 - p1);
    if d > 0 {
        round_div(n, d)
    } else {
        round_div(-n, -d)
    }
}

/// The pixel coordinates of a position on a map with the given reference points.
///
/// The column is linear in the longitude, the row is linear in the Mercator ordinate of the
/// latitude.
pub open spec fn projected(refs: (RefPoint, RefPoint), pos: MapPosition) -> (int, int) {
    (
        interpolate(
            pos.lon as int,
            refs.0.position.lon as int,
            refs.1.position.lon as int,
            refs.0.x as int,
            refs.1.x as int,
        ),
        interpolate(
            pos.merc as int,
            refs.0.position.merc as int,
            refs.1.position.merc as int,
            refs.0.y as int,
            refs.1.y as int,
        ),
    )
}

pub(crate) fn floor_div(a: i128, b: i128) -> (q: i128)
    requires
        b > 0,
        -0x1000_0000_0000_0000_0000_0000_0000 < a < 0x1000_0000_0000_0000_0000_0000_0000,
        b < 0x1000_0000_0000_0000_0000_0000_0000,
    ensures
        q == a as int / b as int,
{
    if a >= 0 {
        a / b
    } else {
        let q = (-a + b - 1) / b;
        proof {
            let x = -a + b - 1;
            lemma_fundamental_div_mod(x as int, b as int);
            lemma_mod_pos_bound(x as int, b as int);
            let r = x % (b as int);
            assert(q as int == x as int / b as int);
            assert((-q) * b == -(b * q)) by (nonlinear_arith);
            lemma_fundamental_div_mod_converse(a as int, b as int, -q, b - 1 - r);
        }
        -q
    }
}

fn interpolate_exec(v: i64, v1: i64, v2: i64, p1: u32, p2: u32) -> (r: i128)
    requires
        v1 != v2,
    ensures
        r == interpolate(v as int, v1 as int, v2 as int, p1 as int, p2 as int),
{
    let d0: i128 = v2 as i128 - v1 as i128;
    let dv: i128 = v as i128 - v1 as i128;
    let dp: i128 = p2 as i128 - p1 as i128;
    proof {
        let bound: int = 0x2_0000_0000_0000_0000;
        let pb: int = 0x1_0000_0000;
        assert(-bound * pb <= p1 * d0 <= bound * pb) by (nonlinear_arith)
            requires
                0 <= p1 < pb,
                -bound <= d0 <= bound,
        ;
        assert(-bound * pb <= dv * dp <= bound * pb) by (nonlinear_arith)
            requires
                -pb <= dp <= pb,
                -bound <= dv <= bound,
        ;
    }
    let n0: i128 = p1 as i128 * d0 + dv * dp;
    let (n, d) = if d0 > 0 {
        (n0, d0)
    } else {
        (-n0, -d0)
    };
    floor_div(2 * n + d, 2 * d)
}

/// Projects the provided map position to pixel coordinates on a map (slice) of the given size.
///
/// This uses two reference points: the column scales linearly with the longitude and the row
/// with the Mercator ordinate of the latitude. Coordinates outside the map are an error.
pub fn project(width: u32, height: u32, ref_points: (RefPoint, RefPoint), pos: MapPosition) -> (r:
    Result<(u32, u32), Error>)
    requires
        refs_wf(ref_points),
    ensures
        match r {
            Ok((x, y)) => {
                &&& projected(ref_points, pos) == (x as int, y as int)
                &&& x < width
                &&& y < height
            },
            Err(Error::OutOfBoundCoords(x, y)) => {
                &&& projected(ref_points, pos) == (x as int, y as int)
                &&& !(0 <= x < width && 0 <= y < height)
            },
            Err(_) => false,
        },
{
    let (ref1, ref2) = ref_points;
    let x = interpolate_exec(pos.lon, ref1.position.lon, ref2.position.lon, ref1.x, ref2.x);
    let y = interpolate_exec(pos.merc, ref1.position.merc, ref2.position.merc, ref1.y, ref2.y);
    if 0 <= x && x < width as i128 && 0 <= y && y < height as i128 {
        Ok((x as u32, y as u32))
    } else {
        Err(Error::OutOfBoundCoords(x, y))
    }
}

proof fn lemma_interpolate_ends(v1: int, v2: int, p1: int, p2: int)
    requires
        v1 != v2,
    ensures
        interpolate(v1, v1, v2, p1, p2) == p1,
        interpolate(v2, v1, v2, p1, p2) == p2,
{
    let d = v2 - v1;
    let e = if d > 0 { d } else { -d };
    assert(e > 0);
    assert((v2 - v1) * (p2 - p1) == d * p2 - d * p1) by (nonlinear_arith)
        requires
            d == v2 - v1,
    ;
    assert(p1 * (2 * e) == 2 * (p1 * e)) by (nonlinear_arith);
    assert(p2 * (2 * e) == 2 * (p2 * e)) by (nonlinear_arith);
    lemma_fundamental_div_mod_converse(2 * (p1 * e) + e, 2 * e, p1, e);
    lemma_fundamental_div_mod_converse(2 * (p2 * e) + e, 2 * e, p2, e);
    if d < 0 {
        assert(-(p1 * d) == p1 * e) by (nonlinear_arith)
            requires
                e == -d,
        ;
        assert(-(p1 * d + d * p2 - d * p1) == p2 * e) by (nonlinear_arith)
            requires
                e == -d,
        ;
    } else {
        assert(p1 * d + d * p2 - d * p1 == p2 * e) by (nonlinear_arith)
            requires
                e == d,
        ;
    }
}

/// Projecting either reference point yields exactly the pixel coordinates it is drawn at.
pub proof fn lemma_project_reference_points(ref_points: (RefPoint, RefPoint))
    requires
        refs_wf(ref_points),
    ensures
        projected(ref_points, ref_points.0.position) == (
            ref_points.0.x as int,
            ref_points.0.y as int,
        ),
        projected(ref_points, ref_points.1.position) == (
            ref_points.1.x as int,
            ref_points.1.y as int,
        ),
{
    let (r1, r2) = ref_points;
    lemma_interpolate_ends(
        r1.position.lon as int,
        r2.position.lon as int,
        r1.x as int,
        r2.x as int,
    );
    lemma_interpolate_ends(
        r1.position.merc as int,
        r2.position.merc as int,
        r1.y as int,
        r2.y as int,
    );
}

} // verus!
