//! Random draws for spawn positions and directions.
use vstd::prelude::*;

verus! {

/// Relies on rand::random: a value drawn from the thread-local generator.
/// Nothing is promised of which value comes out.
pub assume_specification<T>[ rand::random::<T> ]() -> (r: T)
    where
        rand::distributions::Standard: rand::distributions::Distribution<T>,
;

/// `2^32`, the number of values a `u32` draw can take.
pub const DRAW_RANGE: i128 = 4_294_967_296;

/// A draw `v` scaled to `[0, extent)`: the integer counterpart of multiplying a
/// uniform number of `[0, 1)` by `extent`.
pub open spec fn scale_spec(v: int, extent: int) -> int {
    v * extent / (DRAW_RANGE as int)
}

/// Scales a `u32` draw to `[0, extent)`; an empty extent gives 0.
pub fn scale_draw(v: u32, extent: i64) -> (r: i64)
    requires
        0 <= extent <= 1_099_511_627_776,
    ensures
        r == scale_spec(v as int, extent as int),
        0 <= r,
        extent > 0 ==> r < extent,
        extent == 0 ==> r == 0,
{
    assert(0 <= (v as int) * (extent as int) <= 4_294_967_295 * 1_099_511_627_776)
        by (nonlinear_arith)
        requires
            0 <= v <= 4_294_967_295,
            0 <= extent <= 1_099_511_627_776,
    ;
    assert((v as int) * (extent as int) / 4_294_967_296 <= extent) by (nonlinear_arith)
        requires
            0 <= v <= 4_294_967_295,
            0 <= extent,
    ;
    assert(extent > 0 ==> (v as int) * (extent as int) / 4_294_967_296 < extent)
        by (nonlinear_arith)
        requires
            0 <= v <= 4_294_967_295,
            0 <= extent,
    ;
    (v as i128 * extent as i128 / DRAW_RANGE) as i64
}

/// A uniformly drawn value of `[0, extent)` (0 when `extent` is 0).
pub fn draw_below(extent: i64) -> (r: i64)
    requires
        0 <= extent <= 1_099_511_627_776,
    ensures
        0 <= r,
        extent > 0 ==> r < extent,
        extent == 0 ==> r == 0,
{
    let v: u32 = rand::random::<u32>();
    scale_draw(v, extent)
}

} // verus!
