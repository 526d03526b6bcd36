//! Band structure of second-order spherical harmonics: nine coefficients,
//! band `b` holding the `2b + 1` coefficients from index `b * b` on.
use vstd::prelude::*;

verus! {

/// Number of coefficients of a second-order spherical-harmonics set.
pub const SH_COEFFICIENT_COUNT: usize = 9;

/// Coefficient `index` belongs to band `band`.
pub open spec fn in_band(index: int, band: int) -> bool {
    0 <= band && band * band <= index < (band + 1) * (band + 1)
}

/// The windowing weight of band `band`: `band^2 * (band + 1)^2`. Windowing of
/// width `w` scales the band's coefficients by `1 / (1 + w * weight)`.
pub open spec fn window_weight(band: int) -> int {
    band * band * (band + 1) * (band + 1)
}

/// The band of coefficient `index`: 0 for index 0, 1 for indices 1 to 3, 2
/// for indices 4 to 8.
pub fn sh_band(index: usize) -> (r: u32)
    requires
        index < SH_COEFFICIENT_COUNT,
    ensures
        in_band(index as int, r as int),
        r == (if index == 0 { 0int } else if index < 4 { 1 } else { 2 }),
{
    if index == 0 {
        0
    } else if index < 4 {
        assert(in_band(index as int, 1)) by (nonlinear_arith)
            requires
                1 <= index < 4,
        ;
        1
    } else {
        assert(in_band(index as int, 2)) by (nonlinear_arith)
            requires
                4 <= index < 9,
        ;
        2
    }
}

/// The windowing weight of the band that coefficient `index` belongs to.
/// Band 0 has weight 0, so windowing never changes it; the other bands have
/// positive weight, so any positive width damps them.
pub fn coefficient_window_weight(index: usize) -> (r: u32)
    requires
        index < SH_COEFFICIENT_COUNT,
    ensures
        exists|band: int| in_band(index as int, band) && r == window_weight(band),
        r == 0 <==> index == 0,
{
    let band = sh_band(index);
    proof {
        if band == 0 {
            assert(window_weight(band as int) == 0) by (nonlinear_arith)
                requires
                    band == 0,
            ;
        } else if band == 1 {
            assert(window_weight(band as int) == 4) by (nonlinear_arith)
                requires
                    band == 1,
            ;
        } else {
            assert(window_weight(band as int) == 36) by (nonlinear_arith)
                requires
                    band == 2,
            ;
        }
    }
    let w = band * band * (band + 1) * (band + 1);
    proof {
        assert(in_band(index as int, band as int) && w == window_weight(band as int));
        assert(index == 0 <==> band == 0);
    }
    w
}

} // verus!
