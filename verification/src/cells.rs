//! Grid cell addressing.
//!
//! Longitude/latitude space is partitioned into one-degree cells. A
//! coordinate in nanodegrees is mapped to the cell holding it by shifting it
//! into a nonnegative range and dividing by the number of nanodegrees per
//! degree. The grid has one extra cell per axis so that the closed upper
//! boundary (+180 degrees longitude, +90 degrees latitude) falls into the
//! last valid cell; inputs beyond the valid range are clamped into the
//! boundary cells, so cell addresses never leave the allocated grid.

use vstd::prelude::*;

verus! {

/// Nanodegrees in one degree.
pub const NANOS_PER_DEGREE: i64 = 1_000_000_000;

/// Nanodegree value of +180 degrees longitude.
pub const LON_LIMIT_NANOS: i64 = 180_000_000_000;

/// Nanodegree value of +90 degrees latitude.
pub const LAT_LIMIT_NANOS: i64 = 90_000_000_000;

/// Number of longitude cells: one per degree plus the closed +180 boundary.
pub const LON_BUCKETS: usize = 361;

/// Number of latitude cells: one per degree plus the closed +90 boundary.
pub const LAT_BUCKETS: usize = 181;

/// The whole degree a nanodegree value lies in, rounded toward negative
/// infinity (-74.006 degrees lies in degree -75).
pub open spec fn floor_degree(nanos: int) -> int {
    nanos / (NANOS_PER_DEGREE as int)
}

/// The longitude cell holding a longitude given in nanodegrees: degrees are
/// counted from -180, and everything outside [-180, +180] is clamped into
/// the boundary cells.
pub open spec fn lon_cell_spec(lon_nanos: int) -> int {
    if lon_nanos <= -LON_LIMIT_NANOS {
        0
    } else if lon_nanos >= LON_LIMIT_NANOS {
        (LON_BUCKETS - 1) as int
    } else {
        (lon_nanos + LON_LIMIT_NANOS) / (NANOS_PER_DEGREE as int)
    }
}

/// The latitude cell holding a latitude given in nanodegrees, counted from
/// -90 and clamped the same way.
pub open spec fn lat_cell_spec(lat_nanos: int) -> int {
    if lat_nanos <= -LAT_LIMIT_NANOS {
        0
    } else if lat_nanos >= LAT_LIMIT_NANOS {
        (LAT_BUCKETS - 1) as int
    } else {
        (lat_nanos + LAT_LIMIT_NANOS) / (NANOS_PER_DEGREE as int)
    }
}

/// The cell along the longitude axis for a whole floor degree, clamped into
/// the grid: used to turn a bounding box corner into a cell range.
pub open spec fn lon_deg_cell_spec(deg: int) -> int {
    if deg <= -180 {
        0
    } else if deg >= 180 {
        (LON_BUCKETS - 1) as int
    } else {
        deg + 180
    }
}

/// As `lon_deg_cell_spec`, for latitude degrees.
pub open spec fn lat_deg_cell_spec(deg: int) -> int {
    if deg <= -90 {
        0
    } else if deg >= 90 {
        (LAT_BUCKETS - 1) as int
    } else {
        deg + 90
    }
}

/// Law: the clamped cell of a nanodegree longitude is the clamped cell of
/// its floor degree. The grid is addressed by one formula on both of its
/// sides — build time files a bounding box corner by its whole degree,
/// query time files a point by its nanodegree value — and the two always
/// agree, also exactly on a degree edge and at the clamped extremes.
pub proof fn lemma_lon_cell_is_deg_cell(lon_nanos: int)
    ensures
        lon_cell_spec(lon_nanos) == lon_deg_cell_spec(floor_degree(lon_nanos)),
{
    let d = NANOS_PER_DEGREE as int;
    if -LON_LIMIT_NANOS < lon_nanos < LON_LIMIT_NANOS {
        vstd::arithmetic::div_mod::lemma_hoist_over_denominator(lon_nanos, 180, d as nat);
        assert(-180 <= lon_nanos / d <= 179) by {
            vstd::arithmetic::div_mod::lemma_div_is_ordered(-LON_LIMIT_NANOS, lon_nanos, d);
            vstd::arithmetic::div_mod::lemma_div_is_ordered(lon_nanos, LON_LIMIT_NANOS - 1, d);
            vstd::arithmetic::div_mod::lemma_div_multiples_vanish(-180, d);
            vstd::arithmetic::div_mod::lemma_div_multiples_vanish_fancy(179, d - 1, d);
            assert(d * -180 == -LON_LIMIT_NANOS);
            assert(d * 179 + (d - 1) == LON_LIMIT_NANOS - 1);
        }
    } else if lon_nanos >= LON_LIMIT_NANOS {
        vstd::arithmetic::div_mod::lemma_div_is_ordered(LON_LIMIT_NANOS as int, lon_nanos, d);
        vstd::arithmetic::div_mod::lemma_div_multiples_vanish(180, d);
        assert(d * 180 == LON_LIMIT_NANOS);
    } else {
        vstd::arithmetic::div_mod::lemma_div_is_ordered(lon_nanos, -LON_LIMIT_NANOS, d);
        vstd::arithmetic::div_mod::lemma_div_multiples_vanish(-180, d);
        assert(d * -180 == -LON_LIMIT_NANOS);
    }
}

/// As `lemma_lon_cell_is_deg_cell`, for latitude.
pub proof fn lemma_lat_cell_is_deg_cell(lat_nanos: int)
    ensures
        lat_cell_spec(lat_nanos) == lat_deg_cell_spec(floor_degree(lat_nanos)),
{
    let d = NANOS_PER_DEGREE as int;
    if -LAT_LIMIT_NANOS < lat_nanos < LAT_LIMIT_NANOS {
        vstd::arithmetic::div_mod::lemma_hoist_over_denominator(lat_nanos, 90, d as nat);
        assert(-90 <= lat_nanos / d <= 89) by {
            vstd::arithmetic::div_mod::lemma_div_is_ordered(-LAT_LIMIT_NANOS, lat_nanos, d);
            vstd::arithmetic::div_mod::lemma_div_is_ordered(lat_nanos, LAT_LIMIT_NANOS - 1, d);
            vstd::arithmetic::div_mod::lemma_div_multiples_vanish(-90, d);
            vstd::arithmetic::div_mod::lemma_div_multiples_vanish_fancy(89, d - 1, d);
            assert(d * -90 == -LAT_LIMIT_NANOS);
            assert(d * 89 + (d - 1) == LAT_LIMIT_NANOS - 1);
        }
    } else if lat_nanos >= LAT_LIMIT_NANOS {
        vstd::arithmetic::div_mod::lemma_div_is_ordered(LAT_LIMIT_NANOS as int, lat_nanos, d);
        vstd::arithmetic::div_mod::lemma_div_multiples_vanish(90, d);
        assert(d * 90 == LAT_LIMIT_NANOS);
    } else {
        vstd::arithmetic::div_mod::lemma_div_is_ordered(lat_nanos, -LAT_LIMIT_NANOS, d);
        vstd::arithmetic::div_mod::lemma_div_multiples_vanish(-90, d);
        assert(d * -90 == -LAT_LIMIT_NANOS);
    }
}

/// Cell addresses stay inside the allocated grid, whatever the input.
pub proof fn lemma_cells_in_grid(lon_nanos: int, lat_nanos: int)
    ensures
        0 <= lon_cell_spec(lon_nanos) < LON_BUCKETS,
        0 <= lat_cell_spec(lat_nanos) < LAT_BUCKETS,
{
    let d = NANOS_PER_DEGREE as int;
    if -LON_LIMIT_NANOS < lon_nanos < LON_LIMIT_NANOS {
        vstd::arithmetic::div_mod::lemma_div_is_ordered(0, lon_nanos + LON_LIMIT_NANOS, d);
        vstd::arithmetic::div_mod::lemma_div_is_ordered(
            lon_nanos + LON_LIMIT_NANOS,
            2 * LON_LIMIT_NANOS - 1,
            d,
        );
        vstd::arithmetic::div_mod::lemma_div_multiples_vanish_fancy(359, d - 1, d);
        assert(d * 359 + (d - 1) == 2 * LON_LIMIT_NANOS - 1);
        vstd::arithmetic::div_mod::lemma_div_of0(d);
    }
    if -LAT_LIMIT_NANOS < lat_nanos < LAT_LIMIT_NANOS {
        vstd::arithmetic::div_mod::lemma_div_is_ordered(0, lat_nanos + LAT_LIMIT_NANOS, d);
        vstd::arithmetic::div_mod::lemma_div_is_ordered(
            lat_nanos + LAT_LIMIT_NANOS,
            2 * LAT_LIMIT_NANOS - 1,
            d,
        );
        vstd::arithmetic::div_mod::lemma_div_multiples_vanish_fancy(179, d - 1, d);
        assert(d * 179 + (d - 1) == 2 * LAT_LIMIT_NANOS - 1);
        vstd::arithmetic::div_mod::lemma_div_of0(d);
    }
}

/// The longitude cell of a query point, as executable code.
pub fn lon_cell(lon_nanos: i64) -> (c: usize)
    ensures
        c == lon_cell_spec(lon_nanos as int),
        c < LON_BUCKETS,
{
    proof {
        lemma_cells_in_grid(lon_nanos as int, 0);
    }
    if lon_nanos <= -LON_LIMIT_NANOS {
        0
    } else if lon_nanos >= LON_LIMIT_NANOS {
        LON_BUCKETS - 1
    } else {
        let shifted: u64 = (lon_nanos + LON_LIMIT_NANOS) as u64;
        (shifted / (NANOS_PER_DEGREE as u64)) as usize
    }
}

/// The latitude cell of a query point, as executable code.
pub fn lat_cell(lat_nanos: i64) -> (c: usize)
    ensures
        c == lat_cell_spec(lat_nanos as int),
        c < LAT_BUCKETS,
{
    proof {
        lemma_cells_in_grid(0, lat_nanos as int);
    }
    if lat_nanos <= -LAT_LIMIT_NANOS {
        0
    } else if lat_nanos >= LAT_LIMIT_NANOS {
        LAT_BUCKETS - 1
    } else {
        let shifted: u64 = (lat_nanos + LAT_LIMIT_NANOS) as u64;
        (shifted / (NANOS_PER_DEGREE as u64)) as usize
    }
}

/// The clamped cell of a floor degree along the longitude axis, as
/// executable code: used on bounding box corners at index build time.
pub fn lon_deg_cell(deg: i64) -> (c: usize)
    ensures
        c == lon_deg_cell_spec(deg as int),
        c < LON_BUCKETS,
{
    if deg <= -180 {
        0
    } else if deg >= 180 {
        LON_BUCKETS - 1
    } else {
        (deg + 180) as usize
    }
}

/// As `lon_deg_cell`, for latitude degrees.
pub fn lat_deg_cell(deg: i64) -> (c: usize)
    ensures
        c == lat_deg_cell_spec(deg as int),
        c < LAT_BUCKETS,
{
    if deg <= -90 {
        0
    } else if deg >= 90 {
        LAT_BUCKETS - 1
    } else {
        (deg + 90) as usize
    }
}

} // verus!
