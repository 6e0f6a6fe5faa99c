//! The two query strategies over one registry.
//!
//! A registry is an ordered, immutable sequence of timezones; its order is
//! the tie-break whenever a point lies in more than one claimed region. The
//! reference scanner walks the whole registry and returns the identifier of
//! the first timezone containing the point. The bucketed scanner asks the
//! one-degree grid cell of the point for its candidates — every timezone
//! whose bounding box touches that cell, in registry order — and scans only
//! those. Both meet the same contract: the result always equals the full
//! linear scan, which is the central correctness statement of the index.

use vstd::prelude::*;
use crate::cells::LAT_BUCKETS;
use crate::cells::LON_BUCKETS;
use crate::cells::lat_cell;
use crate::cells::lat_cell_spec;
use crate::cells::lat_deg_cell;
use crate::cells::lon_cell;
use crate::cells::lon_cell_spec;
use crate::cells::lon_deg_cell;
use crate::cells::lemma_cells_in_grid;
use crate::cells::lat_deg_cell_spec;
use crate::cells::lon_deg_cell_spec;
use crate::loader::LoadError;
use crate::loader::RawRecord;
use crate::loader::Timezone;
use crate::loader::all_ok;
use crate::loader::first_bad_from;
use crate::loader::load_fails_with;
use crate::loader::load_succeeds_with;
use crate::loader::load_timezones;
use crate::loader::record_error;
use crate::loader::registry_from_records;
use crate::loader::timezone_of;
use crate::shapes::bounds_hold;
use crate::shapes::shape_degree_bounds;
use crate::shapes::shape_has_point;
use crate::shapes::DegreeBounds;
use crate::shapes::Shape;

verus! {

/// The position of the first timezone at or after `i` whose shape contains
/// the point, or nothing.
pub open spec fn first_hit_from(tzs: Seq<Timezone>, i: int, lon: int, lat: int) -> Option<int>
    decreases tzs.len() - i,
{
    if i < 0 || i >= tzs.len() {
        None
    } else if shape_has_point(tzs[i].shape, lon, lat) {
        Some(i)
    } else {
        first_hit_from(tzs, i + 1, lon, lat)
    }
}

/// The lookup contract shared by every scanner: the identifier of the
/// first timezone in registry order whose shape contains the point, or
/// nothing when no shape does.
pub open spec fn find_spec(tzs: Seq<Timezone>, lon: int, lat: int) -> Option<Seq<char>> {
    match first_hit_from(tzs, 0, lon, lat) {
        Some(i) => Some(tzs[i].id@),
        None => None,
    }
}

/// Law: what a scan outcome means. A hit is the position of a timezone
/// whose shape contains the point, and everything earlier in registry
/// order does not contain it — the first match in registry order wins.
/// No hit means no timezone in the registry contains the point at all:
/// absence of a match is a result, never an error.
pub proof fn lemma_first_hit_characterizes(tzs: Seq<Timezone>, i: int, lon: int, lat: int)
    requires
        0 <= i <= tzs.len(),
    ensures
        match first_hit_from(tzs, i, lon, lat) {
            Some(h) => {
                &&& i <= h < tzs.len()
                &&& shape_has_point(tzs[h].shape, lon, lat)
                &&& forall|j: int|
                    i <= j < h ==> !shape_has_point(#[trigger] tzs[j].shape, lon, lat)
            },
            None => forall|j: int|
                i <= j < tzs.len() ==> !shape_has_point(#[trigger] tzs[j].shape, lon, lat),
        },
    decreases tzs.len() - i,
{
    if i < tzs.len() && !shape_has_point(tzs[i].shape, lon, lat) {
        lemma_first_hit_characterizes(tzs, i + 1, lon, lat);
    }
}

/// Law: a scan's outcome is a function of the registry and the coordinate
/// alone, so two lookups against an unchanged registry always agree —
/// containment tests have no side effects and mutate nothing.
pub proof fn lemma_find_deterministic(
    tzs: Seq<Timezone>,
    lon: int,
    lat: int,
    r1: Option<Seq<char>>,
    r2: Option<Seq<char>>,
)
    requires
        r1 == find_spec(tzs, lon, lat),
        r2 == find_spec(tzs, lon, lat),
    ensures
        r1 == r2,
{
}

/// A lookup strategy over a registry of timezones.
pub trait TimezoneFinder {
    /// The registry this strategy answers from.
    spec fn registry(&self) -> Seq<Timezone>;

    /// The strategy's internal consistency; constructors establish it.
    spec fn wf(&self) -> bool;

    /// Looks up the timezone containing the point at the given nanodegree
    /// coordinate. Pure: the result is a function of the registry and the
    /// coordinate alone, so repeated calls agree.
    fn find(&self, lon_nanos: i64, lat_nanos: i64) -> (r: Option<String>)
        requires
            self.wf(),
        ensures
            r.deep_view() == find_spec(self.registry(), lon_nanos as int, lat_nanos as int),
    ;
}

/// If no shape between `m` and `e` contains the point, the scan outcome
/// from `m` is the outcome from `e`.
proof fn lemma_first_hit_skip(tzs: Seq<Timezone>, m: int, e: int, lon: int, lat: int)
    requires
        0 <= m <= e <= tzs.len(),
        forall|j: int| m <= j < e ==> !shape_has_point(#[trigger] tzs[j].shape, lon, lat),
    ensures
        first_hit_from(tzs, m, lon, lat) == first_hit_from(tzs, e, lon, lat),
    decreases e - m,
{
    if m < e {
        lemma_first_hit_skip(tzs, m + 1, e, lon, lat);
    }
}

/// The linear reference scanner: no index, the correctness oracle.
pub struct SimpleTimezoneFinder {
    pub timezones: Vec<Timezone>,
}

impl SimpleTimezoneFinder {
    /// Wraps an already-loaded registry.
    pub fn from_timezones(timezones: Vec<Timezone>) -> (r: Self)
        ensures
            r.timezones@ == timezones@,
            r.wf(),
    {
        SimpleTimezoneFinder { timezones }
    }

    /// Builds the scanner from reduced dataset records: the registry is
    /// exactly the records' timezones in their order, or the first bad
    /// record's error — and then no finder at all.
    pub fn from_records(records: Vec<RawRecord>) -> (r: Result<Self, LoadError>)
        ensures
            match r {
                Ok(f) => {
                    &&& f.wf()
                    &&& all_ok(records@)
                    &&& f.timezones@.len() == records@.len()
                    &&& forall|i: int|
                        0 <= i < records@.len() ==> #[trigger] f.timezones@[i] == timezone_of(
                            records@[i],
                        )
                },
                Err(e) => {
                    &&& !all_ok(records@)
                    &&& e == record_error(records@[first_bad_from(records@, 0)])
                },
            },
    {
        match registry_from_records(records) {
            Ok(tzs) => Ok(SimpleTimezoneFinder::from_timezones(tzs)),
            Err(e) => Err(e),
        }
    }

    /// Loads the registry from a GeoJSON text: it is the text's features'
    /// timezones in dataset order, exactly when the text parses and every
    /// feature is good; any loading error means no finder at all.
    pub fn from_geojson(s: &str) -> (r: Result<Self, LoadError>)
        ensures
            match r {
                Ok(f) => f.wf() && load_succeeds_with(s@, f.timezones@),
                Err(e) => load_fails_with(s@, e),
            },
    {
        match load_timezones(s) {
            Ok(tzs) => Ok(SimpleTimezoneFinder::from_timezones(tzs)),
            Err(e) => Err(e),
        }
    }
}

impl TimezoneFinder for SimpleTimezoneFinder {
    open spec fn registry(&self) -> Seq<Timezone> {
        self.timezones@
    }

    open spec fn wf(&self) -> bool {
        true
    }

    fn find(&self, lon_nanos: i64, lat_nanos: i64) -> (r: Option<String>) {
        let ghost tzs = self.timezones@;
        let ghost lon = lon_nanos as int;
        let ghost lat = lat_nanos as int;
        let n = self.timezones.len();
        let mut i: usize = 0;
        while i < n
            invariant
                tzs == self.timezones@,
                lon == lon_nanos as int,
                lat == lat_nanos as int,
                n == tzs.len(),
                i <= n,
                first_hit_from(tzs, 0, lon, lat) == first_hit_from(tzs, i as int, lon, lat),
            decreases n - i,
        {
            if self.timezones[i].shape.contains(lon_nanos, lat_nanos) {
                assert(first_hit_from(tzs, i as int, lon, lat) == Some(i as int));
                return Some(self.timezones[i].id.clone());
            }
            assert(first_hit_from(tzs, i as int, lon, lat) == first_hit_from(
                tzs,
                i as int + 1,
                lon,
                lat,
            ));
            i += 1;
        }
        None
    }
}

/// The inclusive rectangle of grid cells a timezone is filed under: every
/// cell its bounding box touches. A range whose low end exceeds its high
/// end covers no cell at all.
#[derive(Clone, Copy)]
pub struct CellRange {
    pub lon_lo: usize,
    pub lon_hi: usize,
    pub lat_lo: usize,
    pub lat_hi: usize,
}

/// Whether the range covers the cell at `(a, b)`.
pub open spec fn range_covers(rg: CellRange, a: int, b: int) -> bool {
    &&& rg.lon_lo <= a <= rg.lon_hi
    &&& rg.lat_lo <= b <= rg.lat_hi
}

/// The cell range a shape's bounding box covers: the clamped cells of the
/// box's floor-degree corners, or an empty range for a shape with no
/// points. This pins each timezone's grid cells to its actual bounding
/// box: a timezone stands in a cell exactly when this range covers it.
pub open spec fn range_of_bounds(b: Option<DegreeBounds>) -> CellRange {
    match b {
        Some(db) => CellRange {
            lon_lo: lon_deg_cell_spec(db.min_lon_deg as int) as usize,
            lon_hi: lon_deg_cell_spec(db.max_lon_deg as int) as usize,
            lat_lo: lat_deg_cell_spec(db.min_lat_deg as int) as usize,
            lat_hi: lat_deg_cell_spec(db.max_lat_deg as int) as usize,
        },
        None => CellRange { lon_lo: 1, lon_hi: 0, lat_lo: 1, lat_hi: 0 },
    }
}

/// The range is safe for the shape: wherever the shape contains a point,
/// the point's cell is covered. This is what makes a cell's candidate list
/// complete.
pub open spec fn range_covers_shape(rg: CellRange, s: Shape) -> bool {
    forall|lon: int, lat: int|
        #[trigger] shape_has_point(s, lon, lat) ==> range_covers(
            rg,
            lon_cell_spec(lon),
            lat_cell_spec(lat),
        )
}

/// The candidate list of cell `(a, b)`: every position below `j` whose
/// range covers the cell, in ascending registry order.
pub open spec fn cell_filter(ranges: Seq<CellRange>, j: int, a: int, b: int) -> Seq<usize>
    decreases j,
{
    if j <= 0 {
        Seq::empty()
    } else if range_covers(ranges[j - 1], a, b) {
        cell_filter(ranges, j - 1, a, b).push((j - 1) as usize)
    } else {
        cell_filter(ranges, j - 1, a, b)
    }
}

/// What a candidate list looks like: positions below `j`, strictly
/// ascending, exactly those whose range covers the cell.
proof fn lemma_cell_filter_props(ranges: Seq<CellRange>, j: int, a: int, b: int)
    requires
        0 <= j <= ranges.len(),
        ranges.len() <= usize::MAX,
    ensures
        forall|k: int|
            0 <= k < cell_filter(ranges, j, a, b).len() ==> #[trigger] cell_filter(
                ranges,
                j,
                a,
                b,
            )[k] < j,
        forall|k1: int, k2: int|
            0 <= k1 < k2 < cell_filter(ranges, j, a, b).len() ==> cell_filter(ranges, j, a, b)[k1]
                < cell_filter(ranges, j, a, b)[k2],
        forall|x: int|
            0 <= x < j && range_covers(ranges[x], a, b) ==> #[trigger] cell_filter(
                ranges,
                j,
                a,
                b,
            ).contains(x as usize),
    decreases j,
{
    if j > 0 {
        lemma_cell_filter_props(ranges, j - 1, a, b);
        let prev = cell_filter(ranges, j - 1, a, b);
        let cur = cell_filter(ranges, j, a, b);
        if range_covers(ranges[j - 1], a, b) {
            assert(cur == prev.push((j - 1) as usize));
            assert forall|k1: int, k2: int| 0 <= k1 < k2 < cur.len() implies cur[k1]
                < cur[k2] by {
                if k2 < prev.len() {
                    assert(cur[k1] == prev[k1] && cur[k2] == prev[k2]);
                } else {
                    assert(cur[k2] == (j - 1) as usize);
                    assert(cur[k1] == prev[k1]);
                    assert(prev[k1] < j - 1);
                }
            }
        }
        assert forall|x: int|
            0 <= x < j && range_covers(ranges[x], a, b) implies #[trigger] cur.contains(
            x as usize,
        ) by {
            if x < j - 1 {
                assert(prev.contains(x as usize));
                let k = choose|k: int| 0 <= k < prev.len() && prev[k] == x as usize;
                assert(cur[k] == x as usize);
            } else {
                assert(cur[cur.len() - 1] == x as usize);
            }
        }
    }
}

/// The position of the first candidate at or after position `k` of the
/// list whose shape contains the point, or nothing.
pub open spec fn first_hit_list(
    tzs: Seq<Timezone>,
    cell: Seq<usize>,
    k: int,
    lon: int,
    lat: int,
) -> Option<int>
    decreases cell.len() - k,
{
    if k < 0 || k >= cell.len() {
        None
    } else if shape_has_point(tzs[cell[k] as int].shape, lon, lat) {
        Some(cell[k] as int)
    } else {
        first_hit_list(tzs, cell, k + 1, lon, lat)
    }
}

/// The heart of the index's correctness: scanning a complete, ascending
/// candidate list of the point's own cell finds exactly what the full
/// registry scan finds. `k` and `m` generalize the claim for the
/// induction: everything before list position `k` and everything before
/// registry position `m` is already known not to contain the point.
proof fn lemma_list_scan_agrees(
    tzs: Seq<Timezone>,
    ranges: Seq<CellRange>,
    cell: Seq<usize>,
    a: int,
    b: int,
    lon: int,
    lat: int,
    k: int,
    m: int,
)
    requires
        ranges.len() == tzs.len(),
        tzs.len() <= usize::MAX,
        forall|j: int|
            0 <= j < tzs.len() ==> range_covers_shape(#[trigger] ranges[j], tzs[j].shape),
        forall|k0: int| 0 <= k0 < cell.len() ==> #[trigger] cell[k0] < tzs.len(),
        forall|k1: int, k2: int| 0 <= k1 < k2 < cell.len() ==> cell[k1] < cell[k2],
        forall|x: int|
            0 <= x < tzs.len() && range_covers(ranges[x], a, b) ==> #[trigger] cell.contains(
                x as usize,
            ),
        a == lon_cell_spec(lon),
        b == lat_cell_spec(lat),
        0 <= k <= cell.len(),
        0 <= m <= tzs.len(),
        forall|j: int| 0 <= j < m ==> !shape_has_point(#[trigger] tzs[j].shape, lon, lat),
        forall|k0: int| 0 <= k0 < k ==> #[trigger] cell[k0] < m,
    ensures
        first_hit_list(tzs, cell, k, lon, lat) == first_hit_from(tzs, m, lon, lat),
    decreases cell.len() - k,
{
    if k >= cell.len() {
        assert forall|j: int| m <= j < tzs.len() implies !shape_has_point(
            #[trigger] tzs[j].shape,
            lon,
            lat,
        ) by {
            if shape_has_point(tzs[j].shape, lon, lat) {
                assert(range_covers(ranges[j], a, b));
                assert(cell.contains(j as usize));
                let k0 = choose|k0: int| 0 <= k0 < cell.len() && cell[k0] == j as usize;
                assert(cell[k0] < m);
            }
        }
        lemma_first_hit_skip(tzs, m, tzs.len() as int, lon, lat);
    } else {
        let e = cell[k] as int;
        if e < m {
            assert(!shape_has_point(tzs[e].shape, lon, lat));
            lemma_list_scan_agrees(tzs, ranges, cell, a, b, lon, lat, k + 1, m);
        } else {
            assert forall|j: int| m <= j < e implies !shape_has_point(
                #[trigger] tzs[j].shape,
                lon,
                lat,
            ) by {
                if shape_has_point(tzs[j].shape, lon, lat) {
                    assert(range_covers(ranges[j], a, b));
                    assert(cell.contains(j as usize));
                    let k0 = choose|k0: int| 0 <= k0 < cell.len() && cell[k0] == j as usize;
                    if k0 < k {
                        assert(cell[k0] < m);
                    } else if k0 == k {
                        assert(cell[k0] == e);
                    } else {
                        assert(cell[k] < cell[k0]);
                    }
                }
            }
            lemma_first_hit_skip(tzs, m, e, lon, lat);
            if shape_has_point(tzs[e].shape, lon, lat) {
                assert(first_hit_from(tzs, e, lon, lat) == Some(e));
            } else {
                lemma_list_scan_agrees(tzs, ranges, cell, a, b, lon, lat, k + 1, e + 1);
            }
        }
    }
}

/// The grid-accelerated scanner.
pub struct BucketedTimezoneFinder {
    pub timezones: Vec<Timezone>,
    pub grid: Vec<Vec<Vec<usize>>>,
    pub ranges: Ghost<Seq<CellRange>>,
}

impl BucketedTimezoneFinder {
    /// The grid cell of a coordinate: the pair of cell indices along the
    /// longitude and latitude axes. Always inside the allocated grid.
    pub fn bucket(lon_nanos: i64, lat_nanos: i64) -> (c: (usize, usize))
        ensures
            c.0 == lon_cell_spec(lon_nanos as int),
            c.1 == lat_cell_spec(lat_nanos as int),
            c.0 < LON_BUCKETS,
            c.1 < LAT_BUCKETS,
    {
        (lon_cell(lon_nanos), lat_cell(lat_nanos))
    }

    /// Builds the grid over an already-loaded registry: each timezone is
    /// filed under every cell its bounding box touches, in registry order.
    pub fn from_timezones(timezones: Vec<Timezone>) -> (r: Self)
        ensures
            r.timezones@ == timezones@,
            r.wf(),
    {
        let n = timezones.len();
        let mut ranges: Vec<CellRange> = Vec::new();
        let mut j: usize = 0;
        while j < n
            invariant
                n == timezones@.len(),
                j <= n,
                ranges@.len() == j,
                forall|x: int|
                    0 <= x < j ==> #[trigger] ranges@[x] == range_of_bounds(
                        shape_degree_bounds(timezones@[x].shape),
                    ),
                forall|x: int|
                    0 <= x < j ==> range_covers_shape(
                        #[trigger] ranges@[x],
                        timezones@[x].shape,
                    ),
            decreases n - j,
        {
            let rg = match timezones[j].shape.degree_bounds() {
                Some(db) => {
                    let rg = CellRange {
                        lon_lo: lon_deg_cell(db.min_lon_deg),
                        lon_hi: lon_deg_cell(db.max_lon_deg),
                        lat_lo: lat_deg_cell(db.min_lat_deg),
                        lat_hi: lat_deg_cell(db.max_lat_deg),
                    };
                    proof {
                        assert forall|lon: int, lat: int|
                            #[trigger] shape_has_point(
                                timezones@[j as int].shape,
                                lon,
                                lat,
                            ) implies range_covers(
                            rg,
                            lon_cell_spec(lon),
                            lat_cell_spec(lat),
                        ) by {
                            assert(bounds_hold(db, lon, lat));
                        }
                    }
                    rg
                },
                None => CellRange { lon_lo: 1, lon_hi: 0, lat_lo: 1, lat_hi: 0 },
            };
            proof {
                assert(rg == range_of_bounds(shape_degree_bounds(timezones@[j as int].shape)));
            }
            ranges.push(rg);
            j += 1;
        }
        let mut grid: Vec<Vec<Vec<usize>>> = Vec::new();
        let mut a: usize = 0;
        while a < LON_BUCKETS
            invariant
                n == timezones@.len(),
                ranges@.len() == n,
                a <= LON_BUCKETS,
                grid@.len() == a,
                forall|x: int| 0 <= x < a ==> #[trigger] grid@[x]@.len() == LAT_BUCKETS,
                forall|x: int, y: int|
                    0 <= x < a && 0 <= y < LAT_BUCKETS ==> #[trigger] grid@[x]@[y]@ == cell_filter(
                        ranges@,
                        n as int,
                        x,
                        y,
                    ),
            decreases LON_BUCKETS - a,
        {
            let mut row: Vec<Vec<usize>> = Vec::new();
            let mut b: usize = 0;
            while b < LAT_BUCKETS
                invariant
                    n == timezones@.len(),
                    ranges@.len() == n,
                    a < LON_BUCKETS,
                    b <= LAT_BUCKETS,
                    row@.len() == b,
                    forall|y: int|
                        0 <= y < b ==> #[trigger] row@[y]@ == cell_filter(
                            ranges@,
                            n as int,
                            a as int,
                            y,
                        ),
                decreases LAT_BUCKETS - b,
            {
                let mut cell: Vec<usize> = Vec::new();
                let mut i: usize = 0;
                while i < n
                    invariant
                        n == timezones@.len(),
                        ranges@.len() == n,
                        i <= n,
                        cell@ == cell_filter(ranges@, i as int, a as int, b as int),
                    decreases n - i,
                {
                    let rg = ranges[i];
                    if rg.lon_lo <= a && a <= rg.lon_hi && rg.lat_lo <= b && b <= rg.lat_hi {
                        cell.push(i);
                    }
                    assert(cell@ =~= cell_filter(ranges@, i as int + 1, a as int, b as int));
                    i += 1;
                }
                row.push(cell);
                b += 1;
            }
            grid.push(row);
            a += 1;
        }
        BucketedTimezoneFinder { timezones, grid, ranges: Ghost(ranges@) }
    }

    /// Builds the scanner from reduced dataset records: the registry is
    /// exactly the records' timezones in their order, or the first bad
    /// record's error — and then no finder at all.
    pub fn from_records(records: Vec<RawRecord>) -> (r: Result<Self, LoadError>)
        ensures
            match r {
                Ok(f) => {
                    &&& f.wf()
                    &&& all_ok(records@)
                    &&& f.timezones@.len() == records@.len()
                    &&& forall|i: int|
                        0 <= i < records@.len() ==> #[trigger] f.timezones@[i] == timezone_of(
                            records@[i],
                        )
                },
                Err(e) => {
                    &&& !all_ok(records@)
                    &&& e == record_error(records@[first_bad_from(records@, 0)])
                },
            },
    {
        match registry_from_records(records) {
            Ok(tzs) => Ok(BucketedTimezoneFinder::from_timezones(tzs)),
            Err(e) => Err(e),
        }
    }

    /// Loads the registry from a GeoJSON text and builds the grid over
    /// it: the registry is the text's features' timezones in dataset
    /// order, exactly when the text parses and every feature is good; any
    /// loading error means no finder at all.
    pub fn from_geojson(s: &str) -> (r: Result<Self, LoadError>)
        ensures
            match r {
                Ok(f) => f.wf() && load_succeeds_with(s@, f.timezones@),
                Err(e) => load_fails_with(s@, e),
            },
    {
        match load_timezones(s) {
            Ok(tzs) => Ok(BucketedTimezoneFinder::from_timezones(tzs)),
            Err(e) => Err(e),
        }
    }
}

/// The outcome of scanning only the candidates of the query point's cell.
pub open spec fn indexed_find_spec(f: BucketedTimezoneFinder, lon: int, lat: int) -> Option<
    Seq<char>,
> {
    let cell = f.grid@[lon_cell_spec(lon)]@[lat_cell_spec(lat)]@;
    match first_hit_list(f.timezones@, cell, 0, lon, lat) {
        Some(i) => Some(f.timezones@[i].id@),
        None => None,
    }
}

/// Law: on a well-formed bucketed finder, scanning only the query point's
/// grid cell yields exactly what the full linear registry scan yields, for
/// every coordinate. The grid accelerates the lookup; it never changes the
/// answer.
pub proof fn lemma_indexed_agrees_with_scan(f: BucketedTimezoneFinder, lon: int, lat: int)
    requires
        f.wf(),
    ensures
        indexed_find_spec(f, lon, lat) == find_spec(f.timezones@, lon, lat),
{
    let a = lon_cell_spec(lon);
    let b = lat_cell_spec(lat);
    lemma_cells_in_grid(lon, lat);
    let cell = f.grid@[a]@[b]@;
    let n = f.timezones@.len() as int;
    assert(cell == cell_filter(f.ranges@, n, a, b));
    lemma_cell_filter_props(f.ranges@, n, a, b);
    assert forall|j: int|
        0 <= j < n && range_covers(f.ranges@[j], a, b) implies #[trigger] cell.contains(
        j as usize,
    ) by {
        assert(cell_filter(f.ranges@, n, a, b).contains(j as usize));
    }
    lemma_list_scan_agrees(f.timezones@, f.ranges@, cell, a, b, lon, lat, 0, 0);
}

impl TimezoneFinder for BucketedTimezoneFinder {
    open spec fn registry(&self) -> Seq<Timezone> {
        self.timezones@
    }

    open spec fn wf(&self) -> bool {
        let n = self.timezones@.len();
        &&& n <= usize::MAX
        &&& self.ranges@.len() == n
        &&& forall|j: int|
            0 <= j < n ==> #[trigger] self.ranges@[j] == range_of_bounds(
                shape_degree_bounds(self.timezones@[j].shape),
            )
        &&& forall|j: int|
            0 <= j < n ==> range_covers_shape(#[trigger] self.ranges@[j], self.timezones@[j].shape)
        &&& self.grid@.len() == LON_BUCKETS
        &&& forall|x: int| 0 <= x < LON_BUCKETS ==> #[trigger] self.grid@[x]@.len() == LAT_BUCKETS
        &&& forall|x: int, y: int|
            0 <= x < LON_BUCKETS && 0 <= y < LAT_BUCKETS ==> #[trigger] self.grid@[x]@[y]@
                == cell_filter(self.ranges@, n as int, x, y)
    }

    fn find(&self, lon_nanos: i64, lat_nanos: i64) -> (r: Option<String>) {
        let ghost tzs = self.timezones@;
        let ghost lon = lon_nanos as int;
        let ghost lat = lat_nanos as int;
        proof {
            lemma_indexed_agrees_with_scan(*self, lon, lat);
            lemma_cell_filter_props(
                self.ranges@,
                tzs.len() as int,
                lon_cell_spec(lon),
                lat_cell_spec(lat),
            );
        }
        let (a, b) = BucketedTimezoneFinder::bucket(lon_nanos, lat_nanos);
        let cell = &self.grid[a][b];
        let ghost cellv = cell@;
        let len = cell.len();
        let mut k: usize = 0;
        while k < len
            invariant
                tzs == self.timezones@,
                lon == lon_nanos as int,
                lat == lat_nanos as int,
                cellv == cell@,
                len == cellv.len(),
                k <= len,
                forall|k0: int| 0 <= k0 < cellv.len() ==> #[trigger] cellv[k0] < tzs.len(),
                first_hit_list(tzs, cellv, 0, lon, lat) == first_hit_list(
                    tzs,
                    cellv,
                    k as int,
                    lon,
                    lat,
                ),
                indexed_find_spec(*self, lon, lat) == find_spec(tzs, lon, lat),
                cellv == self.grid@[lon_cell_spec(lon)]@[lat_cell_spec(lat)]@,
            decreases len - k,
        {
            let idx = cell[k];
            if self.timezones[idx].shape.contains(lon_nanos, lat_nanos) {
                assert(first_hit_list(tzs, cellv, k as int, lon, lat) == Some(idx as int));
                return Some(self.timezones[idx].id.clone());
            }
            assert(first_hit_list(tzs, cellv, k as int, lon, lat) == first_hit_list(
                tzs,
                cellv,
                k as int + 1,
                lon,
                lat,
            ));
            k += 1;
        }
        None
    }
}

} // verus!
