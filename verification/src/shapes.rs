//! Shapes and the geometry collaborator.
//!
//! A timezone's shape is a multi-polygon of `f64` rings from `geo_types`,
//! held opaquely: the library never inspects ring points. Two capabilities
//! of the `geo` crate are consumed through trusted wrappers: the
//! point-in-shape containment predicate, and the extraction of a shape's
//! bounding box, reduced here to the floor degrees of its corners.

use vstd::prelude::*;
use geo::BoundingRect;
use geo::Contains;
use crate::cells::lat_cell_spec;
use crate::cells::lat_deg_cell_spec;
use crate::cells::lon_cell_spec;
use crate::cells::lon_deg_cell_spec;

verus! {

/// A timezone's boundary geometry: one or more polygons sharing one
/// identifier. Opaque to the library; only the geometry collaborator reads
/// it.
#[verifier::external_body]
pub struct Shape {
    pub(crate) inner: geo_types::MultiPolygon,
}

/// Whether the point at the given nanodegree coordinate lies inside the
/// shape, as the geometry collaborator decides it. The result is a function
/// of the shape and the coordinate alone.
pub uninterp spec fn shape_has_point(shape: Shape, lon_nanos: int, lat_nanos: int) -> bool;

/// The floor degrees of the corners of a shape's axis-aligned bounding box.
pub struct DegreeBounds {
    pub min_lon_deg: i64,
    pub min_lat_deg: i64,
    pub max_lon_deg: i64,
    pub max_lat_deg: i64,
}

/// The floor-degree bounding box of a shape as the geometry collaborator
/// extracts it, or nothing for a shape with no points: a function of the
/// shape alone.
pub uninterp spec fn shape_degree_bounds(shape: Shape) -> Option<DegreeBounds>;

/// Whether a nanodegree coordinate's grid cell falls inside the cells of
/// the bounds' corners: both sides addressed by the one clamped formula.
pub open spec fn bounds_hold(b: DegreeBounds, lon_nanos: int, lat_nanos: int) -> bool {
    &&& lon_deg_cell_spec(b.min_lon_deg as int) <= lon_cell_spec(lon_nanos)
        <= lon_deg_cell_spec(b.max_lon_deg as int)
    &&& lat_deg_cell_spec(b.min_lat_deg as int) <= lat_cell_spec(lat_nanos)
        <= lat_deg_cell_spec(b.max_lat_deg as int)
}

impl Shape {
    /// Relies on geo's `Contains<Point>` for `MultiPolygon`: a pure
    /// containment predicate over the shape and the point, with no side
    /// effects. The nanodegree coordinate is handed over as its decimal
    /// text, which the standard float parser turns into the nearest
    /// representable point.
    #[verifier::external_body]
    pub fn contains(&self, lon_nanos: i64, lat_nanos: i64) -> (r: bool)
        ensures
            r == shape_has_point(*self, lon_nanos as int, lat_nanos as int),
    {
        let lon = format!("{}e-9", lon_nanos).parse().unwrap();
        let lat = format!("{}e-9", lat_nanos).parse().unwrap();
        self.inner.contains(&geo_types::Point::new(lon, lat))
    }

    /// Relies on geo's `BoundingRect` for `MultiPolygon`: the returned
    /// rectangle encloses every point of the shape, so every contained
    /// point lies, cell-wise, between the floor degrees of its corners;
    /// `None` comes back only for a shape with no points at all, which
    /// contains nothing.
    #[verifier::external_body]
    pub(crate) fn degree_bounds(&self) -> (r: Option<DegreeBounds>)
        ensures
            r == shape_degree_bounds(*self),
            match r {
                Some(b) => forall|lon: int, lat: int|
                    shape_has_point(*self, lon, lat) ==> bounds_hold(b, lon, lat),
                None => forall|lon: int, lat: int| !shape_has_point(*self, lon, lat),
            },
    {
        match self.inner.bounding_rect() {
            Some(rect) => Some(DegreeBounds {
                min_lon_deg: rect.min().x.floor() as i64,
                min_lat_deg: rect.min().y.floor() as i64,
                max_lon_deg: rect.max().x.floor() as i64,
                max_lat_deg: rect.max().y.floor() as i64,
            }),
            None => None,
        }
    }
}

} // verus!
