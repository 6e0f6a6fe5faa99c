//! Dataset loading.
//!
//! The dataset is a GeoJSON feature collection; each feature carries a
//! `tzid` property naming the timezone and a polygon or multi-polygon
//! geometry. Decoding the text is the `geojson` crate's work, consumed
//! through trusted wrappers that reduce each feature to a plain record: an
//! optional identifier and an optional shape. The wrappers' results are
//! functions of the text and the features alone, so they carry names that
//! the loading contracts are exact over: loading succeeds if and only if
//! the text parses and every feature reduces to a good record, and fails
//! with the first bad record's error. Loading is all or nothing: a bad
//! record means no registry at all.

use vstd::prelude::*;
use std::convert::TryInto;
use crate::shapes::Shape;

verus! {

#[verifier::external_type_specification]
#[verifier::external_body]
pub struct ExFeature(geojson::Feature);

/// Why loading failed. All loading errors are fatal: no finder is handed
/// out on any of them.
#[derive(Debug, Clone, Copy, PartialEq, Eq, Structural)]
pub enum LoadError {
    /// The text is not a GeoJSON feature collection.
    Unparseable,
    /// A record has no `tzid` property, or one that is not a string.
    MissingAttribute,
    /// A record's geometry is absent, of a kind other than polygon or
    /// multi-polygon, or malformed.
    UnsupportedGeometry,
}

/// One timezone: its identifier and its boundary geometry.
pub struct Timezone {
    pub id: String,
    pub shape: Shape,
}

/// What one dataset feature reduces to: the `tzid` property if it is
/// present and a string, and the geometry if it is a well-formed polygon
/// or multi-polygon (a single polygon is normalized into a one-member
/// multi-polygon).
pub struct RawRecord {
    pub tzid: Option<String>,
    pub shape: Option<Shape>,
}

/// What parsing a text as a GeoJSON feature collection yields: its
/// features in dataset order, or nothing for a text that is not one. A
/// function of the text alone.
pub uninterp spec fn geojson_features(s: Seq<char>) -> Option<Seq<geojson::Feature>>;

/// The named property of a feature, if it is present and a string. A
/// function of the feature and the key alone.
pub uninterp spec fn feature_property(f: geojson::Feature, key: Seq<char>) -> Option<Seq<char>>;

/// The shape a feature's geometry reduces to, if it is a well-formed
/// polygon or multi-polygon. A function of the feature alone.
pub uninterp spec fn feature_shape_of(f: geojson::Feature) -> Option<Shape>;

/// The property naming a record's timezone in the dataset schema.
pub open spec fn tzid_key() -> Seq<char> {
    "tzid"@
}

/// A feature that yields a timezone: identifier and shape both present.
pub open spec fn feature_ok(f: geojson::Feature) -> bool {
    feature_property(f, tzid_key()) is Some && feature_shape_of(f) is Some
}

/// The error a bad feature fails with: a missing identifier is reported
/// before a bad geometry.
pub open spec fn feature_error(f: geojson::Feature) -> LoadError {
    if feature_property(f, tzid_key()) is None {
        LoadError::MissingAttribute
    } else {
        LoadError::UnsupportedGeometry
    }
}

/// Whether every feature yields a timezone.
pub open spec fn all_features_ok(fs: Seq<geojson::Feature>) -> bool {
    forall|i: int| 0 <= i < fs.len() ==> feature_ok(#[trigger] fs[i])
}

/// The position of the first bad feature at or after `i`, or the length
/// if every feature from `i` on is good.
pub open spec fn first_bad_feature_from(fs: Seq<geojson::Feature>, i: int) -> int
    decreases fs.len() - i,
{
    if i < 0 || i >= fs.len() {
        fs.len() as int
    } else if !feature_ok(fs[i]) {
        i
    } else {
        first_bad_feature_from(fs, i + 1)
    }
}

/// The record is the feature's reduction: same identifier outcome, same
/// shape outcome.
pub open spec fn record_matches_feature(r: RawRecord, f: geojson::Feature) -> bool {
    &&& match r.tzid {
        Some(id) => feature_property(f, tzid_key()) == Some(id@),
        None => feature_property(f, tzid_key()) is None,
    }
    &&& r.shape == feature_shape_of(f)
}

/// The timezone carries the feature's identifier and shape.
pub open spec fn timezone_matches_feature(t: Timezone, f: geojson::Feature) -> bool {
    &&& feature_property(f, tzid_key()) == Some(t.id@)
    &&& feature_shape_of(f) == Some(t.shape)
}

/// A record that yields a timezone: identifier and shape both present.
pub open spec fn record_ok(r: RawRecord) -> bool {
    r.tzid is Some && r.shape is Some
}

/// The error a bad record fails with: a missing identifier is reported
/// before a bad geometry.
pub open spec fn record_error(r: RawRecord) -> LoadError {
    if r.tzid is None {
        LoadError::MissingAttribute
    } else {
        LoadError::UnsupportedGeometry
    }
}

/// Whether every record yields a timezone.
pub open spec fn all_ok(rs: Seq<RawRecord>) -> bool {
    forall|i: int| 0 <= i < rs.len() ==> record_ok(#[trigger] rs[i])
}

/// The timezone a good record yields.
pub open spec fn timezone_of(r: RawRecord) -> Timezone {
    Timezone { id: r.tzid->0, shape: r.shape->0 }
}

/// The position of the first bad record at or after `i`, or the length if
/// every record from `i` on is good.
pub open spec fn first_bad_from(rs: Seq<RawRecord>, i: int) -> int
    decreases rs.len() - i,
{
    if i < 0 || i >= rs.len() {
        rs.len() as int
    } else if !record_ok(rs[i]) {
        i
    } else {
        first_bad_from(rs, i + 1)
    }
}

proof fn lemma_first_bad_skip(rs: Seq<RawRecord>, i: int)
    requires
        0 <= i <= rs.len(),
        forall|k: int| 0 <= k < i ==> record_ok(#[trigger] rs[k]),
    ensures
        first_bad_from(rs, 0) == first_bad_from(rs, i),
    decreases i,
{
    if i > 0 {
        lemma_first_bad_skip(rs, i - 1);
        assert(first_bad_from(rs, i - 1) == first_bad_from(rs, i));
    }
}

/// Where the first bad record sits: before it everything is good, and at
/// it (if any) the record is bad.
proof fn lemma_first_bad_characterizes(rs: Seq<RawRecord>, i: int)
    requires
        0 <= i <= rs.len(),
    ensures
        ({
            let b = first_bad_from(rs, i);
            &&& i <= b <= rs.len()
            &&& b < rs.len() ==> !record_ok(rs[b])
            &&& forall|k: int| i <= k < b ==> record_ok(#[trigger] rs[k])
        }),
    decreases rs.len() - i,
{
    if i < rs.len() && record_ok(rs[i]) {
        lemma_first_bad_characterizes(rs, i + 1);
    }
}

/// Records that mirror features position by position have the same first
/// bad position.
proof fn lemma_records_mirror_features(rs: Seq<RawRecord>, fs: Seq<geojson::Feature>, i: int)
    requires
        rs.len() == fs.len(),
        0 <= i <= rs.len(),
        forall|k: int| 0 <= k < rs.len() ==> record_matches_feature(#[trigger] rs[k], fs[k]),
    ensures
        first_bad_from(rs, i) == first_bad_feature_from(fs, i),
    decreases rs.len() - i,
{
    if i < rs.len() {
        assert(record_ok(rs[i]) == feature_ok(fs[i]));
        lemma_records_mirror_features(rs, fs, i + 1);
    }
}

/// Builds the registry from the reduced records, in order. Fails on the
/// first record without an identifier or without an accepted geometry —
/// and only then; nothing partial is handed out.
pub fn registry_from_records(records: Vec<RawRecord>) -> (r: Result<Vec<Timezone>, LoadError>)
    ensures
        match r {
            Ok(tzs) => {
                &&& all_ok(records@)
                &&& tzs@.len() == records@.len()
                &&& forall|i: int|
                    0 <= i < records@.len() ==> #[trigger] tzs@[i] == timezone_of(records@[i])
            },
            Err(e) => {
                &&& !all_ok(records@)
                &&& e == record_error(records@[first_bad_from(records@, 0)])
            },
        },
{
    let ghost orig = records@;
    let mut rest = records;
    let mut out: Vec<Timezone> = Vec::new();
    loop
        invariant
            orig == records@,
            rest@ =~= orig.subrange(out@.len() as int, orig.len() as int),
            out@.len() <= orig.len(),
            forall|k: int| 0 <= k < out@.len() ==> record_ok(#[trigger] orig[k]),
            forall|k: int| 0 <= k < out@.len() ==> #[trigger] out@[k] == timezone_of(orig[k]),
        decreases rest@.len(),
    {
        let ghost i = out@.len() as int;
        if rest.len() == 0 {
            assert(all_ok(orig));
            return Ok(out);
        }
        let rec = rest.remove(0);
        assert(rec == orig[i]);
        assert(rest@ =~= orig.subrange(i + 1, orig.len() as int));
        match (rec.tzid, rec.shape) {
            (Some(id), Some(shape)) => {
                out.push(Timezone { id, shape });
            },
            (tzid, shape) => {
                proof {
                    lemma_first_bad_skip(orig, i);
                    assert(!record_ok(orig[i]));
                    assert(first_bad_from(orig, i) == i);
                }
                if tzid.is_none() {
                    return Err(LoadError::MissingAttribute);
                } else {
                    return Err(LoadError::UnsupportedGeometry);
                }
            },
        }
    }
}

/// Relies on geojson's `GeoJson` parser and `FeatureCollection::try_from`:
/// decodes the text and hands back its features in dataset order; `None`
/// when the text is not a GeoJSON feature collection. The outcome depends
/// on the text alone.
#[verifier::external_body]
fn parse_feature_collection(s: &str) -> (r: Option<Vec<geojson::Feature>>)
    ensures
        match r {
            Some(fs) => geojson_features(s@) == Some(fs@),
            None => geojson_features(s@) is None,
        },
{
    match s.parse::<geojson::GeoJson>() {
        Ok(g) => match geojson::FeatureCollection::try_from(g) {
            Ok(fc) => Some(fc.features),
            Err(_) => None,
        },
        Err(_) => None,
    }
}

/// Relies on geojson's `Feature::property` and serde_json's
/// `Value::as_str`: the named property's text if it is present and a
/// string. The outcome depends on the feature and the key alone.
#[verifier::external_body]
fn feature_property_str(f: &geojson::Feature, key: &str) -> (r: Option<String>)
    ensures
        match r {
            Some(v) => feature_property(*f, key@) == Some(v@),
            None => feature_property(*f, key@) is None,
        },
{
    match f.property(key) {
        Some(v) => match v.as_str() {
            Some(s) => Some(s.to_string()),
            None => None,
        },
        None => None,
    }
}

/// Relies on geojson's conversion to `geo_types::Geometry`: the feature's
/// geometry as a multi-polygon, a single polygon wrapped into a one-member
/// multi-polygon, and `None` for an absent geometry, any other kind, or a
/// malformed one. The parser leaves positions of fewer than two numbers
/// in non-point geometries, and the conversion would panic on them, so
/// such geometries are rejected as malformed before converting. The
/// outcome depends on the feature alone.
#[verifier::external_body]
fn feature_shape(f: &geojson::Feature) -> (r: Option<Shape>)
    ensures
        match r {
            Some(sh) => feature_shape_of(*f) == Some(sh),
            None => feature_shape_of(*f) is None,
        },
{
    let geom = match &f.geometry { Some(g) => g, None => return None };
    let well_formed = match &geom.value {
        geojson::GeometryValue::Polygon { coordinates } => coordinates.iter().flatten().all(|p| p.len() >= 2),
        geojson::GeometryValue::MultiPolygon { coordinates } => coordinates.iter().flatten().flatten().all(|p| p.len() >= 2),
        _ => return None,
    };
    if !well_formed { return None }
    match TryInto::<geo_types::Geometry>::try_into(geom) {
        Ok(geo_types::Geometry::MultiPolygon(mp)) => Some(Shape { inner: mp }),
        Ok(geo_types::Geometry::Polygon(p)) => Some(Shape { inner: p.into() }),
        _ => None,
    }
}

/// Reduces each feature to its record, in order.
fn records_from_features(features: Vec<geojson::Feature>) -> (r: Vec<RawRecord>)
    ensures
        r@.len() == features@.len(),
        forall|i: int|
            0 <= i < features@.len() ==> record_matches_feature(#[trigger] r@[i], features@[i]),
{
    let ghost orig = features@;
    let mut rest = features;
    let mut out: Vec<RawRecord> = Vec::new();
    loop
        invariant
            orig == features@,
            rest@ =~= orig.subrange(out@.len() as int, orig.len() as int),
            out@.len() <= orig.len(),
            forall|k: int|
                0 <= k < out@.len() ==> record_matches_feature(#[trigger] out@[k], orig[k]),
        decreases rest@.len(),
    {
        let ghost i = out@.len() as int;
        if rest.len() == 0 {
            return out;
        }
        let f = rest.remove(0);
        assert(f == orig[i]);
        assert(rest@ =~= orig.subrange(i + 1, orig.len() as int));
        let tzid = feature_property_str(&f, "tzid");
        let shape = feature_shape(&f);
        out.push(RawRecord { tzid, shape });
    }
}

/// Reduces a GeoJSON text to its records: one per feature, in dataset
/// order. Succeeds exactly when the text parses as a feature collection.
pub fn records_from_geojson(s: &str) -> (r: Result<Vec<RawRecord>, LoadError>)
    ensures
        r is Ok <==> geojson_features(s@) is Some,
        r is Err ==> r->Err_0 == LoadError::Unparseable,
        r is Ok ==> {
            &&& r->Ok_0@.len() == geojson_features(s@)->0.len()
            &&& forall|i: int|
                0 <= i < r->Ok_0@.len() ==> record_matches_feature(
                    #[trigger] r->Ok_0@[i],
                    geojson_features(s@)->0[i],
                )
        },
{
    match parse_feature_collection(s) {
        Some(features) => Ok(records_from_features(features)),
        None => Err(LoadError::Unparseable),
    }
}

/// What successful loading of a text owes: the text parses as a feature
/// collection, every feature is good, and the registry is the features'
/// timezones in dataset order.
pub open spec fn load_succeeds_with(s: Seq<char>, tzs: Seq<Timezone>) -> bool {
    &&& geojson_features(s) is Some
    &&& all_features_ok(geojson_features(s)->0)
    &&& tzs.len() == geojson_features(s)->0.len()
    &&& forall|i: int|
        0 <= i < tzs.len() ==> timezone_matches_feature(#[trigger] tzs[i], geojson_features(s)->0[i])
}

/// What failed loading of a text owes: the text does not parse or some
/// feature is bad, and the error is `Unparseable` for the former, else
/// the first bad feature's error.
pub open spec fn load_fails_with(s: Seq<char>, e: LoadError) -> bool {
    &&& !(geojson_features(s) is Some && all_features_ok(geojson_features(s)->0))
    &&& e == (if geojson_features(s) is None {
        LoadError::Unparseable
    } else {
        feature_error(geojson_features(s)->0[first_bad_feature_from(geojson_features(s)->0, 0)])
    })
}

/// Loads the registry from a GeoJSON text: one timezone per feature, in
/// dataset order, carrying the feature's identifier and shape. Succeeds
/// exactly when the text parses as a feature collection and every feature
/// reduces to a good record; otherwise the error is `Unparseable`, or the
/// first bad feature's error.
pub fn load_timezones(s: &str) -> (r: Result<Vec<Timezone>, LoadError>)
    ensures
        match r {
            Ok(tzs) => load_succeeds_with(s@, tzs@),
            Err(e) => load_fails_with(s@, e),
        },
{
    let records = match records_from_geojson(s) {
        Ok(records) => records,
        Err(e) => {
            return Err(e);
        },
    };
    let ghost fs = geojson_features(s@)->0;
    let ghost recs = records@;
    proof {
        lemma_records_mirror_features(recs, fs, 0);
        lemma_first_bad_characterizes(recs, 0);
        assert forall|i: int| 0 <= i < recs.len() implies record_ok(#[trigger] recs[i])
            == feature_ok(fs[i]) by {
            assert(record_matches_feature(recs[i], fs[i]));
        }
    }
    match registry_from_records(records) {
        Ok(tzs) => {
            proof {
                assert forall|i: int| 0 <= i < fs.len() implies feature_ok(#[trigger] fs[i]) by {
                    assert(record_ok(recs[i]));
                }
                assert forall|i: int|
                    0 <= i < tzs@.len() implies timezone_matches_feature(
                    #[trigger] tzs@[i],
                    fs[i],
                ) by {
                    assert(record_matches_feature(recs[i], fs[i]));
                    assert(tzs@[i] == timezone_of(recs[i]));
                    assert(record_ok(recs[i]));
                }
            }
            Ok(tzs)
        },
        Err(e) => {
            proof {
                let b = first_bad_from(recs, 0);
                assert(!all_ok(recs));
                let bad = choose|k: int| 0 <= k < recs.len() && !record_ok(recs[k]);
                assert(!feature_ok(fs[bad]));
                assert(!all_features_ok(fs));
                assert(b < recs.len()) by {
                    if b == recs.len() {
                        assert(record_ok(recs[bad]));
                    }
                }
                assert(record_matches_feature(recs[b], fs[b]));
                assert(record_error(recs[b]) == feature_error(fs[b]));
            }
            Err(e)
        },
    }
}

} // verus!
