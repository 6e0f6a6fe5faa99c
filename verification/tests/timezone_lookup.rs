use timezonefinder::BucketedTimezoneFinder;
use timezonefinder::LoadError;
use timezonefinder::RawRecord;
use timezonefinder::SimpleTimezoneFinder;
use timezonefinder::TimezoneFinder;
use timezonefinder::loader::records_from_geojson;
use timezonefinder::loader::registry_from_records;

fn nanos(deg: f64) -> i64 {
    (deg * 1e9).round() as i64
}

fn rect_feature(tzid: &str, min_lon: f64, min_lat: f64, max_lon: f64, max_lat: f64) -> String {
    format!(
        r#"{{"type":"Feature","properties":{{"tzid":"{}"}},"geometry":{{"type":"Polygon","coordinates":[[[{},{}],[{},{}],[{},{}],[{},{}],[{},{}]]]}}}}"#,
        tzid,
        min_lon, min_lat,
        max_lon, min_lat,
        max_lon, max_lat,
        min_lon, max_lat,
        min_lon, min_lat,
    )
}

fn collection(features: &[String]) -> String {
    format!(
        r#"{{"type":"FeatureCollection","features":[{}]}}"#,
        features.join(",")
    )
}

struct Input {
    location: String,
    lon: f64,
    lat: f64,
    tz: String,
}

fn inputs() -> Vec<Input> {
    vec![
        Input {
            location: "New York".into(),
            lon: -74.0060,
            lat: 40.7128,
            tz: "America/New_York".into(),
        },
        Input {
            location: "Rio de Janerio".to_string(),
            lon: -43.1729,
            lat: -22.9068,
            tz: "America/Sao_Paulo".to_string(),
        },
        Input {
            location: "Beijing".into(),
            lon: 116.4074,
            lat: 39.9042,
            tz: "Asia/Shanghai".into(),
        },
        Input {
            location: "Sidney".to_string(),
            lon: 151.2093,
            lat: -33.8688,
            tz: "Australia/Sydney".to_string(),
        },
        Input {
            // A timezone with a very small bounding box that shows up in
            // only one grid cell.
            location: "Gaza".to_string(),
            lon: 34.28092229445389,
            lat: 31.665431986413495,
            tz: "Asia/Gaza".to_string(),
        },
    ]
}

/// A small stand-in dataset: one rectangle around each fixture city,
/// carrying the city's timezone identifier. The Gaza rectangle is smaller
/// than one grid cell.
fn fixture_dataset() -> String {
    collection(&[
        rect_feature("America/New_York", -75.5, 40.0, -73.0, 41.5),
        rect_feature("America/Sao_Paulo", -44.5, -23.8, -42.0, -22.0),
        rect_feature("Asia/Shanghai", 115.0, 39.0, 117.5, 41.0),
        rect_feature("Australia/Sydney", 150.0, -34.5, 152.0, -33.0),
        rect_feature("Asia/Gaza", 34.2, 31.6, 34.4, 31.9),
    ])
}

#[test]
fn simple_tz() {
    let tz = SimpleTimezoneFinder::from_geojson(&fixture_dataset()).unwrap();

    for item in inputs() {
        assert_eq!(
            tz.find(nanos(item.lon), nanos(item.lat)),
            Some(item.tz),
            "wrong time zone for {}",
            item.location
        );
    }
}

#[test]
fn bucketed_tz() {
    let tz = BucketedTimezoneFinder::from_geojson(&fixture_dataset()).unwrap();

    for item in inputs() {
        assert_eq!(
            tz.find(nanos(item.lon), nanos(item.lat)),
            Some(item.tz),
            "wrong time zone for {}",
            item.location
        );
    }
}

#[test]
fn no_match_over_open_ocean() {
    let data = fixture_dataset();
    let simple = SimpleTimezoneFinder::from_geojson(&data).unwrap();
    let bucketed = BucketedTimezoneFinder::from_geojson(&data).unwrap();
    // South Pacific, far from any fixture rectangle.
    let lon = nanos(-120.0);
    let lat = nanos(-55.0);
    assert_eq!(simple.find(lon, lat), None);
    assert_eq!(bucketed.find(lon, lat), None);
}

#[test]
fn repeated_calls_agree() {
    let data = fixture_dataset();
    let simple = SimpleTimezoneFinder::from_geojson(&data).unwrap();
    let bucketed = BucketedTimezoneFinder::from_geojson(&data).unwrap();
    let lon = nanos(116.4074);
    let lat = nanos(39.9042);
    assert_eq!(simple.find(lon, lat), simple.find(lon, lat));
    assert_eq!(bucketed.find(lon, lat), bucketed.find(lon, lat));
}

#[test]
fn first_in_registry_order_wins_on_overlap() {
    let data = collection(&[
        rect_feature("First/Zone", 0.0, 0.0, 10.0, 10.0),
        rect_feature("Second/Zone", 5.0, 5.0, 15.0, 15.0),
    ]);
    let simple = SimpleTimezoneFinder::from_geojson(&data).unwrap();
    let bucketed = BucketedTimezoneFinder::from_geojson(&data).unwrap();
    // Inside the overlap of both rectangles.
    let lon = nanos(7.0);
    let lat = nanos(7.0);
    assert_eq!(simple.find(lon, lat), Some("First/Zone".to_string()));
    assert_eq!(bucketed.find(lon, lat), Some("First/Zone".to_string()));
    // Inside only the second rectangle.
    let lon = nanos(12.0);
    let lat = nanos(12.0);
    assert_eq!(simple.find(lon, lat), Some("Second/Zone".to_string()));
    assert_eq!(bucketed.find(lon, lat), Some("Second/Zone".to_string()));
}

#[test]
fn bucket_addressing_at_boundaries() {
    // The closed upper boundary maps into the last cell of each axis.
    assert_eq!(
        BucketedTimezoneFinder::bucket(180_000_000_000, 90_000_000_000),
        (360, 180)
    );
    assert_eq!(
        BucketedTimezoneFinder::bucket(-180_000_000_000, -90_000_000_000),
        (0, 0)
    );
    assert_eq!(BucketedTimezoneFinder::bucket(0, 0), (180, 90));
    // A coordinate on an integer degree edge goes into the cell above it.
    assert_eq!(
        BucketedTimezoneFinder::bucket(nanos(5.0), nanos(-5.0)),
        (185, 85)
    );
    // Out-of-range input is clamped into the boundary cells.
    assert_eq!(
        BucketedTimezoneFinder::bucket(nanos(200.0), nanos(-100.0)),
        (360, 0)
    );
}

#[test]
fn cell_edge_queries_agree() {
    let data = fixture_dataset();
    let simple = SimpleTimezoneFinder::from_geojson(&data).unwrap();
    let bucketed = BucketedTimezoneFinder::from_geojson(&data).unwrap();
    let probes: Vec<(f64, f64)> = vec![
        (-74.0, 40.7128),
        (-74.0, 41.0),
        (116.0, 40.0),
        (34.0, 31.665431986),
        (34.280922294, 32.0),
        (-180.0, 0.0),
        (180.0, 0.0),
        (0.0, -90.0),
        (0.0, 90.0),
        (180.0, 90.0),
        (-180.0, -90.0),
    ];
    for (lon_deg, lat_deg) in probes {
        let lon = nanos(lon_deg);
        let lat = nanos(lat_deg);
        assert_eq!(
            simple.find(lon, lat),
            bucketed.find(lon, lat),
            "scanners disagree at ({}, {})",
            lon_deg,
            lat_deg
        );
    }
}

#[test]
fn missing_tzid_fails_loading() {
    let no_props = r#"{"type":"Feature","properties":{},"geometry":{"type":"Polygon","coordinates":[[[0,0],[1,0],[1,1],[0,1],[0,0]]]}}"#.to_string();
    let data = collection(&[rect_feature("Good/Zone", 20.0, 20.0, 30.0, 30.0), no_props]);
    assert_eq!(
        SimpleTimezoneFinder::from_geojson(&data).err(),
        Some(LoadError::MissingAttribute)
    );
    assert_eq!(
        BucketedTimezoneFinder::from_geojson(&data).err(),
        Some(LoadError::MissingAttribute)
    );
}

#[test]
fn non_string_tzid_fails_loading() {
    let numeric = r#"{"type":"Feature","properties":{"tzid":7},"geometry":{"type":"Polygon","coordinates":[[[0,0],[1,0],[1,1],[0,1],[0,0]]]}}"#.to_string();
    let data = collection(&[numeric]);
    assert_eq!(
        SimpleTimezoneFinder::from_geojson(&data).err(),
        Some(LoadError::MissingAttribute)
    );
}

#[test]
fn unsupported_geometry_fails_loading() {
    let point = r#"{"type":"Feature","properties":{"tzid":"Point/Zone"},"geometry":{"type":"Point","coordinates":[3,4]}}"#.to_string();
    let data = collection(&[point]);
    assert_eq!(
        SimpleTimezoneFinder::from_geojson(&data).err(),
        Some(LoadError::UnsupportedGeometry)
    );
    assert_eq!(
        BucketedTimezoneFinder::from_geojson(&data).err(),
        Some(LoadError::UnsupportedGeometry)
    );
}

#[test]
fn short_position_fails_loading_without_panic() {
    // The GeoJSON parser accepts polygon positions of fewer than two
    // numbers; such a geometry must be rejected as unsupported, not
    // crash the loader.
    let short = r#"{"type":"Feature","properties":{"tzid":"Short/Zone"},"geometry":{"type":"Polygon","coordinates":[[[0],[1],[2]]]}}"#.to_string();
    let data = collection(&[short]);
    assert_eq!(
        SimpleTimezoneFinder::from_geojson(&data).err(),
        Some(LoadError::UnsupportedGeometry)
    );
    assert_eq!(
        BucketedTimezoneFinder::from_geojson(&data).err(),
        Some(LoadError::UnsupportedGeometry)
    );
    let short_multi = r#"{"type":"Feature","properties":{"tzid":"Short/Zone"},"geometry":{"type":"MultiPolygon","coordinates":[[[[0,0],[1],[0,1],[0,0]]]]}}"#.to_string();
    let data = collection(&[short_multi]);
    assert_eq!(
        SimpleTimezoneFinder::from_geojson(&data).err(),
        Some(LoadError::UnsupportedGeometry)
    );
}

#[test]
fn absent_geometry_fails_loading() {
    let bare = r#"{"type":"Feature","properties":{"tzid":"Bare/Zone"},"geometry":null}"#.to_string();
    let data = collection(&[bare]);
    assert_eq!(
        SimpleTimezoneFinder::from_geojson(&data).err(),
        Some(LoadError::UnsupportedGeometry)
    );
}

#[test]
fn unparseable_text_fails_loading() {
    assert_eq!(
        SimpleTimezoneFinder::from_geojson("not geojson at all").err(),
        Some(LoadError::Unparseable)
    );
    // Valid GeoJSON, but not a feature collection.
    assert_eq!(
        BucketedTimezoneFinder::from_geojson(r#"{"type":"Point","coordinates":[1,2]}"#).err(),
        Some(LoadError::Unparseable)
    );
}

#[test]
fn first_bad_record_decides_the_error() {
    let records = vec![
        RawRecord {
            tzid: Some("Has/Id".to_string()),
            shape: None,
        },
        RawRecord {
            tzid: None,
            shape: None,
        },
    ];
    assert_eq!(
        registry_from_records(records).err(),
        Some(LoadError::UnsupportedGeometry)
    );
    let records = vec![
        RawRecord {
            tzid: None,
            shape: None,
        },
        RawRecord {
            tzid: Some("Has/Id".to_string()),
            shape: None,
        },
    ];
    assert_eq!(
        registry_from_records(records).err(),
        Some(LoadError::MissingAttribute)
    );
}

#[test]
fn bad_record_means_no_finder() {
    let records = vec![RawRecord {
        tzid: None,
        shape: None,
    }];
    assert_eq!(
        SimpleTimezoneFinder::from_records(records).err(),
        Some(LoadError::MissingAttribute)
    );
    let records = vec![RawRecord {
        tzid: None,
        shape: None,
    }];
    assert_eq!(
        BucketedTimezoneFinder::from_records(records).err(),
        Some(LoadError::MissingAttribute)
    );
}

#[test]
fn finder_from_records_answers_queries() {
    let data = collection(&[rect_feature("Zone/R", -10.0, -10.0, 10.0, 10.0)]);
    let records = records_from_geojson(&data).unwrap();
    let finder = BucketedTimezoneFinder::from_records(records).unwrap();
    assert_eq!(finder.find(0, 0), Some("Zone/R".to_string()));
    assert_eq!(finder.find(nanos(50.0), nanos(50.0)), None);
}

#[test]
fn records_round_trip_into_registry() {
    let data = collection(&[
        rect_feature("Zone/A", 0.0, 0.0, 1.0, 1.0),
        rect_feature("Zone/B", 2.0, 2.0, 3.0, 3.0),
    ]);
    let records = records_from_geojson(&data).unwrap();
    assert_eq!(records.len(), 2);
    assert_eq!(records[0].tzid.as_deref(), Some("Zone/A"));
    assert_eq!(records[1].tzid.as_deref(), Some("Zone/B"));
    let registry = registry_from_records(records).unwrap();
    assert_eq!(registry.len(), 2);
    assert_eq!(registry[0].id, "Zone/A");
    assert_eq!(registry[1].id, "Zone/B");
}

#[test]
fn multipolygon_and_empty_shapes_load() {
    // One timezone made of two disjoint rectangles sharing an id, and one
    // with no polygons at all, which can contain nothing.
    let multi = format!(
        r#"{{"type":"Feature","properties":{{"tzid":"Split/Zone"}},"geometry":{{"type":"MultiPolygon","coordinates":[[[[0,0],[1,0],[1,1],[0,1],[0,0]]],[[[4,4],[5,4],[5,5],[4,5],[4,4]]]]}}}}"#
    );
    let empty = r#"{"type":"Feature","properties":{"tzid":"Empty/Zone"},"geometry":{"type":"MultiPolygon","coordinates":[]}}"#.to_string();
    let data = collection(&[empty, multi]);
    let simple = SimpleTimezoneFinder::from_geojson(&data).unwrap();
    let bucketed = BucketedTimezoneFinder::from_geojson(&data).unwrap();
    for (lon_deg, lat_deg) in [(0.5, 0.5), (4.5, 4.5)] {
        let lon = nanos(lon_deg);
        let lat = nanos(lat_deg);
        assert_eq!(simple.find(lon, lat), Some("Split/Zone".to_string()));
        assert_eq!(bucketed.find(lon, lat), Some("Split/Zone".to_string()));
    }
    assert_eq!(simple.find(nanos(2.5), nanos(2.5)), None);
    assert_eq!(bucketed.find(nanos(2.5), nanos(2.5)), None);
}

#[test]
fn fuzz_bucketed() {
    // The equivalence harness, bounded: pseudo-random coordinates over the
    // whole valid range, the bucketed scanner checked against the
    // reference scan.
    let data = collection(&[
        rect_feature("Zone/A", -170.5, -80.5, -100.0, -20.0),
        rect_feature("Zone/B", -120.0, -40.0, -60.25, 30.75),
        rect_feature("Zone/C", -1.0, -1.0, 1.0, 1.0),
        rect_feature("Zone/D", 0.0, -89.0, 179.0, 0.0),
        rect_feature("Zone/A", 100.0, 50.0, 170.0, 89.5),
        rect_feature("Zone/E", 34.2, 31.6, 34.4, 31.9),
        rect_feature("Zone/F", -180.0, -90.0, 180.0, -85.0),
    ]);
    let simple = SimpleTimezoneFinder::from_geojson(&data).unwrap();
    let bucketed = BucketedTimezoneFinder::from_geojson(&data).unwrap();

    // A 64-bit linear congruential generator; fixed seed, deterministic run.
    let mut state: u64 = 0x2545F4914F6CDD1D;
    let mut next = move || {
        state = state
            .wrapping_mul(6364136223846793005)
            .wrapping_add(1442695040888963407);
        state
    };
    let mut i: i64 = 0;
    while i < 1000 {
        let lon = (next() % 360_000_000_001) as i64 - 180_000_000_000;
        let lat = (next() % 180_000_000_001) as i64 - 90_000_000_000;
        assert_eq!(
            simple.find(lon, lat),
            bucketed.find(lon, lat),
            "wrong time zone for ({}, {}) ({} tests complete)",
            lon,
            lat,
            i
        );
        i += 1;
    }
    println!("executed {} fuzz tests", i);
}
