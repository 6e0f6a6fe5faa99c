//! A point-in-timezone lookup library.
//!
//! A dataset of timezone boundary polygons, each tagged with an IANA timezone
//! identifier, is loaded into an ordered registry. Two interchangeable
//! scanners answer "which timezone contains this coordinate?": a linear
//! reference scan over the whole registry, and a grid-accelerated scan that
//! partitions the world into one-degree cells and only tests the candidates
//! of the query point's cell. The central contract is that both scanners
//! return the same answer for every coordinate.
//!
//! Coordinates are carried as plain integers in nanodegrees (one degree is
//! `NANOS_PER_DEGREE` units), so the grid arithmetic is exact. The geometric
//! containment predicate and bounding-box extraction are supplied by the
//! `geo` crate; dataset decoding by the `geojson` crate.

pub mod cells;
pub mod shapes;
pub mod loader;
pub mod finder;

pub use finder::BucketedTimezoneFinder;
pub use finder::SimpleTimezoneFinder;
pub use finder::TimezoneFinder;
pub use loader::LoadError;
pub use loader::RawRecord;
pub use loader::Timezone;
