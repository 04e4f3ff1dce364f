//! Read CPU statistics from a line-oriented kernel statistics feed.
//!
//! The library parses counter lines of the feed into [`CoreStats`] records,
//! differences successive records into [`CoreSnapshot`] values, and derives an
//! idle percentage for each snapshot.  Reading the feed itself and taking wall
//! clock timestamps are left to the embedding application, which hands plain
//! lines and millisecond timestamps to [`CPUStatsContext`].

pub mod context;
pub mod decimal;
pub mod record;
pub mod snapshot;
pub mod tokens;

pub use context::CPUStatsContext;
pub use decimal::parse_u64;
pub use decimal::render_u64;
pub use record::CoreStats;
pub use snapshot::CoreSnapshot;
