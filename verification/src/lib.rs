//! In-memory registry for a live-charting service.
//!
//! Charts are indexed by numeric identifier and evicted once they have been
//! idle for longer than their configured timeout. Each chart owns a set of
//! labeled lines; incoming samples are retained according to the chart's
//! retention policy (unbounded accumulation or a bounded sliding window).
//! Snapshots of a chart's lines and metadata are produced as JSON text.
//!
//! Sample values and axis bounds are carried as their JSON number texts, so
//! the registry itself stays free of floating-point arithmetic; callers parse
//! and format numeric values at the boundary.

pub mod chart;
pub mod error;
pub mod registry;
pub mod snapshot;
pub mod text;
