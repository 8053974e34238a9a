use vstd::prelude::*;

verus! {

/// The caller-visible error conditions of the registry.
///
/// All three are recoverable: they report that an operation addressed a
/// label, a chart id, or a fresh id that the current registry state does not
/// admit.
#[derive(Clone, Copy, Debug, PartialEq, Eq, Structural)]
pub enum Error {
    /// Sample insertion addressed a label not registered on the chart.
    InvalidLineLabelError,
    /// An operation addressed a chart id that is absent or evicted.
    InvalidChartNumberError,
    /// Chart creation addressed an id already occupied by a live chart.
    AlreadyExistIndexError,
}

} // verus!
