use vstd::prelude::*;

pub mod amap;
pub mod cmap;
pub mod matrix;
pub mod metrics;
pub mod table;
pub mod text;
pub mod vector;

pub use amap::AmapMetric;
pub use cmap::CmapMetric;
pub use matrix::{assemble, multiply, plan_tasks, run_task, worker_index};
pub use matrix::{Matrix, MsgInput, MsgOutput};
pub use metrics::Metrics;
pub use vector::{dot_product, Vector};

verus! {

/// Everything that can go wrong while multiplying matrices.
///
/// `DimensionMismatch` is raised by the dispatcher before any work is done,
/// and `LengthMismatch` by the dot-product primitive; both carry the offending
/// sizes so that a caller can report them. The remaining two variants are
/// raised during fan-in when the collected task results cannot rebuild the
/// output: no silent partial result is ever returned.
#[derive(Debug, PartialEq, Eq, Structural, Clone, Copy)]
pub enum MatrixError {
    DimensionMismatch { a_rows: usize, a_cols: usize, b_rows: usize, b_cols: usize },
    LengthMismatch { len_a: usize, len_b: usize },
    IncompleteResults { expected: usize, found: usize },
    MisplacedResult { expected: usize, found: usize },
}

/// A metrics operation addressed a counter that does not exist.
#[derive(Debug)]
pub enum MetricsError {
    KeyNotFound { key: String },
}

} // verus!
