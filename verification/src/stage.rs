//! Vocabulary shared by the pipeline's stages.

use vstd::prelude::*;

verus! {

/// The kind of input a pipeline expects when a stage is its first stage.
#[derive(Debug, Clone, Copy, PartialEq, Eq, Structural)]
pub enum PipelineInputKind {
    /// A ROS bag (`.bag` or `.mcap`).
    Rosbag,
    /// A bundle of Parquet tables and videos written by an earlier run.
    ParquetVideoBundle,
}

} // verus!
