use vstd::prelude::*;

verus! {

/// The fatal error kinds of the pipeline. None of them is recovered
/// locally: each aborts the current run and is surfaced to the caller.
#[derive(Clone, Copy, Debug, PartialEq, Eq, Structural)]
pub enum TrainError {
    /// A required artifact (configuration or parameter snapshot) is absent:
    /// training must run before inference.
    PreconditionMissing,
    /// An artifact exists but does not decode, or a decoded snapshot does
    /// not structurally match the architecture implied by the configuration.
    /// Metric computation over an empty sample is of the same class.
    ArtifactCorrupt,
    /// A batch mixes items of inconsistent dimensions.
    ShapeMismatch,
    /// Writing the configuration or the parameter snapshot failed.
    PersistenceFailure,
}

} // verus!
