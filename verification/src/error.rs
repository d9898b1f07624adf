use vstd::prelude::*;

verus! {

/// Error taxonomy of the pipeline. Decode and geometry problems are caught
/// before any inference call; a cache miss is reported with an actionable
/// message; a collaborator failure is surfaced by the host unchanged.
/// Reconciliation drift is not an error: it is always repaired locally.
#[derive(Debug, Clone, Copy, PartialEq, Eq, Structural)]
pub enum CommandError {
    /// Malformed tensor shape from the detection collaborator: wrong rank,
    /// fewer than seven columns, or a data length that does not match the
    /// shape. Fatal for the current detection call; never retried.
    Decode,
    /// A degenerate rectangle: zero or negative area after padding and
    /// clamping, or a mask crop that collapsed to zero width or height.
    /// Reported per region; the caller skips the region, not the batch.
    Geometry,
    /// A region call was issued before the cache was primed.
    CacheMiss,
    /// The inference collaborator itself failed; the host propagates its
    /// own message alongside this marker.
    Collaborator,
}

impl CommandError {
    /// A human-readable description of the error.
    pub fn message(&self) -> (r: &'static str)
        ensures r@ =~= self.message_spec(),
    {
        match self {
            CommandError::Decode => "malformed detector output tensor",
            CommandError::Geometry => "degenerate rectangle after clamping",
            CommandError::CacheMiss => "no cached page: prime the cache before region calls",
            CommandError::Collaborator => "inference collaborator failed",
        }
    }

    pub open spec fn message_spec(self) -> Seq<char> {
        match self {
            CommandError::Decode => "malformed detector output tensor"@,
            CommandError::Geometry => "degenerate rectangle after clamping"@,
            CommandError::CacheMiss => "no cached page: prime the cache before region calls"@,
            CommandError::Collaborator => "inference collaborator failed"@,
        }
    }
}

} // verus!
