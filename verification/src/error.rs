use vstd::prelude::*;

verus! {

/// The error taxonomy of the profiling subsystem.
///
/// `SamplerUnavailable` and `AlreadyRunning` concern collector lifecycle;
/// `MissingFormat` and `InvalidFormat` are client-input errors reported by
/// the export endpoint; `EncodingFailure` is an internal failure while
/// building an output payload.
#[derive(Clone, Copy, Debug, PartialEq, Eq, Structural)]
pub enum ProfError {
    SamplerUnavailable,
    AlreadyRunning,
    MissingFormat,
    InvalidFormat,
    EncodingFailure,
}

impl ProfError {
    /// A stable human-readable diagnostic for each error.
    pub fn message(&self) -> (r: &'static str)
        ensures
            r@ == self.spec_message(),
    {
        match self {
            ProfError::SamplerUnavailable => "sampler unavailable",
            ProfError::AlreadyRunning => "profiler already running",
            ProfError::MissingFormat => "Failed to decode query param.",
            ProfError::InvalidFormat => "404 Not Found",
            ProfError::EncodingFailure => "encoding failure",
        }
    }

    pub open spec fn spec_message(&self) -> Seq<char> {
        match self {
            ProfError::SamplerUnavailable => "sampler unavailable"@,
            ProfError::AlreadyRunning => "profiler already running"@,
            ProfError::MissingFormat => "Failed to decode query param."@,
            ProfError::InvalidFormat => "404 Not Found"@,
            ProfError::EncodingFailure => "encoding failure"@,
        }
    }
}

} // verus!
