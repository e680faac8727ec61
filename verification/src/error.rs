//! Error taxonomy of the downloader core.

use vstd::prelude::*;

verus! {

/// Why a persisted header failed to decode.
#[derive(Clone, Copy, Debug, PartialEq, Eq, Structural)]
pub enum FormatError {
    /// The magic tag at the start of the region is not the expected one.
    BadMagic,
    /// The format version byte differs from `FORMAT_VERSION`.
    BadVersion,
    /// The region is too short to hold the fixed fields and the bitmap.
    Truncated,
    /// The stored chunk geometry is inconsistent: zero chunk size, a chunk
    /// count that does not equal `ceil(fileSize / chunkSize)`, or a bitmap
    /// that would overflow the header budget.
    BadGeometry,
}

/// Failures surfaced by the downloader core.
#[derive(Clone, Copy, Debug, PartialEq, Eq, Structural)]
pub enum HydraError {
    /// The header region could not be decoded.
    Format(FormatError),
    /// A stored identity disagrees with the requested transfer while
    /// resume-only is set.
    IdentityMismatch,
    /// No partial file exists while resume-only is set.
    NothingToResume,
    /// The server cannot serve partial content and no override was given.
    RangeUnsupported,
    /// Every retry attempt for a chunk failed.
    ChunkFetchExhausted,
    /// A disk seek, write or truncate failed.
    IoFailure,
    /// The header budget cannot hold the bitmap for the requested geometry.
    CapacityExceeded,
    /// Finalization was requested while some chunk bit is still unset.
    NotComplete,
}

impl HydraError {
    /// A short human-readable description, for callers that print errors.
    pub fn describe(&self) -> (r: &'static str) {
        match self {
            HydraError::Format(FormatError::BadMagic) => "not a valid hydra download file",
            HydraError::Format(FormatError::BadVersion) => "incompatible format version",
            HydraError::Format(FormatError::Truncated) => "truncated resume header",
            HydraError::Format(FormatError::BadGeometry) => "corrupt chunk geometry in resume header",
            HydraError::IdentityMismatch => {
                "existing file is not compatible and resume_only option is active"
            },
            HydraError::NothingToResume => "file not found and resume_only option is active",
            HydraError::RangeUnsupported => "server does not support Range requests",
            HydraError::ChunkFetchExhausted => "all retry attempts for a chunk failed",
            HydraError::IoFailure => "disk I/O failure",
            HydraError::CapacityExceeded => "header budget cannot hold the chunk bitmap",
            HydraError::NotComplete => "download is not complete",
        }
    }
}

} // verus!
