//! Resume decision engine: given what was found at the target path and the
//! identity of the requested transfer, decides whether to adopt the stored
//! state, rebuild from scratch, or refuse.

use vstd::prelude::*;
use crate::bytes::{bytes_eq, clone_bytes};
use crate::error::HydraError;
use crate::hashing::{sha256, sha256_of};
use crate::header::{chunk_count_spec, header_eq, PersistedHeader};
use crate::MAX_CHUNK_COUNT;

verus! {

/// The identity of a requested transfer: SHA-256 digests of the remote URL
/// and of its ETag (or of the ETag's sentinel substitute).
pub struct TransferIdentity {
    /// 32-byte digest of the URL.
    pub url_hash: Vec<u8>,
    /// 32-byte digest of the ETag.
    pub etag_hash: Vec<u8>,
}

impl TransferIdentity {
    /// Both digests are 32 bytes.
    pub open spec fn wf(self) -> bool {
        self.url_hash@.len() == 32 && self.etag_hash@.len() == 32
    }

    /// Digests the request's URL and ETag.
    pub fn from_request(url: &[u8], etag: &[u8]) -> (r: Self)
        ensures
            r.wf(),
            r.url_hash@ == sha256_of(url@),
            r.etag_hash@ == sha256_of(etag@),
    {
        TransferIdentity { url_hash: sha256(url), etag_hash: sha256(etag) }
    }
}

/// A stored header is adopted exactly when its URL digest and file size
/// both match the current request. The stored ETag digest is not consulted;
/// neither is the requested chunk size, since the stored geometry governs a
/// resumed transfer.
pub open spec fn identity_matches(h: PersistedHeader, file_size: u64, id: TransferIdentity) -> bool {
    h.url_hash@ == id.url_hash@ && h.file_size == file_size
}

/// What the caller must do with the working file.
pub enum ResumePlan {
    /// Keep the existing file; its stored header (with its stored chunk
    /// geometry and bitmap) governs the transfer.
    Adopt(PersistedHeader),
    /// Remove any existing file, allocate a fresh working file of
    /// `HEADER_SIZE + file_size` bytes, and persist this fresh header
    /// before fetching.
    CreateFresh(PersistedHeader),
}

/// The fresh-creation outcome for the current request: a fresh well-formed
/// header with every bit clear, or `CapacityExceeded` exactly when the
/// derived chunk count overflows the header budget.
pub open spec fn fresh_outcome(
    r: Result<ResumePlan, HydraError>,
    file_size: u64,
    id: TransferIdentity,
    chunk_size: u32,
) -> bool {
    match r {
        Ok(ResumePlan::CreateFresh(h)) => {
            &&& chunk_count_spec(file_size, chunk_size) <= MAX_CHUNK_COUNT
            &&& h.wf()
            &&& h.file_size == file_size
            &&& h.etag_hash@ == id.etag_hash@
            &&& h.url_hash@ == id.url_hash@
            &&& h.chunk_size == chunk_size
            &&& forall|i: int| 0 <= i < h.chunk_count ==> !h.bitmap.bit(i)
        },
        Ok(ResumePlan::Adopt(_)) => false,
        Err(e) => {
            &&& e == HydraError::CapacityExceeded
            &&& chunk_count_spec(file_size, chunk_size) > MAX_CHUNK_COUNT
        },
    }
}

/// Decides how to start the transfer. `existing` reports what was found at
/// the target path: `None` when no file exists, `Some(Ok(h))` when a header
/// decoded, `Some(Err(e))` with the decode error otherwise.
///
/// First match wins:
/// 1. force-restart: rebuild from scratch.
/// 2. no file: fail with `NothingToResume` under resume-only, else rebuild.
/// 3. header decodes and matches the request: adopt it verbatim.
/// 4. header decodes but mismatches: fail with `IdentityMismatch` under
///    resume-only, else rebuild.
/// 5. header fails to decode: fail with the decode error under resume-only,
///    else rebuild.
pub fn plan_resume(
    existing: Option<Result<PersistedHeader, HydraError>>,
    file_size: u64,
    identity: &TransferIdentity,
    chunk_size: u32,
    force_new: bool,
    resume_only: bool,
) -> (r: Result<ResumePlan, HydraError>)
    requires
        identity.wf(),
        chunk_size >= 1,
        !(force_new && resume_only),
        existing matches Some(Ok(h)) ==> h.wf(),
    ensures
        force_new ==> fresh_outcome(r, file_size, *identity, chunk_size),
        !force_new && existing is None && resume_only ==> r == Err::<
            ResumePlan,
            HydraError,
        >(HydraError::NothingToResume),
        !force_new && existing is None && !resume_only ==> fresh_outcome(
            r,
            file_size,
            *identity,
            chunk_size,
        ),
        existing matches Some(Ok(h)) ==> (force_new || (if identity_matches(
            h,
            file_size,
            *identity,
        ) {
            r matches Ok(ResumePlan::Adopt(a)) && header_eq(a, h)
        } else if resume_only {
            r == Err::<ResumePlan, HydraError>(HydraError::IdentityMismatch)
        } else {
            fresh_outcome(r, file_size, *identity, chunk_size)
        })),
        existing matches Some(Err(e)) ==> (force_new || (if resume_only {
            r == Err::<ResumePlan, HydraError>(e)
        } else {
            fresh_outcome(r, file_size, *identity, chunk_size)
        })),
{
    if force_new {
        return create_fresh(file_size, identity, chunk_size);
    }
    match existing {
        None => {
            if resume_only {
                Err(HydraError::NothingToResume)
            } else {
                create_fresh(file_size, identity, chunk_size)
            }
        },
        Some(Ok(h)) => {
            let url_matches = bytes_eq(h.url_hash.as_slice(), identity.url_hash.as_slice());
            let size_matches = h.file_size == file_size;
            if url_matches && size_matches {
                Ok(ResumePlan::Adopt(h))
            } else if resume_only {
                Err(HydraError::IdentityMismatch)
            } else {
                create_fresh(file_size, identity, chunk_size)
            }
        },
        Some(Err(e)) => {
            if resume_only {
                Err(e)
            } else {
                create_fresh(file_size, identity, chunk_size)
            }
        },
    }
}

/// Builds the fresh-header plan for the current request.
fn create_fresh(file_size: u64, identity: &TransferIdentity, chunk_size: u32) -> (r: Result<
    ResumePlan,
    HydraError,
>)
    requires
        identity.wf(),
        chunk_size >= 1,
    ensures
        fresh_outcome(r, file_size, *identity, chunk_size),
{
    let etag_hash = clone_bytes(&identity.etag_hash);
    let url_hash = clone_bytes(&identity.url_hash);
    match PersistedHeader::new(file_size, etag_hash, url_hash, chunk_size) {
        Ok(h) => Ok(ResumePlan::CreateFresh(h)),
        Err(e) => Err(e),
    }
}

} // verus!
