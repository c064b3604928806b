//! Memory budgets of the SPDM responder tasks and of boot.

use crate::cert_store::CERT_STORE_BOOT_SCRATCH_SIZE;
use vstd::prelude::*;

verus! {

/// Largest single SPDM message, request or response, that the responder
/// supports. It is advertised as `MaxSPDMmsgSize`, so each responder's pool
/// must be able to satisfy it.
pub const MAX_SPDM_MSG_SIZE: usize = 8 * 1024;

/// Upper bound on the MTU of a transport.
pub const MAX_TRANSPORT_MTU: usize = 1024;

/// State that outlives a request once a secure session is up: the session
/// itself and its transcript hashes.
pub const SESSION_WORKING_SET: usize = 2560;

/// Peak of the transient mailbox, DPE and SHA workspaces.
pub const TRANSIENT_MAILBOX_PEAK: usize = 2560;

/// Peak while a large response is built: the large buffer and an inline
/// response beside it.
pub const LARGE_MSG_PATH_PEAK: usize = MAX_SPDM_MSG_SIZE + MAX_TRANSPORT_MTU;

/// Peak on the certificate and secure-session path: the mailbox workspaces,
/// and staging for a plaintext and a ciphertext.
pub const CRYPTO_PATH_PEAK: usize = TRANSIENT_MAILBOX_PEAK + 2 * MAX_TRANSPORT_MTU;

/// Pool of the MCTP responder.
pub const MCTP_SPDM_SCRATCH_SIZE: usize = 12 * 1024;

/// Pool of the DOE responder.
pub const DOE_SPDM_SCRATCH_SIZE: usize = 12 * 1024;

/// The heap.
pub const HEAP_SIZE: usize = 10 * 1024;

/// Temporary pool for measurements during boot.
pub const MEASUREMENT_BOOT_SCRATCH_SIZE: usize = 4 * 1024;

/// What the heap needs beside a pool, for its own data and for alignment.
pub const HEAP_OVERHEAD: usize = 1024;

/// The smallest pool that satisfies [`MAX_SPDM_MSG_SIZE`].
///
/// A request either builds a large response or takes the crypto path, never
/// both, so the larger of the two peaks comes on top of the state that stays.
pub fn required_scratch() -> (r: usize)
    ensures
        r == SESSION_WORKING_SET + if LARGE_MSG_PATH_PEAK > CRYPTO_PATH_PEAK {
            LARGE_MSG_PATH_PEAK
        } else {
            CRYPTO_PATH_PEAK
        },
        r <= MCTP_SPDM_SCRATCH_SIZE,
        r <= DOE_SPDM_SCRATCH_SIZE,
{
    let transient_peak: usize = if LARGE_MSG_PATH_PEAK > CRYPTO_PATH_PEAK {
        LARGE_MSG_PATH_PEAK
    } else {
        CRYPTO_PATH_PEAK
    };
    SESSION_WORKING_SET + transient_peak
}

/// Whether the advertised message size covers the largest response that can be
/// produced and the largest request that must be accepted.
pub fn message_size_covers(largest_response: usize, largest_request: usize) -> (r: bool)
    ensures
        r <==> largest_response <= MAX_SPDM_MSG_SIZE && largest_request <= MAX_SPDM_MSG_SIZE,
{
    MAX_SPDM_MSG_SIZE >= largest_response && MAX_SPDM_MSG_SIZE >= largest_request
}

/// On each responder's pool either path fits beside the state that stays, with
/// a message of the advertised size in flight.
pub proof fn law_pools_suffice(pool: usize, message: usize, inline: usize)
    requires
        pool == MCTP_SPDM_SCRATCH_SIZE || pool == DOE_SPDM_SCRATCH_SIZE,
        message <= MAX_SPDM_MSG_SIZE,
        inline <= MAX_TRANSPORT_MTU,
    ensures
        SESSION_WORKING_SET + message + inline <= pool,
        SESSION_WORKING_SET + TRANSIENT_MAILBOX_PEAK + 2 * inline <= pool,
{
}

/// Boot has at most one temporary pool at a time, and the heap holds any of
/// them beside its overhead.
pub proof fn law_heap_holds_boot_pools(pool: usize)
    requires
        pool == MEASUREMENT_BOOT_SCRATCH_SIZE || pool == CERT_STORE_BOOT_SCRATCH_SIZE,
    ensures
        pool + HEAP_OVERHEAD <= HEAP_SIZE,
        HEAP_SIZE == CERT_STORE_BOOT_SCRATCH_SIZE + HEAP_OVERHEAD,
{
}

} // verus!
