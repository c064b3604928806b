//! What holds of version, capabilities and algorithms negotiation as a whole.

use crate::algorithms;
use crate::cap_flags::{requester_mask, responder_mask, sets, CHUNK};
use crate::capabilities;
use crate::codec::{SpdmVersion, OTHER_PARAM_MULTI_KEY_CONN};
use crate::connection::{ConnectionState, ExchangeStage, PalLimits, Phase, SpdmError};
use vstd::prelude::*;

verus! {

/// A connection reaches the next phase exactly if the request and then the
/// response have entered the transcript. Until both have, it stays where it
/// was.
pub proof fn law_transcript_comes_before_phase(
    phase: Phase,
    target: Phase,
    request_appended: bool,
    response_appended: bool,
)
    requires
        phase != target,
    ensures
        ({
            let begin = ExchangeStage::AppendRequest;
            let middle = begin.after(request_appended);
            let phase_1 = begin.phase_after(request_appended, phase, target);
            let end = middle.after(response_appended);
            let phase_2 = middle.phase_after(response_appended, phase_1, target);
            &&& phase_1 == phase
            &&& phase_2 == target <==> request_appended && response_appended
            &&& end == ExchangeStage::Complete <==> phase_2 == target
            &&& phase_2 == phase || phase_2 == target
        }),
{
}

/// Capabilities are negotiated once, right after the version, and algorithms
/// once, right after the capabilities. Accepting a request does not move the
/// phase, so nothing else becomes acceptable before its exchange is complete.
pub proof fn law_negotiation_order(state: ConnectionState, pal: PalLimits, request: Seq<u8>)
    ensures
        capabilities::rejection(state, request) is None ==> {
            &&& state.phase == Phase::AfterVersion
            &&& capabilities::negotiated(state, pal, request).phase == state.phase
        },
        algorithms::rejection(state, request) is None ==> {
            &&& state.phase == Phase::AfterCapabilities
            &&& algorithms::negotiated(state, pal, request).phase == state.phase
        },
        state.phase == Phase::AfterAlgorithms || state.phase == Phase::NotStarted ==> {
            &&& capabilities::rejection(state, request) == Some(SpdmError::UnexpectedRequest)
            &&& algorithms::rejection(state, request) == Some(SpdmError::UnexpectedRequest)
        },
{
}

/// Algorithms are negotiated in the version that the capabilities request
/// picked: a request with another version byte is refused.
pub proof fn law_version_is_kept(
    state: ConnectionState,
    pal: PalLimits,
    get_capabilities: Seq<u8>,
    negotiate_algorithms: Seq<u8>,
)
    requires
        capabilities::rejection(state, get_capabilities) is None,
        negotiate_algorithms.len() >= 2,
        negotiate_algorithms[0] != get_capabilities[0],
    ensures
        ({
            let between = ConnectionState {
                phase: Phase::AfterCapabilities,
                ..capabilities::negotiated(state, pal, get_capabilities)
            };
            algorithms::rejection(between, negotiate_algorithms) == Some(SpdmError::VersionMismatch)
        }),
{
}

/// Negotiation leaves the responder's own policy as it is.
pub proof fn law_policy_is_fixed(state: ConnectionState, pal: PalLimits, request: Seq<u8>)
    ensures
        policy_of(capabilities::negotiated(state, pal, request)) == policy_of(state),
        policy_of(algorithms::negotiated(state, pal, request)) == policy_of(state),
{
}

/// `state` with everything that negotiation may set cleared.
pub open spec fn policy_of(state: ConnectionState) -> ConnectionState {
    ConnectionState {
        phase: Phase::NotStarted,
        version: SpdmVersion::V10,
        peer_data_transfer_size: 0,
        peer_max_spdm_msg_size: 0,
        peer_cap_flags: 0,
        advertised_cap_flags: 0,
        other_param_sel: 0,
        negotiated_base_asym_sel: 0,
        negotiated_base_hash_sel: 0,
        ..state
    }
}

/// Whether what a connection remembers fits the phase that it is in.
///
/// From `AfterCapabilities` on, the version is a supported one, the peer's
/// flags and sizes keep its rules, and the responder's flags are those of its
/// policy. From `AfterAlgorithms` on, what is selected is part of the policy,
/// and a multi-key connection is selected only with both sides' consent.
pub open spec fn is_consistent(state: ConnectionState) -> bool {
    let capable = state.phase == Phase::AfterCapabilities || state.phase == Phase::AfterAlgorithms;
    &&& capable ==> {
        &&& capabilities::is_supported(state.version)
        &&& state.peer_cap_flags & !requester_mask(state.version) == 0
        &&& capabilities::flags_compatible(state.version, state.peer_cap_flags)
        &&& capabilities::MIN_DATA_TRANSFER_SIZE <= state.peer_data_transfer_size
            <= state.peer_max_spdm_msg_size
        &&& !sets(state.peer_cap_flags, CHUNK) ==> state.peer_data_transfer_size
            == state.peer_max_spdm_msg_size
        &&& state.advertised_cap_flags & !state.cap_flags == 0
        &&& state.advertised_cap_flags & !responder_mask(state.version) == 0
    }
    &&& state.phase == Phase::AfterAlgorithms ==> {
        &&& state.negotiated_base_asym_sel & !state.base_asym_sel == 0
        &&& state.negotiated_base_hash_sel & !state.base_hash_sel == 0
        &&& state.other_param_sel & !state.other_param_support == 0
        &&& state.other_param_sel & OTHER_PARAM_MULTI_KEY_CONN == 0 || (state.version.from_on(
            SpdmVersion::V13,
        ) && algorithms::multi_key_allowed(state.advertised_cap_flags, state.peer_cap_flags))
    }
}

/// Capabilities negotiation leads to a consistent connection, whatever came
/// before it.
pub proof fn law_capabilities_are_consistent(
    state: ConnectionState,
    pal: PalLimits,
    request: Seq<u8>,
)
    requires
        capabilities::rejection(state, request) is None,
    ensures
        is_consistent(capabilities::negotiated(state, pal, request)),
        is_consistent(
            ConnectionState {
                phase: Phase::AfterCapabilities,
                ..capabilities::negotiated(state, pal, request)
            },
        ),
{
    let version = capabilities::selected_version(request[0])->0;
    capabilities::law_advertised_flags(state.cap_flags, version, pal.secure_message_supported);
}

/// Algorithms negotiation keeps a connection consistent, before its exchange is
/// complete and after.
pub proof fn law_algorithms_stay_consistent(
    state: ConnectionState,
    pal: PalLimits,
    request: Seq<u8>,
)
    requires
        is_consistent(state),
        algorithms::rejection(state, request) is None,
    ensures
        is_consistent(algorithms::negotiated(state, pal, request)),
        is_consistent(
            ConnectionState {
                phase: Phase::AfterAlgorithms,
                ..algorithms::negotiated(state, pal, request)
            },
        ),
{
    let fixed = algorithms::request_fixed(request);
    let peer = algorithms::PeerAlgs::of(algorithms::request_alg_structs(request));
    let secure = pal.secure_message_supported;
    algorithms::law_selection_is_common(state, fixed, peer, secure);
    if !state.version.from_on(SpdmVersion::V13) || !algorithms::multi_key_allowed(
        state.advertised_cap_flags,
        state.peer_cap_flags,
    ) {
        algorithms::law_multi_key_needs_consent(state, fixed, peer, secure);
    }
}

} // verus!
