//! `GET_CAPABILITIES` and `CAPABILITIES`.
//!
//! A request is accepted only right after version negotiation. It fixes the
//! version of the connection, hands over the requester's limits and flags, and
//! is answered with the responder's own, cut to what the version defines and
//! the platform supports.

use crate::bytes::{
    array_exact, array_prefix, cut_to_u32, law_integer_bytes_round_trip, law_low_bits, le16,
    le16_bytes, le32, le32_bytes, low32, push_bytes, u16_le, u16_le_bytes, u32_le, u32_le_bytes,
};
use crate::cap_flags::{
    bit, contains, ep_info, ep_info_field, law_defined_bits, law_fields_are_two_bits,
    law_flags_are_bits, lemma_requester_mask_bits, multi_key, multi_key_field, psk, psk_field,
    requester_cap_mask, requester_defines, requester_mask, responder_cap_mask, responder_mask, sets,
    CERT, CHAL, CHUNK, ENCRYPT, EVENT, GET_KEY_PAIR_INFO, HANDSHAKE_IN_THE_CLEAR, HBEAT, KEY_EX,
    KEY_UPD, LARGE_RESP, MAC, MUT_AUTH, PUB_KEY_ID, SECURE_SESSION, SET_KEY_PAIR_RESET,
};
use crate::codec::{SpdmVersion, CAPABILITIES, SPDM_MSG_HDR_SIZE};
use crate::connection::{ConnectionState, Exchange, ExchangeStage, PalLimits, Phase, SpdmError};
use vstd::prelude::*;
use vstd::slice::slice_subrange;

verus! {

/// Size of a request body: everything after the common header.
pub const CAPABILITIES_BODY_SIZE: usize = 18;

/// Size of a complete `CAPABILITIES` response.
pub const CAPABILITIES_RSP_SIZE: usize = 20;

/// Largest crypto timeout exponent that the protocol allows.
pub const MAX_CT_EXPONENT: u8 = 31;

/// Smallest `DataTransferSize` that the protocol allows.
pub const MIN_DATA_TRANSFER_SIZE: u32 = 42;

/// The body of a `GET_CAPABILITIES` request.
#[derive(Clone, Copy, Debug, PartialEq, Eq, Structural)]
pub struct CapabilitiesBody {
    pub param1: u8,
    pub param2: u8,
    pub reserved: u8,
    pub ct_exponent: u8,
    pub ext_flags: u16,
    pub flags: u32,
    pub data_transfer_size: u32,
    pub max_spdm_msg_size: u32,
}

impl CapabilitiesBody {
    /// The body that `s` encodes: one byte for each of the first four fields,
    /// the rest little-endian.
    pub open spec fn of_bytes(s: Seq<u8>) -> CapabilitiesBody {
        CapabilitiesBody {
            param1: s[0],
            param2: s[1],
            reserved: s[2],
            ct_exponent: s[3],
            ext_flags: le16(s.subrange(4, 6)) as u16,
            flags: le32(s.subrange(6, 10)) as u32,
            data_transfer_size: le32(s.subrange(10, 14)) as u32,
            max_spdm_msg_size: le32(s.subrange(14, 18)) as u32,
        }
    }

    /// Decodes a body.
    pub fn decode(a: &[u8; 18]) -> (r: CapabilitiesBody)
        ensures
            r == CapabilitiesBody::of_bytes(a@),
    {
        CapabilitiesBody {
            param1: a[0],
            param2: a[1],
            reserved: a[2],
            ct_exponent: a[3],
            ext_flags: u16_le([a[4], a[5]]),
            flags: u32_le([a[6], a[7], a[8], a[9]]),
            data_transfer_size: u32_le([a[10], a[11], a[12], a[13]]),
            max_spdm_msg_size: u32_le([a[14], a[15], a[16], a[17]]),
        }
    }
}

/// What a `CAPABILITIES` response says.
#[derive(Clone, Copy, Debug, PartialEq, Eq, Structural)]
pub struct CapabilitiesRsp {
    pub ct_exponent: u8,
    pub ext_flags: u16,
    pub flags: u32,
    pub data_transfer_size: u32,
    pub max_spdm_msg_size: u32,
}

impl CapabilitiesRsp {
    /// The encoded response: common header, two zero parameters and a reserved
    /// byte, then the fields, little-endian.
    pub open spec fn bytes(self, version: SpdmVersion) -> Seq<u8> {
        seq![version.byte(), CAPABILITIES, 0, 0, 0, self.ct_exponent] + le16_bytes(self.ext_flags)
            + le32_bytes(self.flags) + le32_bytes(self.data_transfer_size) + le32_bytes(
            self.max_spdm_msg_size,
        )
    }

    /// Encodes the response.
    pub fn encode(&self, version: SpdmVersion) -> (r: Vec<u8>)
        ensures
            r@ == self.bytes(version),
            r@.len() == CAPABILITIES_RSP_SIZE,
    {
        let mut out: Vec<u8> = Vec::new();
        out.push(version.to_u8());
        out.push(CAPABILITIES);
        out.push(0);
        out.push(0);
        out.push(0);
        out.push(self.ct_exponent);
        push_bytes(&mut out, &u16_le_bytes(self.ext_flags));
        push_bytes(&mut out, &u32_le_bytes(self.flags));
        push_bytes(&mut out, &u32_le_bytes(self.data_transfer_size));
        push_bytes(&mut out, &u32_le_bytes(self.max_spdm_msg_size));
        out
    }
}

/// Whether the responder speaks `version`: V1.2, V1.3 and V1.4.
pub open spec fn is_supported(version: SpdmVersion) -> bool {
    version.from_on(SpdmVersion::V12)
}

/// The supported version that a header byte names, if it names one.
pub open spec fn selected_version(requested: u8) -> Option<SpdmVersion> {
    match SpdmVersion::of_byte(requested) {
        Some(v) => if is_supported(v) {
            Some(v)
        } else {
            None
        },
        None => None,
    }
}

/// Picks the version that a header byte asks for.
pub fn select_version(requested: u8) -> (r: Result<SpdmVersion, SpdmError>)
    ensures
        match selected_version(requested) {
            Some(v) => r == Ok::<SpdmVersion, SpdmError>(v),
            None => r == Err::<SpdmVersion, SpdmError>(SpdmError::VersionMismatch),
        },
{
    match SpdmVersion::from_u8(requested) {
        Some(v) => if v.at_least(SpdmVersion::V12) {
            Ok(v)
        } else {
            Err(SpdmError::VersionMismatch)
        },
        None => Err(SpdmError::VersionMismatch),
    }
}

/// Whether a requester's flags agree with each other in `version`.
pub open spec fn flags_compatible(version: SpdmVersion, flags: u32) -> bool {
    let v13 = version.from_on(SpdmVersion::V13);
    let session = sets(flags, KEY_EX) || psk(flags) != 0;
    let identity = sets(flags, CERT) || sets(flags, PUB_KEY_ID);
    let signed_ep_info = v13 && ep_info(flags) == 2;
    // A requester's PSK field is 0 or 1; a field of three is reserved elsewhere.
    &&& psk(flags) <= 1
    &&& ep_info(flags) != 3
    &&& multi_key(flags) != 3
    // A session needs a way to protect messages, and what belongs to a session
    // needs a way to open one.
    &&& session ==> sets(flags, ENCRYPT) || sets(flags, MAC)
    &&& !session ==> {
        &&& !sets(flags, ENCRYPT)
        &&& !sets(flags, MAC)
        &&& !sets(flags, HANDSHAKE_IN_THE_CLEAR)
        &&& !sets(flags, HBEAT)
        &&& !sets(flags, KEY_UPD)
        &&& !(v13 && sets(flags, EVENT))
    }
    &&& !sets(flags, KEY_EX) && psk(flags) == 1 ==> !sets(flags, HANDSHAKE_IN_THE_CLEAR)
    // There is at most one identity, and it is there exactly if it is used.
    &&& !(sets(flags, CERT) && sets(flags, PUB_KEY_ID))
    &&& identity ==> sets(flags, CHAL) || sets(flags, KEY_EX) || signed_ep_info
    &&& !identity ==> !sets(flags, CHAL) && !sets(flags, MUT_AUTH) && !signed_ep_info
    &&& sets(flags, MUT_AUTH) ==> sets(flags, KEY_EX) || sets(flags, CHAL)
    &&& v13 && multi_key(flags) != 0 ==> sets(flags, CERT) && !sets(flags, PUB_KEY_ID)
}

/// Checks that a requester's flags agree with each other.
pub fn validate_request_flag_compatibility(version: SpdmVersion, flags: u32) -> (r: Result<
    (),
    SpdmError,
>)
    ensures
        r == (if flags_compatible(version, flags) {
            Ok::<(), SpdmError>(())
        } else {
            Err::<(), SpdmError>(SpdmError::InvalidRequest)
        }),
{
    let cert = contains(flags, CERT);
    let chal = contains(flags, CHAL);
    let encrypt = contains(flags, ENCRYPT);
    let mac = contains(flags, MAC);
    let mut_auth = contains(flags, MUT_AUTH);
    let key_ex = contains(flags, KEY_EX);
    let psk = psk_field(flags);
    let pub_key_id = contains(flags, PUB_KEY_ID);
    let ep_info = ep_info_field(flags);
    let multi_key = multi_key_field(flags);
    let v13 = version.at_least(SpdmVersion::V13);

    if psk > 1 || ep_info == 3 || multi_key == 3 {
        return Err(SpdmError::InvalidRequest);
    }
    let has_session_exchange = key_ex || psk != 0;
    if has_session_exchange {
        if !encrypt && !mac {
            return Err(SpdmError::InvalidRequest);
        }
    } else if encrypt || mac || contains(flags, HANDSHAKE_IN_THE_CLEAR) || contains(flags, HBEAT)
        || contains(flags, KEY_UPD) || (v13 && contains(flags, EVENT)) {
        return Err(SpdmError::InvalidRequest);
    }
    if !key_ex && psk == 1 && contains(flags, HANDSHAKE_IN_THE_CLEAR) {
        return Err(SpdmError::InvalidRequest);
    }
    if cert || pub_key_id {
        if cert && pub_key_id {
            return Err(SpdmError::InvalidRequest);
        }
        if !(chal || key_ex || (v13 && ep_info == 2)) {
            return Err(SpdmError::InvalidRequest);
        }
    } else if chal || mut_auth || (v13 && ep_info == 2) {
        return Err(SpdmError::InvalidRequest);
    }
    if mut_auth && !key_ex && !chal {
        return Err(SpdmError::InvalidRequest);
    }
    if v13 && multi_key != 0 && (!cert || pub_key_id) {
        return Err(SpdmError::InvalidRequest);
    }
    Ok(())
}

/// Whether a request body keeps the rules of `version`.
pub open spec fn body_valid(version: SpdmVersion, body: CapabilitiesBody) -> bool {
    // Reserved fields are zero. Bit 0 of Param1 asks for the Supported
    // Algorithms block, from V1.3 on and only with chunking.
    &&& body.param1 == 0 || (body.param1 == 1 && version.from_on(SpdmVersion::V13) && sets(
        body.flags,
        CHUNK,
    ))
    &&& body.param2 == 0
    &&& body.reserved == 0
    &&& body.ext_flags == 0
    &&& body.ct_exponent <= MAX_CT_EXPONENT
    &&& body.flags & !requester_mask(version) == 0
    &&& flags_compatible(version, body.flags)
    &&& MIN_DATA_TRANSFER_SIZE <= body.data_transfer_size <= body.max_spdm_msg_size
    // Without chunking no message is larger than one transfer.
    &&& !sets(body.flags, CHUNK) ==> body.data_transfer_size == body.max_spdm_msg_size
}

/// Checks a request body, and returns the peer's `DataTransferSize` and
/// `MaxSPDMmsgSize`.
pub fn validate_capabilities_body(version: SpdmVersion, body: &CapabilitiesBody) -> (r: Result<
    (u32, u32),
    SpdmError,
>)
    ensures
        r == (if body_valid(version, *body) {
            Ok::<(u32, u32), SpdmError>((body.data_transfer_size, body.max_spdm_msg_size))
        } else {
            Err::<(u32, u32), SpdmError>(SpdmError::InvalidRequest)
        }),
{
    let param1 = body.param1;
    assert(param1 & !0u8 == param1 && (param1 & !1u8 == 0 <==> param1 == 0 || param1 == 1)
        && (param1 == 0 ==> param1 & 1 == 0) && (param1 == 1 ==> param1 & 1 == 1)) by (bit_vector);
    let param1_mask: u8 = if version.at_least(SpdmVersion::V13) {
        0x01
    } else {
        0
    };
    if body.param1 & !param1_mask != 0 || body.param2 != 0 || body.reserved != 0 {
        return Err(SpdmError::InvalidRequest);
    }
    if body.ext_flags != 0 {
        return Err(SpdmError::InvalidRequest);
    }
    if body.ct_exponent > MAX_CT_EXPONENT {
        return Err(SpdmError::InvalidRequest);
    }
    if body.flags & !requester_cap_mask(version) != 0 {
        return Err(SpdmError::InvalidRequest);
    }
    match validate_request_flag_compatibility(version, body.flags) {
        Ok(_) => {},
        Err(e) => {
            return Err(e);
        },
    }
    if body.param1 & 0x01 != 0 && !contains(body.flags, CHUNK) {
        return Err(SpdmError::InvalidRequest);
    }
    let peer_dts = body.data_transfer_size;
    let peer_max = body.max_spdm_msg_size;
    if peer_dts < MIN_DATA_TRANSFER_SIZE || peer_dts > peer_max {
        return Err(SpdmError::InvalidRequest);
    }
    if !contains(body.flags, CHUNK) && peer_dts != peer_max {
        return Err(SpdmError::InvalidRequest);
    }
    Ok((peer_dts, peer_max))
}

/// The flags that the responder sends: its own, cut to those of `version`, and
/// without those of secure sessions where the platform has none.
pub open spec fn advertised(cap_flags: u32, version: SpdmVersion, secure: bool) -> u32 {
    if secure {
        cap_flags & responder_mask(version)
    } else {
        (cap_flags & responder_mask(version)) & !SECURE_SESSION
    }
}

/// The body of the request.
pub open spec fn request_body(request: Seq<u8>) -> CapabilitiesBody {
    CapabilitiesBody::of_bytes(request.subrange(2, 20))
}

/// Why the responder refuses `request` in `state`; `None` if it does not.
pub open spec fn rejection(state: ConnectionState, request: Seq<u8>) -> Option<SpdmError> {
    if state.phase != Phase::AfterVersion {
        Some(SpdmError::UnexpectedRequest)
    } else if request.len() < SPDM_MSG_HDR_SIZE {
        Some(SpdmError::InvalidRequest)
    } else if selected_version(request[0]) is None {
        Some(SpdmError::VersionMismatch)
    } else if request.len() < SPDM_MSG_HDR_SIZE + CAPABILITIES_BODY_SIZE {
        Some(SpdmError::InvalidRequest)
    } else if !body_valid(selected_version(request[0])->0, request_body(request)) {
        Some(SpdmError::InvalidRequest)
    } else {
        None
    }
}

/// The connection after an accepted request, before the transcript has it.
pub open spec fn negotiated(
    state: ConnectionState,
    pal: PalLimits,
    request: Seq<u8>,
) -> ConnectionState {
    let version = selected_version(request[0])->0;
    let body = request_body(request);
    ConnectionState {
        version,
        peer_data_transfer_size: body.data_transfer_size,
        peer_max_spdm_msg_size: body.max_spdm_msg_size,
        peer_cap_flags: body.flags,
        advertised_cap_flags: advertised(state.cap_flags, version, pal.secure_message_supported),
        ..state
    }
}

/// What the responder answers once `state` is negotiated.
pub open spec fn answer(state: ConnectionState, pal: PalLimits) -> CapabilitiesRsp {
    CapabilitiesRsp {
        ct_exponent: state.ct_exponent,
        ext_flags: 0,
        flags: state.advertised_cap_flags,
        data_transfer_size: low32(pal.mtu as int),
        max_spdm_msg_size: if sets(state.advertised_cap_flags, CHUNK) && pal.large_capacity
            > pal.mtu {
            low32(pal.large_capacity as int)
        } else {
            low32(pal.mtu as int)
        },
    }
}

/// Handles a `GET_CAPABILITIES` request.
///
/// An accepted request updates the connection and gives the exchange that
/// takes it to `AfterCapabilities`. A refused one changes nothing.
pub fn handle_get_capabilities(
    state: &mut ConnectionState,
    pal: &PalLimits,
    request: &[u8],
) -> (r: Result<Exchange, SpdmError>)
    ensures
        match rejection(*old(state), request@) {
            Some(e) => r == Err::<Exchange, SpdmError>(e) && *final(state) == *old(state),
            None => {
                &&& *final(state) == negotiated(*old(state), *pal, request@)
                &&& r matches Ok(ex)
                &&& ex.request@ == request@
                &&& ex.response@ == answer(*final(state), *pal).bytes(final(state).version)
                &&& ex.phase_after == Phase::AfterCapabilities
                &&& ex.stage == ExchangeStage::AppendRequest
            },
        },
{
    match state.phase {
        Phase::AfterVersion => {},
        _ => {
            return Err(SpdmError::UnexpectedRequest);
        },
    }
    let (hdr, rest) = match array_prefix::<2>(request) {
        Some(parts) => parts,
        None => {
            return Err(SpdmError::InvalidRequest);
        },
    };
    let version = match select_version(hdr[0]) {
        Ok(v) => v,
        Err(e) => {
            return Err(e);
        },
    };
    if rest.len() < CAPABILITIES_BODY_SIZE {
        return Err(SpdmError::InvalidRequest);
    }
    let body = match array_exact::<18>(slice_subrange(rest, 0, CAPABILITIES_BODY_SIZE)) {
        Some(a) => CapabilitiesBody::decode(a),
        None => {
            return Err(SpdmError::InvalidRequest);
        },
    };
    let (peer_dts, peer_max) = match validate_capabilities_body(version, &body) {
        Ok(sizes) => sizes,
        Err(e) => {
            return Err(e);
        },
    };
    state.version = version;
    state.peer_data_transfer_size = peer_dts;
    state.peer_max_spdm_msg_size = peer_max;
    state.peer_cap_flags = body.flags;

    let mut flags: u32 = state.cap_flags & responder_cap_mask(version);
    if !pal.secure_message_supported {
        flags = flags & !SECURE_SESSION;
    }
    state.advertised_cap_flags = flags;
    let max_spdm_msg_size = if contains(flags, CHUNK) && pal.large_capacity > pal.mtu {
        cut_to_u32(pal.large_capacity)
    } else {
        cut_to_u32(pal.mtu)
    };
    let rsp = CapabilitiesRsp {
        ct_exponent: state.ct_exponent,
        ext_flags: 0,
        flags,
        data_transfer_size: cut_to_u32(pal.mtu),
        max_spdm_msg_size,
    };
    let response = rsp.encode(version);
    Ok(Exchange::new(request, response, Phase::AfterCapabilities))
}

/// Every flag of a valid request is one that the version defines for a
/// requester.
pub proof fn law_accepted_flags_are_defined(version: SpdmVersion, body: CapabilitiesBody, i: u32)
    requires
        body_valid(version, body),
        i < 32,
        bit(body.flags, i),
    ensures
        requester_defines(version, i),
{
    lemma_requester_mask_bits(i);
    let flags = body.flags;
    let mask = requester_mask(version);
    assert((mask >> i) & 1 == 1) by (bit_vector)
        requires
            flags & !mask == 0,
            (flags >> i) & 1 == 1,
            i < 32,
    ;
}

/// A body that is valid in one supported version is valid in every later one.
pub proof fn law_later_versions_accept_valid_bodies(
    earlier: SpdmVersion,
    later: SpdmVersion,
    body: CapabilitiesBody,
)
    requires
        is_supported(earlier),
        later.from_on(earlier),
        body_valid(earlier, body),
    ensures
        body_valid(later, body),
{
    let flags = body.flags;
    assert(flags & !0x0003_FFC6u32 == 0 ==> flags & !0x0EC3_FFC6u32 == 0 && (flags >> 22) & 3 == 0
        && (flags >> 26) & 3 == 0 && flags & 0x0200_0000u32 == 0) by (bit_vector);
    assert(flags & !0x0EC3_FFC6u32 == 0 ==> flags & !0x8EC3_FFC6u32 == 0) by (bit_vector);
}

/// The responder advertises only flags of its own policy that the version
/// defines, and none of `KEY_EX`, `ENCRYPT` and `MAC` without secure messages.
pub proof fn law_advertised_flags(cap_flags: u32, version: SpdmVersion, secure: bool)
    ensures
        advertised(cap_flags, version, secure) & !cap_flags == 0,
        advertised(cap_flags, version, secure) & !responder_mask(version) == 0,
        !secure ==> !sets(advertised(cap_flags, version, secure), KEY_EX),
        !secure ==> !sets(advertised(cap_flags, version, secure), ENCRYPT),
        !secure ==> !sets(advertised(cap_flags, version, secure), MAC),
{
    let mask = responder_mask(version);
    assert((cap_flags & mask) & !cap_flags == 0 && (cap_flags & mask) & !mask == 0 && ((cap_flags
        & mask) & !0x2C0u32) & !cap_flags == 0 && ((cap_flags & mask) & !0x2C0u32) & !mask == 0)
        by (bit_vector);
    assert(((cap_flags & mask) & !0x2C0u32) & 0x200u32 == 0 && ((cap_flags & mask) & !0x2C0u32)
        & 0x40u32 == 0 && ((cap_flags & mask) & !0x2C0u32) & 0x80u32 == 0) by (bit_vector);
}

/// Flags that a later version introduced are never advertised in an earlier
/// one: `GET_KEY_PAIR_INFO` before V1.3, `SET_KEY_PAIR_RESET` and `LARGE_RESP`
/// before V1.4.
pub proof fn law_newer_flags_are_masked(cap_flags: u32, version: SpdmVersion, secure: bool)
    ensures
        !version.from_on(SpdmVersion::V13) ==> !sets(
            advertised(cap_flags, version, secure),
            GET_KEY_PAIR_INFO,
        ),
        !version.from_on(SpdmVersion::V14) ==> !sets(
            advertised(cap_flags, version, secure),
            SET_KEY_PAIR_RESET,
        ) && !sets(advertised(cap_flags, version, secure), LARGE_RESP),
{
    let a = advertised(cap_flags, version, secure);
    law_advertised_flags(cap_flags, version, secure);
    assert(a & !0x003F_FFFFu32 == 0 ==> a & !0x3FFF_FFFFu32 == 0 && a & 0x1000_0000u32 == 0)
        by (bit_vector);
    assert(a & !0x3FFF_FFFFu32 == 0 ==> a & 0x4000_0000u32 == 0 && a & 0x8000_0000u32 == 0)
        by (bit_vector);
}

/// Without chunking the responder advertises one size for transfers and
/// messages; with it, messages are at least as large as transfers.
pub proof fn law_answer_sizes(state: ConnectionState, pal: PalLimits)
    requires
        pal.mtu <= u32::MAX,
        pal.large_capacity <= u32::MAX,
    ensures
        answer(state, pal).data_transfer_size == pal.mtu,
        answer(state, pal).data_transfer_size <= answer(state, pal).max_spdm_msg_size,
        !sets(state.advertised_cap_flags, CHUNK) ==> answer(state, pal).data_transfer_size
            == answer(state, pal).max_spdm_msg_size,
{
}

/// A response reads back as what it was made of: it has the layout of a
/// request body, with zero parameters.
pub proof fn law_response_reads_back(rsp: CapabilitiesRsp, version: SpdmVersion)
    ensures
        rsp.bytes(version).len() == CAPABILITIES_RSP_SIZE,
        rsp.bytes(version)[0] == version.byte(),
        rsp.bytes(version)[1] == CAPABILITIES,
        request_body(rsp.bytes(version)) == (CapabilitiesBody {
            param1: 0,
            param2: 0,
            reserved: 0,
            ct_exponent: rsp.ct_exponent,
            ext_flags: rsp.ext_flags,
            flags: rsp.flags,
            data_transfer_size: rsp.data_transfer_size,
            max_spdm_msg_size: rsp.max_spdm_msg_size,
        }),
{
    law_integer_bytes_round_trip(rsp.ext_flags, rsp.flags);
    law_integer_bytes_round_trip(0, rsp.data_transfer_size);
    law_integer_bytes_round_trip(0, rsp.max_spdm_msg_size);
}

/// Bytes behind a complete request body have no influence: the request is
/// accepted or refused, and answered, as without them.
pub proof fn law_trailing_bytes_are_ignored(
    state: ConnectionState,
    pal: PalLimits,
    request: Seq<u8>,
    extra: Seq<u8>,
)
    requires
        request.len() >= SPDM_MSG_HDR_SIZE + CAPABILITIES_BODY_SIZE,
    ensures
        rejection(state, request + extra) == rejection(state, request),
        negotiated(state, pal, request + extra) == negotiated(state, pal, request),
{
}

/// The responder speaks V1.2, V1.3 and V1.4, and a request is answered in the
/// version that its first byte names.
pub proof fn law_selected_version(requested: u8)
    ensures
        selected_version(requested) is Some <==> requested == 0x12 || requested == 0x13
            || requested == 0x14,
        selected_version(requested) matches Some(v) ==> v.byte() == requested,
        SpdmVersion::V12.byte() == 0x12,
        SpdmVersion::V13.byte() == 0x13,
        SpdmVersion::V14.byte() == 0x14,
{
}

/// Which flags a requester may combine, bit by bit.
///
/// Bits 9 and 10 open sessions, 6 and 7 protect them, 13 to 15 and, from V1.3
/// on, 25 need them. Bits 1 and 16 are identities, 2, 9 and signed endpoint
/// information (the field of bits 22 and 23 being two, from V1.3 on) use one.
pub proof fn law_combinable_flags(version: SpdmVersion, flags: u32)
    ensures
        ({
            let b = |i: u32| (flags >> i) & 1 == 1;
            let v13 = version.byte() >= 0x13;
            let signed = v13 && b(23) && !b(22);
            flags_compatible(version, flags) <==> {
                // No field holds a value that a requester may not give.
                &&& !b(11) && !(b(22) && b(23)) && !(b(26) && b(27))
                // Sessions.
                &&& b(9) || b(10) ==> b(6) || b(7)
                &&& b(6) || b(7) || b(13) || b(14) || b(15) || (v13 && b(25)) ==> b(9) || b(10)
                &&& b(15) ==> b(9)
                // Identities.
                &&& !(b(1) && b(16))
                &&& b(1) || b(16) ==> b(2) || b(9) || signed
                &&& b(2) || b(8) || signed ==> b(1) || b(16)
                &&& b(8) ==> b(2) || b(9)
                &&& v13 && (b(26) || b(27)) ==> b(1)
            }
        }),
{
    law_flags_are_bits(flags);
    law_fields_are_two_bits(flags);
    assert(((flags >> 11u32) & 1) <= 1 && ((flags >> 10u32) & 1) <= 1 && ((flags >> 22u32) & 1) <= 1
        && ((flags >> 23u32) & 1) <= 1 && ((flags >> 26u32) & 1) <= 1 && ((flags >> 27u32) & 1)
        <= 1);
}

/// A requester with a certificate is accepted whether it can be challenged, can
/// exchange keys, or both, as long as what it says of sessions agrees.
pub proof fn law_certificate_with_any_use(version: SpdmVersion, flags: u32)
    requires
        psk(flags) == 0,
        ep_info(flags) == 0,
        multi_key(flags) != 3,
        flags & 0x2 != 0,
        flags & 0x1_0000 == 0,
        flags & 0x4 != 0 || flags & 0x200 != 0,
        flags & 0x200 != 0 ==> flags & 0x40 != 0 || flags & 0x80 != 0,
        flags & 0x200 == 0 ==> flags & 0x0200_E0C0 == 0,
    ensures
        flags_compatible(version, flags),
{
    law_flags_are_bits(flags);
    law_combinable_flags(version, flags);
    assert((flags & 0x2 != 0 <==> flags & 0x2 == 0x2) && (flags & 0x1_0000 != 0 <==> flags
        & 0x1_0000 == 0x1_0000) && (flags & 0x4 != 0 <==> flags & 0x4 == 0x4) && (flags & 0x200
        != 0 <==> flags & 0x200 == 0x200) && (flags & 0x40 != 0 <==> flags & 0x40 == 0x40) && (flags
        & 0x80 != 0 <==> flags & 0x80 == 0x80) && (flags & 0x0200_E0C0 == 0 ==> flags & 0x40 == 0
        && flags & 0x80 == 0 && flags & 0x2000 == 0 && flags & 0x4000 == 0 && flags & 0x8000 == 0
        && flags & 0x200_0000 == 0)) by (bit_vector);
}

/// A requester that is accepted with a certificate is accepted as well if it
/// can be challenged in addition.
pub proof fn law_challenge_can_be_added(version: SpdmVersion, flags: u32)
    requires
        flags_compatible(version, flags),
        flags & 0x2 == 0x2,
    ensures
        flags_compatible(version, flags | 0x4),
{
    let more = flags | 0x4;
    law_flags_are_bits(flags);
    law_flags_are_bits(more);
    law_combinable_flags(version, flags);
    law_combinable_flags(version, more);
    assert((flags | 0x4) & 0x4 == 0x4 && (forall|i: u32|
        i < 32 && i != 2 ==> #[trigger] (((flags | 0x4) >> i) & 1) == (flags >> i) & 1))
        by (bit_vector);
}

/// When a request is accepted, byte by byte.
///
/// Byte 0 is the version, 2 to 5 are the parameters, a reserved byte and the
/// timeout exponent, 6 and 7 the extended flags, and the flags, the transfer
/// size and the message size follow in little-endian order.
pub proof fn law_accepted_bytes(state: ConnectionState, r: Seq<u8>)
    ensures
        rejection(state, r) is None <==> {
            let flags = (r[8] + 0x100 * r[9] + 0x1_0000 * r[10] + 0x100_0000 * r[11]) as u32;
            let transfer = r[12] + 0x100 * r[13] + 0x1_0000 * r[14] + 0x100_0000 * r[15];
            let message = r[16] + 0x100 * r[17] + 0x1_0000 * r[18] + 0x100_0000 * r[19];
            let chunk = (flags >> 17u32) & 1 == 1;
            &&& state.phase == Phase::AfterVersion
            &&& r.len() >= 20
            &&& r[0] == 0x12 || r[0] == 0x13 || r[0] == 0x14
            &&& r[2] == 0 || (r[2] == 1 && r[0] >= 0x13 && chunk)
            &&& r[3] == 0 && r[4] == 0 && r[5] <= 31 && r[6] == 0 && r[7] == 0
            &&& flags & !requester_mask(selected_version(r[0])->0) == 0
            &&& flags_compatible(selected_version(r[0])->0, flags)
            &&& 42 <= transfer <= message
            &&& chunk || transfer == message
        },
{
    let flags = (r[8] + 0x100 * r[9] + 0x1_0000 * r[10] + 0x100_0000 * r[11]) as u32;
    law_flags_are_bits(flags);
    if r.len() >= 20 {
        let s = r.subrange(2, 20);
        assert(le16(s.subrange(4, 6)) == r[6] + 0x100 * r[7]);
        assert(le32(s.subrange(6, 10)) == r[8] + 0x100 * r[9] + 0x1_0000 * r[10] + 0x100_0000
            * r[11]);
        assert(le32(s.subrange(10, 14)) == r[12] + 0x100 * r[13] + 0x1_0000 * r[14] + 0x100_0000
            * r[15]);
        assert(le32(s.subrange(14, 18)) == r[16] + 0x100 * r[17] + 0x1_0000 * r[18] + 0x100_0000
            * r[19]);
    }
}

/// Which error a refused request gets: in the wrong phase it is unexpected,
/// a version that is not spoken is a mismatch, and all else is invalid.
pub proof fn law_refusals(state: ConnectionState, r: Seq<u8>)
    ensures
        rejection(state, r) matches Some(e) ==> e == if state.phase != Phase::AfterVersion {
            SpdmError::UnexpectedRequest
        } else if r.len() >= 2 && r[0] != 0x12 && r[0] != 0x13 && r[0] != 0x14 {
            SpdmError::VersionMismatch
        } else {
            SpdmError::InvalidRequest
        },
{
}

/// An accepted request fixes the version and leaves its flags and sizes with the
/// connection; the phase and the policy stay.
pub proof fn law_accepted_request_is_remembered(state: ConnectionState, pal: PalLimits, r: Seq<u8>)
    requires
        rejection(state, r) is None,
    ensures
        ({
            let after = negotiated(state, pal, r);
            &&& after.version.byte() == r[0]
            &&& after.peer_cap_flags == r[8] + 0x100 * r[9] + 0x1_0000 * r[10] + 0x100_0000 * r[11]
            &&& after.peer_data_transfer_size == r[12] + 0x100 * r[13] + 0x1_0000 * r[14]
                + 0x100_0000 * r[15]
            &&& after.peer_max_spdm_msg_size == r[16] + 0x100 * r[17] + 0x1_0000 * r[18]
                + 0x100_0000 * r[19]
            &&& after.phase == state.phase
            &&& after.cap_flags == state.cap_flags && after.ct_exponent == state.ct_exponent
            &&& after.measurement_spec == state.measurement_spec
            &&& after.other_param_support == state.other_param_support
            &&& after.meas_hash_algo == state.meas_hash_algo
            &&& after.base_asym_sel == state.base_asym_sel
            &&& after.base_hash_sel == state.base_hash_sel
            &&& after.dhe == state.dhe && after.aead == state.aead
            &&& after.key_schedule == state.key_schedule
            &&& after.other_param_sel == state.other_param_sel
            &&& after.negotiated_base_asym_sel == state.negotiated_base_asym_sel
            &&& after.negotiated_base_hash_sel == state.negotiated_base_hash_sel
        }),
{
    let s = r.subrange(2, 20);
    assert(le32(s.subrange(6, 10)) == r[8] + 0x100 * r[9] + 0x1_0000 * r[10] + 0x100_0000 * r[11]);
    assert(le32(s.subrange(10, 14)) == r[12] + 0x100 * r[13] + 0x1_0000 * r[14] + 0x100_0000
        * r[15]);
    assert(le32(s.subrange(14, 18)) == r[16] + 0x100 * r[17] + 0x1_0000 * r[18] + 0x100_0000
        * r[19]);
}

/// A flag is advertised exactly if the policy has it, the version defines it for
/// responders and, for `ENCRYPT`, `MAC` and `KEY_EX`, the platform has secure
/// messages.
pub proof fn law_advertised_bit_by_bit(
    state: ConnectionState,
    pal: PalLimits,
    r: Seq<u8>,
    i: u32,
)
    requires
        rejection(state, r) is None,
        i < 32,
    ensures
        (negotiated(state, pal, r).advertised_cap_flags >> i) & 1 == 1 <==> {
            &&& (state.cap_flags >> i) & 1 == 1
            &&& i <= 21 || (r[0] >= 0x13 && i <= 29) || r[0] >= 0x14
            &&& pal.secure_message_supported || (i != 6 && i != 7 && i != 9)
        },
{
    let version = selected_version(r[0])->0;
    let own = state.cap_flags;
    let mask = responder_mask(version);
    law_defined_bits(version, i);
    assert((((own & mask) >> i) & 1 == 1 <==> (own >> i) & 1 == 1 && (mask >> i) & 1 == 1) && ((((
    own & mask) & !0x2C0u32) >> i) & 1 == 1 <==> (own >> i) & 1 == 1 && (mask >> i) & 1 == 1 && i
        != 6 && i != 7 && i != 9)) by (bit_vector)
        requires
            i < 32,
    ;
}

/// What a response says: the policy's timeout exponent, the advertised flags, no
/// extended ones, the MTU as transfer size, and as message size the larger of
/// MTU and buffer where chunking is advertised, else the MTU.
pub proof fn law_answer_content(state: ConnectionState, pal: PalLimits)
    requires
        pal.mtu <= u32::MAX,
        pal.large_capacity <= u32::MAX,
    ensures
        ({
            let rsp = answer(state, pal);
            &&& rsp.ct_exponent == state.ct_exponent
            &&& rsp.ext_flags == 0
            &&& rsp.flags == state.advertised_cap_flags
            &&& rsp.data_transfer_size == pal.mtu
            &&& rsp.max_spdm_msg_size >= pal.mtu
            &&& rsp.max_spdm_msg_size == pal.mtu || rsp.max_spdm_msg_size == pal.large_capacity
            &&& (state.advertised_cap_flags >> 17u32) & 1 == 1 ==> rsp.max_spdm_msg_size
                >= pal.large_capacity
            &&& (state.advertised_cap_flags >> 17u32) & 1 != 1 ==> rsp.max_spdm_msg_size == pal.mtu
        }),
{
    law_flags_are_bits(state.advertised_cap_flags);
}

/// Where each field of a response stands.
pub proof fn law_response_bytes(rsp: CapabilitiesRsp, version: SpdmVersion)
    ensures
        ({
            let b = rsp.bytes(version);
            &&& b.len() == 20
            &&& b[0] == version.byte() && b[1] == 0x61
            &&& b[2] == 0 && b[3] == 0 && b[4] == 0
            &&& b[5] == rsp.ct_exponent
            &&& b[6] + 0x100 * b[7] == rsp.ext_flags
            &&& b[8] + 0x100 * b[9] + 0x1_0000 * b[10] + 0x100_0000 * b[11] == rsp.flags
            &&& b[12] + 0x100 * b[13] + 0x1_0000 * b[14] + 0x100_0000 * b[15]
                == rsp.data_transfer_size
            &&& b[16] + 0x100 * b[17] + 0x1_0000 * b[18] + 0x100_0000 * b[19]
                == rsp.max_spdm_msg_size
        }),
{
}

/// Which bodies are valid, in any version: reserved fields are zero, the timeout
/// exponent is at most 31, and transfers are of 42 bytes at least and no larger
/// than messages, nor smaller without chunking. The Supported Algorithms block
/// can be asked for from V1.3 on, with chunking.
pub proof fn law_valid_bodies(version: SpdmVersion, body: CapabilitiesBody)
    ensures
        body_valid(version, body) <==> {
            let chunk = (body.flags >> 17u32) & 1 == 1;
            &&& body.param1 <= 1 && body.param2 == 0 && body.reserved == 0 && body.ext_flags == 0
            &&& body.param1 == 1 ==> version.byte() >= 0x13 && chunk
            &&& body.ct_exponent < 32
            &&& body.flags & !requester_mask(version) == 0
            &&& flags_compatible(version, body.flags)
            &&& body.data_transfer_size > 41
            &&& body.max_spdm_msg_size >= body.data_transfer_size
            &&& !chunk ==> body.max_spdm_msg_size <= body.data_transfer_size
        },
{
    law_flags_are_bits(body.flags);
}

/// On any platform the sizes in a response are cut to 32 bits and nothing else:
/// the transfer size is that of the MTU, and the message size that of the larger
/// of MTU and buffer with chunking, of the MTU without.
pub proof fn law_answer_sizes_are_cut(state: ConnectionState, pal: PalLimits)
    ensures
        ({
            let rsp = answer(state, pal);
            let largest = if pal.large_capacity > pal.mtu {
                pal.large_capacity
            } else {
                pal.mtu
            };
            &&& (pal.mtu - rsp.data_transfer_size) % 0x1_0000_0000 == 0
            &&& (state.advertised_cap_flags >> 17u32) & 1 == 1 ==> (largest
                - rsp.max_spdm_msg_size) % 0x1_0000_0000 == 0
            &&& (state.advertised_cap_flags >> 17u32) & 1 != 1 ==> rsp.max_spdm_msg_size
                == rsp.data_transfer_size
        }),
{
    law_flags_are_bits(state.advertised_cap_flags);
    law_low_bits(pal.mtu as int);
    law_low_bits(pal.large_capacity as int);
}

} // verus!
