//! `NEGOTIATE_ALGORITHMS` and `ALGORITHMS`.
//!
//! The responder selects in each family what its own policy and the peer's
//! offer have in common. A policy holds at most one algorithm per family, so
//! the selection is that algorithm or nothing.
//!
//! The body of a request is laid out as
//!
//! ```text
//!   fixed part | extended asym | extended hash | algorithm structures
//!   30 bytes     4 bytes each    4 bytes each    4 bytes each
//! ```
//!
//! Extended entries are skipped. Algorithm structures come in strictly
//! increasing order of their type; those of a type that the responder does not
//! use are accepted and ignored.

use crate::bytes::{
    array_exact, array_prefix, law_bytes_are_digits, law_integer_bytes_round_trip, le16, le16_bytes,
    le32, le32_bytes, push_bytes, push_zeros, u16_le, u16_le_bytes, u32_le, u32_le_bytes, zeros,
};
use crate::cap_flags::{law_fields_are_two_bits, law_flags_are_bits, multi_key, multi_key_field};
use crate::codec::{
    SpdmVersion, ALGORITHMS, ALG_TYPE_AEAD, ALG_TYPE_DHE, ALG_TYPE_KEY_SCHEDULE,
    OTHER_PARAM_MULTI_KEY_CONN, PQC_ASYM_DEFINED, SPDM_MSG_HDR_SIZE,
};
use crate::connection::{ConnectionState, Exchange, ExchangeStage, PalLimits, Phase, SpdmError};
use vstd::prelude::*;
use vstd::slice::slice_subrange;

verus! {

/// Size of the fixed part of a request body.
pub const REQ_BODY_FIXED_SIZE: usize = 30;

/// Largest length that a request may give.
pub const MAX_REQUEST_LENGTH: u16 = 128;

/// Size of the fixed part of a response, common header included.
pub const RSP_FIXED_SIZE: usize = 36;

/// Size of an algorithm structure, and of an extended entry.
pub const ALG_STRUCT_SIZE: usize = 4;

/// The count byte of an algorithm structure with two bytes of fixed algorithms
/// and no extended ones.
pub const FIXED_ALG_COUNT_ETC: u8 = 0x20;

/// The fixed part of a `NEGOTIATE_ALGORITHMS` body.
#[derive(Clone, Copy, Debug, PartialEq, Eq, Structural)]
pub struct NegotiateAlgorithmsReqBodyFixed {
    pub num_alg_struct: u8,
    pub param2: u8,
    /// Size of the whole request, common header included.
    pub length: u16,
    pub measurement_spec: u8,
    pub other_param_support: u8,
    pub base_asym_algo: u32,
    pub base_hash_algo: u32,
    pub pqc_asym_algo: u32,
    /// The first four of eight reserved bytes, as a little-endian word.
    pub reserved1_low: u32,
    /// The other four.
    pub reserved1_high: u32,
    pub ext_asym_count: u8,
    pub ext_hash_count: u8,
    pub reserved2: u8,
    pub mel_spec_or_reserved: u8,
}

impl NegotiateAlgorithmsReqBodyFixed {
    /// The fixed part that `s` encodes, integers little-endian.
    pub open spec fn of_bytes(s: Seq<u8>) -> NegotiateAlgorithmsReqBodyFixed {
        NegotiateAlgorithmsReqBodyFixed {
            num_alg_struct: s[0],
            param2: s[1],
            length: le16(s.subrange(2, 4)) as u16,
            measurement_spec: s[4],
            other_param_support: s[5],
            base_asym_algo: le32(s.subrange(6, 10)) as u32,
            base_hash_algo: le32(s.subrange(10, 14)) as u32,
            pqc_asym_algo: le32(s.subrange(14, 18)) as u32,
            reserved1_low: le32(s.subrange(18, 22)) as u32,
            reserved1_high: le32(s.subrange(22, 26)) as u32,
            ext_asym_count: s[26],
            ext_hash_count: s[27],
            reserved2: s[28],
            mel_spec_or_reserved: s[29],
        }
    }

    /// Decodes the fixed part.
    pub fn decode(a: &[u8; 30]) -> (r: NegotiateAlgorithmsReqBodyFixed)
        ensures
            r == NegotiateAlgorithmsReqBodyFixed::of_bytes(a@),
    {
        NegotiateAlgorithmsReqBodyFixed {
            num_alg_struct: a[0],
            param2: a[1],
            length: u16_le([a[2], a[3]]),
            measurement_spec: a[4],
            other_param_support: a[5],
            base_asym_algo: u32_le([a[6], a[7], a[8], a[9]]),
            base_hash_algo: u32_le([a[10], a[11], a[12], a[13]]),
            pqc_asym_algo: u32_le([a[14], a[15], a[16], a[17]]),
            reserved1_low: u32_le([a[18], a[19], a[20], a[21]]),
            reserved1_high: u32_le([a[22], a[23], a[24], a[25]]),
            ext_asym_count: a[26],
            ext_hash_count: a[27],
            reserved2: a[28],
            mel_spec_or_reserved: a[29],
        }
    }

    /// Where the algorithm structures of the body begin: behind the fixed part
    /// and the extended entries.
    pub open spec fn alg_structs_start(self) -> int {
        REQ_BODY_FIXED_SIZE + 4 * (self.ext_asym_count + self.ext_hash_count)
    }

    /// Where they end.
    pub open spec fn alg_structs_end(self) -> int {
        self.alg_structs_start() + 4 * self.num_alg_struct
    }

    /// Whether the fixed part keeps the rules of `version` and fits a body of
    /// `body_len` bytes. Bytes past the given length are not looked at.
    pub open spec fn is_valid(self, version: SpdmVersion, body_len: nat) -> bool {
        &&& self.param2 == 0
        &&& self.reserved1_low == 0
        &&& self.reserved1_high == 0
        &&& self.reserved2 == 0
        // Before V1.4 the PQC bitmap is reserved.
        &&& if version.from_on(SpdmVersion::V14) {
            self.pqc_asym_algo & !PQC_ASYM_DEFINED == 0
        } else {
            self.pqc_asym_algo == 0
        }
        &&& self.length <= MAX_REQUEST_LENGTH
        &&& self.length == SPDM_MSG_HDR_SIZE + self.alg_structs_end()
        &&& self.alg_structs_end() <= body_len
    }
}

/// One algorithm structure.
#[derive(Clone, Copy, Debug, PartialEq, Eq, Structural)]
pub struct AlgStructEntry {
    pub alg_type: u8,
    /// Size of the fixed algorithms in the high nibble, number of extended
    /// ones in the low nibble.
    pub alg_count_etc: u8,
    pub alg_supported: u16,
}

impl AlgStructEntry {
    /// The structure that `s` encodes.
    pub open spec fn of_bytes(s: Seq<u8>) -> AlgStructEntry {
        AlgStructEntry {
            alg_type: s[0],
            alg_count_etc: s[1],
            alg_supported: le16(s.subrange(2, 4)) as u16,
        }
    }

    /// Its encoding.
    pub open spec fn bytes(self) -> Seq<u8> {
        seq![self.alg_type, self.alg_count_etc] + le16_bytes(self.alg_supported)
    }

    /// Whether the counts are those of a structure without extended algorithms
    /// and some algorithm is named.
    pub open spec fn is_valid(self) -> bool {
        self.alg_count_etc == FIXED_ALG_COUNT_ETC && self.alg_supported != 0
    }

    /// A structure of type `alg_type` that names `bits`.
    pub fn new(alg_type: u8, bits: u16) -> (r: AlgStructEntry)
        ensures
            r == (AlgStructEntry {
                alg_type,
                alg_count_etc: FIXED_ALG_COUNT_ETC,
                alg_supported: bits,
            }),
    {
        AlgStructEntry { alg_type, alg_count_etc: FIXED_ALG_COUNT_ETC, alg_supported: bits }
    }

    /// Decodes a structure.
    pub fn decode(a: &[u8; 4]) -> (r: AlgStructEntry)
        ensures
            r == AlgStructEntry::of_bytes(a@),
    {
        AlgStructEntry {
            alg_type: a[0],
            alg_count_etc: a[1],
            alg_supported: u16_le([a[2], a[3]]),
        }
    }

    /// Appends the encoding to `out`.
    pub fn encode(&self, out: &mut Vec<u8>)
        ensures
            final(out)@ == old(out)@ + self.bytes(),
    {
        out.push(self.alg_type);
        out.push(self.alg_count_etc);
        push_bytes(out, &u16_le_bytes(self.alg_supported));
    }
}

/// The algorithm structures in `slice`. A remainder of fewer than four bytes
/// is not one.
pub open spec fn alg_structs(slice: Seq<u8>) -> Seq<AlgStructEntry> {
    Seq::new(
        slice.len() / 4,
        |i: int| AlgStructEntry::of_bytes(slice.subrange(4 * i, 4 * i + 4)),
    )
}

/// Whether each structure is valid and their types increase strictly.
pub open spec fn alg_structs_valid(entries: Seq<AlgStructEntry>) -> bool {
    &&& forall|i: int| 0 <= i < entries.len() ==> (#[trigger] entries[i]).is_valid()
    &&& forall|i: int, j: int|
        0 <= i < j < entries.len() ==> (#[trigger] entries[i]).alg_type < (
        #[trigger] entries[j]).alg_type
}

/// What the structure of type `alg_type` names; 0 if there is none.
pub open spec fn offered(entries: Seq<AlgStructEntry>, alg_type: u8) -> u16
    decreases entries.len(),
{
    if entries.len() == 0 {
        0
    } else if entries.last().alg_type == alg_type {
        entries.last().alg_supported
    } else {
        offered(entries.drop_last(), alg_type)
    }
}

/// What the peer offers in the families that the responder uses.
#[derive(Clone, Copy, Debug, PartialEq, Eq, Structural)]
pub struct PeerAlgs {
    pub dhe: u16,
    pub aead: u16,
    pub key_schedule: u16,
}

impl PeerAlgs {
    /// What `entries` offer.
    pub open spec fn of(entries: Seq<AlgStructEntry>) -> PeerAlgs {
        PeerAlgs {
            dhe: offered(entries, ALG_TYPE_DHE),
            aead: offered(entries, ALG_TYPE_AEAD),
            key_schedule: offered(entries, ALG_TYPE_KEY_SCHEDULE),
        }
    }
}

/// Checks the fixed part of a request and finds its algorithm structures.
///
/// `body` is the request behind the common header.
pub fn locate_alg_structs<'a>(
    version: SpdmVersion,
    fixed: &NegotiateAlgorithmsReqBodyFixed,
    body: &'a [u8],
) -> (r: Result<&'a [u8], SpdmError>)
    ensures
        if fixed.is_valid(version, body@.len()) {
            r matches Ok(s) && s@ == body@.subrange(
                fixed.alg_structs_start(),
                fixed.alg_structs_end(),
            )
        } else {
            r == Err::<&'a [u8], SpdmError>(SpdmError::InvalidRequest)
        },
{
    if fixed.param2 != 0 || fixed.reserved1_low != 0 || fixed.reserved1_high != 0
        || fixed.reserved2 != 0 {
        return Err(SpdmError::InvalidRequest);
    }
    if version.at_least(SpdmVersion::V14) {
        if fixed.pqc_asym_algo & !PQC_ASYM_DEFINED != 0 {
            return Err(SpdmError::InvalidRequest);
        }
    } else if fixed.pqc_asym_algo != 0 {
        return Err(SpdmError::InvalidRequest);
    }
    if fixed.length > MAX_REQUEST_LENGTH || (fixed.length as usize) < SPDM_MSG_HDR_SIZE {
        return Err(SpdmError::InvalidRequest);
    }
    let body_len: usize = fixed.length as usize - SPDM_MSG_HDR_SIZE;
    if body_len > body.len() {
        return Err(SpdmError::InvalidRequest);
    }
    let ext_bytes: usize = (fixed.ext_asym_count as usize + fixed.ext_hash_count as usize) * 4;
    let after_ext: usize = REQ_BODY_FIXED_SIZE + ext_bytes;
    let alg_bytes: usize = fixed.num_alg_struct as usize * ALG_STRUCT_SIZE;
    if after_ext + alg_bytes != body_len {
        return Err(SpdmError::InvalidRequest);
    }
    Ok(slice_subrange(body, after_ext, after_ext + alg_bytes))
}

/// Reads the algorithm structures in `slice`.
pub fn parse_peer_algs(slice: &[u8]) -> (r: Result<PeerAlgs, SpdmError>)
    ensures
        r == (if alg_structs_valid(alg_structs(slice@)) {
            Ok::<PeerAlgs, SpdmError>(PeerAlgs::of(alg_structs(slice@)))
        } else {
            Err::<PeerAlgs, SpdmError>(SpdmError::InvalidRequest)
        }),
{
    let ghost all = alg_structs(slice@);
    let count: usize = slice.len() / ALG_STRUCT_SIZE;
    let mut peer = PeerAlgs { dhe: 0, aead: 0, key_schedule: 0 };
    let mut prev_alg_type: u8 = 0;
    let mut i: usize = 0;
    while i < count
        invariant
            i <= count,
            count == slice@.len() / 4,
            4 * count <= slice@.len() <= usize::MAX,
            all == alg_structs(slice@),
            alg_structs_valid(all.take(i as int)),
            peer == PeerAlgs::of(all.take(i as int)),
            i > 0 ==> prev_alg_type == all[i - 1].alg_type,
        decreases count - i,
    {
        let chunk = slice_subrange(slice, i * ALG_STRUCT_SIZE, (i + 1) * ALG_STRUCT_SIZE);
        let entry = match array_exact::<4>(chunk) {
            Some(a) => AlgStructEntry::decode(a),
            None => {
                return Err(SpdmError::InvalidRequest);
            },
        };
        let ghost upto = all.take(i + 1);
        assert(upto.drop_last() =~= all.take(i as int));
        if i > 0 && entry.alg_type <= prev_alg_type {
            assert(!(all[i - 1].alg_type < all[i as int].alg_type));
            return Err(SpdmError::InvalidRequest);
        }
        prev_alg_type = entry.alg_type;

        let counts = entry.alg_count_etc;
        assert(counts >> 4 == 2 && counts & 0x0F == 0 <==> counts == 0x20) by (bit_vector);
        let fixed_count: u8 = entry.alg_count_etc >> 4;
        let ext_count: u8 = entry.alg_count_etc & 0x0F;
        if fixed_count != 2 || ext_count != 0 || entry.alg_supported == 0 {
            assert(!all[i as int].is_valid());
            return Err(SpdmError::InvalidRequest);
        }
        match entry.alg_type {
            ALG_TYPE_DHE => {
                peer.dhe = entry.alg_supported;
            },
            ALG_TYPE_AEAD => {
                peer.aead = entry.alg_supported;
            },
            ALG_TYPE_KEY_SCHEDULE => {
                peer.key_schedule = entry.alg_supported;
            },
            _ => {},
        }
        i += 1;
    }
    assert(all.take(count as int) =~= all);
    Ok(peer)
}

/// Whether both sides' `MULTI_KEY_CAP` fields allow a multi-key connection:
/// each says that it can, or always does, use several keys.
pub open spec fn multi_key_allowed(local: u32, peer: u32) -> bool {
    1 <= multi_key(local) <= 2 && 1 <= multi_key(peer) <= 2
}

/// Whether both sides' capability flags allow a multi-key connection.
pub fn multi_key_cap_allows_connection(local: u32, peer: u32) -> (r: bool)
    ensures
        r == multi_key_allowed(local, peer),
{
    let l = multi_key_field(local);
    let p = multi_key_field(peer);
    (l == 1 || l == 2) && (p == 1 || p == 2)
}

/// What an `ALGORITHMS` response says. A bitmap is 0 where nothing is
/// selected.
#[derive(Clone, Copy, Debug, PartialEq, Eq, Structural)]
pub struct AlgorithmsRsp {
    pub measurement_spec_sel: u8,
    pub other_param_support: u8,
    pub meas_hash_algo: u32,
    pub base_asym_sel: u32,
    pub base_hash_sel: u32,
    pub pqc_asym_sel: u32,
    pub dhe: u16,
    pub aead: u16,
    pub key_schedule: u16,
}

/// The structure of type `alg_type` for `bits`; none where nothing is selected.
pub open spec fn selected_struct(alg_type: u8, bits: u16) -> Seq<u8> {
    if bits == 0 {
        Seq::empty()
    } else {
        AlgStructEntry {
            alg_type,
            alg_count_etc: FIXED_ALG_COUNT_ETC,
            alg_supported: bits,
        }.bytes()
    }
}

impl AlgorithmsRsp {
    /// The algorithm structures of the response.
    pub open spec fn tail(self) -> Seq<u8> {
        selected_struct(ALG_TYPE_DHE, self.dhe) + selected_struct(ALG_TYPE_AEAD, self.aead)
            + selected_struct(ALG_TYPE_KEY_SCHEDULE, self.key_schedule)
    }

    /// Size of the encoded response.
    pub open spec fn size(self) -> nat {
        RSP_FIXED_SIZE as nat + self.tail().len()
    }

    /// The encoded response: common header, number of structures, a zero
    /// parameter and the length, then the selections, zero reserved and
    /// extended fields, and the structures.
    pub open spec fn bytes(self, version: SpdmVersion) -> Seq<u8> {
        seq![version.byte(), ALGORITHMS, (self.tail().len() / 4) as u8, 0] + le16_bytes(
            self.size() as u16,
        ) + seq![self.measurement_spec_sel, self.other_param_support] + le32_bytes(
            self.meas_hash_algo,
        ) + le32_bytes(self.base_asym_sel) + le32_bytes(self.base_hash_sel) + le32_bytes(
            self.pqc_asym_sel,
        ) + zeros(12) + self.tail()
    }

    /// Number of algorithm structures in the response.
    fn alg_struct_count(&self) -> (r: u8)
        ensures
            r == self.tail().len() / 4,
            r <= 3,
            self.tail().len() == 4 * r,
    {
        let mut n: u8 = 0;
        if self.dhe != 0 {
            n += 1;
        }
        if self.aead != 0 {
            n += 1;
        }
        if self.key_schedule != 0 {
            n += 1;
        }
        n
    }

    /// Size of the encoded response.
    pub fn encoded_size(&self) -> (r: usize)
        ensures
            r == self.size(),
            r <= RSP_FIXED_SIZE + 12,
    {
        RSP_FIXED_SIZE + ALG_STRUCT_SIZE * self.alg_struct_count() as usize
    }

    /// Encodes the response.
    pub fn encode(&self, version: SpdmVersion) -> (r: Vec<u8>)
        ensures
            r@ == self.bytes(version),
            r@.len() == self.size(),
    {
        let size: usize = self.encoded_size();
        let mut out: Vec<u8> = Vec::new();
        out.push(version.to_u8());
        out.push(ALGORITHMS);
        out.push(self.alg_struct_count());
        out.push(0);
        push_bytes(&mut out, &u16_le_bytes(size as u16));
        out.push(self.measurement_spec_sel);
        out.push(self.other_param_support);
        push_bytes(&mut out, &u32_le_bytes(self.meas_hash_algo));
        push_bytes(&mut out, &u32_le_bytes(self.base_asym_sel));
        push_bytes(&mut out, &u32_le_bytes(self.base_hash_sel));
        push_bytes(&mut out, &u32_le_bytes(self.pqc_asym_sel));
        push_zeros(&mut out, 12);
        if self.dhe != 0 {
            AlgStructEntry::new(ALG_TYPE_DHE, self.dhe).encode(&mut out);
        }
        if self.aead != 0 {
            AlgStructEntry::new(ALG_TYPE_AEAD, self.aead).encode(&mut out);
        }
        if self.key_schedule != 0 {
            AlgStructEntry::new(ALG_TYPE_KEY_SCHEDULE, self.key_schedule).encode(&mut out);
        }
        out
    }
}

/// What the responder selects: in each family what its policy and the offer
/// have in common.
///
/// The measurement hash is the responder's choice alone. No PQC algorithm is
/// selected. Multi-key connections need V1.3 and both sides' consent; session
/// algorithms need secure messages.
pub open spec fn selection(
    state: ConnectionState,
    fixed: NegotiateAlgorithmsReqBodyFixed,
    peer: PeerAlgs,
    secure: bool,
) -> AlgorithmsRsp {
    let common = state.other_param_support & fixed.other_param_support;
    AlgorithmsRsp {
        measurement_spec_sel: state.measurement_spec & fixed.measurement_spec,
        other_param_support: if state.version.from_on(SpdmVersion::V13) && multi_key_allowed(
            state.advertised_cap_flags,
            state.peer_cap_flags,
        ) {
            common
        } else {
            common & !OTHER_PARAM_MULTI_KEY_CONN
        },
        meas_hash_algo: state.meas_hash_algo,
        base_asym_sel: state.base_asym_sel & fixed.base_asym_algo,
        base_hash_sel: state.base_hash_sel & fixed.base_hash_algo,
        pqc_asym_sel: 0,
        dhe: if secure {
            state.dhe & peer.dhe
        } else {
            0
        },
        aead: if secure {
            state.aead & peer.aead
        } else {
            0
        },
        key_schedule: if secure {
            state.key_schedule & peer.key_schedule
        } else {
            0
        },
    }
}

/// Selects the algorithms of the connection.
pub fn build_response_body(
    state: &ConnectionState,
    fixed: &NegotiateAlgorithmsReqBodyFixed,
    peer: &PeerAlgs,
    secure_message_supported: bool,
) -> (r: AlgorithmsRsp)
    ensures
        r == selection(*state, *fixed, *peer, secure_message_supported),
{
    let mut other_param_support: u8 = state.other_param_support & fixed.other_param_support;
    let (dhe, aead, key_schedule) = if secure_message_supported {
        (state.dhe & peer.dhe, state.aead & peer.aead, state.key_schedule & peer.key_schedule)
    } else {
        (0, 0, 0)
    };
    if !state.version.at_least(SpdmVersion::V13) || !multi_key_cap_allows_connection(
        state.advertised_cap_flags,
        state.peer_cap_flags,
    ) {
        other_param_support = other_param_support & !OTHER_PARAM_MULTI_KEY_CONN;
    }
    AlgorithmsRsp {
        measurement_spec_sel: state.measurement_spec & fixed.measurement_spec,
        other_param_support,
        meas_hash_algo: state.meas_hash_algo,
        base_asym_sel: state.base_asym_sel & fixed.base_asym_algo,
        base_hash_sel: state.base_hash_sel & fixed.base_hash_algo,
        pqc_asym_sel: 0,
        dhe,
        aead,
        key_schedule,
    }
}

/// The body of the request.
pub open spec fn request_body(request: Seq<u8>) -> Seq<u8> {
    request.subrange(SPDM_MSG_HDR_SIZE as int, request.len() as int)
}

/// The fixed part of the request.
pub open spec fn request_fixed(request: Seq<u8>) -> NegotiateAlgorithmsReqBodyFixed {
    NegotiateAlgorithmsReqBodyFixed::of_bytes(request_body(request).subrange(0, 30))
}

/// The algorithm structures of the request.
pub open spec fn request_alg_structs(request: Seq<u8>) -> Seq<AlgStructEntry> {
    let fixed = request_fixed(request);
    alg_structs(
        request_body(request).subrange(fixed.alg_structs_start(), fixed.alg_structs_end()),
    )
}

/// Why the responder refuses `request` in `state`; `None` if it does not.
pub open spec fn rejection(state: ConnectionState, request: Seq<u8>) -> Option<SpdmError> {
    if state.phase != Phase::AfterCapabilities {
        Some(SpdmError::UnexpectedRequest)
    } else if request.len() < SPDM_MSG_HDR_SIZE {
        Some(SpdmError::InvalidRequest)
    } else if request[0] != state.version.byte() {
        Some(SpdmError::VersionMismatch)
    } else if request_body(request).len() < REQ_BODY_FIXED_SIZE {
        Some(SpdmError::InvalidRequest)
    } else if !request_fixed(request).is_valid(state.version, request_body(request).len()) {
        Some(SpdmError::InvalidRequest)
    } else if !alg_structs_valid(request_alg_structs(request)) {
        Some(SpdmError::InvalidRequest)
    } else {
        None
    }
}

/// What the responder answers to an accepted request.
pub open spec fn answer(state: ConnectionState, pal: PalLimits, request: Seq<u8>) -> AlgorithmsRsp {
    selection(
        state,
        request_fixed(request),
        PeerAlgs::of(request_alg_structs(request)),
        pal.secure_message_supported,
    )
}

/// The connection after an accepted request, before the transcript has it.
pub open spec fn negotiated(
    state: ConnectionState,
    pal: PalLimits,
    request: Seq<u8>,
) -> ConnectionState {
    let rsp = answer(state, pal, request);
    ConnectionState {
        other_param_sel: rsp.other_param_support,
        negotiated_base_asym_sel: rsp.base_asym_sel,
        negotiated_base_hash_sel: rsp.base_hash_sel,
        ..state
    }
}

/// Handles a `NEGOTIATE_ALGORITHMS` request.
///
/// An accepted request updates the connection and gives the exchange that
/// takes it to `AfterAlgorithms`. A refused one changes nothing.
pub fn handle_negotiate_algorithms(
    state: &mut ConnectionState,
    pal: &PalLimits,
    request: &[u8],
) -> (r: Result<Exchange, SpdmError>)
    ensures
        match rejection(*old(state), request@) {
            Some(e) => r == Err::<Exchange, SpdmError>(e) && *final(state) == *old(state),
            None => {
                &&& *final(state) == negotiated(*old(state), *pal, request@)
                &&& r matches Ok(ex)
                &&& ex.request@ == request@
                &&& ex.response@ == answer(*old(state), *pal, request@).bytes(old(state).version)
                &&& ex.phase_after == Phase::AfterAlgorithms
                &&& ex.stage == ExchangeStage::AppendRequest
            },
        },
{
    match state.phase {
        Phase::AfterCapabilities => {},
        _ => {
            return Err(SpdmError::UnexpectedRequest);
        },
    }
    let (hdr, body) = match array_prefix::<2>(request) {
        Some(parts) => parts,
        None => {
            return Err(SpdmError::InvalidRequest);
        },
    };
    if hdr[0] != state.version.to_u8() {
        return Err(SpdmError::VersionMismatch);
    }
    if body.len() < REQ_BODY_FIXED_SIZE {
        return Err(SpdmError::InvalidRequest);
    }
    let fixed = match array_exact::<30>(slice_subrange(body, 0, REQ_BODY_FIXED_SIZE)) {
        Some(a) => NegotiateAlgorithmsReqBodyFixed::decode(a),
        None => {
            return Err(SpdmError::InvalidRequest);
        },
    };
    let slice = match locate_alg_structs(state.version, &fixed, body) {
        Ok(slice) => slice,
        Err(e) => {
            return Err(e);
        },
    };
    let peer = match parse_peer_algs(slice) {
        Ok(peer) => peer,
        Err(e) => {
            return Err(e);
        },
    };
    let rsp = build_response_body(state, &fixed, &peer, pal.secure_message_supported);
    state.other_param_sel = rsp.other_param_support;
    state.negotiated_base_asym_sel = rsp.base_asym_sel;
    state.negotiated_base_hash_sel = rsp.base_hash_sel;
    let response = rsp.encode(state.version);
    Ok(Exchange::new(request, response, Phase::AfterAlgorithms))
}

/// Decoding a structure's encoding gives the structure back.
pub proof fn law_alg_struct_reads_back(entry: AlgStructEntry)
    ensures
        entry.bytes().len() == ALG_STRUCT_SIZE,
        AlgStructEntry::of_bytes(entry.bytes()) == entry,
{
    law_integer_bytes_round_trip(entry.alg_supported, 0);
}

/// In a valid list each structure's algorithms are what the list offers for
/// its type, and nothing is offered for a type that does not occur.
pub proof fn law_offered_by_type(entries: Seq<AlgStructEntry>, alg_type: u8)
    requires
        alg_structs_valid(entries),
    ensures
        forall|i: int|
            0 <= i < entries.len() && (#[trigger] entries[i]).alg_type == alg_type ==> offered(
                entries,
                alg_type,
            ) == entries[i].alg_supported,
        offered(entries, alg_type) == 0 <==> (forall|i: int|
            0 <= i < entries.len() ==> (#[trigger] entries[i]).alg_type != alg_type),
    decreases entries.len(),
{
    if entries.len() > 0 {
        let front = entries.drop_last();
        let n = entries.len() - 1;
        law_offered_by_type(front, alg_type);
        assert forall|i: int|
            0 <= i < entries.len() && (#[trigger] entries[i]).alg_type == alg_type implies offered(
            entries,
            alg_type,
        ) == entries[i].alg_supported by {
            if i < n {
                assert(front[i] == entries[i]);
            }
        }
    }
}

/// Everything that the responder selects is both in its own policy and in the
/// peer's offer; the measurement hash, for which there is no offer, is the
/// policy's.
pub proof fn law_selection_is_common(
    state: ConnectionState,
    fixed: NegotiateAlgorithmsReqBodyFixed,
    peer: PeerAlgs,
    secure: bool,
)
    ensures
        ({
            let rsp = selection(state, fixed, peer, secure);
            &&& rsp.measurement_spec_sel & !state.measurement_spec == 0
            &&& rsp.measurement_spec_sel & !fixed.measurement_spec == 0
            &&& rsp.other_param_support & !state.other_param_support == 0
            &&& rsp.other_param_support & !fixed.other_param_support == 0
            &&& rsp.base_asym_sel & !state.base_asym_sel == 0
            &&& rsp.base_asym_sel & !fixed.base_asym_algo == 0
            &&& rsp.base_hash_sel & !state.base_hash_sel == 0
            &&& rsp.base_hash_sel & !fixed.base_hash_algo == 0
            &&& rsp.dhe & !state.dhe == 0
            &&& rsp.dhe & !peer.dhe == 0
            &&& rsp.aead & !state.aead == 0
            &&& rsp.aead & !peer.aead == 0
            &&& rsp.key_schedule & !state.key_schedule == 0
            &&& rsp.key_schedule & !peer.key_schedule == 0
            &&& rsp.meas_hash_algo == state.meas_hash_algo
        }),
{
    lemma_common_u8(state.measurement_spec, fixed.measurement_spec);
    lemma_common_u8(state.other_param_support, fixed.other_param_support);
    lemma_common_u32(state.base_asym_sel, fixed.base_asym_algo);
    lemma_common_u32(state.base_hash_sel, fixed.base_hash_algo);
    lemma_common_u16(state.dhe, peer.dhe);
    lemma_common_u16(state.aead, peer.aead);
    lemma_common_u16(state.key_schedule, peer.key_schedule);
}

/// At most one bit of `x` is set.
pub open spec fn single_u8(x: u8) -> bool {
    x == 0 || exists|i: u8| i < 8 && x == 1u8 << i
}

/// At most one bit of `x` is set.
pub open spec fn single_u16(x: u16) -> bool {
    x == 0 || exists|i: u16| i < 16 && x == 1u16 << i
}

/// At most one bit of `x` is set.
pub open spec fn single_u32(x: u32) -> bool {
    x == 0 || exists|i: u32| i < 32 && x == 1u32 << i
}

/// With a policy of at most one algorithm per family, the responder selects
/// that algorithm or nothing.
pub proof fn law_at_most_one_per_family(
    state: ConnectionState,
    fixed: NegotiateAlgorithmsReqBodyFixed,
    peer: PeerAlgs,
    secure: bool,
)
    requires
        single_u8(state.measurement_spec),
        single_u32(state.base_asym_sel),
        single_u32(state.base_hash_sel),
        single_u16(state.dhe),
        single_u16(state.aead),
        single_u16(state.key_schedule),
    ensures
        ({
            let rsp = selection(state, fixed, peer, secure);
            &&& rsp.measurement_spec_sel == 0 || rsp.measurement_spec_sel == state.measurement_spec
            &&& rsp.base_asym_sel == 0 || rsp.base_asym_sel == state.base_asym_sel
            &&& rsp.base_hash_sel == 0 || rsp.base_hash_sel == state.base_hash_sel
            &&& rsp.dhe == 0 || rsp.dhe == state.dhe
            &&& rsp.aead == 0 || rsp.aead == state.aead
            &&& rsp.key_schedule == 0 || rsp.key_schedule == state.key_schedule
        }),
{
    lemma_single_u8(state.measurement_spec, fixed.measurement_spec);
    lemma_single_u32(state.base_asym_sel, fixed.base_asym_algo);
    lemma_single_u32(state.base_hash_sel, fixed.base_hash_algo);
    lemma_single_u16(state.dhe, peer.dhe);
    lemma_single_u16(state.aead, peer.aead);
    lemma_single_u16(state.key_schedule, peer.key_schedule);
}

/// A multi-key connection is never selected before V1.3, nor where one side
/// does not allow it.
pub proof fn law_multi_key_needs_consent(
    state: ConnectionState,
    fixed: NegotiateAlgorithmsReqBodyFixed,
    peer: PeerAlgs,
    secure: bool,
)
    requires
        !state.version.from_on(SpdmVersion::V13) || !multi_key_allowed(
            state.advertised_cap_flags,
            state.peer_cap_flags,
        ),
    ensures
        selection(state, fixed, peer, secure).other_param_support & OTHER_PARAM_MULTI_KEY_CONN == 0,
{
    let common = state.other_param_support & fixed.other_param_support;
    assert((common & !0x10u8) & 0x10u8 == 0) by (bit_vector);
}

/// The structures of a response form a valid list that offers exactly the
/// selected session algorithms. None is of another type, such as that of
/// requester signatures.
pub proof fn law_response_tail_reads_back(rsp: AlgorithmsRsp, alg_type: u8)
    ensures
        alg_structs_valid(alg_structs(rsp.tail())),
        PeerAlgs::of(alg_structs(rsp.tail())) == (PeerAlgs {
            dhe: rsp.dhe,
            aead: rsp.aead,
            key_schedule: rsp.key_schedule,
        }),
        alg_type != ALG_TYPE_DHE && alg_type != ALG_TYPE_AEAD && alg_type != ALG_TYPE_KEY_SCHEDULE
            ==> offered(alg_structs(rsp.tail()), alg_type) == 0,
{
    let d = AlgStructEntry {
        alg_type: ALG_TYPE_DHE,
        alg_count_etc: FIXED_ALG_COUNT_ETC,
        alg_supported: rsp.dhe,
    };
    let a = AlgStructEntry {
        alg_type: ALG_TYPE_AEAD,
        alg_count_etc: FIXED_ALG_COUNT_ETC,
        alg_supported: rsp.aead,
    };
    let k = AlgStructEntry {
        alg_type: ALG_TYPE_KEY_SCHEDULE,
        alg_count_etc: FIXED_ALG_COUNT_ETC,
        alg_supported: rsp.key_schedule,
    };
    let t1 = selected_struct(ALG_TYPE_DHE, rsp.dhe);
    let t2 = t1 + selected_struct(ALG_TYPE_AEAD, rsp.aead);
    if rsp.dhe != 0 {
        lemma_alg_structs_push(Seq::empty(), d);
    }
    lemma_alg_structs_push(t1, a);
    lemma_alg_structs_push(t2, k);
    reveal_with_fuel(offered, 4);
}

/// The length field of a response is its length, and the count field is the
/// number of its structures.
pub proof fn law_response_length(rsp: AlgorithmsRsp, version: SpdmVersion)
    ensures
        rsp.bytes(version).len() == rsp.size(),
        le16(rsp.bytes(version).subrange(4, 6)) == rsp.bytes(version).len(),
        rsp.bytes(version)[2] == alg_structs(rsp.tail()).len(),
        rsp.bytes(version).len() == RSP_FIXED_SIZE + 4 * rsp.bytes(version)[2],
        rsp.bytes(version).subrange(RSP_FIXED_SIZE as int, rsp.size() as int) == rsp.tail(),
{
    law_integer_bytes_round_trip(rsp.size() as u16, 0);
}

/// Bytes behind an accepted request have no influence on how it is answered.
pub proof fn law_trailing_bytes_are_ignored(
    state: ConnectionState,
    pal: PalLimits,
    request: Seq<u8>,
    extra: Seq<u8>,
)
    requires
        rejection(state, request) is None,
    ensures
        rejection(state, request + extra) is None,
        answer(state, pal, request + extra) == answer(state, pal, request),
        negotiated(state, pal, request + extra) == negotiated(state, pal, request),
{
    let longer = request + extra;
    let fixed = request_fixed(request);
    assert(request_body(longer).subrange(fixed.alg_structs_start(), fixed.alg_structs_end())
        =~= request_body(request).subrange(fixed.alg_structs_start(), fixed.alg_structs_end()));
}

/// Appending one structure's encoding appends the structure.
proof fn lemma_alg_structs_push(front: Seq<u8>, entry: AlgStructEntry)
    requires
        front.len() % 4 == 0,
    ensures
        alg_structs(front + entry.bytes()) == alg_structs(front).push(entry),
{
    let whole = front + entry.bytes();
    law_alg_struct_reads_back(entry);
    assert(alg_structs(whole) =~= alg_structs(front).push(entry));
}

proof fn lemma_common_u8(a: u8, b: u8)
    ensures
        (a & b) & !a == 0,
        (a & b) & !b == 0,
        ((a & b) & !OTHER_PARAM_MULTI_KEY_CONN) & !a == 0,
        ((a & b) & !OTHER_PARAM_MULTI_KEY_CONN) & !b == 0,
{
    assert((a & b) & !a == 0 && (a & b) & !b == 0 && ((a & b) & !0x10u8) & !a == 0 && ((a & b)
        & !0x10u8) & !b == 0) by (bit_vector);
}

proof fn lemma_common_u16(a: u16, b: u16)
    ensures
        (a & b) & !a == 0,
        (a & b) & !b == 0,
        0u16 & !a == 0,
        0u16 & !b == 0,
{
    assert((a & b) & !a == 0 && (a & b) & !b == 0 && 0u16 & !a == 0 && 0u16 & !b == 0)
        by (bit_vector);
}

proof fn lemma_common_u32(a: u32, b: u32)
    ensures
        (a & b) & !a == 0,
        (a & b) & !b == 0,
{
    assert((a & b) & !a == 0 && (a & b) & !b == 0) by (bit_vector);
}

proof fn lemma_single_u8(a: u8, b: u8)
    requires
        single_u8(a),
    ensures
        a & b == 0 || a & b == a,
{
    if a == 0 {
        assert(0u8 & b == 0) by (bit_vector);
    } else {
        let i = choose|i: u8| i < 8 && a == 1u8 << i;
        assert((1u8 << i) & b == 0 || (1u8 << i) & b == 1u8 << i) by (bit_vector)
            requires
                i < 8,
        ;
    }
}

proof fn lemma_single_u16(a: u16, b: u16)
    requires
        single_u16(a),
    ensures
        a & b == 0 || a & b == a,
{
    if a == 0 {
        assert(0u16 & b == 0) by (bit_vector);
    } else {
        let i = choose|i: u16| i < 16 && a == 1u16 << i;
        assert((1u16 << i) & b == 0 || (1u16 << i) & b == 1u16 << i) by (bit_vector)
            requires
                i < 16,
        ;
    }
}

proof fn lemma_single_u32(a: u32, b: u32)
    requires
        single_u32(a),
    ensures
        a & b == 0 || a & b == a,
{
    if a == 0 {
        assert(0u32 & b == 0) by (bit_vector);
    } else {
        let i = choose|i: u32| i < 32 && a == 1u32 << i;
        assert((1u32 << i) & b == 0 || (1u32 << i) & b == 1u32 << i) by (bit_vector)
            requires
                i < 32,
        ;
    }
}

/// An algorithm is selected exactly if it is in the policy and in the offer,
/// bit by bit. Session algorithms also need secure messages. Of the other
/// parameters, bit 4 asks for a multi-key connection: it also needs V1.3 and a
/// `MULTI_KEY_CAP` field of one or two on both sides.
pub proof fn law_selected_bit_by_bit(
    state: ConnectionState,
    fixed: NegotiateAlgorithmsReqBodyFixed,
    peer: PeerAlgs,
    secure: bool,
    i: u32,
)
    ensures
        ({
            let rsp = selection(state, fixed, peer, secure);
            let own_keys = (state.advertised_cap_flags >> 26u32) & 3;
            let peer_keys = (state.peer_cap_flags >> 26u32) & 3;
            let multi_key = state.version.byte() >= 0x13 && (own_keys == 1 || own_keys == 2) && (
            peer_keys == 1 || peer_keys == 2);
            &&& i < 8 ==> ((rsp.measurement_spec_sel >> i) & 1 == 1 <==> (state.measurement_spec
                >> i) & 1 == 1 && (fixed.measurement_spec >> i) & 1 == 1)
            &&& i < 8 ==> ((rsp.other_param_support >> i) & 1 == 1 <==> (state.other_param_support
                >> i) & 1 == 1 && (fixed.other_param_support >> i) & 1 == 1 && (i == 4
                ==> multi_key))
            &&& i < 32 ==> ((rsp.base_asym_sel >> i) & 1 == 1 <==> (state.base_asym_sel >> i) & 1
                == 1 && (fixed.base_asym_algo >> i) & 1 == 1)
            &&& i < 32 ==> ((rsp.base_hash_sel >> i) & 1 == 1 <==> (state.base_hash_sel >> i) & 1
                == 1 && (fixed.base_hash_algo >> i) & 1 == 1)
            &&& i < 16 ==> ((rsp.dhe >> i) & 1 == 1 <==> secure && (state.dhe >> i) & 1 == 1 && (
            peer.dhe >> i) & 1 == 1)
            &&& i < 16 ==> ((rsp.aead >> i) & 1 == 1 <==> secure && (state.aead >> i) & 1 == 1 && (
            peer.aead >> i) & 1 == 1)
            &&& i < 16 ==> ((rsp.key_schedule >> i) & 1 == 1 <==> secure && (state.key_schedule
                >> i) & 1 == 1 && (peer.key_schedule >> i) & 1 == 1)
            &&& rsp.meas_hash_algo == state.meas_hash_algo
            &&& rsp.pqc_asym_sel == 0
        }),
{
    lemma_bits_u8(state.measurement_spec, fixed.measurement_spec, i);
    lemma_bits_u8(state.other_param_support, fixed.other_param_support, i);
    lemma_bits_u32(state.base_asym_sel, fixed.base_asym_algo, i);
    lemma_bits_u32(state.base_hash_sel, fixed.base_hash_algo, i);
    lemma_bits_u16(state.dhe, peer.dhe, i);
    lemma_bits_u16(state.aead, peer.aead, i);
    lemma_bits_u16(state.key_schedule, peer.key_schedule, i);
}

/// With a policy of one algorithm per family, that algorithm is selected
/// whenever it is offered, whatever else is offered beside it.
pub proof fn law_offered_policy_is_selected(
    state: ConnectionState,
    fixed: NegotiateAlgorithmsReqBodyFixed,
    peer: PeerAlgs,
    secure: bool,
)
    ensures
        ({
            let rsp = selection(state, fixed, peer, secure);
            &&& fixed.measurement_spec & state.measurement_spec == state.measurement_spec
                ==> rsp.measurement_spec_sel == state.measurement_spec
            &&& fixed.base_asym_algo & state.base_asym_sel == state.base_asym_sel
                ==> rsp.base_asym_sel == state.base_asym_sel
            &&& fixed.base_hash_algo & state.base_hash_sel == state.base_hash_sel
                ==> rsp.base_hash_sel == state.base_hash_sel
            &&& secure && peer.dhe & state.dhe == state.dhe ==> rsp.dhe == state.dhe
            &&& secure && peer.aead & state.aead == state.aead ==> rsp.aead == state.aead
            &&& secure && peer.key_schedule & state.key_schedule == state.key_schedule
                ==> rsp.key_schedule == state.key_schedule
        }),
{
    lemma_bits_u8(state.measurement_spec, fixed.measurement_spec, 0);
    lemma_bits_u32(state.base_asym_sel, fixed.base_asym_algo, 0);
    lemma_bits_u32(state.base_hash_sel, fixed.base_hash_algo, 0);
    lemma_bits_u16(state.dhe, peer.dhe, 0);
    lemma_bits_u16(state.aead, peer.aead, 0);
    lemma_bits_u16(state.key_schedule, peer.key_schedule, 0);
}

proof fn lemma_bits_u8(a: u8, b: u8, i: u32)
    ensures
        a & b == b & a,
        i < 8 ==> (((a & b) >> i) & 1 == 1 <==> (a >> i) & 1 == 1 && (b >> i) & 1 == 1),
        i < 8 ==> ((((a & b) & !OTHER_PARAM_MULTI_KEY_CONN) >> i) & 1 == 1 <==> (a >> i) & 1 == 1
            && (b >> i) & 1 == 1 && i != 4),
{
    assert(a & b == b & a && (i < 8 ==> (((a & b) >> i) & 1 == 1 <==> (a >> i) & 1 == 1 && (b >> i)
        & 1 == 1)) && (i < 8 ==> ((((a & b) & !0x10u8) >> i) & 1 == 1 <==> (a >> i) & 1 == 1 && (b
        >> i) & 1 == 1 && i != 4))) by (bit_vector);
}

proof fn lemma_bits_u16(a: u16, b: u16, i: u32)
    ensures
        a & b == b & a,
        i < 16 ==> (((a & b) >> i) & 1 == 1 <==> (a >> i) & 1 == 1 && (b >> i) & 1 == 1),
        i < 16 ==> (0u16 >> i) & 1 == 0,
{
    assert(a & b == b & a && (i < 16 ==> (((a & b) >> i) & 1 == 1 <==> (a >> i) & 1 == 1 && (b >> i)
        & 1 == 1)) && (i < 16 ==> (0u16 >> i) & 1 == 0)) by (bit_vector);
}

proof fn lemma_bits_u32(a: u32, b: u32, i: u32)
    ensures
        a & b == b & a,
        i < 32 ==> (((a & b) >> i) & 1 == 1 <==> (a >> i) & 1 == 1 && (b >> i) & 1 == 1),
{
    assert(a & b == b & a && (i < 32 ==> (((a & b) >> i) & 1 == 1 <==> (a >> i) & 1 == 1 && (b >> i)
        & 1 == 1))) by (bit_vector);
}

/// Whether the four bytes of the `k`-th structure behind `start` are as they
/// must be: a count byte of 0x20, some algorithm, and a larger type than the
/// structure before.
pub open spec fn structure_keeps_rules(r: Seq<u8>, start: int, k: int) -> bool {
    let at = start + 4 * k;
    &&& r[at + 1] == 0x20
    &&& r[at + 2] != 0 || r[at + 3] != 0
    &&& k > 0 ==> r[at - 4] < r[at]
}

/// Whether all of `n` structures are as they must be.
pub open spec fn structures_keep_rules(r: Seq<u8>, start: int, n: int) -> bool {
    forall|k: int| 0 <= k < n ==> #[trigger] structure_keeps_rules(r, start, k)
}

/// When a request is accepted, byte by byte.
///
/// Byte 2 is the number of structures and bytes 4 and 5 are the length. The
/// bitmaps begin at byte 8 and end with the PQC one at byte 16. Eight reserved
/// bytes and the numbers of extended entries follow, and behind 32 bytes come
/// those entries and the structures, four bytes each.
pub proof fn law_accepted_bytes(state: ConnectionState, r: Seq<u8>)
    requires
        state.phase == Phase::AfterCapabilities,
        r.len() >= 32,
    ensures
        rejection(state, r) is None <==> {
            let start = 32 + 4 * (r[28] + r[29]);
            &&& r[0] == state.version.byte()
            &&& r[3] == 0 && r[30] == 0
            &&& r[20] == 0 && r[21] == 0 && r[22] == 0 && r[23] == 0
            &&& r[24] == 0 && r[25] == 0 && r[26] == 0 && r[27] == 0
            &&& r[18] == 0 && r[19] == 0
            &&& if state.version.byte() >= 0x14 {
                r[17] < 0x80
            } else {
                r[16] == 0 && r[17] == 0
            }
            &&& r[4] + 0x100 * r[5] == start + 4 * r[2]
            &&& start + 4 * r[2] <= 128
            &&& start + 4 * r[2] <= r.len()
            &&& structures_keep_rules(r, start, r[2] as int)
        },
{
    let body = request_body(r);
    let head = body.subrange(0, 30);
    let fixed = request_fixed(r);
    let start = 32 + 4 * (r[28] + r[29]);
    assert(le16(head.subrange(2, 4)) == r[4] + 0x100 * r[5]);
    assert(le32(head.subrange(14, 18)) == r[16] + 0x100 * r[17] + 0x1_0000 * r[18] + 0x100_0000
        * r[19]);
    assert(le32(head.subrange(18, 22)) == r[20] + 0x100 * r[21] + 0x1_0000 * r[22] + 0x100_0000
        * r[23]);
    assert(le32(head.subrange(22, 26)) == r[24] + 0x100 * r[25] + 0x1_0000 * r[26] + 0x100_0000
        * r[27]);
    let pqc = fixed.pqc_asym_algo;
    assert(pqc & !0x7FFFu32 == 0 <==> pqc < 0x8000) by (bit_vector);
    let fixed_part_keeps_rules = {
        &&& r[3] == 0 && r[30] == 0
        &&& r[20] == 0 && r[21] == 0 && r[22] == 0 && r[23] == 0
        &&& r[24] == 0 && r[25] == 0 && r[26] == 0 && r[27] == 0
        &&& r[18] == 0 && r[19] == 0
        &&& if state.version.byte() >= 0x14 {
            r[17] < 0x80
        } else {
            r[16] == 0 && r[17] == 0
        }
        &&& r[4] + 0x100 * r[5] == start + 4 * r[2]
        &&& start + 4 * r[2] <= 128
        &&& start + 4 * r[2] <= r.len()
    };
    assert(pqc == r[16] + 0x100 * r[17] + 0x1_0000 * r[18] + 0x100_0000 * r[19]);
    assert(pqc < 0x8000 <==> r[17] < 0x80 && r[18] == 0 && r[19] == 0);
    assert(fixed.is_valid(state.version, body.len()) <==> fixed_part_keeps_rules);
    if fixed.is_valid(state.version, body.len()) {
        let entries = request_alg_structs(r);
        lemma_request_structs(r);
        if alg_structs_valid(entries) {
            assert forall|k: int| 0 <= k < r[2] implies #[trigger] structure_keeps_rules(
                r,
                start,
                k,
            ) by {
                assert(entries[k].is_valid());
                if k > 0 {
                    assert(entries[k - 1].alg_type < entries[k].alg_type);
                }
            }
        }
        if structures_keep_rules(r, start, r[2] as int) {
            assert forall|k: int| 0 <= k < entries.len() implies (#[trigger] entries[k]).is_valid()
                && (k > 0 ==> entries[k - 1].alg_type < entries[k].alg_type) by {
                assert(structure_keeps_rules(r, start, k));
            }
            assert forall|a: int, b: int| 0 <= a < b < entries.len() implies (
            #[trigger] entries[a]).alg_type < (#[trigger] entries[b]).alg_type by {
                lemma_increasing(entries, a, b);
            }
        }
    }
}

/// The structures of a request and where they stand in it.
proof fn lemma_request_structs(r: Seq<u8>)
    requires
        r.len() >= 32,
        32 + 4 * (r[28] + r[29]) + 4 * r[2] <= r.len(),
    ensures
        request_alg_structs(r).len() == r[2],
        forall|k: int|
            0 <= k < r[2] ==> {
                let at = 32 + 4 * (r[28] + r[29]) + 4 * k;
                &&& (#[trigger] request_alg_structs(r)[k]).alg_type == r[at]
                &&& request_alg_structs(r)[k].alg_count_etc == r[at + 1]
                &&& request_alg_structs(r)[k].alg_supported == r[at + 2] + 0x100 * r[at + 3]
            },
{
    let fixed = request_fixed(r);
    let body = request_body(r);
    let slice = body.subrange(fixed.alg_structs_start(), fixed.alg_structs_end());
    assert forall|k: int| 0 <= k < r[2] implies {
        let at = 32 + 4 * (r[28] + r[29]) + 4 * k;
        &&& (#[trigger] request_alg_structs(r)[k]).alg_type == r[at]
        &&& request_alg_structs(r)[k].alg_count_etc == r[at + 1]
        &&& request_alg_structs(r)[k].alg_supported == r[at + 2] + 0x100 * r[at + 3]
    } by {
        let one = slice.subrange(4 * k, 4 * k + 4);
        assert(request_alg_structs(r)[k] == AlgStructEntry::of_bytes(one));
        assert(le16(one.subrange(2, 4)) == one[2] + 0x100 * one[3]);
    }
}

/// Types that increase from one structure to the next increase throughout.
proof fn lemma_increasing(entries: Seq<AlgStructEntry>, a: int, b: int)
    requires
        0 <= a < b < entries.len(),
        forall|k: int|
            0 < k < entries.len() ==> entries[k - 1].alg_type < (#[trigger] entries[k]).alg_type,
    ensures
        entries[a].alg_type < entries[b].alg_type,
    decreases b - a,
{
    assert(entries[b - 1].alg_type < entries[b].alg_type);
    if a < b - 1 {
        lemma_increasing(entries, a, b - 1);
    }
}

/// Which error a refused request gets: in the wrong phase it is unexpected,
/// another version than the connection's is a mismatch, and all else is
/// invalid. What is too short for its fixed part is always refused.
pub proof fn law_refusals(state: ConnectionState, r: Seq<u8>)
    ensures
        rejection(state, r) matches Some(e) ==> e == if state.phase != Phase::AfterCapabilities {
            SpdmError::UnexpectedRequest
        } else if r.len() >= 2 && r[0] != state.version.byte() {
            SpdmError::VersionMismatch
        } else {
            SpdmError::InvalidRequest
        },
        state.phase != Phase::AfterCapabilities || r.len() < 32 ==> rejection(state, r) is Some,
{
}

/// What an accepted request is answered, from its bytes: in each family what the
/// policy and the bitmap at the family's place have in common. The bitmap of a
/// session family is in the structure of its type; without one, nothing is
/// selected.
pub proof fn law_answer_from_bytes(state: ConnectionState, pal: PalLimits, r: Seq<u8>)
    requires
        rejection(state, r) is None,
    ensures
        ({
            let rsp = answer(state, pal, r);
            let after = negotiated(state, pal, r);
            let start = 32 + 4 * (r[28] + r[29]);
            &&& rsp.measurement_spec_sel == state.measurement_spec & r[6]
            &&& rsp.base_asym_sel == state.base_asym_sel & ((r[8] + 0x100 * r[9] + 0x1_0000 * r[10]
                + 0x100_0000 * r[11]) as u32)
            &&& rsp.base_hash_sel == state.base_hash_sel & ((r[12] + 0x100 * r[13] + 0x1_0000
                * r[14] + 0x100_0000 * r[15]) as u32)
            &&& rsp.other_param_support & !r[7] == 0
            &&& pal.secure_message_supported ==> forall|k: int|
                #![trigger r[start + 4 * k]]
                0 <= k < r[2] ==> {
                    let bits = (r[start + 4 * k + 2] + 0x100 * r[start + 4 * k + 3]) as u16;
                    &&& r[start + 4 * k] == 2 ==> rsp.dhe == state.dhe & bits
                    &&& r[start + 4 * k] == 3 ==> rsp.aead == state.aead & bits
                    &&& r[start + 4 * k] == 5 ==> rsp.key_schedule == state.key_schedule & bits
                }
            &&& !pal.secure_message_supported ==> rsp.dhe == 0 && rsp.aead == 0 && rsp.key_schedule
                == 0
            &&& (forall|k: int|
                #![trigger r[start + 4 * k]]
                0 <= k < r[2] ==> r[start + 4 * k] != 2) ==> rsp.dhe == 0
            &&& (forall|k: int|
                #![trigger r[start + 4 * k]]
                0 <= k < r[2] ==> r[start + 4 * k] != 3) ==> rsp.aead == 0
            &&& (forall|k: int|
                #![trigger r[start + 4 * k]]
                0 <= k < r[2] ==> r[start + 4 * k] != 5) ==> rsp.key_schedule == 0
            &&& after.other_param_sel == rsp.other_param_support
            &&& after.negotiated_base_asym_sel == rsp.base_asym_sel
            &&& after.negotiated_base_hash_sel == rsp.base_hash_sel
            &&& after.phase == state.phase && after.version == state.version
            &&& after.peer_cap_flags == state.peer_cap_flags
            &&& after.advertised_cap_flags == state.advertised_cap_flags
            &&& after.peer_data_transfer_size == state.peer_data_transfer_size
            &&& after.peer_max_spdm_msg_size == state.peer_max_spdm_msg_size
        }),
{
    let head = request_body(r).subrange(0, 30);
    let fixed = request_fixed(r);
    let entries = request_alg_structs(r);
    let peer = PeerAlgs::of(entries);
    let start = 32 + 4 * (r[28] + r[29]);
    assert(le32(head.subrange(6, 10)) == r[8] + 0x100 * r[9] + 0x1_0000 * r[10] + 0x100_0000
        * r[11]);
    assert(le32(head.subrange(10, 14)) == r[12] + 0x100 * r[13] + 0x1_0000 * r[14] + 0x100_0000
        * r[15]);
    lemma_request_structs(r);
    law_offered_by_type(entries, 2);
    law_offered_by_type(entries, 3);
    law_offered_by_type(entries, 5);
    law_selection_is_common(state, fixed, peer, pal.secure_message_supported);
    assert forall|k: int|
        #![trigger r[start + 4 * k]]
        0 <= k < r[2] implies r[start + 4 * k] == entries[k].alg_type && entries[k].alg_supported
        == r[start + 4 * k + 2] + 0x100 * r[start + 4 * k + 3] by {}
    lemma_nothing_in_common(state.dhe);
    lemma_nothing_in_common(state.aead);
    lemma_nothing_in_common(state.key_schedule);
    lemma_absent_type(r, 2);
    lemma_absent_type(r, 3);
    lemma_absent_type(r, 5);
}

proof fn lemma_nothing_in_common(a: u16)
    ensures
        a & 0 == 0,
{
    assert(a & 0 == 0) by (bit_vector);
}

/// A type that no structure of a request has is in none of its entries.
proof fn lemma_absent_type(r: Seq<u8>, alg_type: u8)
    requires
        r.len() >= 32,
        32 + 4 * (r[28] + r[29]) + 4 * r[2] <= r.len(),
        alg_structs_valid(request_alg_structs(r)),
    ensures
        (forall|k: int|
            #![trigger r[32 + 4 * (r[28] + r[29]) + 4 * k]]
            0 <= k < r[2] ==> r[32 + 4 * (r[28] + r[29]) + 4 * k] != alg_type) ==> offered(
            request_alg_structs(r),
            alg_type,
        ) == 0,
{
    let start = 32 + 4 * (r[28] + r[29]);
    let entries = request_alg_structs(r);
    lemma_request_structs(r);
    law_offered_by_type(entries, alg_type);
    if forall|k: int| #![trigger r[start + 4 * k]] 0 <= k < r[2] ==> r[start + 4 * k] != alg_type {
        assert forall|k: int| 0 <= k < entries.len() implies (#[trigger] entries[k]).alg_type
            != alg_type by {
            assert(r[start + 4 * k] != alg_type);
        }
    }
}

/// Where each fixed field of a response stands.
pub proof fn law_response_bytes(rsp: AlgorithmsRsp, version: SpdmVersion)
    ensures
        ({
            let b = rsp.bytes(version);
            &&& b.len() == 36 + rsp.tail().len()
            &&& b[0] == version.byte() && b[1] == 0x63 && 4 * b[2] == rsp.tail().len() && b[3] == 0
            &&& b[4] + 0x100 * b[5] == b.len()
            &&& b[6] == rsp.measurement_spec_sel && b[7] == rsp.other_param_support
            &&& b[8] + 0x100 * b[9] + 0x1_0000 * b[10] + 0x100_0000 * b[11] == rsp.meas_hash_algo
            &&& b[12] + 0x100 * b[13] + 0x1_0000 * b[14] + 0x100_0000 * b[15] == rsp.base_asym_sel
            &&& b[16] + 0x100 * b[17] + 0x1_0000 * b[18] + 0x100_0000 * b[19] == rsp.base_hash_sel
            &&& b[20] + 0x100 * b[21] + 0x1_0000 * b[22] + 0x100_0000 * b[23] == rsp.pqc_asym_sel
            &&& forall|i: int| 24 <= i < 36 ==> #[trigger] b[i] == 0
            &&& b.skip(36) == rsp.tail()
        }),
{
    let b = rsp.bytes(version);
    law_response_tail_bytes(rsp);
    law_bytes_are_digits(rsp.size() as u16, rsp.meas_hash_algo);
    law_bytes_are_digits(0, rsp.base_asym_sel);
    law_bytes_are_digits(0, rsp.base_hash_sel);
    law_bytes_are_digits(0, rsp.pqc_asym_sel);
    assert(b.subrange(4, 6) =~= le16_bytes(rsp.size() as u16));
    assert(b[4] == b.subrange(4, 6)[0] && b[5] == b.subrange(4, 6)[1]);
    lemma_word_at(b, 8, rsp.meas_hash_algo);
    lemma_word_at(b, 12, rsp.base_asym_sel);
    lemma_word_at(b, 16, rsp.base_hash_sel);
    lemma_word_at(b, 20, rsp.pqc_asym_sel);
    assert(b.skip(36) =~= rsp.tail());
}

/// The structures of a response come in the order DHE, AEAD, key schedule, each
/// only if something is selected of it: its type, the counts of two fixed bytes,
/// and the selection, low byte first.
pub proof fn law_response_tail_bytes(rsp: AlgorithmsRsp)
    ensures
        ({
            let t = rsp.tail();
            let d: int = if rsp.dhe != 0 {
                4
            } else {
                0
            };
            let a: int = if rsp.aead != 0 {
                4
            } else {
                0
            };
            let k: int = if rsp.key_schedule != 0 {
                4
            } else {
                0
            };
            &&& t.len() == d + a + k
            &&& rsp.dhe != 0 ==> t[0] == 2 && t[1] == 0x20 && t[2] + 0x100 * t[3] == rsp.dhe
            &&& rsp.aead != 0 ==> t[d] == 3 && t[d + 1] == 0x20 && t[d + 2] + 0x100 * t[d + 3]
                == rsp.aead
            &&& rsp.key_schedule != 0 ==> t[d + a] == 5 && t[d + a + 1] == 0x20 && t[d + a + 2]
                + 0x100 * t[d + a + 3] == rsp.key_schedule
        }),
{
    law_bytes_are_digits(rsp.dhe, 0);
    law_bytes_are_digits(rsp.aead, 0);
    law_bytes_are_digits(rsp.key_schedule, 0);
}

/// A word that was encoded at a place stands there.
proof fn lemma_word_at(b: Seq<u8>, at: int, x: u32)
    requires
        0 <= at,
        at + 4 <= b.len(),
        b.subrange(at, at + 4) =~= le32_bytes(x),
    ensures
        b[at] + 0x100 * b[at + 1] + 0x1_0000 * b[at + 2] + 0x100_0000 * b[at + 3] == x,
{
    let w = b.subrange(at, at + 4);
    law_bytes_are_digits(0, x);
    assert(b[at] == w[0] && b[at + 1] == w[1] && b[at + 2] == w[2] && b[at + 3] == w[3]);
}

/// Which fixed parts are valid for a body of a given size: reserved fields are
/// zero, the PQC bitmap has no more than its fifteen algorithms, and none before
/// V1.4, and the length is that of the header, the fixed part, the extended
/// entries and the structures, at most 128 and no more than there is.
pub proof fn law_valid_fixed_parts(
    fixed: NegotiateAlgorithmsReqBodyFixed,
    version: SpdmVersion,
    body_len: nat,
)
    ensures
        fixed.is_valid(version, body_len) <==> {
            &&& fixed.param2 == 0 && fixed.reserved2 == 0
            &&& fixed.reserved1_low == 0 && fixed.reserved1_high == 0
            &&& fixed.pqc_asym_algo < 0x8000
            &&& version.byte() < 0x14 ==> fixed.pqc_asym_algo == 0
            &&& fixed.length == 2 + 30 + 4 * (fixed.ext_asym_count + fixed.ext_hash_count
                + fixed.num_alg_struct)
            &&& fixed.length <= 128
            &&& fixed.length - 2 <= body_len
        },
        fixed.alg_structs_start() == 30 + 4 * (fixed.ext_asym_count + fixed.ext_hash_count),
        fixed.alg_structs_end() == fixed.alg_structs_start() + 4 * fixed.num_alg_struct,
{
    let pqc = fixed.pqc_asym_algo;
    assert(pqc & !0x7FFFu32 == 0 <==> pqc < 0x8000) by (bit_vector);
}

/// Structures are read from four bytes each: type, counts, and a little-endian
/// bitmap. Fewer than four bytes at the end are none. A list is valid if each
/// has the counts of two fixed bytes and no extended ones and names something,
/// and if types increase from one to the next.
pub proof fn law_structures_of_bytes(slice: Seq<u8>, k: int)
    ensures
        alg_structs(slice).len() == slice.len() / 4,
        0 <= k < slice.len() / 4 ==> {
            let entry = alg_structs(slice)[k];
            &&& entry.alg_type == slice[4 * k]
            &&& entry.alg_count_etc == slice[4 * k + 1]
            &&& entry.alg_supported == slice[4 * k + 2] + 0x100 * slice[4 * k + 3]
            &&& entry.is_valid() <==> slice[4 * k + 1] == 0x20 && (slice[4 * k + 2] != 0 || slice[4
                * k + 3] != 0)
            &&& alg_structs_valid(alg_structs(slice)) ==> entry.is_valid() && (k > 0 ==> slice[4 * k
                - 4] < slice[4 * k])
        },
        (forall|i: int|
            0 <= i < slice.len() / 4 ==> (#[trigger] alg_structs(slice)[i]).is_valid() && (i > 0
                ==> alg_structs(slice)[i - 1].alg_type < alg_structs(slice)[i].alg_type))
            ==> alg_structs_valid(alg_structs(slice)),
{
    let entries = alg_structs(slice);
    if 0 <= k < slice.len() / 4 {
        let one = slice.subrange(4 * k, 4 * k + 4);
        assert(entries[k] == AlgStructEntry::of_bytes(one));
        assert(le16(one.subrange(2, 4)) == one[2] + 0x100 * one[3]);
        if alg_structs_valid(entries) && k > 0 {
            let before = slice.subrange(4 * (k - 1), 4 * (k - 1) + 4);
            assert(entries[k - 1] == AlgStructEntry::of_bytes(before));
            assert(entries[k - 1].alg_type < entries[k].alg_type);
        }
    }
    if forall|i: int|
        0 <= i < slice.len() / 4 ==> (#[trigger] entries[i]).is_valid() && (i > 0 ==> entries[i
            - 1].alg_type < entries[i].alg_type) {
        assert forall|a: int, b: int| 0 <= a < b < entries.len() implies (
        #[trigger] entries[a]).alg_type < (#[trigger] entries[b]).alg_type by {
            lemma_increasing(entries, a, b);
        }
    }
}

/// A peer offers what its structures of the types 2, 3 and 5 name.
pub proof fn law_offers_by_family(entries: Seq<AlgStructEntry>)
    ensures
        PeerAlgs::of(entries).dhe == offered(entries, 2),
        PeerAlgs::of(entries).aead == offered(entries, 3),
        PeerAlgs::of(entries).key_schedule == offered(entries, 5),
{
}

/// A multi-key connection is allowed exactly if on each side one of bits 26 and
/// 27 is set, and not both; it takes both sides.
pub proof fn law_multi_key_consent(local: u32, peer: u32)
    ensures
        multi_key_allowed(local, peer) <==> {
            &&& ((local >> 26u32) & 1 == 1) != ((local >> 27u32) & 1 == 1)
            &&& ((peer >> 26u32) & 1 == 1) != ((peer >> 27u32) & 1 == 1)
        },
        multi_key_allowed(local, peer) == multi_key_allowed(peer, local),
{
    law_fields_are_two_bits(local);
    law_fields_are_two_bits(peer);
    law_flags_are_bits(local);
    law_flags_are_bits(peer);
    assert(((local >> 26u32) & 1) <= 1 && ((local >> 27u32) & 1) <= 1);
    assert(((peer >> 26u32) & 1) <= 1 && ((peer >> 27u32) & 1) <= 1);
}

/// The fixed part of a request and where its fields stand.
pub proof fn law_fixed_part_bytes(s: Seq<u8>)
    requires
        s.len() >= 30,
    ensures
        ({
            let fixed = NegotiateAlgorithmsReqBodyFixed::of_bytes(s);
            &&& fixed.num_alg_struct == s[0] && fixed.param2 == s[1]
            &&& fixed.length == s[2] + 0x100 * s[3]
            &&& fixed.measurement_spec == s[4] && fixed.other_param_support == s[5]
            &&& fixed.base_asym_algo == s[6] + 0x100 * s[7] + 0x1_0000 * s[8] + 0x100_0000 * s[9]
            &&& fixed.base_hash_algo == s[10] + 0x100 * s[11] + 0x1_0000 * s[12] + 0x100_0000
                * s[13]
            &&& fixed.pqc_asym_algo == s[14] + 0x100 * s[15] + 0x1_0000 * s[16] + 0x100_0000 * s[17]
            &&& fixed.reserved1_low == s[18] + 0x100 * s[19] + 0x1_0000 * s[20] + 0x100_0000 * s[21]
            &&& fixed.reserved1_high == s[22] + 0x100 * s[23] + 0x1_0000 * s[24] + 0x100_0000
                * s[25]
            &&& fixed.ext_asym_count == s[26] && fixed.ext_hash_count == s[27]
            &&& fixed.reserved2 == s[28] && fixed.mel_spec_or_reserved == s[29]
        }),
{
}

} // verus!
