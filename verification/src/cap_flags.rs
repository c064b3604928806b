//! SPDM capability flags: single flags, two-bit fields, and the flags that
//! each protocol version defines for a requester and for a responder.

use crate::codec::SpdmVersion;
use vstd::prelude::*;

verus! {

/// Certificate chains can be read.
pub const CERT: u32 = 0x0000_0002;

/// `CHALLENGE` is supported.
pub const CHAL: u32 = 0x0000_0004;

/// Messages can be encrypted in a session.
pub const ENCRYPT: u32 = 0x0000_0040;

/// Messages can be authenticated in a session.
pub const MAC: u32 = 0x0000_0080;

/// Mutual authentication is supported.
pub const MUT_AUTH: u32 = 0x0000_0100;

/// `KEY_EXCHANGE` is supported.
pub const KEY_EX: u32 = 0x0000_0200;

/// `HEARTBEAT` is supported.
pub const HBEAT: u32 = 0x0000_2000;

/// `KEY_UPDATE` is supported.
pub const KEY_UPD: u32 = 0x0000_4000;

/// The session handshake can run in the clear.
pub const HANDSHAKE_IN_THE_CLEAR: u32 = 0x0000_8000;

/// The public key is provisioned at the peer.
pub const PUB_KEY_ID: u32 = 0x0001_0000;

/// Large messages can be sent in chunks.
pub const CHUNK: u32 = 0x0002_0000;

/// Events can be delivered.
pub const EVENT: u32 = 0x0200_0000;

/// `GET_KEY_PAIR_INFO` is supported.
pub const GET_KEY_PAIR_INFO: u32 = 0x1000_0000;

/// Key pair settings need a reset to take effect.
pub const SET_KEY_PAIR_RESET: u32 = 0x4000_0000;

/// Responses larger than the transfer size can be handled.
pub const LARGE_RESP: u32 = 0x8000_0000;

/// The flags that a responder without secure messages withdraws: `KEY_EX`,
/// `ENCRYPT` and `MAC`.
pub const SECURE_SESSION: u32 = 0x0000_02C0;

/// Requester flags up to V1.2.
pub const REQUESTER_V12_MASK: u32 = 0x0003_FFC6;

/// Requester flags in V1.3.
pub const REQUESTER_V13_MASK: u32 = 0x0EC3_FFC6;

/// Requester flags in V1.4.
pub const REQUESTER_V14_MASK: u32 = 0x8EC3_FFC6;

/// Responder flags up to V1.2.
pub const RESPONDER_V12_MASK: u32 = 0x003F_FFFF;

/// Responder flags in V1.3.
pub const RESPONDER_V13_MASK: u32 = 0x3FFF_FFFF;

/// Responder flags in V1.4.
pub const RESPONDER_V14_MASK: u32 = 0xFFFF_FFFF;

/// Whether all bits of `wanted` are set in `flags`.
pub open spec fn sets(flags: u32, wanted: u32) -> bool {
    flags & wanted == wanted
}

/// The two-bit `PSK_CAP` field.
pub open spec fn psk(flags: u32) -> u32 {
    (flags >> 10) & 3
}

/// The two-bit `EP_INFO_CAP` field.
pub open spec fn ep_info(flags: u32) -> u32 {
    (flags >> 22) & 3
}

/// The two-bit `MULTI_KEY_CAP` field.
pub open spec fn multi_key(flags: u32) -> u32 {
    (flags >> 26) & 3
}

/// Whether bit `i` of `flags` is set.
pub open spec fn bit(flags: u32, i: u32) -> bool {
    (flags >> i) & 1 == 1
}

/// Whether `version` defines bit `i` for a requester.
pub open spec fn requester_defines(version: SpdmVersion, i: u32) -> bool {
    ||| i == 1 || i == 2 || 6 <= i <= 17
    ||| version.from_on(SpdmVersion::V13) && (22 <= i <= 23 || 25 <= i <= 27)
    ||| version.from_on(SpdmVersion::V14) && i == 31
}

/// Whether `version` defines bit `i` for a responder.
pub open spec fn responder_defines(version: SpdmVersion, i: u32) -> bool {
    ||| i < 22
    ||| version.from_on(SpdmVersion::V13) && i < 30
    ||| version.from_on(SpdmVersion::V14) && i < 32
}

/// The flags that `version` defines for a requester.
pub open spec fn requester_mask(version: SpdmVersion) -> u32 {
    match version {
        SpdmVersion::V10 | SpdmVersion::V11 | SpdmVersion::V12 => REQUESTER_V12_MASK,
        SpdmVersion::V13 => REQUESTER_V13_MASK,
        SpdmVersion::V14 => REQUESTER_V14_MASK,
    }
}

/// The flags that `version` defines for a responder.
pub open spec fn responder_mask(version: SpdmVersion) -> u32 {
    match version {
        SpdmVersion::V10 | SpdmVersion::V11 | SpdmVersion::V12 => RESPONDER_V12_MASK,
        SpdmVersion::V13 => RESPONDER_V13_MASK,
        SpdmVersion::V14 => RESPONDER_V14_MASK,
    }
}

/// Whether all bits of `wanted` are set in `flags`.
pub fn contains(flags: u32, wanted: u32) -> (r: bool)
    ensures
        r == sets(flags, wanted),
{
    flags & wanted == wanted
}

/// The two-bit `PSK_CAP` field.
pub fn psk_field(flags: u32) -> (r: u32)
    ensures
        r == psk(flags),
        r < 4,
{
    assert((flags >> 10) & 3 < 4) by (bit_vector);
    (flags >> 10) & 3
}

/// The two-bit `EP_INFO_CAP` field.
pub fn ep_info_field(flags: u32) -> (r: u32)
    ensures
        r == ep_info(flags),
        r < 4,
{
    assert((flags >> 22) & 3 < 4) by (bit_vector);
    (flags >> 22) & 3
}

/// The two-bit `MULTI_KEY_CAP` field.
pub fn multi_key_field(flags: u32) -> (r: u32)
    ensures
        r == multi_key(flags),
        r < 4,
{
    assert((flags >> 26) & 3 < 4) by (bit_vector);
    (flags >> 26) & 3
}

/// The flags that a requester may set in `version`.
pub fn requester_cap_mask(version: SpdmVersion) -> (r: u32)
    ensures
        r == requester_mask(version),
        forall|i: u32| i < 32 ==> (#[trigger] bit(r, i) <==> requester_defines(version, i)),
{
    proof {
        assert forall|i: u32| i < 32 implies (#[trigger] bit(requester_mask(version), i)
            <==> requester_defines(version, i)) by {
            lemma_requester_mask_bits(i);
        }
    }
    match version {
        SpdmVersion::V10 | SpdmVersion::V11 | SpdmVersion::V12 => REQUESTER_V12_MASK,
        SpdmVersion::V13 => REQUESTER_V13_MASK,
        SpdmVersion::V14 => REQUESTER_V14_MASK,
    }
}

/// The flags that a responder may set in `version`.
pub fn responder_cap_mask(version: SpdmVersion) -> (r: u32)
    ensures
        r == responder_mask(version),
        forall|i: u32| i < 32 ==> (#[trigger] bit(r, i) <==> responder_defines(version, i)),
{
    proof {
        assert forall|i: u32| i < 32 implies (#[trigger] bit(responder_mask(version), i)
            <==> responder_defines(version, i)) by {
            lemma_responder_mask_bits(i);
        }
    }
    match version {
        SpdmVersion::V10 | SpdmVersion::V11 | SpdmVersion::V12 => RESPONDER_V12_MASK,
        SpdmVersion::V13 => RESPONDER_V13_MASK,
        SpdmVersion::V14 => RESPONDER_V14_MASK,
    }
}

pub(crate) proof fn lemma_requester_mask_bits(i: u32)
    requires
        i < 32,
    ensures
        bit(REQUESTER_V12_MASK, i) <==> i == 1 || i == 2 || 6 <= i <= 17,
        bit(REQUESTER_V13_MASK, i) <==> i == 1 || i == 2 || 6 <= i <= 17 || 22 <= i <= 23 || 25 <= i
            <= 27,
        bit(REQUESTER_V14_MASK, i) <==> i == 1 || i == 2 || 6 <= i <= 17 || 22 <= i <= 23 || 25 <= i
            <= 27 || i == 31,
{
    assert((0x0003_FFC6u32 >> i) & 1 == 1 <==> i == 1 || i == 2 || (6 <= i && i <= 17)) by (bit_vector)
        requires
            i < 32,
    ;
    assert((0x0EC3_FFC6u32 >> i) & 1 == 1 <==> i == 1 || i == 2 || (6 <= i && i <= 17) || (22 <= i
        && i <= 23) || (25 <= i && i <= 27)) by (bit_vector)
        requires
            i < 32,
    ;
    assert((0x8EC3_FFC6u32 >> i) & 1 == 1 <==> i == 1 || i == 2 || (6 <= i && i <= 17) || (22 <= i
        && i <= 23) || (25 <= i && i <= 27) || i == 31) by (bit_vector)
        requires
            i < 32,
    ;
}

proof fn lemma_responder_mask_bits(i: u32)
    requires
        i < 32,
    ensures
        bit(RESPONDER_V12_MASK, i) <==> i < 22,
        bit(RESPONDER_V13_MASK, i) <==> i < 30,
        bit(RESPONDER_V14_MASK, i),
{
    assert((0x003F_FFFFu32 >> i) & 1 == 1 <==> i < 22) by (bit_vector)
        requires
            i < 32,
    ;
    assert((0x3FFF_FFFFu32 >> i) & 1 == 1 <==> i < 30) by (bit_vector)
        requires
            i < 32,
    ;
    assert((0xFFFF_FFFFu32 >> i) & 1 == 1) by (bit_vector)
        requires
            i < 32,
    ;
}

/// A later version keeps every flag that an earlier one defines, for
/// requesters and for responders.
pub proof fn law_versions_only_add_flags(earlier: SpdmVersion, later: SpdmVersion)
    requires
        later.from_on(earlier),
    ensures
        sets(requester_mask(later), requester_mask(earlier)),
        sets(responder_mask(later), responder_mask(earlier)),
{
    assert(0x0003_FFC6u32 & 0x0003_FFC6u32 == 0x0003_FFC6u32 && 0x0EC3_FFC6u32 & 0x0003_FFC6u32
        == 0x0003_FFC6u32 && 0x8EC3_FFC6u32 & 0x0003_FFC6u32 == 0x0003_FFC6u32 && 0x0EC3_FFC6u32
        & 0x0EC3_FFC6u32 == 0x0EC3_FFC6u32 && 0x8EC3_FFC6u32 & 0x0EC3_FFC6u32 == 0x0EC3_FFC6u32
        && 0x8EC3_FFC6u32 & 0x8EC3_FFC6u32 == 0x8EC3_FFC6u32) by (bit_vector);
    assert(0x003F_FFFFu32 & 0x003F_FFFFu32 == 0x003F_FFFFu32 && 0x3FFF_FFFFu32 & 0x003F_FFFFu32
        == 0x003F_FFFFu32 && 0xFFFF_FFFFu32 & 0x003F_FFFFu32 == 0x003F_FFFFu32 && 0x3FFF_FFFFu32
        & 0x3FFF_FFFFu32 == 0x3FFF_FFFFu32 && 0xFFFF_FFFFu32 & 0x3FFF_FFFFu32 == 0x3FFF_FFFFu32
        && 0xFFFF_FFFFu32 & 0xFFFF_FFFFu32 == 0xFFFF_FFFFu32) by (bit_vector);
}

/// A two-bit field is made of its two bits, the lower one counting once and the
/// higher one twice.
pub proof fn law_fields_are_two_bits(flags: u32)
    ensures
        psk(flags) == ((flags >> 10u32) & 1) + 2 * ((flags >> 11u32) & 1),
        ep_info(flags) == ((flags >> 22u32) & 1) + 2 * ((flags >> 23u32) & 1),
        multi_key(flags) == ((flags >> 26u32) & 1) + 2 * ((flags >> 27u32) & 1),
{
    assert((flags >> 10u32) & 3 == ((flags >> 10u32) & 1) + 2 * ((flags >> 11u32) & 1) && (flags
        >> 22u32) & 3 == ((flags >> 22u32) & 1) + 2 * ((flags >> 23u32) & 1) && (flags >> 26u32) & 3
        == ((flags >> 26u32) & 1) + 2 * ((flags >> 27u32) & 1)) by (bit_vector);
}

/// Flags are contained exactly if none of their bits is missing.
pub proof fn law_contained_flags_miss_no_bit(flags: u32, wanted: u32)
    ensures
        sets(flags, wanted) <==> wanted & !flags == 0,
{
    assert(flags & wanted == wanted <==> wanted & !flags == 0) by (bit_vector);
}

/// Each flag is one bit.
pub proof fn law_flags_are_bits(flags: u32)
    ensures
        sets(flags, CERT) <==> (flags >> 1u32) & 1 == 1,
        sets(flags, CHAL) <==> (flags >> 2u32) & 1 == 1,
        sets(flags, ENCRYPT) <==> (flags >> 6u32) & 1 == 1,
        sets(flags, MAC) <==> (flags >> 7u32) & 1 == 1,
        sets(flags, MUT_AUTH) <==> (flags >> 8u32) & 1 == 1,
        sets(flags, KEY_EX) <==> (flags >> 9u32) & 1 == 1,
        sets(flags, HBEAT) <==> (flags >> 13u32) & 1 == 1,
        sets(flags, KEY_UPD) <==> (flags >> 14u32) & 1 == 1,
        sets(flags, HANDSHAKE_IN_THE_CLEAR) <==> (flags >> 15u32) & 1 == 1,
        sets(flags, PUB_KEY_ID) <==> (flags >> 16u32) & 1 == 1,
        sets(flags, CHUNK) <==> (flags >> 17u32) & 1 == 1,
        sets(flags, EVENT) <==> (flags >> 25u32) & 1 == 1,
        forall|i: u32| #[trigger] ((flags >> i) & 1) <= 1,
{
    assert((flags & 0x2 == 0x2 <==> (flags >> 1u32) & 1 == 1) && (flags & 0x4 == 0x4 <==> (flags
        >> 2u32) & 1 == 1) && (flags & 0x40 == 0x40 <==> (flags >> 6u32) & 1 == 1) && (flags & 0x80
        == 0x80 <==> (flags >> 7u32) & 1 == 1) && (flags & 0x100 == 0x100 <==> (flags >> 8u32) & 1
        == 1) && (flags & 0x200 == 0x200 <==> (flags >> 9u32) & 1 == 1) && (flags & 0x2000 == 0x2000
        <==> (flags >> 13u32) & 1 == 1) && (flags & 0x4000 == 0x4000 <==> (flags >> 14u32) & 1 == 1)
        && (flags & 0x8000 == 0x8000 <==> (flags >> 15u32) & 1 == 1) && (flags & 0x1_0000
        == 0x1_0000 <==> (flags >> 16u32) & 1 == 1) && (flags & 0x2_0000 == 0x2_0000 <==> (flags
        >> 17u32) & 1 == 1) && (flags & 0x200_0000 == 0x200_0000 <==> (flags >> 25u32) & 1 == 1))
        by (bit_vector);
    assert(forall|i: u32| #[trigger] ((flags >> i) & 1) <= 1) by (bit_vector);
}

/// Each version defines these bits and no others, for requesters and for
/// responders.
pub proof fn law_defined_bits(version: SpdmVersion, i: u32)
    requires
        i < 32,
    ensures
        (requester_mask(version) >> i) & 1 == 1 <==> i == 1 || i == 2 || 6 <= i <= 17 || (
        version.byte() >= 0x13 && (i == 22 || i == 23 || 25 <= i <= 27)) || (version.byte() >= 0x14
            && i == 31),
        (responder_mask(version) >> i) & 1 == 1 <==> i <= 21 || (version.byte() >= 0x13 && i <= 29)
            || version.byte() >= 0x14,
{
    lemma_requester_mask_bits(i);
    lemma_responder_mask_bits(i);
    assert(bit(requester_mask(version), i) == ((requester_mask(version) >> i) & 1 == 1));
    assert(bit(responder_mask(version), i) == ((responder_mask(version) >> i) & 1 == 1));
}

} // verus!
