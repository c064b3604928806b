//! SPDM protocol versions, message codes and algorithm bitmaps.

use vstd::prelude::*;

verus! {

/// An SPDM protocol version.
#[derive(Clone, Copy, Debug, PartialEq, Eq, Structural)]
pub enum SpdmVersion {
    V10,
    V11,
    V12,
    V13,
    V14,
}

impl SpdmVersion {
    /// The version byte of the common header: major in the high nibble, minor
    /// in the low one.
    pub open spec fn byte(self) -> u8 {
        match self {
            SpdmVersion::V10 => 0x10,
            SpdmVersion::V11 => 0x11,
            SpdmVersion::V12 => 0x12,
            SpdmVersion::V13 => 0x13,
            SpdmVersion::V14 => 0x14,
        }
    }

    /// The version whose byte is `b`, if there is one.
    pub open spec fn of_byte(b: u8) -> Option<SpdmVersion> {
        if b == 0x10 {
            Some(SpdmVersion::V10)
        } else if b == 0x11 {
            Some(SpdmVersion::V11)
        } else if b == 0x12 {
            Some(SpdmVersion::V12)
        } else if b == 0x13 {
            Some(SpdmVersion::V13)
        } else if b == 0x14 {
            Some(SpdmVersion::V14)
        } else {
            None
        }
    }

    /// Whether this version is `other` or a later one.
    pub open spec fn from_on(self, other: SpdmVersion) -> bool {
        self.byte() >= other.byte()
    }

    /// The version byte of the common header.
    pub fn to_u8(self) -> (r: u8)
        ensures
            r == self.byte(),
    {
        match self {
            SpdmVersion::V10 => 0x10,
            SpdmVersion::V11 => 0x11,
            SpdmVersion::V12 => 0x12,
            SpdmVersion::V13 => 0x13,
            SpdmVersion::V14 => 0x14,
        }
    }

    /// The version that a header byte names, if it names one.
    pub fn from_u8(b: u8) -> (r: Option<SpdmVersion>)
        ensures
            r == SpdmVersion::of_byte(b),
    {
        match b {
            0x10 => Some(SpdmVersion::V10),
            0x11 => Some(SpdmVersion::V11),
            0x12 => Some(SpdmVersion::V12),
            0x13 => Some(SpdmVersion::V13),
            0x14 => Some(SpdmVersion::V14),
            _ => None,
        }
    }

    /// Whether this version is `other` or a later one.
    pub fn at_least(self, other: SpdmVersion) -> (r: bool)
        ensures
            r == self.from_on(other),
    {
        self.to_u8() >= other.to_u8()
    }
}

/// A header byte names a version exactly if it is that version's own byte.
pub proof fn law_version_byte_round_trip(version: SpdmVersion, b: u8)
    ensures
        SpdmVersion::of_byte(version.byte()) == Some(version),
        SpdmVersion::of_byte(b) == Some(version) <==> b == version.byte(),
{
}

/// `GET_CAPABILITIES` request code.
pub const GET_CAPABILITIES: u8 = 0xE1;

/// `CAPABILITIES` response code.
pub const CAPABILITIES: u8 = 0x61;

/// `NEGOTIATE_ALGORITHMS` request code.
pub const NEGOTIATE_ALGORITHMS: u8 = 0xE3;

/// `ALGORITHMS` response code.
pub const ALGORITHMS: u8 = 0x63;

/// Size of the common header: the version byte and the message code.
pub const SPDM_MSG_HDR_SIZE: usize = 2;

/// `AlgType` of a DHE structure.
pub const ALG_TYPE_DHE: u8 = 2;

/// `AlgType` of an AEAD structure.
pub const ALG_TYPE_AEAD: u8 = 3;

/// `AlgType` of a requester base asymmetric structure.
pub const ALG_TYPE_REQ_BASE_ASYM: u8 = 4;

/// `AlgType` of a key schedule structure.
pub const ALG_TYPE_KEY_SCHEDULE: u8 = 5;

/// DMTF measurement specification.
pub const MEAS_SPEC_DMTF: u8 = 0x01;

/// `OpaqueDataFmt1` in `OtherParamsSupport`.
pub const OTHER_PARAM_OPAQUE_DATA_FMT1: u8 = 0x02;

/// `MultiKeyConn` in `OtherParamsSupport`.
pub const OTHER_PARAM_MULTI_KEY_CONN: u8 = 0x10;

/// SHA-384 in `MeasurementHashAlgo`.
pub const MEAS_HASH_SHA_384: u32 = 0x0000_0004;

/// ECDSA on NIST P-384 in `BaseAsymAlgo`.
pub const ASYM_ECDSA_ECC_NIST_P384: u32 = 0x0000_0080;

/// SHA-384 in `BaseHashAlgo`.
pub const HASH_SHA_384: u32 = 0x0000_0002;

/// ML-DSA-87 in `PqcAsymAlgo`.
pub const PQC_ASYM_ML_DSA_87: u32 = 0x0000_0004;

/// The bits of `PqcAsymAlgo` that name an algorithm: three ML-DSA parameter
/// sets and twelve SLH-DSA ones. All others are reserved.
pub const PQC_ASYM_DEFINED: u32 = 0x0000_7FFF;

/// secp384r1 in a DHE structure.
pub const DHE_SECP_384_R1: u16 = 0x0010;

/// AES-256-GCM in an AEAD structure.
pub const AEAD_AES_256_GCM: u16 = 0x0002;

/// The SPDM key schedule.
pub const KEY_SCHEDULE_SPDM: u16 = 0x0001;

/// Versions are ordered by their bytes, which are 0x10 to 0x14.
pub proof fn law_version_order(a: SpdmVersion, b: SpdmVersion)
    ensures
        SpdmVersion::V10.byte() == 0x10,
        SpdmVersion::V11.byte() == 0x11,
        SpdmVersion::V12.byte() == 0x12,
        SpdmVersion::V13.byte() == 0x13,
        SpdmVersion::V14.byte() == 0x14,
        a.from_on(b) || b.from_on(a),
        a.from_on(b) && b.from_on(a) <==> a == b,
        a.from_on(b) <==> a.byte() >= b.byte(),
{
}

} // verus!
