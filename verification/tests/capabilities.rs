use caliptra_spdm::cap_flags::{
    contains, ep_info_field, multi_key_field, psk_field, requester_cap_mask, responder_cap_mask,
    CERT, CHAL, CHUNK, ENCRYPT, EVENT, GET_KEY_PAIR_INFO, HANDSHAKE_IN_THE_CLEAR, HBEAT, KEY_EX,
    KEY_UPD, LARGE_RESP, MAC, MUT_AUTH, PUB_KEY_ID, SECURE_SESSION, SET_KEY_PAIR_RESET,
};
use caliptra_spdm::capabilities::{
    handle_get_capabilities, select_version, validate_capabilities_body,
    validate_request_flag_compatibility, CapabilitiesBody, CapabilitiesRsp,
};
use caliptra_spdm::codec::{
    SpdmVersion, AEAD_AES_256_GCM, ASYM_ECDSA_ECC_NIST_P384, CAPABILITIES, DHE_SECP_384_R1,
    GET_CAPABILITIES, HASH_SHA_384, KEY_SCHEDULE_SPDM, MEAS_HASH_SHA_384, MEAS_SPEC_DMTF,
    OTHER_PARAM_OPAQUE_DATA_FMT1,
};
use caliptra_spdm::connection::{ConnectionState, PalLimits, Phase, SpdmError};

fn pal() -> PalLimits {
    PalLimits {
        mtu: 1024,
        large_capacity: 4096,
        secure_message_supported: true,
    }
}

fn after_version() -> ConnectionState {
    ConnectionState {
        phase: Phase::AfterVersion,
        version: SpdmVersion::V12,
        cap_flags: CERT | CHAL | KEY_EX | ENCRYPT | MAC | CHUNK,
        ct_exponent: 20,
        measurement_spec: MEAS_SPEC_DMTF,
        other_param_support: OTHER_PARAM_OPAQUE_DATA_FMT1,
        meas_hash_algo: MEAS_HASH_SHA_384,
        base_asym_sel: ASYM_ECDSA_ECC_NIST_P384,
        base_hash_sel: HASH_SHA_384,
        dhe: DHE_SECP_384_R1,
        aead: AEAD_AES_256_GCM,
        key_schedule: KEY_SCHEDULE_SPDM,
        peer_data_transfer_size: 0,
        peer_max_spdm_msg_size: 0,
        peer_cap_flags: 0,
        advertised_cap_flags: 0,
        other_param_sel: 0,
        negotiated_base_asym_sel: 0,
        negotiated_base_hash_sel: 0,
    }
}

fn capabilities_request(
    version: SpdmVersion,
    param1: u8,
    ext_flags: u16,
    flags: u32,
    data_transfer_size: u32,
    max_spdm_msg_size: u32,
) -> Vec<u8> {
    let mut req = vec![version.to_u8(), GET_CAPABILITIES, param1, 0, 0, 0];
    req.extend_from_slice(&ext_flags.to_le_bytes());
    req.extend_from_slice(&flags.to_le_bytes());
    req.extend_from_slice(&data_transfer_size.to_le_bytes());
    req.extend_from_slice(&max_spdm_msg_size.to_le_bytes());
    req
}

fn dispatch_request(
    state: &mut ConnectionState,
    pal: &PalLimits,
    request: Vec<u8>,
) -> Result<Vec<u8>, SpdmError> {
    let mut exchange = handle_get_capabilities(state, pal, &request)?;
    let mut vca = Vec::new();
    while let Some(bytes) = exchange.pending_append() {
        vca.extend_from_slice(bytes);
        exchange.appended(state, Ok(()))?;
    }
    assert_eq!(&vca[..request.len()], &request[..]);
    assert_eq!(&vca[request.len()..], &exchange.response[..]);
    Ok(exchange.response)
}

fn advertised(rsp: &[u8]) -> u32 {
    u32::from_le_bytes([rsp[8], rsp[9], rsp[10], rsp[11]])
}

fn word(rsp: &[u8], at: usize) -> u32 {
    u32::from_le_bytes([rsp[at], rsp[at + 1], rsp[at + 2], rsp[at + 3]])
}

#[test]
fn get_capabilities_negotiates_v14_and_encodes_ext_flags() {
    let mut state = after_version();
    let peer_flags = CERT | KEY_EX | ENCRYPT | MAC | CHUNK | LARGE_RESP;
    let rsp = dispatch_request(
        &mut state,
        &pal(),
        capabilities_request(SpdmVersion::V14, 0, 0, peer_flags, 1024, 4096),
    )
    .unwrap();

    assert_eq!(rsp.len(), 20);
    assert_eq!(rsp[0], SpdmVersion::V14.to_u8());
    assert_eq!(rsp[1], CAPABILITIES);
    assert_eq!(&rsp[6..8], &[0, 0]);
    assert_eq!(
        u32::from_le_bytes(rsp[8..12].try_into().unwrap()),
        state.advertised_cap_flags
    );
    assert_eq!(state.version, SpdmVersion::V14);
    assert_eq!(state.phase, Phase::AfterCapabilities);
    assert_eq!(state.peer_cap_flags, peer_flags);
    assert_eq!(state.peer_data_transfer_size, 1024);
    assert_eq!(state.peer_max_spdm_msg_size, 4096);
}

#[test]
fn get_capabilities_masks_flags_added_after_v12() {
    let mut state = after_version();
    state.cap_flags |= GET_KEY_PAIR_INFO | LARGE_RESP;
    let peer_flags = CERT | KEY_EX | ENCRYPT | MAC | CHUNK;
    let rsp = dispatch_request(
        &mut state,
        &pal(),
        capabilities_request(SpdmVersion::V12, 0, 0, peer_flags, 1024, 1024),
    )
    .unwrap();
    let advertised = u32::from_le_bytes(rsp[8..12].try_into().unwrap());

    assert!(!contains(advertised, GET_KEY_PAIR_INFO));
    assert!(!contains(advertised, LARGE_RESP));
}

#[test]
fn invalid_v14_capabilities_does_not_commit_negotiation_state() {
    let mut state = after_version();
    let peer_flags = CERT | KEY_EX | CHUNK;
    let err = dispatch_request(
        &mut state,
        &pal(),
        capabilities_request(SpdmVersion::V14, 0, 1, peer_flags, 1024, 1024),
    )
    .unwrap_err();

    assert_eq!(err, SpdmError::InvalidRequest);
    assert_eq!(state.phase, Phase::AfterVersion);
    assert_eq!(state.version, SpdmVersion::V12);
    assert_eq!(state.peer_cap_flags, 0);
    assert_eq!(state.peer_data_transfer_size, 0);
    assert_eq!(state.peer_max_spdm_msg_size, 0);
}

#[test]
fn v14_capabilities_rejects_incompatible_session_flags() {
    let mut state = after_version();
    // KEY_EX requires at least one of ENCRYPT or MAC.
    let peer_flags = CERT | KEY_EX | CHUNK;
    let err = dispatch_request(
        &mut state,
        &pal(),
        capabilities_request(SpdmVersion::V14, 0, 0, peer_flags, 1024, 1024),
    )
    .unwrap_err();

    assert_eq!(err, SpdmError::InvalidRequest);
    assert_eq!(state.phase, Phase::AfterVersion);
    assert_eq!(state.version, SpdmVersion::V12);
}

#[test]
fn v14_capabilities_accepts_supported_algorithms_request_with_chunking() {
    let mut state = after_version();
    let peer_flags = CERT | KEY_EX | ENCRYPT | MAC | CHUNK;
    let rsp = dispatch_request(
        &mut state,
        &pal(),
        capabilities_request(SpdmVersion::V14, 1, 0, peer_flags, 1024, 1024),
    )
    .unwrap();

    // The Supported Algorithms block is optional and not sent.
    assert_eq!(rsp[2], 0);
    assert_eq!(state.phase, Phase::AfterCapabilities);
}

#[test]
fn v14_supported_algorithms_request_does_not_require_responder_chunking() {
    let mut state = after_version();
    state.cap_flags &= !CHUNK;
    let peer_flags = CERT | KEY_EX | ENCRYPT | MAC | CHUNK;
    let rsp = dispatch_request(
        &mut state,
        &pal(),
        capabilities_request(SpdmVersion::V14, 1, 0, peer_flags, 1024, 1024),
    )
    .unwrap();

    assert_eq!(rsp[2], 0);
    let advertised = u32::from_le_bytes(rsp[8..12].try_into().unwrap());
    assert!(!contains(advertised, CHUNK));
}

#[test]
fn capabilities_enforces_ct_exponent_limit() {
    let peer_flags = CERT | KEY_EX | ENCRYPT | MAC | CHUNK;
    for (ct_exponent, accepted) in [(31, true), (32, false)] {
        let mut state = after_version();
        let mut request = capabilities_request(SpdmVersion::V14, 0, 0, peer_flags, 1024, 1024);
        request[5] = ct_exponent;

        assert_eq!(
            dispatch_request(&mut state, &pal(), request).is_ok(),
            accepted
        );
    }
}

#[test]
fn v13_capabilities_rejects_v14_requester_flags() {
    let mut state = after_version();
    let peer_flags = CERT | KEY_EX | ENCRYPT | MAC | CHUNK | LARGE_RESP;
    let err = dispatch_request(
        &mut state,
        &pal(),
        capabilities_request(SpdmVersion::V13, 0, 0, peer_flags, 1024, 1024),
    )
    .unwrap_err();

    assert_eq!(err, SpdmError::InvalidRequest);
}

#[test]
fn v13_capabilities_masks_v14_responder_flags() {
    let mut state = after_version();
    state.cap_flags |= SET_KEY_PAIR_RESET | LARGE_RESP;
    let peer_flags = CERT | KEY_EX | ENCRYPT | MAC | CHUNK;
    let rsp = dispatch_request(
        &mut state,
        &pal(),
        capabilities_request(SpdmVersion::V13, 0, 0, peer_flags, 1024, 1024),
    )
    .unwrap();
    let advertised = u32::from_le_bytes(rsp[8..12].try_into().unwrap());

    assert!(!contains(advertised, SET_KEY_PAIR_RESET));
    assert!(!contains(advertised, LARGE_RESP));
}

#[test]
fn capabilities_response_is_encoded_byte_for_byte() {
    let rsp = CapabilitiesRsp {
        ct_exponent: 20,
        ext_flags: 0x1234,
        flags: 0x0A0B_0C0D,
        data_transfer_size: 0x0102_0304,
        max_spdm_msg_size: 0x1122_3344,
    };
    assert_eq!(
        rsp.encode(SpdmVersion::V13),
        vec![
            0x13, 0x61, 0, 0, 0, 20, 0x34, 0x12, 0x0D, 0x0C, 0x0B, 0x0A, 0x04, 0x03, 0x02, 0x01,
            0x44, 0x33, 0x22, 0x11,
        ]
    );
}

#[test]
fn capabilities_body_is_decoded_field_by_field() {
    let body = CapabilitiesBody::decode(&[
        1, 2, 3, 4, 0x34, 0x12, 0x0D, 0x0C, 0x0B, 0x0A, 0x04, 0x03, 0x02, 0x01, 0x44, 0x33, 0x22,
        0x11,
    ]);
    assert_eq!(
        body,
        CapabilitiesBody {
            param1: 1,
            param2: 2,
            reserved: 3,
            ct_exponent: 4,
            ext_flags: 0x1234,
            flags: 0x0A0B_0C0D,
            data_transfer_size: 0x0102_0304,
            max_spdm_msg_size: 0x1122_3344,
        }
    );
}

#[test]
fn sizes_follow_chunking_and_the_platform() {
    let peer_flags = CERT | KEY_EX | ENCRYPT | MAC | CHUNK;
    let request = capabilities_request(SpdmVersion::V12, 0, 0, peer_flags, 1024, 1024);

    let mut state = after_version();
    let rsp = dispatch_request(&mut state, &pal(), request.clone()).unwrap();
    assert_eq!(rsp[5], 20);
    assert_eq!(word(&rsp, 12), 1024);
    assert_eq!(word(&rsp, 16), 4096);

    // A buffer smaller than the MTU does not lower the message size.
    let mut state = after_version();
    let small = PalLimits {
        large_capacity: 512,
        ..pal()
    };
    let rsp = dispatch_request(&mut state, &small, request.clone()).unwrap();
    assert_eq!(word(&rsp, 16), 1024);

    // Without chunking the large buffer is not offered.
    let mut state = after_version();
    state.cap_flags &= !CHUNK;
    let rsp = dispatch_request(&mut state, &pal(), request).unwrap();
    assert_eq!(word(&rsp, 16), 1024);
}

#[test]
fn secure_session_flags_need_the_platform() {
    let plain = PalLimits {
        secure_message_supported: false,
        ..pal()
    };
    let mut state = after_version();
    let request = capabilities_request(SpdmVersion::V12, 0, 0, CHUNK, 42, 43);
    let rsp = dispatch_request(&mut state, &plain, request.clone()).unwrap();
    assert_eq!(advertised(&rsp) & SECURE_SESSION, 0);
    assert_eq!(advertised(&rsp), CERT | CHAL | CHUNK);
    assert_eq!(state.advertised_cap_flags, CERT | CHAL | CHUNK);

    let mut state = after_version();
    let rsp = dispatch_request(&mut state, &pal(), request).unwrap();
    assert_eq!(advertised(&rsp) & SECURE_SESSION, SECURE_SESSION);
}

#[test]
fn request_is_refused_outside_its_phase() {
    let request = capabilities_request(SpdmVersion::V12, 0, 0, 0, 42, 42);
    for phase in [
        Phase::NotStarted,
        Phase::AfterCapabilities,
        Phase::AfterAlgorithms,
    ] {
        let mut state = after_version();
        state.phase = phase;
        let before = state;
        assert_eq!(
            dispatch_request(&mut state, &pal(), request.clone()),
            Err(SpdmError::UnexpectedRequest)
        );
        assert_eq!(state, before);
    }
    let mut state = after_version();
    assert!(dispatch_request(&mut state, &pal(), request).is_ok());
}

#[test]
fn unsupported_versions_are_a_mismatch() {
    for byte in [0x00, 0x10, 0x11, 0x15, 0x20, 0xFF] {
        assert_eq!(select_version(byte), Err(SpdmError::VersionMismatch));
        let mut request = capabilities_request(SpdmVersion::V12, 0, 0, 0, 42, 42);
        request[0] = byte;
        let mut state = after_version();
        assert_eq!(
            dispatch_request(&mut state, &pal(), request),
            Err(SpdmError::VersionMismatch)
        );
        assert_eq!(state, after_version());
    }
    assert_eq!(select_version(0x12), Ok(SpdmVersion::V12));
    assert_eq!(select_version(0x13), Ok(SpdmVersion::V13));
    assert_eq!(select_version(0x14), Ok(SpdmVersion::V14));
}

#[test]
fn short_requests_are_invalid_and_trailing_bytes_are_ignored() {
    let request = capabilities_request(SpdmVersion::V12, 0, 0, 0, 42, 42);
    for n in 0..20 {
        let mut state = after_version();
        assert_eq!(
            dispatch_request(&mut state, &pal(), request[..n].to_vec()),
            Err(SpdmError::InvalidRequest)
        );
    }
    let mut longer = request.clone();
    longer.extend_from_slice(&[0xAA; 7]);
    let mut state = after_version();
    let mut same = after_version();
    assert_eq!(
        dispatch_request(&mut state, &pal(), longer),
        dispatch_request(&mut same, &pal(), request)
    );
    assert_eq!(state, same);
}

#[test]
fn reserved_fields_must_be_zero() {
    let good = CapabilitiesBody {
        param1: 0,
        param2: 0,
        reserved: 0,
        ct_exponent: 0,
        ext_flags: 0,
        flags: 0,
        data_transfer_size: 42,
        max_spdm_msg_size: 42,
    };
    let invalid = Err(SpdmError::InvalidRequest);
    let v14 = SpdmVersion::V14;
    assert_eq!(validate_capabilities_body(v14, &good), Ok((42, 42)));
    for bad in [
        CapabilitiesBody { param1: 2, ..good },
        CapabilitiesBody { param1: 1, ..good },
        CapabilitiesBody { param2: 1, ..good },
        CapabilitiesBody { reserved: 1, ..good },
        CapabilitiesBody { ext_flags: 1, ..good },
        CapabilitiesBody { ct_exponent: 32, ..good },
        CapabilitiesBody { flags: 1, ..good },
        CapabilitiesBody { data_transfer_size: 41, ..good },
        CapabilitiesBody { data_transfer_size: 43, ..good },
        CapabilitiesBody { max_spdm_msg_size: 43, ..good },
    ] {
        assert_eq!(validate_capabilities_body(v14, &bad), invalid);
    }
    let chunked = CapabilitiesBody {
        param1: 1,
        flags: CHUNK,
        max_spdm_msg_size: 43,
        ..good
    };
    assert_eq!(validate_capabilities_body(v14, &chunked), Ok((42, 43)));
    assert_eq!(
        validate_capabilities_body(SpdmVersion::V13, &chunked),
        Ok((42, 43))
    );
    assert_eq!(
        validate_capabilities_body(SpdmVersion::V12, &chunked),
        invalid
    );
}

#[test]
fn flags_must_agree_with_each_other() {
    let psk: u32 = 1 << 10;
    let signed_ep_info: u32 = 2 << 22;
    let multi_key: u32 = 1 << 26;
    let ok = [
        0,
        CERT | CHAL,
        PUB_KEY_ID | CHAL,
        CERT | KEY_EX | MAC,
        CERT | KEY_EX | ENCRYPT | HANDSHAKE_IN_THE_CLEAR | HBEAT | KEY_UPD | EVENT,
        psk | MAC,
        CERT | CHAL | MUT_AUTH,
        CERT | signed_ep_info,
        CERT | CHAL | multi_key,
    ];
    for flags in ok {
        assert_eq!(
            validate_request_flag_compatibility(SpdmVersion::V13, flags),
            Ok(())
        );
    }
    let bad = [
        2 << 10,
        3 << 10,
        3 << 22,
        3 << 26,
        KEY_EX,
        ENCRYPT,
        MAC,
        HANDSHAKE_IN_THE_CLEAR,
        HBEAT,
        KEY_UPD,
        EVENT,
        psk,
        psk | MAC | HANDSHAKE_IN_THE_CLEAR,
        CERT,
        CERT | PUB_KEY_ID | CHAL,
        CHAL,
        MUT_AUTH,
        signed_ep_info,
        CERT | signed_ep_info | MUT_AUTH,
        multi_key,
        PUB_KEY_ID | CHAL | multi_key,
    ];
    for flags in bad {
        assert_eq!(
            validate_request_flag_compatibility(SpdmVersion::V13, flags),
            Err(SpdmError::InvalidRequest)
        );
    }
    // What V1.3 added does not count before it.
    assert_eq!(
        validate_request_flag_compatibility(SpdmVersion::V12, EVENT),
        Ok(())
    );
    assert_eq!(
        validate_request_flag_compatibility(SpdmVersion::V12, CERT | signed_ep_info),
        Err(SpdmError::InvalidRequest)
    );
    assert_eq!(
        validate_request_flag_compatibility(SpdmVersion::V12, signed_ep_info | multi_key),
        Ok(())
    );
}

#[test]
fn a_valid_body_stays_valid_in_later_versions() {
    let body = CapabilitiesBody {
        param1: 0,
        param2: 0,
        reserved: 0,
        ct_exponent: 31,
        ext_flags: 0,
        flags: CERT | KEY_EX | ENCRYPT | MAC | CHUNK,
        data_transfer_size: 100,
        max_spdm_msg_size: 200,
    };
    for version in [SpdmVersion::V12, SpdmVersion::V13, SpdmVersion::V14] {
        assert_eq!(validate_capabilities_body(version, &body), Ok((100, 200)));
    }
}

#[test]
fn masks_and_fields_of_capability_flags() {
    assert_eq!(requester_cap_mask(SpdmVersion::V10), 0x0003_FFC6);
    assert_eq!(requester_cap_mask(SpdmVersion::V12), 0x0003_FFC6);
    assert_eq!(requester_cap_mask(SpdmVersion::V13), 0x0EC3_FFC6);
    assert_eq!(requester_cap_mask(SpdmVersion::V14), 0x8EC3_FFC6);
    assert_eq!(responder_cap_mask(SpdmVersion::V11), (1 << 22) - 1);
    assert_eq!(responder_cap_mask(SpdmVersion::V12), (1 << 22) - 1);
    assert_eq!(responder_cap_mask(SpdmVersion::V13), (1 << 30) - 1);
    assert_eq!(responder_cap_mask(SpdmVersion::V14), u32::MAX);
    assert_eq!(psk_field(2 << 10), 2);
    assert_eq!(ep_info_field(!0), 3);
    assert_eq!(multi_key_field(1 << 26), 1);
    assert!(contains(0x3, 0x1) && !contains(0x1, 0x3));
}

#[test]
fn a_failed_transcript_append_keeps_the_phase() {
    let request = capabilities_request(SpdmVersion::V12, 0, 0, 0, 42, 42);
    let failure = Err(SpdmError::Platform(7));

    let mut state = after_version();
    let mut exchange = handle_get_capabilities(&mut state, &pal(), &request).unwrap();
    assert_eq!(exchange.pending_append(), Some(&request[..]));
    assert_eq!(exchange.appended(&mut state, failure), failure);
    assert_eq!(state.phase, Phase::AfterVersion);
    assert_eq!(exchange.pending_append(), Some(&request[..]));

    assert_eq!(exchange.appended(&mut state, Ok(())), Ok(()));
    assert_eq!(state.phase, Phase::AfterVersion);
    let response = exchange.response.clone();
    assert_eq!(exchange.pending_append(), Some(&response[..]));
    assert_eq!(exchange.appended(&mut state, failure), failure);
    assert_eq!(state.phase, Phase::AfterVersion);

    assert_eq!(exchange.appended(&mut state, Ok(())), Ok(()));
    assert_eq!(state.phase, Phase::AfterCapabilities);
    assert_eq!(exchange.pending_append(), None);
}
