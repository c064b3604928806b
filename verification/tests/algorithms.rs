use caliptra_spdm::algorithms::{
    build_response_body, handle_negotiate_algorithms, locate_alg_structs,
    multi_key_cap_allows_connection, parse_peer_algs, AlgStructEntry, AlgorithmsRsp,
    NegotiateAlgorithmsReqBodyFixed, PeerAlgs, ALG_STRUCT_SIZE, FIXED_ALG_COUNT_ETC,
    REQ_BODY_FIXED_SIZE,
};
use caliptra_spdm::cap_flags::{CERT, CHAL, CHUNK, ENCRYPT, KEY_EX, MAC};
use caliptra_spdm::codec::{
    SpdmVersion, AEAD_AES_256_GCM, ALGORITHMS, ALG_TYPE_AEAD, ALG_TYPE_DHE, ALG_TYPE_KEY_SCHEDULE,
    ALG_TYPE_REQ_BASE_ASYM, ASYM_ECDSA_ECC_NIST_P384, DHE_SECP_384_R1, HASH_SHA_384,
    KEY_SCHEDULE_SPDM, MEAS_HASH_SHA_384, MEAS_SPEC_DMTF, NEGOTIATE_ALGORITHMS,
    OTHER_PARAM_MULTI_KEY_CONN, OTHER_PARAM_OPAQUE_DATA_FMT1, PQC_ASYM_ML_DSA_87,
    SPDM_MSG_HDR_SIZE,
};
use caliptra_spdm::connection::{ConnectionState, PalLimits, Phase, SpdmError};

fn pal() -> PalLimits {
    PalLimits {
        mtu: 1024,
        large_capacity: 4096,
        secure_message_supported: true,
    }
}

fn after_capabilities(version: SpdmVersion) -> ConnectionState {
    ConnectionState {
        phase: Phase::AfterCapabilities,
        version,
        cap_flags: CERT | CHAL | KEY_EX | ENCRYPT | MAC | CHUNK,
        ct_exponent: 20,
        measurement_spec: MEAS_SPEC_DMTF,
        other_param_support: OTHER_PARAM_OPAQUE_DATA_FMT1,
        meas_hash_algo: MEAS_HASH_SHA_384,
        base_asym_sel: ASYM_ECDSA_ECC_NIST_P384,
        base_hash_sel: HASH_SHA_384,
        dhe: DHE_SECP_384_R1,
        aead: AEAD_AES_256_GCM,
        key_schedule: KEY_SCHEDULE_SPDM,
        peer_data_transfer_size: 0,
        peer_max_spdm_msg_size: 0,
        peer_cap_flags: 0,
        advertised_cap_flags: 0,
        other_param_sel: 0,
        negotiated_base_asym_sel: 0,
        negotiated_base_hash_sel: 0,
    }
}

fn request_bytes(
    version: SpdmVersion,
    fixed: &NegotiateAlgorithmsReqBodyFixed,
    ext: &[u8],
    alg_structs: &[AlgStructEntry],
) -> Vec<u8> {
    let mut request = vec![version.to_u8(), NEGOTIATE_ALGORITHMS];
    request.push(fixed.num_alg_struct);
    request.push(fixed.param2);
    request.extend_from_slice(&fixed.length.to_le_bytes());
    request.push(fixed.measurement_spec);
    request.push(fixed.other_param_support);
    request.extend_from_slice(&fixed.base_asym_algo.to_le_bytes());
    request.extend_from_slice(&fixed.base_hash_algo.to_le_bytes());
    request.extend_from_slice(&fixed.pqc_asym_algo.to_le_bytes());
    request.extend_from_slice(&fixed.reserved1_low.to_le_bytes());
    request.extend_from_slice(&fixed.reserved1_high.to_le_bytes());
    request.push(fixed.ext_asym_count);
    request.push(fixed.ext_hash_count);
    request.push(fixed.reserved2);
    request.push(fixed.mel_spec_or_reserved);
    request.extend_from_slice(ext);
    for entry in alg_structs {
        entry.encode(&mut request);
    }
    request
}

fn usual_structs(include_req_base_asym: bool) -> Vec<AlgStructEntry> {
    let mut alg_structs = vec![
        AlgStructEntry::new(ALG_TYPE_DHE, DHE_SECP_384_R1),
        AlgStructEntry::new(ALG_TYPE_AEAD, AEAD_AES_256_GCM),
    ];
    if include_req_base_asym {
        alg_structs.push(AlgStructEntry {
            alg_type: ALG_TYPE_REQ_BASE_ASYM,
            alg_count_etc: FIXED_ALG_COUNT_ETC,
            alg_supported: ASYM_ECDSA_ECC_NIST_P384 as u16,
        });
    }
    alg_structs.push(AlgStructEntry::new(ALG_TYPE_KEY_SCHEDULE, KEY_SCHEDULE_SPDM));
    alg_structs
}

fn usual_fixed(
    pqc_asym_algo: u32,
    base_asym_algo: u32,
    alg_structs: usize,
) -> NegotiateAlgorithmsReqBodyFixed {
    let total_len = SPDM_MSG_HDR_SIZE + REQ_BODY_FIXED_SIZE + alg_structs * ALG_STRUCT_SIZE;
    NegotiateAlgorithmsReqBodyFixed {
        num_alg_struct: alg_structs as u8,
        param2: 0,
        length: total_len as u16,
        measurement_spec: MEAS_SPEC_DMTF,
        other_param_support: OTHER_PARAM_OPAQUE_DATA_FMT1,
        base_asym_algo,
        base_hash_algo: HASH_SHA_384,
        pqc_asym_algo,
        reserved1_low: 0,
        reserved1_high: 0,
        ext_asym_count: 0,
        ext_hash_count: 0,
        reserved2: 0,
        mel_spec_or_reserved: 0,
    }
}

fn negotiate_request(
    version: SpdmVersion,
    pqc_asym_algo: u32,
    base_asym_algo: u32,
    include_req_base_asym: bool,
) -> Vec<u8> {
    let alg_structs = usual_structs(include_req_base_asym);
    let fixed = usual_fixed(pqc_asym_algo, base_asym_algo, alg_structs.len());
    let request = request_bytes(version, &fixed, &[], &alg_structs);
    assert_eq!(request.len(), fixed.length as usize);
    request
}

fn run_negotiate(request: Vec<u8>) -> (ConnectionState, Vec<u8>, Vec<Vec<u8>>) {
    let version = SpdmVersion::from_u8(request[0]).unwrap();
    let mut state = after_capabilities(version);
    let mut exchange = handle_negotiate_algorithms(&mut state, &pal(), &request).unwrap();
    let mut vca = Vec::new();
    while let Some(bytes) = exchange.pending_append() {
        vca.push(bytes.to_vec());
        exchange.appended(&mut state, Ok(())).unwrap();
    }
    assert_eq!(vca[0], request);
    (state, exchange.response, vca)
}

fn assert_algorithms_response(
    response: &[u8],
    expected_version: SpdmVersion,
    expected_base_asym: u32,
    expected_entries: &[AlgStructEntry],
) {
    let expected_len = 2 + 34 + expected_entries.len() * ALG_STRUCT_SIZE;
    assert_eq!(response.len(), expected_len);

    let mut expected = vec![
        expected_version.to_u8(),
        ALGORITHMS,
        expected_entries.len() as u8,
        0,
    ];
    expected.extend_from_slice(&(expected_len as u16).to_le_bytes());
    expected.push(MEAS_SPEC_DMTF);
    expected.push(OTHER_PARAM_OPAQUE_DATA_FMT1);
    expected.extend_from_slice(&MEAS_HASH_SHA_384.to_le_bytes());
    expected.extend_from_slice(&expected_base_asym.to_le_bytes());
    expected.extend_from_slice(&HASH_SHA_384.to_le_bytes());
    expected.extend_from_slice(&0u32.to_le_bytes());
    expected.extend_from_slice(&[0; 7]);
    expected.push(0);
    expected.push(0);
    expected.push(0);
    expected.extend_from_slice(&[0; 2]);
    assert_eq!(&response[..36], &expected[..]);

    let mut expected_struct_bytes = Vec::new();
    for entry in expected_entries {
        entry.encode(&mut expected_struct_bytes);
    }
    assert_eq!(&response[36..], &expected_struct_bytes[..]);
}

#[test]
fn algorithms_omits_peer_only_req_base_asym_structure_from_response_and_vca() {
    let request = negotiate_request(SpdmVersion::V12, 0, ASYM_ECDSA_ECC_NIST_P384, true);
    let (state, response, vca) = run_negotiate(request);

    assert_algorithms_response(
        &response,
        SpdmVersion::V12,
        ASYM_ECDSA_ECC_NIST_P384,
        &usual_structs(false),
    );
    assert_eq!(state.negotiated_base_asym_sel, ASYM_ECDSA_ECC_NIST_P384);
    assert_eq!(state.phase, Phase::AfterAlgorithms);
    assert_eq!(vca[1], response);
}

#[test]
fn algorithms_keeps_zero_base_asym_selection_and_advances_state_without_common_algorithm() {
    let request = negotiate_request(SpdmVersion::V12, 0, 0, false);
    let (state, response, vca) = run_negotiate(request);

    assert_algorithms_response(&response, SpdmVersion::V12, 0, &usual_structs(false));
    assert_eq!(state.negotiated_base_asym_sel, 0);
    assert_eq!(state.phase, Phase::AfterAlgorithms);
    assert_eq!(vca[1], response);
}

#[test]
fn v14_accepts_pqc_offer_and_selects_classical_algorithms_only() {
    let request = negotiate_request(
        SpdmVersion::V14,
        PQC_ASYM_ML_DSA_87,
        ASYM_ECDSA_ECC_NIST_P384,
        false,
    );
    let (state, response, vca) = run_negotiate(request);

    assert_algorithms_response(
        &response,
        SpdmVersion::V14,
        ASYM_ECDSA_ECC_NIST_P384,
        &usual_structs(false),
    );
    assert_eq!(state.phase, Phase::AfterAlgorithms);
    assert_eq!(vca[1], response);
}

#[test]
fn fixed_part_is_decoded_field_by_field() {
    let mut bytes = [0u8; 30];
    for (i, byte) in bytes.iter_mut().enumerate() {
        *byte = i as u8 + 1;
    }
    assert_eq!(
        NegotiateAlgorithmsReqBodyFixed::decode(&bytes),
        NegotiateAlgorithmsReqBodyFixed {
            num_alg_struct: 1,
            param2: 2,
            length: 0x0403,
            measurement_spec: 5,
            other_param_support: 6,
            base_asym_algo: 0x0A09_0807,
            base_hash_algo: 0x0E0D_0C0B,
            pqc_asym_algo: 0x1211_100F,
            reserved1_low: 0x1615_1413,
            reserved1_high: 0x1A19_1817,
            ext_asym_count: 27,
            ext_hash_count: 28,
            reserved2: 29,
            mel_spec_or_reserved: 30,
        }
    );
}

#[test]
fn structures_round_trip() {
    let entry = AlgStructEntry {
        alg_type: 7,
        alg_count_etc: 0x31,
        alg_supported: 0xBEEF,
    };
    let mut out = Vec::new();
    entry.encode(&mut out);
    assert_eq!(out, vec![7, 0x31, 0xEF, 0xBE]);
    assert_eq!(AlgStructEntry::decode(&[7, 0x31, 0xEF, 0xBE]), entry);
}

#[test]
fn request_is_refused_outside_its_phase_or_version() {
    let request = negotiate_request(SpdmVersion::V12, 0, 0, false);
    for phase in [Phase::NotStarted, Phase::AfterVersion, Phase::AfterAlgorithms] {
        let mut state = after_capabilities(SpdmVersion::V12);
        state.phase = phase;
        let before = state;
        assert_eq!(
            handle_negotiate_algorithms(&mut state, &pal(), &request).err(),
            Some(SpdmError::UnexpectedRequest)
        );
        assert_eq!(state, before);
    }
    let mut state = after_capabilities(SpdmVersion::V13);
    assert_eq!(
        handle_negotiate_algorithms(&mut state, &pal(), &request).err(),
        Some(SpdmError::VersionMismatch)
    );
    assert_eq!(state, after_capabilities(SpdmVersion::V13));
}

#[test]
fn short_request_is_invalid_and_trailing_bytes_are_ignored() {
    let request = negotiate_request(SpdmVersion::V12, 0, 0, false);
    for n in 0..request.len() {
        let mut state = after_capabilities(SpdmVersion::V12);
        assert_eq!(
            handle_negotiate_algorithms(&mut state, &pal(), &request[..n]).err(),
            Some(SpdmError::InvalidRequest)
        );
        assert_eq!(state, after_capabilities(SpdmVersion::V12));
    }
    let mut longer = request.clone();
    longer.push(0x55);
    assert_eq!(run_negotiate(longer).1, run_negotiate(request).1);
}

#[test]
fn fixed_part_rules() {
    let body = vec![0u8; 200];
    let good = usual_fixed(0, 0, 3);
    let v12 = SpdmVersion::V12;
    let invalid = Err(SpdmError::InvalidRequest);
    assert_eq!(
        locate_alg_structs(v12, &good, &body).map(|s| s.len()),
        Ok(12)
    );
    for bad in [
        NegotiateAlgorithmsReqBodyFixed { param2: 1, ..good },
        NegotiateAlgorithmsReqBodyFixed { reserved1_low: 1, ..good },
        NegotiateAlgorithmsReqBodyFixed { reserved1_high: 1, ..good },
        NegotiateAlgorithmsReqBodyFixed { reserved2: 1, ..good },
        NegotiateAlgorithmsReqBodyFixed { pqc_asym_algo: 4, ..good },
        NegotiateAlgorithmsReqBodyFixed { length: 0, ..good },
        NegotiateAlgorithmsReqBodyFixed { length: 1, ..good },
        NegotiateAlgorithmsReqBodyFixed { length: 31, ..good },
        NegotiateAlgorithmsReqBodyFixed { length: 45, ..good },
        NegotiateAlgorithmsReqBodyFixed { num_alg_struct: 2, ..good },
        NegotiateAlgorithmsReqBodyFixed { ext_asym_count: 1, ..good },
        NegotiateAlgorithmsReqBodyFixed { ext_hash_count: 255, ..good },
    ] {
        assert_eq!(locate_alg_structs(v12, &bad, &body), invalid);
    }
    // The body must be as long as the request says.
    assert_eq!(locate_alg_structs(v12, &good, &body[..41]), invalid);
    assert!(locate_alg_structs(v12, &good, &body[..42]).is_ok());
    // 24 structures make up the largest request.
    assert!(locate_alg_structs(v12, &usual_fixed(0, 0, 24), &body).is_ok());
    assert_eq!(
        locate_alg_structs(v12, &usual_fixed(0, 0, 25), &body),
        invalid
    );
    // Reserved bits of the PQC bitmap.
    let pqc = NegotiateAlgorithmsReqBodyFixed { pqc_asym_algo: 0x7FFF, ..good };
    assert!(locate_alg_structs(SpdmVersion::V14, &pqc, &body).is_ok());
    assert_eq!(locate_alg_structs(SpdmVersion::V13, &pqc, &body), invalid);
    let reserved = NegotiateAlgorithmsReqBodyFixed { pqc_asym_algo: 0x8000, ..good };
    assert_eq!(
        locate_alg_structs(SpdmVersion::V14, &reserved, &body),
        invalid
    );
}

#[test]
fn extended_entries_are_skipped() {
    let alg_structs = usual_structs(false);
    let mut fixed = usual_fixed(0, ASYM_ECDSA_ECC_NIST_P384, alg_structs.len());
    fixed.ext_asym_count = 2;
    fixed.ext_hash_count = 1;
    fixed.length += 12;
    let request = request_bytes(SpdmVersion::V12, &fixed, &[0xEE; 12], &alg_structs);
    let (_, response, _) = run_negotiate(request);
    assert_algorithms_response(
        &response,
        SpdmVersion::V12,
        ASYM_ECDSA_ECC_NIST_P384,
        &usual_structs(false),
    );
}

#[test]
fn structure_list_rules() {
    let bytes = |entries: &[AlgStructEntry]| {
        let mut out = Vec::new();
        for entry in entries {
            entry.encode(&mut out);
        }
        out
    };
    let invalid = Err(SpdmError::InvalidRequest);
    assert_eq!(
        parse_peer_algs(&[]),
        Ok(PeerAlgs { dhe: 0, aead: 0, key_schedule: 0 })
    );
    let all = [
        AlgStructEntry::new(ALG_TYPE_DHE, 0x11),
        AlgStructEntry::new(ALG_TYPE_AEAD, 0x22),
        AlgStructEntry::new(ALG_TYPE_REQ_BASE_ASYM, 0x33),
        AlgStructEntry::new(ALG_TYPE_KEY_SCHEDULE, 0x44),
        AlgStructEntry::new(200, 0x55),
    ];
    assert_eq!(
        parse_peer_algs(&bytes(&all)),
        Ok(PeerAlgs { dhe: 0x11, aead: 0x22, key_schedule: 0x44 })
    );
    // A first structure of type 0 is in order.
    assert!(parse_peer_algs(&bytes(&[AlgStructEntry::new(0, 1)])).is_ok());
    assert_eq!(parse_peer_algs(&bytes(&[all[1], all[0]])), invalid);
    assert_eq!(parse_peer_algs(&bytes(&[all[0], all[0]])), invalid);
    assert_eq!(
        parse_peer_algs(&bytes(&[AlgStructEntry::new(ALG_TYPE_DHE, 0)])),
        invalid
    );
    for alg_count_etc in [0x00, 0x10, 0x21, 0x30, 0x2F] {
        assert_eq!(
            parse_peer_algs(&bytes(&[AlgStructEntry { alg_count_etc, ..all[0] }])),
            invalid
        );
    }
    // Fewer than four bytes at the end are no structure.
    let mut odd = bytes(&all[..1]);
    odd.extend_from_slice(&[0xFF, 0xFF, 0xFF]);
    assert_eq!(
        parse_peer_algs(&odd),
        Ok(PeerAlgs { dhe: 0x11, aead: 0, key_schedule: 0 })
    );
}

#[test]
fn selection_needs_policy_and_offer() {
    let state = after_capabilities(SpdmVersion::V12);
    let fixed = usual_fixed(0, !0, 0);
    let peer = PeerAlgs { dhe: !0, aead: !AEAD_AES_256_GCM, key_schedule: !0 };
    let rsp = build_response_body(&state, &fixed, &peer, true);
    assert_eq!(
        rsp,
        AlgorithmsRsp {
            measurement_spec_sel: MEAS_SPEC_DMTF,
            other_param_support: OTHER_PARAM_OPAQUE_DATA_FMT1,
            meas_hash_algo: MEAS_HASH_SHA_384,
            base_asym_sel: ASYM_ECDSA_ECC_NIST_P384,
            base_hash_sel: HASH_SHA_384,
            pqc_asym_sel: 0,
            dhe: DHE_SECP_384_R1,
            aead: 0,
            key_schedule: KEY_SCHEDULE_SPDM,
        }
    );
    assert_eq!(rsp.encoded_size(), 44);
    // The response's own structures read back.
    let encoded = rsp.encode(SpdmVersion::V12);
    assert_eq!(encoded.len(), 44);
    assert_eq!(
        parse_peer_algs(&encoded[36..]),
        Ok(PeerAlgs { dhe: DHE_SECP_384_R1, aead: 0, key_schedule: KEY_SCHEDULE_SPDM })
    );
    // Measurement specifications that the policy lacks are not selected.
    let other = NegotiateAlgorithmsReqBodyFixed { measurement_spec: !MEAS_SPEC_DMTF, ..fixed };
    assert_eq!(build_response_body(&state, &other, &peer, true).measurement_spec_sel, 0);
    // Without secure messages nothing of a session is selected.
    let plain = build_response_body(&state, &fixed, &peer, false);
    assert_eq!((plain.dhe, plain.aead, plain.key_schedule), (0, 0, 0));
    assert_eq!(plain.encoded_size(), 36);
}

#[test]
fn multi_key_connection_needs_version_and_consent() {
    let can: u32 = 1 << 26;
    let always: u32 = 2 << 26;
    assert!(multi_key_cap_allows_connection(can, always));
    assert!(!multi_key_cap_allows_connection(0, always));
    assert!(!multi_key_cap_allows_connection(can, 0));
    assert!(!multi_key_cap_allows_connection(can, 3 << 26));

    let both = OTHER_PARAM_OPAQUE_DATA_FMT1 | OTHER_PARAM_MULTI_KEY_CONN;
    let fixed = NegotiateAlgorithmsReqBodyFixed {
        other_param_support: both,
        ..usual_fixed(0, 0, 0)
    };
    let peer = PeerAlgs { dhe: 0, aead: 0, key_schedule: 0 };
    for (version, local, remote, expected) in [
        (SpdmVersion::V13, can, always, both),
        (SpdmVersion::V14, always, can, both),
        (SpdmVersion::V12, can, always, OTHER_PARAM_OPAQUE_DATA_FMT1),
        (SpdmVersion::V13, 0, always, OTHER_PARAM_OPAQUE_DATA_FMT1),
        (SpdmVersion::V14, can, 0, OTHER_PARAM_OPAQUE_DATA_FMT1),
    ] {
        let mut state = after_capabilities(version);
        state.other_param_support = both;
        state.advertised_cap_flags = local;
        state.peer_cap_flags = remote;
        let rsp = build_response_body(&state, &fixed, &peer, true);
        assert_eq!(rsp.other_param_support, expected);
    }
}

#[test]
fn selections_are_remembered() {
    let request = negotiate_request(SpdmVersion::V13, 0, ASYM_ECDSA_ECC_NIST_P384, false);
    let (state, _, _) = run_negotiate(request);
    assert_eq!(state.other_param_sel, OTHER_PARAM_OPAQUE_DATA_FMT1);
    assert_eq!(state.negotiated_base_asym_sel, ASYM_ECDSA_ECC_NIST_P384);
    assert_eq!(state.negotiated_base_hash_sel, HASH_SHA_384);
    assert_eq!(state.dhe, DHE_SECP_384_R1);
}
