use caliptra_spdm::algorithms::handle_negotiate_algorithms;
use caliptra_spdm::cap_flags::{CERT, CHAL, CHUNK, ENCRYPT, KEY_EX, MAC};
use caliptra_spdm::capabilities::handle_get_capabilities;
use caliptra_spdm::codec::SpdmVersion;
use caliptra_spdm::connection::{ConnectionState, Exchange, PalLimits, Phase, SpdmError};

const PAL: PalLimits = PalLimits {
    mtu: 1024,
    large_capacity: 4096,
    secure_message_supported: true,
};

const POLICY: ConnectionState = ConnectionState {
    phase: Phase::AfterVersion,
    version: SpdmVersion::V12,
    cap_flags: CERT | CHAL | KEY_EX | ENCRYPT | MAC | CHUNK,
    ct_exponent: 20,
    measurement_spec: 1,
    other_param_support: 0x12,
    meas_hash_algo: 4,
    base_asym_sel: 0x80,
    base_hash_sel: 2,
    dhe: 0x10,
    aead: 2,
    key_schedule: 1,
    peer_data_transfer_size: 0,
    peer_max_spdm_msg_size: 0,
    peer_cap_flags: 0,
    advertised_cap_flags: 0,
    other_param_sel: 0,
    negotiated_base_asym_sel: 0,
    negotiated_base_hash_sel: 0,
};

fn get_capabilities(version: u8) -> Vec<u8> {
    let mut request = vec![version, 0xE1, 0, 0, 0, 0, 0, 0];
    request.extend_from_slice(&(CERT | CHAL | CHUNK).to_le_bytes());
    request.extend_from_slice(&100u32.to_le_bytes());
    request.extend_from_slice(&200u32.to_le_bytes());
    request
}

fn negotiate_algorithms(version: u8) -> Vec<u8> {
    let mut request = vec![version, 0xE3, 0, 0, 32, 0, 1, 0x12];
    request.extend_from_slice(&0x80u32.to_le_bytes());
    request.extend_from_slice(&2u32.to_le_bytes());
    request.resize(32, 0);
    request
}

fn complete(state: &mut ConnectionState, exchange: &mut Exchange) {
    while exchange.pending_append().is_some() {
        exchange.appended(state, Ok(())).unwrap();
    }
}

#[test]
fn negotiation_runs_in_order_and_once() {
    let mut state = POLICY;
    assert_eq!(
        handle_negotiate_algorithms(&mut state, &PAL, &negotiate_algorithms(0x13)).err(),
        Some(SpdmError::UnexpectedRequest)
    );
    let mut exchange = handle_get_capabilities(&mut state, &PAL, &get_capabilities(0x13)).unwrap();
    // Until the exchange is complete the connection stays where it was.
    assert_eq!(state.phase, Phase::AfterVersion);
    assert_eq!(
        handle_negotiate_algorithms(&mut state, &PAL, &negotiate_algorithms(0x13)).err(),
        Some(SpdmError::UnexpectedRequest)
    );
    complete(&mut state, &mut exchange);
    assert_eq!(state.phase, Phase::AfterCapabilities);
    assert_eq!(
        handle_get_capabilities(&mut state, &PAL, &get_capabilities(0x13)).err(),
        Some(SpdmError::UnexpectedRequest)
    );
    let mut exchange =
        handle_negotiate_algorithms(&mut state, &PAL, &negotiate_algorithms(0x13)).unwrap();
    complete(&mut state, &mut exchange);
    assert_eq!(state.phase, Phase::AfterAlgorithms);
    for refused in [
        handle_get_capabilities(&mut state, &PAL, &get_capabilities(0x13)).err(),
        handle_negotiate_algorithms(&mut state, &PAL, &negotiate_algorithms(0x13)).err(),
    ] {
        assert_eq!(refused, Some(SpdmError::UnexpectedRequest));
    }
    // The policy is as it was, and the rest is what was agreed on.
    assert_eq!(
        state,
        ConnectionState {
            phase: Phase::AfterAlgorithms,
            version: SpdmVersion::V13,
            peer_data_transfer_size: 100,
            peer_max_spdm_msg_size: 200,
            peer_cap_flags: CERT | CHAL | CHUNK,
            advertised_cap_flags: POLICY.cap_flags,
            other_param_sel: 0x02,
            negotiated_base_asym_sel: 0x80,
            negotiated_base_hash_sel: 2,
            ..POLICY
        }
    );
}

#[test]
fn algorithms_keep_the_version_of_the_capabilities() {
    for (first, second) in [(0x12, 0x13), (0x13, 0x14), (0x14, 0x12)] {
        let mut state = POLICY;
        let mut exchange =
            handle_get_capabilities(&mut state, &PAL, &get_capabilities(first)).unwrap();
        complete(&mut state, &mut exchange);
        let before = state;
        assert_eq!(
            handle_negotiate_algorithms(&mut state, &PAL, &negotiate_algorithms(second)).err(),
            Some(SpdmError::VersionMismatch)
        );
        assert_eq!(state, before);
        assert!(
            handle_negotiate_algorithms(&mut state, &PAL, &negotiate_algorithms(first)).is_ok()
        );
    }
}
