use caliptra_spdm::cert_checks::{
    attested_csr_size, dump_der_hex, populate_idevid_cert_mldsa87_from_otp, test_certify_key,
    test_get_attested_csr, test_get_cert_chain, test_get_idev_csr_ecc384,
    test_get_idev_csr_mldsa87, test_get_ldev_cert_mldsa87, test_sign_with_test_key,
    LdevCertLayout, MldsaCsrLimits, ATTESTED_KEY_IDS,
};
use caliptra_spdm::cert_store::{
    boot_init, BootAction, BootEvent, BootPlan, CertStoreBoot, FlashPartition, ManagedSlot,
    McuError,
};
use caliptra_spdm::otp::{mldsa_cert_der_len, OtpReader};
use caliptra_spdm::responder::{
    pool_size, spawn_spdm_tasks, spdm_doe_responder, spdm_mctp_responder, vdm_backend,
    ResponderTransport, TaskAction, TaskEvent, VdmBackend,
};
use caliptra_spdm::scratch::{
    message_size_covers, required_scratch, CRYPTO_PATH_PEAK, DOE_SPDM_SCRATCH_SIZE,
    LARGE_MSG_PATH_PEAK, MAX_SPDM_MSG_SIZE, MCTP_SPDM_SCRATCH_SIZE,
};
use caliptra_spdm::system::{ErrorCode, FirmwareBootType, System, SyscallCommand};

#[test]
fn firmware_boot_type_encoding() {
    assert_eq!(FirmwareBootType::try_from(1), Ok(FirmwareBootType::Flash));
    assert_eq!(FirmwareBootType::try_from(2), Ok(FirmwareBootType::Pldm));
    assert_eq!(FirmwareBootType::try_from(0), Err(ErrorCode::Invalid));
    assert_eq!(FirmwareBootType::try_from(3), Err(ErrorCode::Invalid));
}

#[test]
fn system_calls() {
    assert_eq!(
        System::exit(7),
        SyscallCommand { driver: 0xC000_0000, command: 1, arg0: 7, arg1: 0 }
    );
    assert_eq!(
        System::ask_firmware_boot_type(),
        SyscallCommand { driver: 0xC000_0000, command: 2, arg0: 0, arg1: 0 }
    );
    assert_eq!(System::firmware_boot_type(Ok(1)), Ok(FirmwareBootType::Flash));
    assert_eq!(System::firmware_boot_type(Ok(9)), Err(ErrorCode::Invalid));
    assert_eq!(
        System::firmware_boot_type(Err(ErrorCode::NoSupport)),
        Err(ErrorCode::NoSupport)
    );
    for boot_type in [FirmwareBootType::Flash, FirmwareBootType::Pldm] {
        assert_eq!(FirmwareBootType::try_from(boot_type.to_u32()), Ok(boot_type));
    }
}

#[test]
fn scratch_budget() {
    assert_eq!(MAX_SPDM_MSG_SIZE, 8192);
    assert_eq!(LARGE_MSG_PATH_PEAK, 9216);
    assert_eq!(CRYPTO_PATH_PEAK, 4608);
    assert_eq!(required_scratch(), 11776);
    assert!(required_scratch() <= MCTP_SPDM_SCRATCH_SIZE);
    assert!(required_scratch() <= DOE_SPDM_SCRATCH_SIZE);
    // A PCR quote as response and a debug unlock token as request.
    assert!(message_size_covers(6388, 7504));
    assert!(message_size_covers(8192, 8192));
    assert!(!message_size_covers(8193, 0));
    assert!(!message_size_covers(0, 8193));
}

#[test]
fn responder_tasks() {
    assert_eq!(spawn_spdm_tasks(false), vec![ResponderTransport::Mctp]);
    assert_eq!(
        spawn_spdm_tasks(true),
        vec![ResponderTransport::Mctp, ResponderTransport::Doe]
    );
    let mut task = spdm_mctp_responder();
    assert_eq!(task.pending(), TaskAction::InitScratch(12288));
    task.report(TaskEvent::Completed);
    assert_eq!(
        task.pending(),
        TaskAction::BuildStack(8192, VdmBackend::Caliptra)
    );
    task.report(TaskEvent::Completed);
    assert_eq!(task.pending(), TaskAction::SignalReady);
    task.report(TaskEvent::RunEnded(None));
    assert_eq!(task.pending(), TaskAction::SignalReady);
    task.report(TaskEvent::Completed);
    assert_eq!(task.pending(), TaskAction::Run);
    task.report(TaskEvent::RunEnded(Some(0x1234)));
    assert_eq!(task.pending(), TaskAction::Ended(Some(0x1234)));

    let mut task = spdm_doe_responder(true);
    assert_eq!(task.pending(), TaskAction::FindDevice);
    task.report(TaskEvent::Device(true));
    assert_eq!(task.pending(), TaskAction::InitScratch(12288));
    task.report(TaskEvent::Completed);
    assert_eq!(
        task.pending(),
        TaskAction::BuildStack(8192, VdmBackend::PciSig(1))
    );
    let mut task = spdm_doe_responder(false);
    task.report(TaskEvent::Device(false));
    assert_eq!(task.pending(), TaskAction::NoDevice);
    assert_eq!(
        vdm_backend(ResponderTransport::Doe, false),
        VdmBackend::Disabled
    );
    assert_eq!(pool_size(ResponderTransport::Doe), 12288);
}

fn otp_word(content: &[u8], offset: u32) -> u32 {
    let mut bytes = [0xFF; 4];
    for (i, byte) in bytes.iter_mut().enumerate() {
        if let Some(b) = content.get(offset as usize + i) {
            *byte = *b;
        }
    }
    u32::from_le_bytes(bytes)
}

#[test]
fn otp_is_read_word_by_word() {
    let content: Vec<u8> = (0..100u8).collect();
    for total in [0, 1, 3, 4, 5, 8, 99, 100, 103] {
        let mut reader = OtpReader::new(total);
        let mut words = 0;
        while let Some(offset) = reader.next_offset() {
            assert_eq!(offset, 4 * words);
            assert_eq!(offset, reader.offset());
            reader.take_word(otp_word(&content, offset));
            words += 1;
        }
        let mut expected = content.clone();
        expected.resize(total.max(100), 0xFF);
        assert_eq!(reader.bytes(), &expected[..total]);
        assert_eq!(words as usize, (total + 3) / 4);
        // Nothing more is taken.
        reader.take_word(0);
        assert_eq!(reader.bytes().len(), total);
    }
}

#[test]
fn der_length_of_a_certificate() {
    let word = |bytes: [u8; 4]| u32::from_le_bytes(bytes);
    assert_eq!(
        mldsa_cert_der_len(word([0x30, 0x82, 0x1E, 0x2A]), 0x2000),
        Some(0x1E2E)
    );
    assert_eq!(
        mldsa_cert_der_len(word([0x30, 0x82, 0x1E, 0x2A]), 0x1E2E),
        Some(0x1E2E)
    );
    assert_eq!(mldsa_cert_der_len(word([0x30, 0x82, 0x1E, 0x2A]), 0x1E2D), None);
    assert_eq!(mldsa_cert_der_len(word([0x30, 0x82, 0x00, 0x7F]), 0x2000), None);
    assert_eq!(
        mldsa_cert_der_len(word([0x30, 0x82, 0x00, 0x80]), 0x2000),
        Some(0x84)
    );
    assert_eq!(
        mldsa_cert_der_len(word([0x30, 0x82, 0xFF, 0xFF]), 0x10003),
        Some(0x10003)
    );
    for bad in [
        [0xFF, 0xFF, 0xFF, 0xFF],
        [0x31, 0x82, 0x1E, 0x2A],
        [0x30, 0x81, 0x1E, 0x2A],
        [0x30, 0x83, 0x1E, 0x2A],
        [0, 0, 0, 0],
    ] {
        assert_eq!(mldsa_cert_der_len(word(bad), 0x20000), None);
    }
    assert_eq!(mldsa_cert_der_len(word([0x30, 0x82, 0x1E, 0x2A]), 3), None);
}

const PARTITION: FlashPartition = FlashPartition { driver_num: 0x9000_0006, size: 0x8001 };

fn plan() -> BootPlan {
    BootPlan { spdm: true, managed: Some(PARTITION) }
}

fn ecc_cert() -> Vec<u8> {
    (0..547u32).map(|i| (i * 7) as u8).collect()
}

/// Boots up to the point where the ECC certificate is to be installed.
fn at_install_ecc(plan: BootPlan) -> CertStoreBoot {
    let mut boot = boot_init(plan);
    assert!(matches!(boot.pending(), BootAction::ReserveScratch(9216)));
    boot.report(BootEvent::Completed);
    let cert = ecc_cert();
    let mut words = 0;
    loop {
        let offset = match boot.pending() {
            BootAction::ReadOtp { partition: 1, offset } => offset,
            BootAction::InstallEcc(bytes) => {
                assert_eq!(bytes, &cert[..]);
                break;
            }
            _ => panic!("the ECC certificate is read"),
        };
        assert_eq!(offset, 4 * words);
        boot.report(BootEvent::Value(otp_word(&cert, offset)));
        words += 1;
    }
    assert_eq!(words, 137);
    boot
}

fn at_mldsa(plan: BootPlan) -> CertStoreBoot {
    let mut boot = at_install_ecc(plan);
    boot.report(BootEvent::Completed);
    assert!(matches!(
        boot.pending(),
        BootAction::ReadOtp { partition: 2, offset: 0 }
    ));
    boot
}

fn expect_endorsements(boot: &mut CertStoreBoot) {
    assert!(matches!(
        boot.pending(),
        BootAction::SetEndorsementChain { slot: 0, key_pair_id: 0 }
    ));
    boot.report(BootEvent::Completed);
    let owner = ManagedSlot {
        store_slot: 1,
        spdm_slot: 2,
        driver_num: 0x9000_0006,
        offset: 0,
        len: 0x4000,
    };
    assert!(matches!(boot.pending(), BootAction::SetManagedEndorsement(slot) if slot == owner));
    boot.report(BootEvent::Completed);
    let tenant = ManagedSlot {
        store_slot: 2,
        spdm_slot: 3,
        offset: 0x4000,
        ..owner
    };
    assert!(matches!(boot.pending(), BootAction::SetManagedEndorsement(slot) if slot == tenant));
    boot.report(BootEvent::Completed);
    assert!(matches!(boot.pending(), BootAction::Finished(Ok(()))));
    boot.report(BootEvent::Failed(McuError::InternalBug));
    assert!(matches!(boot.pending(), BootAction::Finished(Ok(()))));
}

fn mldsa_cert() -> Vec<u8> {
    let mut cert = vec![0x30, 0x82, 0x01, 0x03];
    cert.extend((0..0x103u32).map(|i| (i * 3) as u8));
    cert
}

fn at_install_mldsa(plan: BootPlan) -> CertStoreBoot {
    let cert = mldsa_cert();
    let mut boot = at_mldsa(plan);
    boot.report(BootEvent::Value(otp_word(&cert, 0)));
    assert!(matches!(boot.pending(), BootAction::PartitionSize(2)));
    boot.report(BootEvent::Value(0x2000));
    assert!(matches!(boot.pending(), BootAction::AllocCert(0x107)));
    boot.report(BootEvent::Completed);
    loop {
        let offset = match boot.pending() {
            BootAction::ReadOtp { partition: 2, offset } => offset,
            BootAction::InstallMldsa(bytes) => {
                assert_eq!(bytes, &cert[..]);
                break;
            }
            _ => panic!("the ML-DSA certificate is read"),
        };
        boot.report(BootEvent::Value(otp_word(&cert, offset)));
    }
    boot
}

#[test]
fn boot_installs_both_certificates_and_the_endorsements() {
    let mut boot = at_install_mldsa(plan());
    boot.report(BootEvent::Completed);
    expect_endorsements(&mut boot);

    let mut boot = at_install_mldsa(BootPlan { spdm: false, managed: None });
    boot.report(BootEvent::Completed);
    assert!(matches!(boot.pending(), BootAction::Finished(Ok(()))));

    let mut boot = at_install_mldsa(BootPlan { spdm: true, managed: None });
    boot.report(BootEvent::Completed);
    assert!(matches!(
        boot.pending(),
        BootAction::SetEndorsementChain { .. }
    ));
    boot.report(BootEvent::Completed);
    assert!(matches!(boot.pending(), BootAction::Finished(Ok(()))));
}

#[test]
fn boot_fails_on_what_it_requires() {
    let e = McuError::Service(0x55);
    let failed = |mut boot: CertStoreBoot, expected: McuError| {
        boot.report(BootEvent::Failed(e));
        assert!(matches!(boot.pending(), BootAction::Finished(Err(f)) if f == expected));
        boot.report(BootEvent::Completed);
        assert!(matches!(boot.pending(), BootAction::Finished(Err(f)) if f == expected));
    };
    failed(boot_init(plan()), McuError::OutOfMemory);
    let mut boot = boot_init(plan());
    boot.report(BootEvent::Completed);
    boot.report(BootEvent::Value(1));
    failed(boot, McuError::InternalBug);
    failed(at_install_ecc(plan()), e);
    for done in 0..3 {
        let mut boot = at_install_mldsa(plan());
        boot.report(BootEvent::Completed);
        for _ in 0..done {
            boot.report(BootEvent::Completed);
        }
        failed(boot, e);
    }
}

#[test]
fn boot_goes_on_without_an_mldsa_certificate() {
    let e = McuError::Service(0x66);
    let warned = |mut boot: CertStoreBoot, expected: McuError| {
        boot.report(BootEvent::Failed(e));
        assert!(matches!(boot.pending(), BootAction::Warn(f) if f == expected));
        boot.report(BootEvent::Completed);
        expect_endorsements(&mut boot);
    };
    warned(at_mldsa(plan()), McuError::InternalBug);
    let mut boot = at_mldsa(plan());
    boot.report(BootEvent::Value(otp_word(&mldsa_cert(), 0)));
    warned(boot, McuError::InternalBug);
    let mut boot = at_mldsa(plan());
    boot.report(BootEvent::Value(otp_word(&mldsa_cert(), 0)));
    boot.report(BootEvent::Value(0x2000));
    warned(boot, e);
    let mut boot = at_mldsa(plan());
    boot.report(BootEvent::Value(otp_word(&mldsa_cert(), 0)));
    boot.report(BootEvent::Value(0x2000));
    boot.report(BootEvent::Completed);
    warned(boot, McuError::InternalBug);
    warned(at_install_mldsa(plan()), e);

    // Erased OTP is no fault.
    let mut boot = at_mldsa(plan());
    boot.report(BootEvent::Value(0xFFFF_FFFF));
    boot.report(BootEvent::Value(0x2000));
    expect_endorsements(&mut boot);
}

#[test]
fn der_is_dumped_in_lines() {
    assert_eq!(
        dump_der_hex("X", &[]),
        ["---BEGIN X (0 bytes)---", "---END X---"]
    );
    assert_eq!(
        dump_der_hex("A B", &[0x00, 0x9F, 0xA1]),
        ["---BEGIN A B (3 bytes)---", "009fa1", "---END A B---"]
    );
    let der: Vec<u8> = (0..70u8).map(|i| i.wrapping_mul(37)).collect();
    let lines = dump_der_hex("L", &der);
    assert_eq!(lines.len(), 5);
    assert_eq!((lines[1].len(), lines[2].len(), lines[3].len()), (64, 64, 12));
    let digits = lines[1..4].concat();
    let back: Vec<u8> = (0..der.len())
        .map(|i| u8::from_str_radix(&digits[2 * i..2 * i + 2], 16).unwrap())
        .collect();
    assert_eq!(back, der);
    assert_eq!(dump_der_hex("L", &der[..64]).len(), 4);
}

#[test]
fn idevid_csrs() {
    let e = Err(McuError::InternalBug);
    let buf = [0xAB; 40];
    assert_eq!(
        test_get_idev_csr_ecc384(Ok(Some(2)), &buf).unwrap(),
        [
            "IDevID CSR size: 2",
            "---BEGIN ECC384 IDEVID CSR (2 bytes)---",
            "abab",
            "---END ECC384 IDEVID CSR---"
        ]
    );
    for reply in [Ok(Some(0)), Ok(None), e] {
        assert_eq!(test_get_idev_csr_ecc384(reply, &buf), None);
    }

    let limits = MldsaCsrLimits { response_buffer_size: 40, max_size: 33 };
    assert!(limits.admits_buffer(40) && !limits.admits_buffer(39));
    let lines = test_get_idev_csr_mldsa87(limits, Ok(Some(33)), &buf).unwrap();
    assert_eq!(lines[0], "IDevID ML-DSA-87 CSR size: 33");
    assert_eq!(lines[1], "---BEGIN MLDSA87 IDEVID CSR (33 bytes)---");
    assert_eq!(lines.len(), 5);
    for reply in [Ok(Some(34)), Ok(Some(0)), Ok(None), e] {
        assert_eq!(test_get_idev_csr_mldsa87(limits, reply, &buf), None);
    }
    assert_eq!(
        test_get_idev_csr_mldsa87(limits, Ok(Some(1)), &buf[..39]),
        None
    );
}

#[test]
fn ldevid_certificate() {
    let layout = LdevCertLayout { response_len: 112, prefix_len: 12, data_capacity: 100 };
    assert!(layout.admits_buffer(112) && !layout.admits_buffer(111));
    assert_eq!(
        test_get_ldev_cert_mldsa87(layout, 112, Ok(62), 50).unwrap(),
        "LDevID ML-DSA-87 certificate size: 50"
    );
    for (len, actual, size) in [
        (111, Ok(62), 50),
        (112, Ok(61), 50),
        (112, Ok(62), 0),
        (112, Ok(500), 101),
        (112, Ok(10), 50),
        (112, Err(McuError::OutOfMemory), 50),
    ] {
        assert_eq!(test_get_ldev_cert_mldsa87(layout, len, actual, size), None);
    }
}

#[test]
fn idevid_certificate_from_otp() {
    let word = u32::from_le_bytes([0x30, 0x82, 0x01, 0x00]);
    let mut reader = populate_idevid_cert_mldsa87_from_otp(Ok(0x104), Ok(word), 0x104).unwrap();
    let mut words = 0;
    while reader.next_offset().is_some() {
        reader.take_word(word);
        words += 1;
    }
    assert_eq!((words, reader.bytes().len()), (65, 0x104));
    let e = Err(McuError::InternalBug);
    assert!(populate_idevid_cert_mldsa87_from_otp(Ok(0x104), Ok(word), 0x103).is_none());
    assert!(populate_idevid_cert_mldsa87_from_otp(Ok(0x103), Ok(word), 0x200).is_none());
    assert!(populate_idevid_cert_mldsa87_from_otp(e, Ok(word), 0x200).is_none());
    assert!(populate_idevid_cert_mldsa87_from_otp(Ok(0x104), e, 0x200).is_none());
}

#[test]
fn certificate_chain_in_chunks() {
    let mut walk = test_get_cert_chain();
    assert_eq!(walk.finish(), None);
    assert!(walk.chunk_read(1024, 1024));
    assert_eq!(walk.offset(), 1024);
    assert!(!walk.chunk_read(300, 1024));
    assert_eq!(walk.finish().unwrap(), "Certificate chain size: 1324");
    let mut empty = test_get_cert_chain();
    assert!(!empty.chunk_read(0, 1024));
    assert_eq!(empty.finish(), None);
}

#[test]
fn key_certificate_in_slices() {
    assert!(test_certify_key(Ok(0), 100).is_none());
    assert!(test_certify_key(Err(McuError::InternalBug), 100).is_none());
    let mut walk = test_certify_key(Ok(250), 100).unwrap();
    assert_eq!(walk.next_request(), Some((0, 100)));
    assert!(walk.slice_read(100));
    assert_eq!(walk.next_request(), Some((100, 100)));
    assert!(!walk.slice_read(0));
    assert!(!walk.slice_read(101));
    assert!(walk.slice_read(99));
    assert_eq!(walk.next_request(), Some((199, 51)));
    assert!(!walk.slice_read(52));
    assert_eq!(walk.finish(), None);
    assert!(walk.slice_read(51));
    assert_eq!(walk.next_request(), None);
    assert_eq!(
        walk.finish().unwrap(),
        "Attestation key certificate size: 250"
    );
}

#[test]
fn signature_and_attested_csrs() {
    assert_eq!(
        test_sign_with_test_key(Ok(96)).unwrap(),
        "Attestation key signing test completed successfully"
    );
    assert_eq!(test_sign_with_test_key(Ok(95)), None);
    assert_eq!(test_sign_with_test_key(Err(McuError::InternalBug)), None);
    assert_eq!(ATTESTED_KEY_IDS, [1, 2, 3]);
    assert_eq!(
        test_get_attested_csr(2, Ok(1000), Ok(12000)).unwrap(),
        "Attested CSR sizes for key 2: 1000, 12000"
    );
    assert_eq!(test_get_attested_csr(1, Ok(0), Ok(1)), None);
    assert_eq!(test_get_attested_csr(1, Ok(1), Ok(0)), None);
    assert_eq!(
        test_get_attested_csr(1, Err(McuError::InternalBug), Ok(1)),
        None
    );
    assert_eq!(attested_csr_size(Ok(5)), Some(5));
    assert_eq!(attested_csr_size(Ok(0)), None);
}
