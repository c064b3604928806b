use caliptra_spdm::validator_command::{
    configure_spdm_attestation_command, start_spdm_attestation_with_port,
    start_spdm_responder_validator, start_spdm_tee_io_validator, LaunchCommand,
};
use caliptra_spdm::validator_log::check_spdm_responder_validator_results;
use caliptra_spdm::validator_run::{
    execute_spdm_attestation, execute_spdm_attestation_with_port, execute_spdm_responder_validator,
    execute_spdm_tee_io_validator, wait_for_spdm_responder_validator, ChildStatus, RunAction,
    RunEvent, ValidatorRun,
};
use caliptra_spdm::validator_runner::{
    encode_hello, encode_socket_message, encode_stop, RunnerAction, SocketAction, SocketReceiver,
    SpdmSocketHeader, SpdmValidatorRunner, RECEIVER_BUFFER_SIZE, SOCKET_HEADER_LEN,
    SOCKET_SPDM_COMMAND_NORMAL, SOCKET_SPDM_COMMAND_STOP, SOCKET_SPDM_COMMAND_TEST,
};

const COMPLETE_LOG: &str = "\
    test assertion 1.1.5 - PASS response version_number_entry - 0x1400
test suite (spdm_responder_conformance_test) - pass: 1, fail: 0
test result done
";

#[test]
fn attestation_requester_excludes_endpoint_info() {
    let mut command = LaunchCommand::new("spdm_requester_emu", "spdm_requester_emu_output.txt");
    configure_spdm_attestation_command(&mut command, "MCTP", Some(1025), None);

    let args = command.args.iter().map(|arg| arg.as_str()).collect::<Vec<_>>();
    assert_eq!(
        args,
        [
            "--trans",
            "MCTP",
            "--cap",
            "CERT,CHAL,CHUNK,LARGE_RESP",
            "--pcap",
            "caliptra-evidence.pcap",
            "--port",
            "1025",
        ]
    );
}

#[test]
fn accepts_complete_selected_group_results() {
    let result = check_spdm_responder_validator_results(COMPLETE_LOG, "VERSION");
    assert!(result.is_ok(), "{result:?}");
}

#[test]
fn rejects_incomplete_results() {
    let result = check_spdm_responder_validator_results(
        COMPLETE_LOG.trim_end_matches("test result done\n"),
        "",
    );
    assert_eq!(
        result.unwrap_err(),
        "log does not end with a complete test result"
    );
}

#[test]
fn rejects_failed_suite() {
    let log = COMPLETE_LOG.replace("pass: 1, fail: 0", "pass: 1, fail: 1");
    let result = check_spdm_responder_validator_results(&log, "");
    assert_eq!(result.unwrap_err(), "suite recorded 1 failed assertions");
}

#[test]
fn rejects_missing_spdm_1_4_version() {
    let log = COMPLETE_LOG.replace("0x1400", "0x1300");
    let result = check_spdm_responder_validator_results(&log, "VERSION");
    assert_eq!(
        result.unwrap_err(),
        "VERSION did not advertise a passing 0x1400 entry"
    );
}

#[test]
fn a_passed_run_is_reported() {
    assert_eq!(
        check_spdm_responder_validator_results(COMPLETE_LOG, "VERSION").unwrap(),
        "SPDM validator suite spdm_responder_conformance_test: pass=1, fail=0; \
         selected_groups=VERSION"
    );
    let log = "test suite (s) - pass: +0042, fail: 0\r\ntest result done \t\u{3000}\n\n";
    assert_eq!(
        check_spdm_responder_validator_results(log, "").unwrap(),
        "SPDM validator suite s: pass=42, fail=0; selected_groups=ALL"
    );
}

#[test]
fn each_fault_of_a_log_has_its_message() {
    let done = "\ntest result done";
    for (log, message) in [
        ("", "log does not end with a complete test result"),
        ("test result done.", "log does not end with a complete test result"),
        ("test result done", "expected one suite summary, found none"),
        (
            " test suite (a) - pass: 1, fail: 0\ntest result done",
            "expected one suite summary, found none",
        ),
        (
            "test suite (a) - pass: 1, fail: 0\ntest suite (b) - pass: 1, fail: 0\ntest result done",
            "expected one suite summary, found multiple",
        ),
    ] {
        assert_eq!(
            check_spdm_responder_validator_results(log, "").unwrap_err(),
            message
        );
    }
    for (counts, message) in [
        ("pass: , fail: 0", "suite pass count is invalid"),
        ("pass: -1, fail: 0", "suite pass count is invalid"),
        ("pass: + , fail: 0", "suite pass count is invalid"),
        ("pass: 4294967296, fail: 0", "suite pass count is invalid"),
        ("pass: 1, fail: x", "suite fail count is invalid"),
        ("pass: 1, fail: 0 ", "suite fail count is invalid"),
        ("pass: 1, fail: ", "suite fail count is invalid"),
        ("pass: 0, fail: 0", "suite executed zero passing assertions"),
        ("pass: 0, fail: 3", "suite executed zero passing assertions"),
        (
            "pass: 9, fail: 4294967295",
            "suite recorded 4294967295 failed assertions",
        ),
    ] {
        let log = format!("test suite (a) - {counts}{done}");
        assert_eq!(
            check_spdm_responder_validator_results(&log, "").unwrap_err(),
            message
        );
    }
    let log = format!("  test assertion 2.1 - FAIL x\ntest suite (a) - pass: 1, fail: 0{done}");
    assert_eq!(
        check_spdm_responder_validator_results(&log, "").unwrap_err(),
        "log contains a failed assertion"
    );
    let log = format!("a test assertion 2.1 - FAIL x\ntest suite (a) - pass: 1, fail: 0{done}");
    assert!(check_spdm_responder_validator_results(&log, "").is_ok());
}

#[test]
fn whitespace_behind_a_log_does_not_matter() {
    for log in [
        COMPLETE_LOG,
        COMPLETE_LOG.trim_end(),
        "",
        "test result done",
        "test suite (a) - pass: 1, fail: test result done",
        "test suite (a) - pass: 1, fail: 0\ntest assertion 1 - FAIL test result done",
        "test suite (a) - pass: 1, fail: 0\r\ntest result done\r",
    ] {
        for white in [" ", "\n", "\r", "\r\n", "\n\n \t\u{2028}", "\u{3000}\r\n\u{85}"] {
            for groups in ["", "VERSION"] {
                assert_eq!(
                    check_spdm_responder_validator_results(&format!("{log}{white}"), groups),
                    check_spdm_responder_validator_results(log, groups)
                );
            }
        }
    }
}

#[test]
fn version_group_is_found_in_a_list() {
    let log = COMPLETE_LOG.replace("0x1400", "0x1300");
    for (groups, selected) in [
        ("VERSION", true),
        (" CAPS ,\tVERSION ", true),
        ("VERSIONS", false),
        ("version", false),
        (",,", false),
        ("", false),
    ] {
        assert_eq!(
            check_spdm_responder_validator_results(&log, groups).is_err(),
            selected
        );
        assert!(check_spdm_responder_validator_results(COMPLETE_LOG, groups).is_ok());
    }
}

#[test]
fn commands_of_the_validators() {
    let command = start_spdm_attestation_with_port("DOE", None, Some("00ff"));
    assert_eq!(command.binary, "spdm_requester_emu");
    assert_eq!(command.log_file, "spdm_requester_emu_output.txt");
    assert_eq!(command.args.len(), 6);
    assert_eq!(command.args[1], "DOE");
    assert_eq!(
        command.env,
        vec![("SPDM_NONCE".to_string(), "00ff".to_string())]
    );

    let command = start_spdm_responder_validator("MCTP", Some("VERSION,CAPS"));
    assert_eq!(command.binary, "spdm_device_validator_sample");
    assert_eq!(command.log_file, "spdm_device_validator_output.txt");
    assert_eq!(
        command.args,
        [
            "--trans",
            "MCTP",
            "--pcap",
            "caliptra_spdm_validator.pcap",
            "--test-groups",
            "VERSION,CAPS"
        ]
    );
    assert!(command.env.is_empty());
    for groups in [None, Some("")] {
        assert_eq!(start_spdm_responder_validator("MCTP", groups).args.len(), 4);
    }

    let command = start_spdm_tee_io_validator("DOE", None, true);
    assert_eq!(command.binary, "spdm-requester-emu");
    assert_eq!(command.log_file, "tdisp_ide_validator_output.txt");
    assert_eq!(
        command.args,
        [
            "--no-default-features",
            "--features",
            "spdm-ring,hashed-transcript-data,async-executor,chunk-cap"
        ]
    );
    let command = start_spdm_tee_io_validator("DOE", Some(&["one"]), false);
    assert_eq!(command.args, ["--features", "one"]);
    let command = start_spdm_tee_io_validator("DOE", Some(&[]), false);
    assert_eq!(command.args, ["--features", ""]);
}

fn go(run: &mut ValidatorRun, steps: &[(RunAction, RunEvent)]) {
    for (action, event) in steps {
        assert_eq!(run.pending(), *action);
        run.report(*event);
    }
}

const LAUNCHED: [(RunAction, RunEvent); 6] = [
    (RunAction::AskListener, RunEvent::Listening(false)),
    (RunAction::SleepForListener, RunEvent::Completed),
    (RunAction::AskListener, RunEvent::Listening(true)),
    (RunAction::Launch, RunEvent::Launched(true)),
    (RunAction::AskRunning, RunEvent::EmulatorRunning(true)),
    (RunAction::PollChild, RunEvent::Child(ChildStatus::StillRunning)),
];

const POLLING: [(RunAction, RunEvent); 2] = [
    (RunAction::SleepForChild, RunEvent::Completed),
    (RunAction::AskRunning, RunEvent::EmulatorRunning(true)),
];

fn watched(mut run: ValidatorRun, status: ChildStatus) -> ValidatorRun {
    go(&mut run, &LAUNCHED);
    go(&mut run, &POLLING);
    go(&mut run, &[(RunAction::PollChild, RunEvent::Child(status))]);
    run
}

#[test]
fn run_of_the_responder_validator() {
    let start = || execute_spdm_responder_validator("MCTP", None);
    let mut run = watched(start(), ChildStatus::Exited(true));
    assert_eq!(run.pending(), RunAction::CheckLog);
    run.report(RunEvent::LogPassed(true));
    assert_eq!(run.pending(), RunAction::KillChild(true));
    run.report(RunEvent::Completed);
    assert_eq!(run.pending(), RunAction::Done(true));
    assert_eq!(run.command().args.len(), 4);

    let mut run = watched(start(), ChildStatus::Exited(true));
    run.report(RunEvent::LogPassed(false));
    assert_eq!(run.pending(), RunAction::ExitProcess);
    for status in [ChildStatus::Exited(false), ChildStatus::Unknown] {
        assert_eq!(watched(start(), status).pending(), RunAction::ExitProcess);
    }
}

#[test]
fn run_of_the_tee_io_validator() {
    let start = || execute_spdm_tee_io_validator("DOE");
    let mut run = watched(start(), ChildStatus::Exited(true));
    assert_eq!(run.pending(), RunAction::KillChild(true));
    run.report(RunEvent::Completed);
    assert_eq!(run.pending(), RunAction::Done(true));
    for status in [ChildStatus::Exited(false), ChildStatus::Unknown] {
        assert_eq!(watched(start(), status).pending(), RunAction::ExitProcess);
    }
    assert_eq!(start().command().args[0], "--no-default-features");
}

#[test]
fn run_of_the_attestation_requester() {
    let start = || execute_spdm_attestation("MCTP");
    assert_eq!(start().command().args.len(), 6);
    assert!(start().command().env.is_empty());
    assert_eq!(
        watched(start(), ChildStatus::Exited(true)).pending(),
        RunAction::Done(true)
    );
    for status in [ChildStatus::Exited(false), ChildStatus::Unknown] {
        assert_eq!(watched(start(), status).pending(), RunAction::Done(false));
    }
    let run = execute_spdm_attestation_with_port("MCTP", Some(2323), Some("n"));
    assert_eq!(run.command().args[7], "2323");
    assert_eq!(run.command().env.len(), 1);
}

#[test]
fn run_without_program_or_emulator() {
    let launch = [(RunAction::AskListener, RunEvent::Listening(true))];
    for (mut run, expected) in [
        (execute_spdm_tee_io_validator("DOE"), RunAction::ExitProcess),
        (execute_spdm_attestation("DOE"), RunAction::Done(false)),
        (
            execute_spdm_responder_validator("DOE", None),
            RunAction::Done(false),
        ),
    ] {
        go(&mut run, &launch);
        run.report(RunEvent::Launched(false));
        assert_eq!(run.pending(), expected);
        // What does not belong there changes nothing.
        run.report(RunEvent::Completed);
        assert_eq!(run.pending(), expected);
    }
    let mut run = execute_spdm_attestation("DOE");
    go(&mut run, &LAUNCHED);
    go(
        &mut run,
        &[
            (RunAction::SleepForChild, RunEvent::Completed),
            (RunAction::AskRunning, RunEvent::EmulatorRunning(false)),
            (RunAction::KillChild(false), RunEvent::Completed),
        ],
    );
    assert_eq!(run.pending(), RunAction::Done(false));
}

#[test]
fn waiting_for_the_responder_validator() {
    assert_eq!(wait_for_spdm_responder_validator(true, false), None);
    assert_eq!(wait_for_spdm_responder_validator(true, true), Some(true));
    assert_eq!(wait_for_spdm_responder_validator(false, true), Some(true));
    assert_eq!(wait_for_spdm_responder_validator(false, false), Some(false));
}

#[test]
fn socket_messages_are_big_endian() {
    assert_eq!(
        encode_socket_message(0x0102_0304, SOCKET_SPDM_COMMAND_NORMAL, &[0xAA, 0xBB]),
        vec![0, 0, 0, 1, 1, 2, 3, 4, 0, 0, 0, 2, 0xAA, 0xBB]
    );
    let mut hello = vec![0, 0, 0xDE, 0xAD, 0, 0, 0, 5, 0, 0, 0, 14];
    hello.extend_from_slice(b"Server Hello!\0");
    assert_eq!(encode_hello(5), hello);
    assert_eq!(
        encode_stop(6),
        vec![0, 0, 0xFF, 0xFE, 0, 0, 0, 6, 0, 0, 0, 0]
    );
    let header = SpdmSocketHeader {
        command: 0x1122_3344,
        transport_type: 0x5566_7788,
        payload_size: 0x99AA_BBCC,
    };
    assert_eq!(SpdmSocketHeader::decode(&header.encode()), header);
}

#[test]
fn a_message_is_received_in_any_pieces() {
    let message = encode_socket_message(2, SOCKET_SPDM_COMMAND_NORMAL, b"payload");
    for piece in 1..=message.len() {
        let mut receiver = SocketReceiver::new();
        assert!(!receiver.whole());
        let mut taken = 0;
        for chunk in message.chunks(piece) {
            taken += chunk.len();
            assert_eq!(receiver.take_in(chunk), taken == message.len());
        }
        assert_eq!(
            receiver.finish(),
            Some((2, SOCKET_SPDM_COMMAND_NORMAL, b"payload".to_vec()))
        );
    }
}

#[test]
fn a_partial_message_is_handed_over_as_it_is() {
    let message = encode_socket_message(2, SOCKET_SPDM_COMMAND_TEST, b"payload");
    let mut receiver = SocketReceiver::new();
    receiver.take_in(&message[..SOCKET_HEADER_LEN - 1]);
    assert_eq!(receiver.finish(), None);
    receiver.take_in(&message[SOCKET_HEADER_LEN - 1..SOCKET_HEADER_LEN + 3]);
    assert!(!receiver.whole());
    assert_eq!(
        receiver.finish(),
        Some((2, SOCKET_SPDM_COMMAND_TEST, b"pay".to_vec()))
    );
    // Bytes behind the payload stay with it.
    receiver.take_in(b"load, and more");
    assert!(receiver.whole());
    assert_eq!(receiver.finish().unwrap().2, b"payload, and more".to_vec());
}

#[test]
fn a_receiver_never_takes_in_more_than_its_buffer() {
    let mut receiver = SocketReceiver::new();
    assert_eq!(receiver.room(), RECEIVER_BUFFER_SIZE);
    assert!(!receiver.take_in(&[0xFF; RECEIVER_BUFFER_SIZE - 1]));
    assert_eq!(receiver.room(), 1);
    assert!(!receiver.take_in(&[1, 2, 3]));
    assert_eq!(receiver.room(), 0);
    let (_, _, payload) = receiver.finish().unwrap();
    assert_eq!(payload.len(), RECEIVER_BUFFER_SIZE - SOCKET_HEADER_LEN);
    assert_eq!(payload[payload.len() - 2..], [0xFF, 1]);
}

fn receiving(transport_type: u32) -> SpdmValidatorRunner {
    let mut runner = SpdmValidatorRunner::new(transport_type, "validator");
    assert!(matches!(runner.next_action(true), RunnerAction::Continue));
    assert!(matches!(runner.next_action(true), RunnerAction::Receive));
    runner
}

#[test]
fn session_of_test_requests_and_stop() {
    let mut runner = receiving(3);
    assert_eq!(runner.test_name(), "validator");
    assert_eq!(runner.transport_type(), 3);
    match runner.receive_message(3, SOCKET_SPDM_COMMAND_TEST, vec![1]) {
        SocketAction::SendHello(message) => assert_eq!(message, encode_hello(3)),
        _ => panic!("a test command is answered with a greeting"),
    }
    assert!(matches!(runner.next_action(true), RunnerAction::Receive));

    for (request, response, first) in [(vec![1, 2], vec![3], true), (vec![4], vec![5, 6], false)] {
        match runner.receive_message(3, SOCKET_SPDM_COMMAND_NORMAL, request.clone()) {
            SocketAction::Forward { wait } => assert_eq!(wait, first),
            _ => panic!("a request goes to the target"),
        }
        assert_eq!(runner.request(), &request[..]);
        assert!(runner.answer_received(Some(response.clone())));
        match runner.next_action(true) {
            RunnerAction::Send(message) => assert_eq!(
                message,
                encode_socket_message(3, SOCKET_SPDM_COMMAND_NORMAL, &response)
            ),
            _ => panic!("the response is sent"),
        }
        assert!(matches!(runner.next_action(true), RunnerAction::Receive));
    }

    assert!(!runner.is_passed());
    match runner.receive_message(3, SOCKET_SPDM_COMMAND_STOP, vec![]) {
        SocketAction::SendStop(message) => assert_eq!(message, encode_stop(3)),
        _ => panic!("a stop command is answered"),
    }
    assert!(runner.is_passed());
    assert!(matches!(runner.next_action(true), RunnerAction::Stop));
}

#[test]
fn session_ends_on_what_it_does_not_know() {
    let mut runner = receiving(3);
    assert!(matches!(
        runner.receive_message(4, SOCKET_SPDM_COMMAND_STOP, vec![]),
        SocketAction::WrongTransport
    ));
    assert!(!runner.is_passed());
    assert!(matches!(runner.next_action(true), RunnerAction::Stop));

    let mut runner = receiving(3);
    assert!(matches!(
        runner.receive_message(3, 0x1234, vec![]),
        SocketAction::UnknownCommand
    ));
    assert!(matches!(runner.next_action(true), RunnerAction::Stop));

    let mut runner = receiving(3);
    assert!(matches!(
        runner.receive_message(3, SOCKET_SPDM_COMMAND_NORMAL, vec![9]),
        SocketAction::Forward { wait: true }
    ));
    assert!(!runner.answer_received(None));
    assert!(matches!(runner.next_action(true), RunnerAction::Stop));
    assert!(!runner.is_passed());

    let mut runner = receiving(3);
    assert!(matches!(runner.next_action(false), RunnerAction::Stop));
    assert!(matches!(runner.next_action(true), RunnerAction::Receive));
}

#[test]
fn processing_alone_does_not_end_the_session() {
    let mut runner = receiving(3);
    assert!(matches!(
        runner.process_socket_message(4, SOCKET_SPDM_COMMAND_STOP, vec![1]),
        SocketAction::WrongTransport
    ));
    assert!(!runner.is_passed());
    assert!(matches!(
        runner.process_socket_message(3, 0x1234, vec![1]),
        SocketAction::UnknownCommand
    ));
    assert_eq!(runner.request(), &[] as &[u8]);
    assert!(matches!(
        runner.process_socket_message(3, SOCKET_SPDM_COMMAND_NORMAL, vec![9]),
        SocketAction::Forward { wait: true }
    ));
    assert_eq!(runner.request(), &[9]);
    assert!(!runner.target_answered(None));
    assert!(matches!(
        runner.process_socket_message(3, SOCKET_SPDM_COMMAND_NORMAL, vec![8]),
        SocketAction::Forward { wait: true }
    ));
    match runner.process_socket_message(3, SOCKET_SPDM_COMMAND_STOP, vec![]) {
        SocketAction::SendStop(message) => assert_eq!(message, encode_stop(3)),
        _ => panic!("a stop command is answered"),
    }
    assert!(runner.is_passed());
    assert!(matches!(runner.next_action(true), RunnerAction::Receive));

    assert!(runner.target_answered(Some(vec![7])));
    match runner.process_socket_message(3, SOCKET_SPDM_COMMAND_STOP, vec![]) {
        SocketAction::SendStop(_) => {}
        _ => panic!("a stop command is answered"),
    }
    assert!(matches!(runner.next_action(true), RunnerAction::Send(_)));

    // A greeting has the runner receive, whatever it was about to do.
    assert!(runner.target_answered(Some(vec![7])));
    assert!(matches!(
        runner.process_socket_message(3, SOCKET_SPDM_COMMAND_TEST, vec![]),
        SocketAction::SendHello(_)
    ));
    assert!(matches!(runner.next_action(true), RunnerAction::Receive));
}
