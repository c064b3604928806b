//! What the outside validator programs are launched with.
//!
//! For each program: its file name, its arguments, the variables to set and the
//! file for its output; and the intervals at which a run looks at the listener
//! and at a launched program.

use crate::text::{decimal, joined, push_decimal, string_texts};
use vstd::prelude::*;

verus! {

/// Capabilities of the attestation requester. Endpoint information is not part
/// of the attestation flow.
pub const ATTESTATION_REQUESTER_CAPABILITIES: &'static str = "CERT,CHAL,CHUNK,LARGE_RESP";

/// Milliseconds between two looks at the listener.
pub const LISTENER_POLL_MS: u64 = 200;

/// Milliseconds between two looks at a launched program.
pub const CHILD_POLL_MS: u64 = 100;

/// A program to launch: its file name, the file that its output goes to, its
/// arguments, and variables to set in its environment.
pub struct LaunchCommand {
    pub binary: &'static str,
    pub log_file: &'static str,
    pub args: Vec<String>,
    pub env: Vec<(String, String)>,
}

/// The texts of string slices.
pub open spec fn str_texts(strings: Seq<&str>) -> Seq<Seq<char>> {
    strings.map_values(|s: &str| s@)
}

/// The names and values of variables.
pub open spec fn env_texts(env: Seq<(String, String)>) -> Seq<(Seq<char>, Seq<char>)> {
    env.map_values(|e: (String, String)| (e.0@, e.1@))
}

impl LaunchCommand {
    /// The arguments.
    pub open spec fn arguments(self) -> Seq<Seq<char>> {
        string_texts(self.args@)
    }

    /// The variables to set.
    pub open spec fn variables(self) -> Seq<(Seq<char>, Seq<char>)> {
        env_texts(self.env@)
    }

    /// A command without arguments.
    pub fn new(binary: &'static str, log_file: &'static str) -> (r: LaunchCommand)
        ensures
            r.binary@ == binary@,
            r.log_file@ == log_file@,
            r.arguments() == Seq::<Seq<char>>::empty(),
            r.variables() == Seq::<(Seq<char>, Seq<char>)>::empty(),
    {
        let r = LaunchCommand { binary, log_file, args: Vec::new(), env: Vec::new() };
        r
    }

    /// Adds an argument.
    pub fn arg(&mut self, arg: &str)
        ensures
            final(self).binary@ == old(self).binary@,
            final(self).log_file@ == old(self).log_file@,
            final(self).arguments() == old(self).arguments().push(arg@),
            final(self).variables() == old(self).variables(),
    {
        self.args.push(arg.to_owned());
    }

    /// Adds a variable.
    pub fn env(&mut self, name: &str, value: &str)
        ensures
            final(self).binary@ == old(self).binary@,
            final(self).log_file@ == old(self).log_file@,
            final(self).arguments() == old(self).arguments(),
            final(self).variables() == old(self).variables().push((name@, value@)),
    {
        self.env.push((name.to_owned(), value.to_owned()));
    }
}

/// Arguments of the attestation requester.
pub open spec fn attestation_arguments(transport: Seq<char>, port: Option<u16>) -> Seq<Seq<char>> {
    seq![
        "--trans"@,
        transport,
        "--cap"@,
        ATTESTATION_REQUESTER_CAPABILITIES@,
        "--pcap"@,
        "caliptra-evidence.pcap"@,
    ] + match port {
        Some(port) => seq!["--port"@, decimal(port as nat)],
        None => Seq::empty(),
    }
}

/// Variables of the attestation requester: the nonce for `GET_MEASUREMENTS`,
/// where one is given.
pub open spec fn attestation_variables(nonce: Option<Seq<char>>) -> Seq<(Seq<char>, Seq<char>)> {
    match nonce {
        Some(nonce) => seq![("SPDM_NONCE"@, nonce)],
        None => Seq::empty(),
    }
}

/// The text of an optional string slice.
pub open spec fn opt_text(s: Option<&str>) -> Option<Seq<char>> {
    match s {
        Some(s) => Some(s@),
        None => None,
    }
}

/// Adds what the attestation requester is launched with.
pub fn configure_spdm_attestation_command(
    cmd: &mut LaunchCommand,
    transport: &str,
    port: Option<u16>,
    nonce: Option<&str>,
)
    ensures
        final(cmd).binary@ == old(cmd).binary@,
        final(cmd).log_file@ == old(cmd).log_file@,
        final(cmd).arguments() == old(cmd).arguments() + attestation_arguments(transport@, port),
        final(cmd).variables() == old(cmd).variables() + attestation_variables(opt_text(nonce)),
{
    cmd.arg("--trans");
    cmd.arg(transport);
    cmd.arg("--cap");
    cmd.arg(ATTESTATION_REQUESTER_CAPABILITIES);
    cmd.arg("--pcap");
    cmd.arg("caliptra-evidence.pcap");
    if let Some(port) = port {
        let mut digits = String::new();
        push_decimal(&mut digits, port as u64);
        cmd.arg("--port");
        cmd.arg(digits.as_str());
    }
    if let Some(nonce) = nonce {
        cmd.env("SPDM_NONCE", nonce);
    }
}

/// The attestation requester, on the given port and with the given nonce. A
/// distinct nonce per session keeps the evidence of sessions apart; without
/// one the ambient environment decides.
pub fn start_spdm_attestation_with_port(
    transport: &str,
    port: Option<u16>,
    nonce: Option<&str>,
) -> (r: LaunchCommand)
    ensures
        r.binary@ == "spdm_requester_emu"@,
        r.log_file@ == "spdm_requester_emu_output.txt"@,
        r.arguments() == attestation_arguments(transport@, port),
        r.variables() == attestation_variables(opt_text(nonce)),
{
    let mut cmd = LaunchCommand::new("spdm_requester_emu", "spdm_requester_emu_output.txt");
    configure_spdm_attestation_command(&mut cmd, transport, port, nonce);
    cmd
}

/// Arguments of the responder validator.
pub open spec fn responder_arguments(
    transport: Seq<char>,
    test_groups: Option<Seq<char>>,
) -> Seq<Seq<char>> {
    seq!["--trans"@, transport, "--pcap"@, "caliptra_spdm_validator.pcap"@] + match test_groups {
        Some(groups) if groups.len() > 0 => seq!["--test-groups"@, groups],
        _ => Seq::empty(),
    }
}

/// The responder validator, restricted to `test_groups` where that names any.
pub fn start_spdm_responder_validator(transport: &str, test_groups: Option<&str>) -> (r:
    LaunchCommand)
    ensures
        r.binary@ == "spdm_device_validator_sample"@,
        r.log_file@ == "spdm_device_validator_output.txt"@,
        r.arguments() == responder_arguments(transport@, opt_text(test_groups)),
        r.variables() == Seq::<(Seq<char>, Seq<char>)>::empty(),
{
    let mut cmd = LaunchCommand::new(
        "spdm_device_validator_sample",
        "spdm_device_validator_output.txt",
    );
    cmd.arg("--trans");
    cmd.arg(transport);
    cmd.arg("--pcap");
    cmd.arg("caliptra_spdm_validator.pcap");
    if let Some(groups) = test_groups {
        if groups.unicode_len() > 0 {
            cmd.arg("--test-groups");
            cmd.arg(groups);
        }
    }
    cmd
}

/// Features of the TEE-IO validator where none are given.
pub open spec fn default_features() -> Seq<Seq<char>> {
    seq!["spdm-ring"@, "hashed-transcript-data"@, "async-executor"@, "chunk-cap"@]
}

/// Arguments of the TEE-IO validator.
pub open spec fn tee_io_arguments(
    features: Seq<Seq<char>>,
    no_default_features: bool,
) -> Seq<Seq<char>> {
    (if no_default_features {
        seq!["--no-default-features"@]
    } else {
        Seq::empty()
    }) + seq!["--features"@, joined(features, ',')]
}

/// `parts` with commas between them.
fn join_with_commas(parts: &[&str]) -> (r: String)
    ensures
        r@ == joined(str_texts(parts@), ','),
{
    let ghost all = str_texts(parts@);
    let mut out = String::new();
    let mut i: usize = 0;
    while i < parts.len()
        invariant
            i <= parts@.len(),
            all == str_texts(parts@),
            out@ == joined(all.take(i as int), ','),
        decreases parts.len() - i,
    {
        assert(all.take(i + 1).drop_last() =~= all.take(i as int));
        if i > 0 {
            out.push(',');
        }
        let part = parts[i];
        out.append(part);
        i += 1;
    }
    assert(all.take(i as int) =~= all);
    out
}

/// The TEE-IO validator, with the given features or its usual ones.
pub fn start_spdm_tee_io_validator(
    _transport: &str,
    features: Option<&[&str]>,
    no_default_features: bool,
) -> (r: LaunchCommand)
    ensures
        r.binary@ == "spdm-requester-emu"@,
        r.log_file@ == "tdisp_ide_validator_output.txt"@,
        r.arguments() == tee_io_arguments(
            match features {
                Some(features) => str_texts(features@),
                None => default_features(),
            },
            no_default_features,
        ),
        r.variables() == Seq::<(Seq<char>, Seq<char>)>::empty(),
{
    let usual: [&str; 4] = ["spdm-ring", "hashed-transcript-data", "async-executor", "chunk-cap"];
    let features_str = match features {
        Some(features) => join_with_commas(features),
        None => {
            assert(str_texts(usual@) =~= default_features());
            join_with_commas(&usual)
        },
    };
    let mut cmd = LaunchCommand::new("spdm-requester-emu", "tdisp_ide_validator_output.txt");
    if no_default_features {
        cmd.arg("--no-default-features");
    }
    cmd.arg("--features");
    cmd.arg(features_str.as_str());
    cmd
}

/// Runs with different nonces are launched differently.
pub proof fn law_nonces_are_told_apart(a: Seq<char>, b: Seq<char>)
    requires
        a != b,
    ensures
        attestation_variables(Some(a)) != attestation_variables(Some(b)),
        attestation_variables(Some(a)) != attestation_variables(None),
{
    assert(attestation_variables(Some(b))[0].1 == b);
}

/// What the attestation requester is given: the transport, capabilities without
/// endpoint information, a capture file and, where there is one, the port.
pub proof fn law_attestation_arguments(transport: Seq<char>, port: u16)
    ensures
        ({
            let usual = attestation_arguments(transport, None);
            let with_port = attestation_arguments(transport, Some(port));
            &&& usual.len() == 6
            &&& usual[0] == "--trans"@ && usual[1] == transport
            &&& usual[2] == "--cap"@ && usual[3] == "CERT,CHAL,CHUNK,LARGE_RESP"@
            &&& usual[4] == "--pcap"@ && usual[5] == "caliptra-evidence.pcap"@
            &&& with_port == usual.push("--port"@).push(decimal(port as nat))
        }),
        attestation_variables(None).len() == 0,
        forall|nonce: Seq<char>|
            #[trigger] attestation_variables(Some(nonce)) == seq![("SPDM_NONCE"@, nonce)],
{
}

/// What the responder validator is given: the transport, a capture file and,
/// where any are named, the test groups.
pub proof fn law_responder_arguments(transport: Seq<char>, groups: Seq<char>)
    ensures
        ({
            let usual = responder_arguments(transport, None);
            &&& usual.len() == 4
            &&& usual[0] == "--trans"@ && usual[1] == transport
            &&& usual[2] == "--pcap"@ && usual[3] == "caliptra_spdm_validator.pcap"@
            &&& groups.len() == 0 ==> responder_arguments(transport, Some(groups)) == usual
            &&& groups.len() > 0 ==> responder_arguments(transport, Some(groups)) == usual.push(
                "--test-groups"@,
            ).push(groups)
        }),
{
}

/// What the TEE-IO validator is given: its features, with commas between them,
/// as its last argument, and before that whether they are all.
pub proof fn law_tee_io_arguments(features: Seq<Seq<char>>)
    ensures
        tee_io_arguments(features, false) == seq!["--features"@, joined(features, ',')],
        tee_io_arguments(features, true) == seq!["--no-default-features"@] + tee_io_arguments(
            features,
            false,
        ),
        default_features() == seq![
            "spdm-ring"@,
            "hashed-transcript-data"@,
            "async-executor"@,
            "chunk-cap"@,
        ],
{
}

/// A text is taken over as it is.
pub proof fn law_texts_are_taken_over(strings: Seq<String>, strs: Seq<&str>, i: int)
    ensures
        0 <= i < strings.len() ==> string_texts(strings)[i] == strings[i]@,
        0 <= i < strs.len() ==> str_texts(strs)[i] == strs[i]@,
        string_texts(strings).len() == strings.len(),
        str_texts(strs).len() == strs.len(),
        opt_text(None) is None,
        0 <= i < strs.len() ==> opt_text(Some(strs[i])) == Some(strs[i]@),
{
}

/// A command is launched with the arguments and the variables that it holds.
pub proof fn law_command_content(command: LaunchCommand, i: int)
    ensures
        command.arguments().len() == command.args@.len(),
        0 <= i < command.args@.len() ==> command.arguments()[i] == command.args@[i]@,
        command.variables().len() == command.env@.len(),
        0 <= i < command.env@.len() ==> command.variables()[i] == (
            command.env@[i].0@,
            command.env@[i].1@,
        ),
{
}

/// In a second the listener is looked at five times and a program ten times.
pub proof fn law_looks_per_second()
    ensures
        5 * LISTENER_POLL_MS == 1000,
        10 * CHILD_POLL_MS == 1000,
{
}

} // verus!
