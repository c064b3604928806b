//! The server side of the socket protocol between an SPDM validator and the
//! responder under test.
//!
//! A message is a header of three big-endian words (command, transport type,
//! payload size) and a payload. The runner answers test and stop commands
//! itself and passes normal ones on to the target. It only decides: reading
//! and writing the socket and talking to the target are its user's part.

use crate::bytes::{
    array_bytes, be32, be32_bytes, cut_to_u32, law_integer_bytes_round_trip, law_low_bits, low32,
    push_bytes, u32_be, u32_be_bytes,
};
use vstd::prelude::*;
use vstd::slice::slice_subrange;

verus! {

/// Largest number of bytes that are taken in for one message.
pub const RECEIVER_BUFFER_SIZE: usize = 4160;

/// Command of a message that carries an SPDM message.
pub const SOCKET_SPDM_COMMAND_NORMAL: u32 = 0x0001;

/// Command that ends the session.
pub const SOCKET_SPDM_COMMAND_STOP: u32 = 0xFFFE;

/// Command that asks for a greeting.
pub const SOCKET_SPDM_COMMAND_TEST: u32 = 0xDEAD;

/// Size of a message header.
pub const SOCKET_HEADER_LEN: usize = 12;

/// A message header.
#[derive(Clone, Copy, Debug, PartialEq, Eq, Structural)]
pub struct SpdmSocketHeader {
    pub command: u32,
    pub transport_type: u32,
    pub payload_size: u32,
}

impl SpdmSocketHeader {
    /// The header that `s` begins with.
    pub open spec fn of_bytes(s: Seq<u8>) -> SpdmSocketHeader {
        SpdmSocketHeader {
            command: be32(s.subrange(0, 4)) as u32,
            transport_type: be32(s.subrange(4, 8)) as u32,
            payload_size: be32(s.subrange(8, 12)) as u32,
        }
    }

    /// The encoded header.
    pub open spec fn bytes(self) -> Seq<u8> {
        be32_bytes(self.command) + be32_bytes(self.transport_type) + be32_bytes(self.payload_size)
    }

    /// Reads the header that `s` begins with.
    pub fn decode(s: &[u8]) -> (r: SpdmSocketHeader)
        requires
            s@.len() >= SOCKET_HEADER_LEN,
        ensures
            r == SpdmSocketHeader::of_bytes(s@),
    {
        let command = u32_be([s[0], s[1], s[2], s[3]]);
        let transport_type = u32_be([s[4], s[5], s[6], s[7]]);
        let payload_size = u32_be([s[8], s[9], s[10], s[11]]);
        SpdmSocketHeader { command, transport_type, payload_size }
    }

    /// Encodes the header.
    pub fn encode(&self) -> (r: [u8; 12])
        ensures
            r@ == self.bytes(),
    {
        let c = u32_be_bytes(self.command);
        let t = u32_be_bytes(self.transport_type);
        let p = u32_be_bytes(self.payload_size);
        let r = [c[0], c[1], c[2], c[3], t[0], t[1], t[2], t[3], p[0], p[1], p[2], p[3]];
        r
    }
}

/// A message as it goes over the socket.
pub open spec fn socket_message(transport_type: u32, command: u32, payload: Seq<u8>) -> Seq<u8> {
    let header = SpdmSocketHeader {
        command,
        transport_type,
        payload_size: low32(payload.len() as int),
    };
    header.bytes() + payload
}

/// The payload of a greeting: `Server Hello!` and a zero byte.
pub open spec fn hello_payload() -> Seq<u8> {
    seq![
        0x53, 0x65, 0x72, 0x76, 0x65, 0x72, 0x20, 0x48, 0x65, 0x6C, 0x6C, 0x6F, 0x21, 0x00,
    ]
}

/// Encodes a message.
pub fn encode_socket_message(transport_type: u32, command: u32, payload: &[u8]) -> (r: Vec<u8>)
    ensures
        r@ == socket_message(transport_type, command, payload@),
{
    let header = SpdmSocketHeader {
        command,
        transport_type,
        payload_size: cut_to_u32(payload.len()),
    };
    let mut out: Vec<u8> = Vec::new();
    push_bytes(&mut out, array_bytes(&header.encode()));
    push_bytes(&mut out, payload);
    out
}

/// Encodes the greeting.
pub fn encode_hello(transport_type: u32) -> (r: Vec<u8>)
    ensures
        r@ == socket_message(transport_type, SOCKET_SPDM_COMMAND_TEST, hello_payload()),
{
    let hello: [u8; 14] = [
        0x53, 0x65, 0x72, 0x76, 0x65, 0x72, 0x20, 0x48, 0x65, 0x6C, 0x6C, 0x6F, 0x21, 0x00,
    ];
    encode_socket_message(transport_type, SOCKET_SPDM_COMMAND_TEST, array_bytes(&hello))
}

/// Encodes the answer to a stop command.
pub fn encode_stop(transport_type: u32) -> (r: Vec<u8>)
    ensures
        r@ == socket_message(transport_type, SOCKET_SPDM_COMMAND_STOP, Seq::empty()),
{
    let none: Vec<u8> = Vec::new();
    encode_socket_message(transport_type, SOCKET_SPDM_COMMAND_STOP, none.as_slice())
}

/// Whether `received` holds a whole message.
pub open spec fn is_whole(received: Seq<u8>) -> bool {
    &&& received.len() >= SOCKET_HEADER_LEN
    &&& received.len() >= SOCKET_HEADER_LEN + SpdmSocketHeader::of_bytes(received).payload_size
}

/// The bytes of one message as they come in.
pub struct SocketReceiver {
    buffer: Vec<u8>,
}

impl View for SocketReceiver {
    type V = Seq<u8>;

    closed spec fn view(&self) -> Seq<u8> {
        self.buffer@
    }
}

impl SocketReceiver {
    /// Nothing more is taken in than fits the buffer.
    #[verifier::type_invariant]
    closed spec fn fits(self) -> bool {
        self.buffer@.len() <= RECEIVER_BUFFER_SIZE
    }

    /// A receiver that has nothing yet.
    pub fn new() -> (r: SocketReceiver)
        ensures
            r@ == Seq::<u8>::empty(),
    {
        let buffer: Vec<u8> = Vec::new();
        SocketReceiver { buffer }
    }

    /// How many more bytes can be taken in.
    pub fn room(&self) -> (r: usize)
        ensures
            r == RECEIVER_BUFFER_SIZE - self@.len(),
    {
        proof {
            use_type_invariant(self);
        }
        RECEIVER_BUFFER_SIZE - self.buffer.len()
    }

    /// Takes in the next bytes, as far as there is room, and tells whether the
    /// message is whole.
    pub fn take_in(&mut self, chunk: &[u8]) -> (r: bool)
        ensures
            final(self)@ == old(self)@ + (if chunk@.len() <= RECEIVER_BUFFER_SIZE - old(
                self,
            )@.len() {
                chunk@
            } else {
                chunk@.take(RECEIVER_BUFFER_SIZE - old(self)@.len())
            }),
            r == is_whole(final(self)@),
    {
        let room: usize = self.room();
        let taken = if chunk.len() <= room {
            chunk
        } else {
            slice_subrange(chunk, 0, room)
        };
        let mut buffer: Vec<u8> = Vec::new();
        std::mem::swap(&mut buffer, &mut self.buffer);
        push_bytes(&mut buffer, taken);
        self.buffer = buffer;
        self.whole()
    }

    /// Whether the message is whole.
    pub fn whole(&self) -> (r: bool)
        ensures
            r == is_whole(self@),
    {
        let n: usize = self.buffer.len();
        if n < SOCKET_HEADER_LEN {
            return false;
        }
        let header = SpdmSocketHeader::decode(self.buffer.as_slice());
        let expected: u64 = header.payload_size as u64 + SOCKET_HEADER_LEN as u64;
        n as u64 >= expected
    }

    /// Transport type, command and payload of what has come in: all that
    /// follows the header. `None` if there is no whole header.
    pub fn finish(&self) -> (r: Option<(u32, u32, Vec<u8>)>)
        ensures
            match r {
                Some((transport_type, command, payload)) => {
                    &&& self@.len() >= SOCKET_HEADER_LEN
                    &&& transport_type == SpdmSocketHeader::of_bytes(self@).transport_type
                    &&& command == SpdmSocketHeader::of_bytes(self@).command
                    &&& payload@ == self@.skip(SOCKET_HEADER_LEN as int)
                },
                None => self@.len() < SOCKET_HEADER_LEN,
            },
    {
        let n: usize = self.buffer.len();
        if n < SOCKET_HEADER_LEN {
            return None;
        }
        let header = SpdmSocketHeader::decode(self.buffer.as_slice());
        let mut payload: Vec<u8> = Vec::new();
        push_bytes(&mut payload, slice_subrange(self.buffer.as_slice(), SOCKET_HEADER_LEN, n));
        Some((header.transport_type, header.command, payload))
    }
}

/// Where the runner stands.
#[derive(Clone, Copy, Debug, PartialEq, Eq, Structural)]
pub enum SpdmServerState {
    Start,
    ReceiveRequest,
    SendResponse,
    Finish,
}

/// What the runner asks of its user next.
pub enum RunnerAction {
    /// Ask again.
    Continue,
    /// Receive a message and hand it over.
    Receive,
    /// Send a message that carries the response.
    Send(Vec<u8>),
    /// The run is over.
    Stop,
}

/// How a received message is dealt with.
pub enum SocketAction {
    /// It is of another transport.
    WrongTransport,
    /// It has no known command.
    UnknownCommand,
    /// It is answered with a greeting.
    SendHello(Vec<u8>),
    /// It is answered and ends the run.
    SendStop(Vec<u8>),
    /// It goes on to the target, whose answer is to be handed over. With
    /// `wait`, the target may still be starting and is waited for.
    Forward { wait: bool },
}

/// Runs one session with a validator.
pub struct SpdmValidatorRunner {
    test_name: &'static str,
    transport_type: u32,
    passed: bool,
    responder_ready: bool,
    cur_req_msg: Vec<u8>,
    cur_rsp_msg: Vec<u8>,
    state: SpdmServerState,
}

/// The state of a session.
pub struct Session {
    /// The only transport type that is served.
    pub transport_type: u32,
    /// Whether the validator has ended the session itself.
    pub passed: bool,
    /// Whether the target has answered before.
    pub responder_ready: bool,
    /// The latest request.
    pub request: Seq<u8>,
    /// The latest response.
    pub response: Seq<u8>,
    pub state: SpdmServerState,
}

impl Session {
    /// A session that has not begun.
    pub open spec fn fresh(transport_type: u32) -> Session {
        Session {
            transport_type,
            passed: false,
            responder_ready: false,
            request: Seq::empty(),
            response: Seq::empty(),
            state: SpdmServerState::Start,
        }
    }

    /// The session after the runner was asked what to do, in a system that is
    /// running or not.
    pub open spec fn after_step(self, running: bool) -> Session {
        Session {
            state: if running && self.state != SpdmServerState::Finish {
                SpdmServerState::ReceiveRequest
            } else {
                self.state
            },
            ..self
        }
    }

    /// The session with a received message processed: a test command has the
    /// runner receive again, a stop command passes the session, and a normal
    /// one leaves its payload as the request.
    pub open spec fn processed(
        self,
        transport_type: u32,
        command: u32,
        payload: Seq<u8>,
    ) -> Session {
        if transport_type != self.transport_type {
            self
        } else if command == SOCKET_SPDM_COMMAND_TEST {
            Session { state: SpdmServerState::ReceiveRequest, ..self }
        } else if command == SOCKET_SPDM_COMMAND_STOP {
            Session { passed: true, ..self }
        } else if command == SOCKET_SPDM_COMMAND_NORMAL {
            Session { request: payload, ..self }
        } else {
            self
        }
    }

    /// The session with the target's answer, or the lack of one, noted.
    pub open spec fn answered(self, answer: Option<Seq<u8>>) -> Session {
        match answer {
            Some(response) => Session {
                responder_ready: true,
                response,
                state: SpdmServerState::SendResponse,
                ..self
            },
            None => self,
        }
    }

    /// Whether `action` is how a message is dealt with.
    pub open spec fn deals_by(
        self,
        transport_type: u32,
        command: u32,
        action: SocketAction,
    ) -> bool {
        if transport_type != self.transport_type {
            action is WrongTransport
        } else if command == SOCKET_SPDM_COMMAND_TEST {
            action matches SocketAction::SendHello(m) && m@ == socket_message(
                transport_type,
                SOCKET_SPDM_COMMAND_TEST,
                hello_payload(),
            )
        } else if command == SOCKET_SPDM_COMMAND_STOP {
            action matches SocketAction::SendStop(m) && m@ == socket_message(
                transport_type,
                SOCKET_SPDM_COMMAND_STOP,
                Seq::empty(),
            )
        } else if command == SOCKET_SPDM_COMMAND_NORMAL {
            action matches SocketAction::Forward { wait } && wait == !self.responder_ready
        } else {
            action is UnknownCommand
        }
    }

    /// The session after a message came in, over if that was a stop command or
    /// nothing that is served.
    pub open spec fn after_message(
        self,
        transport_type: u32,
        command: u32,
        payload: Seq<u8>,
    ) -> Session {
        if transport_type == self.transport_type && command == SOCKET_SPDM_COMMAND_TEST {
            Session { state: SpdmServerState::ReceiveRequest, ..self }
        } else if transport_type == self.transport_type && command == SOCKET_SPDM_COMMAND_NORMAL {
            Session { request: payload, ..self }
        } else {
            Session {
                passed: self.passed || (transport_type == self.transport_type && command
                    == SOCKET_SPDM_COMMAND_STOP),
                state: SpdmServerState::Finish,
                ..self
            }
        }
    }

    /// The session after the target answered, or over if it failed to.
    pub open spec fn after_target(self, answer: Option<Seq<u8>>) -> Session {
        match answer {
            Some(response) => Session {
                responder_ready: true,
                response,
                state: SpdmServerState::SendResponse,
                ..self
            },
            None => Session { state: SpdmServerState::Finish, ..self },
        }
    }
}

impl View for SpdmValidatorRunner {
    type V = Session;

    closed spec fn view(&self) -> Session {
        Session {
            transport_type: self.transport_type,
            passed: self.passed,
            responder_ready: self.responder_ready,
            request: self.cur_req_msg@,
            response: self.cur_rsp_msg@,
            state: self.state,
        }
    }
}

impl SpdmValidatorRunner {
    /// The name under which the session is reported.
    pub closed spec fn reported_as(&self) -> Seq<char> {
        self.test_name@
    }

    /// A runner for a target behind a transport of the given type.
    pub fn new(transport_type: u32, test_name: &'static str) -> (r: SpdmValidatorRunner)
        ensures
            r@ == Session::fresh(transport_type),
            r.reported_as() == test_name@,
    {
        let cur_req_msg: Vec<u8> = Vec::new();
        let cur_rsp_msg: Vec<u8> = Vec::new();
        SpdmValidatorRunner {
            test_name,
            transport_type,
            passed: false,
            responder_ready: false,
            cur_req_msg,
            cur_rsp_msg,
            state: SpdmServerState::Start,
        }
    }

    /// The name under which the session is reported.
    pub fn test_name(&self) -> (r: &'static str)
        ensures
            r@ == self.reported_as(),
    {
        self.test_name
    }

    /// The transport type that is served.
    pub fn transport_type(&self) -> (r: u32)
        ensures
            r == self@.transport_type,
    {
        self.transport_type
    }

    /// Whether the validator has ended the session itself.
    pub fn is_passed(&self) -> (r: bool)
        ensures
            r == self@.passed,
    {
        self.passed
    }

    /// The latest request, to be passed on to the target.
    pub fn request(&self) -> (r: &[u8])
        ensures
            r@ == self@.request,
    {
        self.cur_req_msg.as_slice()
    }

    /// Says what comes next in a system that is running or not.
    pub fn next_action(&mut self, running: bool) -> (r: RunnerAction)
        ensures
            final(self)@ == old(self)@.after_step(running),
            final(self).reported_as() == old(self).reported_as(),
            if !running || old(self)@.state == SpdmServerState::Finish {
                r is Stop
            } else {
                match old(self)@.state {
                    SpdmServerState::Start => r is Continue,
                    SpdmServerState::ReceiveRequest => r is Receive,
                    SpdmServerState::SendResponse => {
                        &&& r matches RunnerAction::Send(message)
                        &&& message@ == socket_message(
                            old(self)@.transport_type,
                            SOCKET_SPDM_COMMAND_NORMAL,
                            old(self)@.response,
                        )
                    },
                    SpdmServerState::Finish => r is Stop,
                }
            },
    {
        if !running {
            return RunnerAction::Stop;
        }
        match self.state {
            SpdmServerState::Start => {
                self.state = SpdmServerState::ReceiveRequest;
                RunnerAction::Continue
            },
            SpdmServerState::ReceiveRequest => RunnerAction::Receive,
            SpdmServerState::SendResponse => {
                let message = encode_socket_message(
                    self.transport_type,
                    SOCKET_SPDM_COMMAND_NORMAL,
                    self.cur_rsp_msg.as_slice(),
                );
                self.state = SpdmServerState::ReceiveRequest;
                RunnerAction::Send(message)
            },
            SpdmServerState::Finish => RunnerAction::Stop,
        }
    }

    /// Processes a received message and says how it is dealt with. Whether the
    /// session ends by it is left to [`Self::receive_message`].
    pub fn process_socket_message(
        &mut self,
        transport_type: u32,
        socket_command: u32,
        buffer: Vec<u8>,
    ) -> (r: SocketAction)
        ensures
            final(self)@ == old(self)@.processed(transport_type, socket_command, buffer@),
            final(self).reported_as() == old(self).reported_as(),
            old(self)@.deals_by(transport_type, socket_command, r),
    {
        if transport_type != self.transport_type {
            return SocketAction::WrongTransport;
        }
        match socket_command {
            SOCKET_SPDM_COMMAND_TEST => {
                self.state = SpdmServerState::ReceiveRequest;
                SocketAction::SendHello(encode_hello(transport_type))
            },
            SOCKET_SPDM_COMMAND_STOP => {
                self.passed = true;
                SocketAction::SendStop(encode_stop(transport_type))
            },
            SOCKET_SPDM_COMMAND_NORMAL => {
                self.cur_req_msg = buffer;
                SocketAction::Forward { wait: !self.responder_ready }
            },
            _ => SocketAction::UnknownCommand,
        }
    }

    /// Notes the target's response, if there is one, and tells whether there
    /// is. Whether the session ends by the lack of one is left to
    /// [`Self::answer_received`].
    pub fn target_answered(&mut self, answer: Option<Vec<u8>>) -> (r: bool)
        ensures
            r == answer is Some,
            final(self)@ == old(self)@.answered(
                match answer {
                    Some(response) => Some(response@),
                    None => None,
                },
            ),
            final(self).reported_as() == old(self).reported_as(),
    {
        match answer {
            Some(response) => {
                self.responder_ready = true;
                self.cur_rsp_msg = response;
                self.state = SpdmServerState::SendResponse;
                true
            },
            None => false,
        }
    }

    /// Takes a received message and says how it is dealt with. The session ends
    /// on a stop command and on what it does not serve.
    pub fn receive_message(
        &mut self,
        transport_type: u32,
        socket_command: u32,
        buffer: Vec<u8>,
    ) -> (r: SocketAction)
        ensures
            final(self)@ == old(self)@.after_message(transport_type, socket_command, buffer@),
            final(self).reported_as() == old(self).reported_as(),
            old(self)@.deals_by(transport_type, socket_command, r),
    {
        let action = self.process_socket_message(transport_type, socket_command, buffer);
        match action {
            SocketAction::SendHello(_) | SocketAction::Forward { .. } => {},
            _ => {
                self.state = SpdmServerState::Finish;
            },
        }
        action
    }

    /// Takes the target's response, or the lack of one, which ends the session,
    /// and tells whether the session goes on.
    pub fn answer_received(&mut self, answer: Option<Vec<u8>>) -> (r: bool)
        ensures
            r == answer is Some,
            final(self)@ == old(self)@.after_target(
                match answer {
                    Some(response) => Some(response@),
                    None => None,
                },
            ),
            final(self).reported_as() == old(self).reported_as(),
    {
        let goes_on = self.target_answered(answer);
        if !goes_on {
            self.state = SpdmServerState::Finish;
        }
        goes_on
    }
}

/// A message ends the session, or the lack of an answer does, in no other way
/// than that it is processed and the session is then over.
pub proof fn law_ending_only_sets_the_state(
    session: Session,
    transport_type: u32,
    command: u32,
    payload: Seq<u8>,
    answer: Option<Seq<u8>>,
)
    ensures
        ({
            let processed = session.processed(transport_type, command, payload);
            let after = session.after_message(transport_type, command, payload);
            if transport_type == session.transport_type && (command == SOCKET_SPDM_COMMAND_TEST
                || command == SOCKET_SPDM_COMMAND_NORMAL) {
                after == processed
            } else {
                after == (Session { state: SpdmServerState::Finish, ..processed })
            }
        }),
        ({
            let answered = session.answered(answer);
            let after = session.after_target(answer);
            if answer is Some {
                after == answered
            } else {
                after == (Session { state: SpdmServerState::Finish, ..answered })
            }
        }),
{
}

/// A header reads back as what it was made of.
pub proof fn law_socket_header_reads_back(header: SpdmSocketHeader, rest: Seq<u8>)
    ensures
        header.bytes().len() == SOCKET_HEADER_LEN,
        SpdmSocketHeader::of_bytes(header.bytes() + rest) == header,
{
    law_integer_bytes_round_trip(0, header.command);
    law_integer_bytes_round_trip(0, header.transport_type);
    law_integer_bytes_round_trip(0, header.payload_size);
}

/// A message that was encoded is received as it was sent, in whatever pieces
/// it comes: it is whole when all of it is there and not before, and what has
/// come in then holds its transport type, command and payload.
pub proof fn law_message_is_received(transport_type: u32, command: u32, payload: Seq<u8>, n: int)
    requires
        payload.len() <= u32::MAX,
        0 <= n <= SOCKET_HEADER_LEN + payload.len(),
    ensures
        ({
            let message = socket_message(transport_type, command, payload);
            &&& is_whole(message.take(n)) <==> n == message.len()
            &&& message.skip(SOCKET_HEADER_LEN as int) == payload
            &&& SpdmSocketHeader::of_bytes(message).transport_type == transport_type
            &&& SpdmSocketHeader::of_bytes(message).command == command
        }),
{
    let header = SpdmSocketHeader {
        command,
        transport_type,
        payload_size: low32(payload.len() as int),
    };
    law_socket_header_reads_back(header, payload);
    if n >= SOCKET_HEADER_LEN {
        law_socket_header_reads_back(header, payload.take(n - SOCKET_HEADER_LEN));
    }
}

/// The session counts as passed only after the validator's own stop command,
/// which also ends it.
pub proof fn law_only_stop_passes(
    session: Session,
    running: bool,
    transport_type: u32,
    command: u32,
    payload: Seq<u8>,
    answer: Option<Seq<u8>>,
)
    requires
        !session.passed,
    ensures
        !session.after_step(running).passed,
        !session.after_target(answer).passed,
        session.after_message(transport_type, command, payload).passed <==> transport_type
            == session.transport_type && command == SOCKET_SPDM_COMMAND_STOP,
        session.after_message(transport_type, command, payload).passed ==> session.after_message(
            transport_type,
            command,
            payload,
        ).state == SpdmServerState::Finish,
{
}

/// Whether the parts of a session's state fit together: there is a response to
/// send only once the target has answered, and a passed session is over.
pub open spec fn is_consistent(session: Session) -> bool {
    &&& session.state == SpdmServerState::SendResponse ==> session.responder_ready
    &&& session.passed ==> session.state == SpdmServerState::Finish
}

/// A session is consistent from its beginning on, whatever the validator sends
/// and the target answers.
pub proof fn law_session_stays_consistent(
    session: Session,
    running: bool,
    transport_type: u32,
    command: u32,
    payload: Seq<u8>,
    answer: Option<Seq<u8>>,
)
    requires
        is_consistent(session),
    ensures
        is_consistent(Session::fresh(transport_type)),
        is_consistent(session.after_step(running)),
        session.state == SpdmServerState::ReceiveRequest ==> is_consistent(
            session.after_message(transport_type, command, payload),
        ) && is_consistent(session.after_target(answer)),
{
}

/// Once over, a session stays over, with its verdict.
pub proof fn law_finish_is_final(session: Session, running: bool)
    requires
        session.state == SpdmServerState::Finish,
    ensures
        session.after_step(running) == session,
{
}

/// A request that the target answers is followed by sending that answer and
/// then by receiving the next request; from then on the target counts as
/// ready.
pub proof fn law_request_response_cycle(session: Session, payload: Seq<u8>, response: Seq<u8>)
    requires
        session.state == SpdmServerState::ReceiveRequest,
    ensures
        ({
            let asked = session.after_message(
                session.transport_type,
                SOCKET_SPDM_COMMAND_NORMAL,
                payload,
            );
            let answered = asked.after_target(Some(response));
            let next = answered.after_step(true);
            &&& asked.state == SpdmServerState::ReceiveRequest && asked.request == payload
            &&& answered.state == SpdmServerState::SendResponse && answered.response == response
            &&& next.state == SpdmServerState::ReceiveRequest
            &&& next.responder_ready
            &&& next.passed == session.passed
        }),
{
}

/// A header is three words, command, transport type and payload size, each with
/// its high byte first.
pub proof fn law_header_bytes(header: SpdmSocketHeader)
    ensures
        ({
            let b = header.bytes();
            &&& b.len() == 12
            &&& 0x100_0000 * b[0] + 0x1_0000 * b[1] + 0x100 * b[2] + b[3] == header.command
            &&& 0x100_0000 * b[4] + 0x1_0000 * b[5] + 0x100 * b[6] + b[7] == header.transport_type
            &&& 0x100_0000 * b[8] + 0x1_0000 * b[9] + 0x100 * b[10] + b[11] == header.payload_size
        }),
{
}

/// A received header has the words that its bytes stand for.
pub proof fn law_received_header(s: Seq<u8>)
    requires
        s.len() >= 12,
    ensures
        ({
            let header = SpdmSocketHeader::of_bytes(s);
            &&& header.command == 0x100_0000 * s[0] + 0x1_0000 * s[1] + 0x100 * s[2] + s[3]
            &&& header.transport_type == 0x100_0000 * s[4] + 0x1_0000 * s[5] + 0x100 * s[6] + s[7]
            &&& header.payload_size == 0x100_0000 * s[8] + 0x1_0000 * s[9] + 0x100 * s[10] + s[11]
        }),
{
}

/// A message is whole exactly if its header is there and as many bytes behind it
/// as the header's last word says.
pub proof fn law_whole_message(received: Seq<u8>)
    ensures
        is_whole(received) <==> received.len() >= 12 && received.len() - 12 >= 0x100_0000
            * received[8] + 0x1_0000 * received[9] + 0x100 * received[10] + received[11],
{
}

/// A message is its header and its payload, and the header gives the command,
/// the transport type and the payload's size.
pub proof fn law_message_content(transport_type: u32, command: u32, payload: Seq<u8>)
    requires
        payload.len() <= u32::MAX,
    ensures
        ({
            let m = socket_message(transport_type, command, payload);
            &&& m.len() == 12 + payload.len()
            &&& m.skip(12) == payload
            &&& 0x100_0000 * m[0] + 0x1_0000 * m[1] + 0x100 * m[2] + m[3] == command
            &&& 0x100_0000 * m[4] + 0x1_0000 * m[5] + 0x100 * m[6] + m[7] == transport_type
            &&& 0x100_0000 * m[8] + 0x1_0000 * m[9] + 0x100 * m[10] + m[11] == payload.len()
        }),
{
    let header = SpdmSocketHeader {
        command,
        transport_type,
        payload_size: low32(payload.len() as int),
    };
    law_header_bytes(header);
    assert(socket_message(transport_type, command, payload).skip(12) =~= payload);
}

/// The greeting reads `Server Hello!` and ends in a zero byte.
pub proof fn law_greeting_text(i: int)
    requires
        0 <= i < 13,
    ensures
        hello_payload().len() == 14,
        hello_payload()[i] as int == "Server Hello!"@[i] as int,
        hello_payload()[13] == 0,
{
    reveal_strlit("Server Hello!");
}

/// What asking the runner does: while the system runs, all but a finished
/// session come to receive; nothing else changes.
pub proof fn law_asking_changes_the_state_only(session: Session, running: bool)
    ensures
        ({
            let after = session.after_step(running);
            &&& after.transport_type == session.transport_type && after.passed == session.passed
            &&& after.responder_ready == session.responder_ready
            &&& after.request == session.request && after.response == session.response
            &&& running && !(session.state is Finish) ==> after.state is ReceiveRequest
            &&& !running || session.state is Finish ==> after.state == session.state
        }),
{
}

/// What a message does to a session. Only a normal command of the served
/// transport brings a request, only a stop command of it passes the session,
/// and only a test command of it sets the state. The response and what is known
/// of the target stay.
pub proof fn law_processed_message(
    session: Session,
    transport_type: u32,
    command: u32,
    payload: Seq<u8>,
)
    ensures
        ({
            let after = session.processed(transport_type, command, payload);
            let served = transport_type == session.transport_type;
            &&& after.transport_type == session.transport_type
            &&& after.response == session.response
            &&& after.responder_ready == session.responder_ready
            &&& after.request == (if served && command == 1 {
                payload
            } else {
                session.request
            })
            &&& after.passed <==> session.passed || (served && command == 0xFFFE)
            &&& after.state == (if served && command == 0xDEAD {
                SpdmServerState::ReceiveRequest
            } else {
                session.state
            })
        }),
{
}

/// What is done with a message: one of another transport, or of no known
/// command, is answered nothing. A test command is answered with the greeting, a
/// stop command with an empty message of its own kind, and a normal one goes to
/// the target, which is waited for until it has answered once.
pub proof fn law_dealing_with_messages(
    session: Session,
    transport_type: u32,
    command: u32,
    action: SocketAction,
)
    requires
        session.deals_by(transport_type, command, action),
    ensures
        ({
            let served = transport_type == session.transport_type;
            &&& action is WrongTransport <==> !served
            &&& action is SendHello <==> served && command == 0xDEAD
            &&& action is SendStop <==> served && command == 0xFFFE
            &&& action is Forward <==> served && command == 1
            &&& action matches SocketAction::Forward { wait } ==> wait == !session.responder_ready
            &&& action matches SocketAction::SendHello(m) ==> m@.skip(12) == hello_payload()
                && 0x100 * m@[2] + m@[3] == 0xDEAD && m@[0] == 0 && m@[1] == 0 && m@[11] == 14
            &&& action matches SocketAction::SendStop(m) ==> m@.len() == 12 && 0x100 * m@[2] + m@[3]
                == 0xFFFE && m@[0] == 0 && m@[1] == 0 && m@[8] == 0 && m@[9] == 0 && m@[10] == 0
                && m@[11] == 0
            &&& action matches SocketAction::SendHello(m) ==> 0x100_0000 * m@[4] + 0x1_0000 * m@[5]
                + 0x100 * m@[6] + m@[7] == transport_type
            &&& action matches SocketAction::SendStop(m) ==> 0x100_0000 * m@[4] + 0x1_0000 * m@[5]
                + 0x100 * m@[6] + m@[7] == transport_type
        }),
{
}

/// An answer of the target becomes the response that is sent next, and makes the
/// target known as ready; the lack of one changes nothing. Request and verdict
/// stay.
pub proof fn law_noted_answer(session: Session, answer: Option<Seq<u8>>)
    ensures
        ({
            let after = session.answered(answer);
            &&& after.transport_type == session.transport_type
            &&& after.request == session.request && after.passed == session.passed
            &&& answer is None ==> after == session
            &&& answer matches Some(response) ==> after.response == response
                && after.responder_ready && after.state is SendResponse
        }),
{
}

/// A session begins with nothing received, sent or passed.
pub proof fn law_fresh_session(transport_type: u32)
    ensures
        ({
            let fresh = Session::fresh(transport_type);
            &&& fresh.transport_type == transport_type
            &&& !fresh.passed && !fresh.responder_ready
            &&& fresh.request.len() == 0 && fresh.response.len() == 0
            &&& fresh.state is Start
        }),
{
}

/// A message is received whole exactly if its payload has at most 4148 bytes:
/// that is what the buffer holds beside a header.
pub proof fn law_receivable_payloads(n: nat)
    ensures
        SOCKET_HEADER_LEN + n <= RECEIVER_BUFFER_SIZE <==> n <= 4148,
        SOCKET_HEADER_LEN == 12,
{
}

/// The size word of a message is the payload's size, cut to 32 bits.
pub proof fn law_size_word(transport_type: u32, command: u32, payload: Seq<u8>)
    ensures
        ({
            let m = socket_message(transport_type, command, payload);
            let size = 0x100_0000 * m[8] + 0x1_0000 * m[9] + 0x100 * m[10] + m[11];
            &&& (payload.len() - size) % 0x1_0000_0000 == 0
            &&& 0 <= size < 0x1_0000_0000
        }),
{
    let header = SpdmSocketHeader {
        command,
        transport_type,
        payload_size: low32(payload.len() as int),
    };
    law_header_bytes(header);
    law_low_bits(payload.len() as int);
    let m = socket_message(transport_type, command, payload);
    assert(m[8] == header.bytes()[8] && m[9] == header.bytes()[9]);
    assert(m[10] == header.bytes()[10] && m[11] == header.bytes()[11]);
}

} // verus!
