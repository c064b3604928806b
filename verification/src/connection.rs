//! Connection state of the SPDM responder, and the exchange that carries a
//! response through the transcript before the connection moves on.

use crate::codec::SpdmVersion;
use vstd::prelude::*;

verus! {

/// How far negotiation has come on a connection.
#[derive(Clone, Copy, Debug, PartialEq, Eq, Structural)]
pub enum Phase {
    NotStarted,
    AfterVersion,
    AfterCapabilities,
    AfterAlgorithms,
}

/// Why a request is refused.
#[derive(Clone, Copy, Debug, PartialEq, Eq, Structural)]
pub enum SpdmError {
    /// The request is malformed or breaks a rule of its message.
    InvalidRequest,
    /// The request does not fit the phase of the connection.
    UnexpectedRequest,
    /// The header version is not the expected or a supported one.
    VersionMismatch,
    /// The platform failed to allocate, hash or send, with its own code.
    Platform(u32),
}

/// What one connection remembers: the responder's fixed policy and what has
/// been negotiated so far.
#[derive(Clone, Copy, Debug, PartialEq, Eq, Structural)]
pub struct ConnectionState {
    pub phase: Phase,
    /// Negotiated protocol version.
    pub version: SpdmVersion,
    /// Capability flags of the responder.
    pub cap_flags: u32,
    /// Crypto timeout exponent of the responder.
    pub ct_exponent: u8,
    /// Measurement specifications of the responder.
    pub measurement_spec: u8,
    /// Other parameters that the responder supports.
    pub other_param_support: u8,
    /// Measurement hash of the responder.
    pub meas_hash_algo: u32,
    /// Signature algorithm of the responder.
    pub base_asym_sel: u32,
    /// Hash algorithm of the responder.
    pub base_hash_sel: u32,
    /// DHE group of the responder.
    pub dhe: u16,
    /// AEAD suite of the responder.
    pub aead: u16,
    /// Key schedule of the responder.
    pub key_schedule: u16,
    /// Peer's `DataTransferSize`.
    pub peer_data_transfer_size: u32,
    /// Peer's `MaxSPDMmsgSize`.
    pub peer_max_spdm_msg_size: u32,
    /// Peer's capability flags.
    pub peer_cap_flags: u32,
    /// Capability flags sent to the peer.
    pub advertised_cap_flags: u32,
    /// Other parameters selected for the connection.
    pub other_param_sel: u8,
    /// Signature algorithm selected for the connection.
    pub negotiated_base_asym_sel: u32,
    /// Hash algorithm selected for the connection.
    pub negotiated_base_hash_sel: u32,
}

/// What the platform offers the responder.
#[derive(Clone, Copy, Debug, PartialEq, Eq, Structural)]
pub struct PalLimits {
    /// Largest message that the transport carries in one piece.
    pub mtu: usize,
    /// Largest message that the platform can buffer.
    pub large_capacity: usize,
    /// Whether secure sessions are available.
    pub secure_message_supported: bool,
}

/// What is still to be appended to the version/capabilities/algorithms (VCA)
/// transcript.
#[derive(Clone, Copy, Debug, PartialEq, Eq, Structural)]
pub enum ExchangeStage {
    AppendRequest,
    AppendResponse,
    Complete,
}

impl ExchangeStage {
    /// The stage after an append that went well or not.
    pub open spec fn after(self, ok: bool) -> ExchangeStage {
        if !ok {
            self
        } else if self == ExchangeStage::AppendRequest {
            ExchangeStage::AppendResponse
        } else {
            ExchangeStage::Complete
        }
    }

    /// The phase of the connection after an append that went well or not, if
    /// it was `phase` before and the exchange leads to `target`.
    pub open spec fn phase_after(self, ok: bool, phase: Phase, target: Phase) -> Phase {
        if ok && self == ExchangeStage::AppendResponse {
            target
        } else {
            phase
        }
    }
}

/// A request that was accepted, with its encoded response.
///
/// The request and then the response enter the VCA transcript. Only when both
/// have does the connection move to its next phase and may the response go
/// out.
pub struct Exchange {
    pub request: Vec<u8>,
    pub response: Vec<u8>,
    /// The phase that the connection enters at the end.
    pub phase_after: Phase,
    pub stage: ExchangeStage,
}

impl Exchange {
    /// An exchange of which nothing has been appended yet.
    pub fn new(request: &[u8], response: Vec<u8>, phase_after: Phase) -> (r: Exchange)
        ensures
            r.request@ == request@,
            r.response@ == response@,
            r.phase_after == phase_after,
            r.stage == ExchangeStage::AppendRequest,
            r.to_append() == request@ + response@,
    {
        let mut copy: Vec<u8> = Vec::new();
        crate::bytes::push_bytes(&mut copy, request);
        Exchange { request: copy, response, phase_after, stage: ExchangeStage::AppendRequest }
    }

    /// The bytes that the transcript gets from here on.
    pub open spec fn to_append(self) -> Seq<u8> {
        match self.stage {
            ExchangeStage::AppendRequest => self.request@ + self.response@,
            ExchangeStage::AppendResponse => self.response@,
            ExchangeStage::Complete => Seq::empty(),
        }
    }

    /// The bytes that the transcript gets next.
    pub open spec fn next_append(self) -> Seq<u8> {
        match self.stage {
            ExchangeStage::AppendRequest => self.request@,
            ExchangeStage::AppendResponse => self.response@,
            ExchangeStage::Complete => Seq::empty(),
        }
    }

    /// The bytes to append to the VCA transcript next; `None` once both
    /// messages are in and the response can be sent.
    pub fn pending_append(&self) -> (r: Option<&[u8]>)
        ensures
            match r {
                Some(b) => self.stage != ExchangeStage::Complete && b@ == self.next_append(),
                None => self.stage == ExchangeStage::Complete,
            },
    {
        match self.stage {
            ExchangeStage::AppendRequest => Some(self.request.as_slice()),
            ExchangeStage::AppendResponse => Some(self.response.as_slice()),
            ExchangeStage::Complete => None,
        }
    }

    /// Takes note of how the pending append went. A failure is handed back and
    /// leaves exchange and connection as they were; the second success moves
    /// the connection to its next phase.
    pub fn appended(
        &mut self,
        state: &mut ConnectionState,
        outcome: Result<(), SpdmError>,
    ) -> (r: Result<(), SpdmError>)
        requires
            old(self).stage != ExchangeStage::Complete,
        ensures
            r == outcome,
            final(self).request@ == old(self).request@,
            final(self).response@ == old(self).response@,
            final(self).phase_after == old(self).phase_after,
            final(self).stage == old(self).stage.after(outcome is Ok),
            outcome is Ok ==> old(self).to_append() == old(self).next_append()
                + final(self).to_append(),
            *final(state) == (ConnectionState {
                phase: old(self).stage.phase_after(
                    outcome is Ok,
                    old(state).phase,
                    old(self).phase_after,
                ),
                ..*old(state)
            }),
    {
        if outcome.is_ok() {
            match self.stage {
                ExchangeStage::AppendRequest => {
                    self.stage = ExchangeStage::AppendResponse;
                },
                _ => {
                    self.stage = ExchangeStage::Complete;
                    state.phase = self.phase_after;
                },
            }
        }
        outcome
    }
}

impl Exchange {
    /// The transcript gets the request and then the response, each once.
    pub proof fn law_request_then_response(self)
        ensures
            self.stage == ExchangeStage::AppendRequest ==> self.next_append() == self.request@
                && self.to_append() == self.request@ + self.response@,
            self.stage == ExchangeStage::AppendResponse ==> self.next_append() == self.response@
                && self.to_append() == self.response@,
            self.stage == ExchangeStage::Complete ==> self.to_append().len() == 0,
    {
    }
}

/// A success takes an exchange from the request to the response and from there
/// to its end; a failure leaves it where it is. The phase moves with the second
/// success, to the exchange's own next phase.
pub proof fn law_exchange_stages(stage: ExchangeStage, phase: Phase, target: Phase)
    ensures
        stage.after(false) == stage,
        ExchangeStage::AppendRequest.after(true) == ExchangeStage::AppendResponse,
        ExchangeStage::AppendResponse.after(true) == ExchangeStage::Complete,
        stage.phase_after(false, phase, target) == phase,
        ExchangeStage::AppendRequest.phase_after(true, phase, target) == phase,
        ExchangeStage::AppendResponse.phase_after(true, phase, target) == target,
{
}

} // verus!
