//! The envelope types placed on the wire and their mathematical model.

use vstd::prelude::*;

verus! {

/// Number of application protocols registered so far; identifiers at or
/// above it are unregistered.
pub const REGISTERED_PROTOCOLS: u8 = 7;

/// Identifier of an application protocol sharing a connection.
///
/// Registered identifiers keep their number forever; new ones are only ever
/// appended. A number that this node does not know is kept as `Unregistered`
/// so that the enclosing message still decodes; `from_u8` only ever puts
/// a number at or above `REGISTERED_PROTOCOLS` there.
#[derive(Clone, Copy, Debug, PartialEq, Eq, Hash)]
pub enum ProtocolId {
    ConsensusRpc,
    ConsensusDirectSend,
    MempoolDirectSend,
    StateSynchronizerDirectSend,
    DiscoveryDirectSend,
    HealthCheckerRpc,
    IdentityDirectSend,
    Unregistered(u8),
}

/// The number that stands for a protocol identifier on the wire.
pub open spec fn protocol_number(p: ProtocolId) -> u8 {
    match p {
        ProtocolId::ConsensusRpc => 0,
        ProtocolId::ConsensusDirectSend => 1,
        ProtocolId::MempoolDirectSend => 2,
        ProtocolId::StateSynchronizerDirectSend => 3,
        ProtocolId::DiscoveryDirectSend => 4,
        ProtocolId::HealthCheckerRpc => 5,
        ProtocolId::IdentityDirectSend => 6,
        ProtocolId::Unregistered(n) => n,
    }
}

/// The identifier that a wire number stands for.
pub open spec fn protocol_of(n: u8) -> ProtocolId {
    if n == 0 {
        ProtocolId::ConsensusRpc
    } else if n == 1 {
        ProtocolId::ConsensusDirectSend
    } else if n == 2 {
        ProtocolId::MempoolDirectSend
    } else if n == 3 {
        ProtocolId::StateSynchronizerDirectSend
    } else if n == 4 {
        ProtocolId::DiscoveryDirectSend
    } else if n == 5 {
        ProtocolId::HealthCheckerRpc
    } else if n == 6 {
        ProtocolId::IdentityDirectSend
    } else {
        ProtocolId::Unregistered(n)
    }
}

impl ProtocolId {
    /// The wire number of this identifier.
    pub fn as_u8(&self) -> (r: u8)
        ensures
            r == protocol_number(*self),
    {
        match self {
            ProtocolId::ConsensusRpc => 0,
            ProtocolId::ConsensusDirectSend => 1,
            ProtocolId::MempoolDirectSend => 2,
            ProtocolId::StateSynchronizerDirectSend => 3,
            ProtocolId::DiscoveryDirectSend => 4,
            ProtocolId::HealthCheckerRpc => 5,
            ProtocolId::IdentityDirectSend => 6,
            ProtocolId::Unregistered(n) => *n,
        }
    }

    /// The identifier for a wire number; total, unknown numbers included.
    pub fn from_u8(n: u8) -> (r: ProtocolId)
        ensures
            r == protocol_of(n),
            protocol_number(r) == n,
    {
        if n == 0 {
            ProtocolId::ConsensusRpc
        } else if n == 1 {
            ProtocolId::ConsensusDirectSend
        } else if n == 2 {
            ProtocolId::MempoolDirectSend
        } else if n == 3 {
            ProtocolId::StateSynchronizerDirectSend
        } else if n == 4 {
            ProtocolId::DiscoveryDirectSend
        } else if n == 5 {
            ProtocolId::HealthCheckerRpc
        } else if n == 6 {
            ProtocolId::IdentityDirectSend
        } else {
            ProtocolId::Unregistered(n)
        }
    }

    /// Looks a wire number up in the registry: `None` for a number that no
    /// registered protocol holds.
    pub fn lookup(n: u8) -> (r: Option<ProtocolId>)
        ensures
            r == (if n < REGISTERED_PROTOCOLS { Some(protocol_of(n)) } else { None::<ProtocolId> }),
    {
        if n < REGISTERED_PROTOCOLS {
            Some(ProtocolId::from_u8(n))
        } else {
            None
        }
    }

    /// Whether a local handler can exist for this identifier.
    pub fn is_registered(&self) -> (r: bool)
        ensures
            r == (protocol_number(*self) < REGISTERED_PROTOCOLS),
    {
        self.as_u8() < REGISTERED_PROTOCOLS
    }
}

/// Every wire number names one identifier, and registered identifiers
/// keep the number they were given.
pub proof fn lemma_protocol_number_round_trip(n: u8)
    ensures
        protocol_number(protocol_of(n)) == n,
        n < REGISTERED_PROTOCOLS ==> protocol_of(n) !is Unregistered,
{
}

/// The negotiated version of the messaging protocol; versions are ordered by
/// their number.
#[derive(Clone, Copy, Debug, PartialEq, Eq, Hash, PartialOrd, Ord)]
pub struct MessagingProtocolVersion(pub u8);

/// The number of the first messaging protocol version.
pub const V1: u8 = 0;

/// Nonce used by Ping and Pong messages; a Pong echoes the Ping's nonce.
#[derive(Clone, Copy, Debug, PartialEq, Eq, Hash)]
pub struct Nonce(pub u32);

#[derive(Clone, Debug)]
pub struct RpcRequest {
    /// RequestId for the RPC Request.
    pub request_id: u32,
    /// Application protocol that handles the request.
    pub protocol_id: ProtocolId,
    /// Request priority in the range 0..=255.
    pub priority: u8,
    /// Request payload, parsed by the application-level handler.
    pub raw_request: Vec<u8>,
}

#[derive(Clone, Debug)]
pub struct RpcResponse {
    /// RequestId of the corresponding request, copied as is.
    pub request_id: u32,
    /// Response priority in the range 0..=255.
    pub priority: u8,
    /// Response payload.
    pub raw_response: Vec<u8>,
}

#[derive(Clone, Debug)]
pub struct DirectSendMsg {
    /// Application protocol that handles the message.
    pub protocol_id: ProtocolId,
    /// Message priority in the range 0..=255.
    pub priority: u8,
    /// Message payload.
    pub raw_msg: Vec<u8>,
}

/// Error codes that can be embedded in a NetworkMessage.
/// New variants cannot be added without a new MessagingProtocolVersion.
#[derive(Debug)]
pub enum ErrorCode {
    /// A message could not be interpreted under the given version; the
    /// message as far as it was decoded is echoed back.
    ParsingError(MessagingProtocolVersion, Box<NetworkMessage>),
    /// A liveness probe went unanswered.
    TimedOut,
}

/// Message variants that are sent on the wire.
/// New variants cannot be added without a new MessagingProtocolVersion.
#[derive(Debug)]
pub enum NetworkMessage {
    Error(ErrorCode),
    Ping(Nonce),
    Pong(Nonce),
    RpcRequest(RpcRequest),
    RpcResponse(RpcResponse),
    DirectSendMsg(DirectSendMsg),
}

/// Mathematical model of a message: integers for identifiers and versions,
/// sequences for payloads.
pub enum Envelope {
    Error(ErrorModel),
    Ping(u32),
    Pong(u32),
    RpcRequest { request_id: u32, protocol: u8, priority: u8, payload: Seq<u8> },
    RpcResponse { request_id: u32, priority: u8, payload: Seq<u8> },
    DirectSend { protocol: u8, priority: u8, payload: Seq<u8> },
}

/// Mathematical model of an error code.
pub enum ErrorModel {
    ParsingError(u8, Box<Envelope>),
    TimedOut,
}

pub open spec fn envelope_of(m: NetworkMessage) -> Envelope
    decreases m,
{
    match m {
        NetworkMessage::Error(e) => Envelope::Error(
            match e {
                ErrorCode::ParsingError(v, inner) => ErrorModel::ParsingError(
                    v.0,
                    Box::new(envelope_of(*inner)),
                ),
                ErrorCode::TimedOut => ErrorModel::TimedOut,
            },
        ),
        NetworkMessage::Ping(n) => Envelope::Ping(n.0),
        NetworkMessage::Pong(n) => Envelope::Pong(n.0),
        NetworkMessage::RpcRequest(r) => Envelope::RpcRequest {
            request_id: r.request_id,
            protocol: protocol_number(r.protocol_id),
            priority: r.priority,
            payload: r.raw_request@,
        },
        NetworkMessage::RpcResponse(r) => Envelope::RpcResponse {
            request_id: r.request_id,
            priority: r.priority,
            payload: r.raw_response@,
        },
        NetworkMessage::DirectSendMsg(d) => Envelope::DirectSend {
            protocol: protocol_number(d.protocol_id),
            priority: d.priority,
            payload: d.raw_msg@,
        },
    }
}

impl View for NetworkMessage {
    type V = Envelope;

    open spec fn view(&self) -> Envelope {
        envelope_of(*self)
    }
}

impl View for ErrorCode {
    type V = ErrorModel;

    open spec fn view(&self) -> ErrorModel {
        match envelope_of(NetworkMessage::Error(*self)) {
            Envelope::Error(e) => e,
            _ => ErrorModel::TimedOut,
        }
    }
}

/// Discriminant of a message on the wire.
pub open spec fn tag_of(m: Envelope) -> u8 {
    match m {
        Envelope::Error(_) => 0,
        Envelope::Ping(_) => 1,
        Envelope::Pong(_) => 2,
        Envelope::RpcRequest { .. } => 3,
        Envelope::RpcResponse { .. } => 4,
        Envelope::DirectSend { .. } => 5,
    }
}

/// Discriminant of an error code on the wire.
pub open spec fn error_tag_of(e: ErrorModel) -> u8 {
    match e {
        ErrorModel::ParsingError(..) => 0,
        ErrorModel::TimedOut => 1,
    }
}

} // verus!
