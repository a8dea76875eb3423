//! Correlation of responses with requests: RPC responses echo the request
//! id, Pongs echo the Ping's nonce, and an unanswered Ping times out once.

use vstd::prelude::*;
use crate::message::{
    protocol_number, protocol_of, Envelope, ErrorCode, ErrorModel, NetworkMessage, Nonce, ProtocolId,
    RpcRequest, RpcResponse, REGISTERED_PROTOCOLS,
};

verus! {

impl RpcResponse {
    /// The response to `request`; its request id is the request's, copied as is.
    pub fn respond_to(request: &RpcRequest, priority: u8, raw_response: Vec<u8>) -> (r: RpcResponse)
        ensures
            r.request_id == request.request_id,
            r.priority == priority,
            r.raw_response@ == raw_response@,
    {
        RpcResponse { request_id: request.request_id, priority, raw_response }
    }

    /// Whether this response belongs to `request`. A response that belongs
    /// to no outstanding request is an orphan, to be dropped by the caller.
    pub fn answers(&self, request: &RpcRequest) -> (r: bool)
        ensures
            r == (self.request_id == request.request_id),
    {
        self.request_id == request.request_id
    }
}

impl Nonce {
    /// Whether a Pong carrying `self` answers a Ping that carried `ping`.
    pub fn answers(&self, ping: &Nonce) -> (r: bool)
        ensures
            r == (self.0 == ping.0),
    {
        self.0 == ping.0
    }
}

/// The reply a peer owes to `m`: a Pong with the same nonce for a Ping,
/// nothing for any other message.
pub fn pong_for(m: &NetworkMessage) -> (r: Option<NetworkMessage>)
    ensures
        match m@ {
            Envelope::Ping(n) => r matches Some(p) && p@ == Envelope::Pong(n),
            _ => r is None,
        },
{
    match m {
        NetworkMessage::Ping(n) => Some(NetworkMessage::Pong(Nonce(n.0))),
        _ => None,
    }
}

/// Where a liveness probe stands.
#[derive(Clone, Copy, Debug, PartialEq, Eq, Structural)]
pub enum ProbeState {
    /// The Ping is out and no matching Pong has come.
    Awaiting,
    /// A Pong with the Ping's nonce came.
    Answered,
    /// The deadline passed first; the timeout has been reported.
    TimedOut,
}

/// One outstanding Ping and what has become of it.
#[derive(Clone, Copy, Debug)]
pub struct PingProbe {
    pub nonce: Nonce,
    pub state: ProbeState,
}

impl PingProbe {
    /// A probe whose Ping carries `nonce`, awaiting its Pong.
    pub fn new(nonce: Nonce) -> (r: PingProbe)
        ensures
            r.nonce == nonce,
            r.state == ProbeState::Awaiting,
    {
        PingProbe { nonce, state: ProbeState::Awaiting }
    }

    /// The Ping to send.
    pub fn ping(&self) -> (r: NetworkMessage)
        ensures
            r@ == Envelope::Ping(self.nonce.0),
    {
        NetworkMessage::Ping(Nonce(self.nonce.0))
    }

    /// A Pong carrying `pong` arrived. It is matched when the probe awaits it
    /// and the nonce is the Ping's; an unmatched Pong changes nothing.
    pub fn on_pong(&mut self, pong: Nonce) -> (matched: bool)
        ensures
            matched == (old(self).state == ProbeState::Awaiting && pong.0 == old(self).nonce.0),
            final(self).nonce == old(self).nonce,
            final(self).state == (if matched { ProbeState::Answered } else { old(self).state }),
    {
        if self.state == ProbeState::Awaiting && pong.answers(&self.nonce) {
            self.state = ProbeState::Answered;
            true
        } else {
            false
        }
    }

    /// The caller's deadline passed. A probe still awaiting its Pong reports
    /// `TimedOut` and stops awaiting; any later check reports nothing, so a
    /// probe reports its timeout at most once.
    pub fn on_deadline(&mut self) -> (r: Option<ErrorCode>)
        ensures
            final(self).nonce == old(self).nonce,
            old(self).state == ProbeState::Awaiting ==> {
                &&& r matches Some(e) && e@ == ErrorModel::TimedOut
                &&& final(self).state == ProbeState::TimedOut
            },
            old(self).state != ProbeState::Awaiting ==> r is None && final(self).state == old(
                self,
            ).state,
    {
        if self.state == ProbeState::Awaiting {
            self.state = ProbeState::TimedOut;
            Some(ErrorCode::TimedOut)
        } else {
            None
        }
    }
}

/// Where an arrived message goes.
#[derive(Clone, Copy, Debug, PartialEq, Eq)]
pub enum Route {
    /// To the handler of a registered application protocol.
    Protocol(ProtocolId),
    /// The message names a protocol number that nothing here handles; it
    /// decoded fine and only routing fails.
    Unroutable(u8),
    /// A Ping or Pong, for the liveness prober.
    Liveness,
    /// An RPC response, for the table of outstanding requests.
    Response(u32),
    /// An error code, for the connection's owner.
    Error,
}

/// Where a message for protocol number `n` goes.
pub open spec fn protocol_route(n: u8) -> Route {
    if n < REGISTERED_PROTOCOLS {
        Route::Protocol(protocol_of(n))
    } else {
        Route::Unroutable(n)
    }
}

fn route_protocol(p: ProtocolId) -> (r: Route)
    ensures
        r == protocol_route(protocol_number(p)),
{
    match ProtocolId::lookup(p.as_u8()) {
        Some(q) => Route::Protocol(q),
        None => Route::Unroutable(p.as_u8()),
    }
}

/// Routes `m`: by protocol identifier where the message carries one, by
/// kind otherwise.
pub fn route(m: &NetworkMessage) -> (r: Route)
    ensures
        match m@ {
            Envelope::RpcRequest { protocol, .. } => r == protocol_route(protocol),
            Envelope::DirectSend { protocol, .. } => r == protocol_route(protocol),
            Envelope::Ping(_) | Envelope::Pong(_) => r == Route::Liveness,
            Envelope::RpcResponse { request_id, .. } => r == Route::Response(request_id),
            Envelope::Error(_) => r == Route::Error,
        },
{
    match m {
        NetworkMessage::RpcRequest(r) => route_protocol(r.protocol_id),
        NetworkMessage::DirectSendMsg(d) => route_protocol(d.protocol_id),
        NetworkMessage::Ping(_) | NetworkMessage::Pong(_) => Route::Liveness,
        NetworkMessage::RpcResponse(r) => Route::Response(r.request_id),
        NetworkMessage::Error(_) => Route::Error,
    }
}

/// The requests of one channel that await their response, by request id.
/// Ids are chosen by the callers, who keep them distinct among outstanding
/// requests; the table refuses an id that is already outstanding.
pub struct OutstandingRpcs {
    ids: Vec<u32>,
}

impl View for OutstandingRpcs {
    type V = Set<u32>;

    closed spec fn view(&self) -> Set<u32> {
        self.ids@.to_set()
    }
}

impl OutstandingRpcs {
    pub closed spec fn wf(&self) -> bool {
        self.ids@.no_duplicates()
    }

    /// An empty table.
    pub fn new() -> (r: OutstandingRpcs)
        ensures
            r.wf(),
            r@ == Set::<u32>::empty(),
    {
        let r = OutstandingRpcs { ids: Vec::new() };
        assert(r.ids@.to_set() =~= Set::<u32>::empty());
        r
    }

    fn position(&self, id: u32) -> (r: Option<usize>)
        ensures
            match r {
                Some(i) => i < self.ids@.len() && self.ids@[i as int] == id,
                None => !self.ids@.contains(id),
            },
    {
        let mut i: usize = 0;
        while i < self.ids.len()
            invariant
                i <= self.ids@.len(),
                forall|j: int| 0 <= j < i ==> self.ids@[j] != id,
            decreases self.ids@.len() - i,
        {
            if self.ids[i] == id {
                return Some(i);
            }
            i += 1;
        }
        None
    }

    /// Whether a request with `id` awaits its response.
    pub fn is_outstanding(&self, id: u32) -> (r: bool)
        ensures
            r == self@.contains(id),
    {
        self.position(id).is_some()
    }

    /// Records that the request `id` was sent. Returns false, and changes
    /// nothing, when a request with that id is already outstanding.
    pub fn issue(&mut self, id: u32) -> (r: bool)
        requires
            old(self).wf(),
        ensures
            final(self).wf(),
            r == !old(self)@.contains(id),
            final(self)@ == old(self)@.insert(id),
    {
        if self.position(id).is_some() {
            assert(self@.insert(id) =~= self@);
            return false;
        }
        let ghost before = self.ids@;
        self.ids.push(id);
        proof {
            assert forall|x: u32| self.ids@.contains(x) <==> before.contains(x) || x == id by {
                if self.ids@.contains(x) {
                    let k = choose|k: int| 0 <= k < self.ids@.len() && self.ids@[k] == x;
                    if k < before.len() {
                        assert(before[k] == x);
                    }
                }
                if before.contains(x) {
                    let k = choose|k: int| 0 <= k < before.len() && before[k] == x;
                    assert(self.ids@[k] == x);
                }
                if x == id {
                    assert(self.ids@[before.len() as int] == x);
                }
            }
            assert forall|x: u32| #![auto] self.ids@.to_set().contains(x) <==> before.to_set().insert(id).contains(x) by {
            }
            assert(self.ids@.to_set() =~= before.to_set().insert(id));
        }
        true
    }

    /// A response arrived. When its request is outstanding the request is
    /// completed and leaves the table; otherwise the response is an orphan
    /// (its request timed out or was cancelled) and is to be dropped.
    pub fn complete(&mut self, response: &RpcResponse) -> (matched: bool)
        requires
            old(self).wf(),
        ensures
            final(self).wf(),
            matched == old(self)@.contains(response.request_id),
            final(self)@ == old(self)@.remove(response.request_id),
    {
        self.cancel(response.request_id)
    }

    /// Forgets the request `id`, as on a local timeout or cancellation.
    /// Returns whether it was outstanding.
    pub fn cancel(&mut self, id: u32) -> (r: bool)
        requires
            old(self).wf(),
        ensures
            final(self).wf(),
            r == old(self)@.contains(id),
            final(self)@ == old(self)@.remove(id),
    {
        match self.position(id) {
            None => {
                assert(self@.remove(id) =~= self@);
                false
            },
            Some(i) => {
                let ghost before = self.ids@;
                self.ids.swap_remove(i);
                proof {
                    assert forall|x: u32| #![auto] self.ids@.to_set().contains(x) <==> before.to_set().remove(id).contains(x) by {
                        if before.contains(x) && x != id {
                            let k = choose|k: int| 0 <= k < before.len() && before[k] == x;
                            if k == before.len() - 1 {
                                assert(self.ids@[i as int] == x);
                            } else {
                                assert(self.ids@[k] == x);
                            }
                        }
                    }
                    assert(self.ids@.to_set() =~= before.to_set().remove(id));
                }
                true
            },
        }
    }

    /// The connection failed (a timeout or a parsing error reported for it):
    /// every outstanding request fails and the table empties. Returns the ids
    /// that failed.
    pub fn fail_all(&mut self) -> (r: Vec<u32>)
        requires
            old(self).wf(),
        ensures
            final(self).wf(),
            final(self)@ == Set::<u32>::empty(),
            r@.to_set() == old(self)@,
            r@.no_duplicates(),
    {
        let mut r: Vec<u32> = Vec::new();
        std::mem::swap(&mut r, &mut self.ids);
        assert(self.ids@.to_set() =~= Set::<u32>::empty());
        r
    }
}

} // verus!
