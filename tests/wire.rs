use network_wire::codec::{decode, encode, DecodeError, VersionGate};
use network_wire::correlation::{pong_for, PingProbe, ProbeState};
use network_wire::message::{
    DirectSendMsg, ErrorCode, MessagingProtocolVersion, NetworkMessage, Nonce, ProtocolId,
    RpcRequest, RpcResponse, V1,
};

fn v1() -> MessagingProtocolVersion {
    MessagingProtocolVersion(V1)
}

fn request(id: u32, protocol_id: ProtocolId, priority: u8, raw: Vec<u8>) -> NetworkMessage {
    NetworkMessage::RpcRequest(RpcRequest { request_id: id, protocol_id, priority, raw_request: raw })
}

fn round_trip(m: &NetworkMessage) -> NetworkMessage {
    let bytes = encode(m);
    match decode(&bytes, v1(), &VersionGate::v1()) {
        Ok(d) => d,
        Err(e) => panic!("decode failed: {:?}", e),
    }
}

#[test]
fn rpc_request_scenario_encodes_and_decodes() {
    let m = request(7, ProtocolId::ConsensusRpc, 5, vec![0x01, 0x02]);
    let bytes = encode(&m);
    assert_eq!(bytes, vec![3, 7, 0, 0, 0, 0, 5, 2, 0, 0, 0, 0x01, 0x02]);
    match decode(&bytes, v1(), &VersionGate::v1()) {
        Ok(NetworkMessage::RpcRequest(r)) => {
            assert_eq!(r.request_id, 7);
            assert_eq!(r.protocol_id, ProtocolId::ConsensusRpc);
            assert_eq!(r.priority, 5);
            assert_eq!(r.raw_request, vec![0x01, 0x02]);
        }
        other => panic!("unexpected {:?}", other),
    }
}

#[test]
fn rpc_request_rejected_before_its_version() {
    let m = request(7, ProtocolId::ConsensusRpc, 5, vec![0x01, 0x02]);
    let bytes = encode(&m);
    let mut gate = VersionGate::v1();
    gate.rpc_request = 1;
    match decode(&bytes, MessagingProtocolVersion(0), &gate) {
        Err(DecodeError::Rejected(ErrorCode::ParsingError(v, inner))) => {
            assert_eq!(v, MessagingProtocolVersion(0));
            match *inner {
                NetworkMessage::RpcRequest(r) => {
                    assert_eq!(r.request_id, 7);
                    assert_eq!(r.protocol_id, ProtocolId::ConsensusRpc);
                    assert_eq!(r.priority, 5);
                    assert_eq!(r.raw_request, vec![0x01, 0x02]);
                }
                other => panic!("unexpected {:?}", other),
            }
        }
        other => panic!("unexpected {:?}", other),
    }
    // Under the version that introduced it, the same bytes are accepted.
    assert!(matches!(decode(&bytes, MessagingProtocolVersion(1), &gate), Ok(NetworkMessage::RpcRequest(_))));
}

#[test]
fn version_gate_applies_to_error_codes() {
    let bytes = encode(&NetworkMessage::Error(ErrorCode::TimedOut));
    assert_eq!(bytes, vec![0, 1]);
    let mut gate = VersionGate::v1();
    gate.timed_out = 3;
    match decode(&bytes, MessagingProtocolVersion(2), &gate) {
        Err(DecodeError::Rejected(ErrorCode::ParsingError(v, inner))) => {
            assert_eq!(v, MessagingProtocolVersion(2));
            assert!(matches!(*inner, NetworkMessage::Error(ErrorCode::TimedOut)));
        }
        other => panic!("unexpected {:?}", other),
    }
}

#[test]
fn ping_and_pong_round_trip() {
    let bytes = encode(&NetworkMessage::Ping(Nonce(0x01020304)));
    assert_eq!(bytes, vec![1, 4, 3, 2, 1]);
    assert!(matches!(round_trip(&NetworkMessage::Ping(Nonce(42))), NetworkMessage::Ping(Nonce(42))));
    assert!(matches!(
        round_trip(&NetworkMessage::Pong(Nonce(u32::MAX))),
        NetworkMessage::Pong(Nonce(u32::MAX))
    ));
}

#[test]
fn rpc_response_round_trip() {
    let m = NetworkMessage::RpcResponse(RpcResponse { request_id: 300, priority: 255, raw_response: vec![] });
    assert_eq!(encode(&m), vec![4, 44, 1, 0, 0, 255, 0, 0, 0, 0]);
    match round_trip(&m) {
        NetworkMessage::RpcResponse(r) => {
            assert_eq!(r.request_id, 300);
            assert_eq!(r.priority, 255);
            assert!(r.raw_response.is_empty());
        }
        other => panic!("unexpected {:?}", other),
    }
}

#[test]
fn direct_send_round_trip_and_mempool_number() {
    let m = NetworkMessage::DirectSendMsg(DirectSendMsg {
        protocol_id: ProtocolId::MempoolDirectSend,
        priority: 1,
        raw_msg: vec![9; 300],
    });
    let bytes = encode(&m);
    assert_eq!(&bytes[..7], &[5, 2, 1, 44, 1, 0, 0]);
    assert_eq!(bytes.len(), 307);
    match round_trip(&m) {
        NetworkMessage::DirectSendMsg(d) => {
            assert_eq!(d.protocol_id, ProtocolId::MempoolDirectSend);
            assert_eq!(d.priority, 1);
            assert_eq!(d.raw_msg, vec![9; 300]);
        }
        other => panic!("unexpected {:?}", other),
    }
}

#[test]
fn parsing_error_round_trip() {
    let inner = request(1, ProtocolId::HealthCheckerRpc, 0, vec![7]);
    let m = NetworkMessage::Error(ErrorCode::ParsingError(MessagingProtocolVersion(4), Box::new(inner)));
    let bytes = encode(&m);
    assert_eq!(bytes, vec![0, 0, 4, 3, 1, 0, 0, 0, 5, 0, 1, 0, 0, 0, 7]);
    match round_trip(&m) {
        NetworkMessage::Error(ErrorCode::ParsingError(v, inner)) => {
            assert_eq!(v, MessagingProtocolVersion(4));
            match *inner {
                NetworkMessage::RpcRequest(r) => {
                    assert_eq!(r.request_id, 1);
                    assert_eq!(r.protocol_id, ProtocolId::HealthCheckerRpc);
                    assert_eq!(r.raw_request, vec![7]);
                }
                other => panic!("unexpected {:?}", other),
            }
        }
        other => panic!("unexpected {:?}", other),
    }
}

#[test]
fn malformed_bytes_are_reported() {
    let gate = VersionGate::v1();
    let cases: Vec<Vec<u8>> = vec![
        vec![],
        vec![1],
        vec![1, 0, 0, 0],
        vec![1, 0, 0, 0, 0, 0],
        vec![6, 0, 0, 0, 0],
        vec![0, 2],
        vec![0, 0, 0],
        vec![3, 7, 0, 0, 0, 0, 5, 3, 0, 0, 0, 1, 2],
        vec![5, 2, 1, 1, 0, 0],
    ];
    for c in cases {
        assert!(matches!(decode(&c, v1(), &gate), Err(DecodeError::Malformed)), "{:?}", c);
    }
}

#[test]
fn unregistered_protocol_still_decodes() {
    let bytes = vec![5, 9, 3, 1, 0, 0, 0, 0xAA];
    match decode(&bytes, v1(), &VersionGate::v1()) {
        Ok(NetworkMessage::DirectSendMsg(d)) => {
            assert_eq!(d.protocol_id, ProtocolId::Unregistered(9));
            assert!(!d.protocol_id.is_registered());
            assert_eq!(ProtocolId::lookup(d.protocol_id.as_u8()), None);
            assert_eq!(d.raw_msg, vec![0xAA]);
        }
        other => panic!("unexpected {:?}", other),
    }
}

#[test]
fn protocol_numbers_are_stable() {
    let all = [
        ProtocolId::ConsensusRpc,
        ProtocolId::ConsensusDirectSend,
        ProtocolId::MempoolDirectSend,
        ProtocolId::StateSynchronizerDirectSend,
        ProtocolId::DiscoveryDirectSend,
        ProtocolId::HealthCheckerRpc,
        ProtocolId::IdentityDirectSend,
    ];
    for (i, p) in all.iter().enumerate() {
        assert_eq!(p.as_u8() as usize, i);
        assert!(p.is_registered());
        assert_eq!(ProtocolId::from_u8(i as u8), *p);
        assert_eq!(ProtocolId::lookup(i as u8), Some(*p));
    }
    assert_eq!(ProtocolId::MempoolDirectSend.as_u8(), 2);
    assert_eq!(ProtocolId::from_u8(200), ProtocolId::Unregistered(200));
    assert_eq!(ProtocolId::lookup(7), None);
}

#[test]
fn response_echoes_request_id() {
    let req = RpcRequest { request_id: 77, protocol_id: ProtocolId::ConsensusRpc, priority: 3, raw_request: vec![1] };
    let resp = RpcResponse::respond_to(&req, 4, vec![5, 6]);
    assert_eq!(resp.request_id, 77);
    assert_eq!(resp.priority, 4);
    assert_eq!(resp.raw_response, vec![5, 6]);
    assert!(resp.answers(&req));
    let other = RpcRequest { request_id: 78, protocol_id: ProtocolId::ConsensusRpc, priority: 3, raw_request: vec![] };
    assert!(!resp.answers(&other));
}

#[test]
fn pong_matches_only_its_ping() {
    let mut probe = PingProbe::new(Nonce(42));
    assert!(matches!(probe.ping(), NetworkMessage::Ping(Nonce(42))));
    assert!(!probe.on_pong(Nonce(41)));
    assert_eq!(probe.state, ProbeState::Awaiting);
    assert!(probe.on_pong(Nonce(42)));
    assert_eq!(probe.state, ProbeState::Answered);
    assert!(!probe.on_pong(Nonce(42)));
    assert!(probe.on_deadline().is_none());
    assert!(Nonce(5).answers(&Nonce(5)));
    assert!(!Nonce(5).answers(&Nonce(6)));
}

#[test]
fn unanswered_ping_times_out_once() {
    let mut probe = PingProbe::new(Nonce(42));
    assert!(matches!(probe.on_deadline(), Some(ErrorCode::TimedOut)));
    assert_eq!(probe.state, ProbeState::TimedOut);
    assert!(probe.on_deadline().is_none());
    assert!(probe.on_deadline().is_none());
    assert!(!probe.on_pong(Nonce(42)));
}

#[test]
fn pong_replies_to_ping_only() {
    assert!(matches!(pong_for(&NetworkMessage::Ping(Nonce(9))), Some(NetworkMessage::Pong(Nonce(9)))));
    assert!(pong_for(&NetworkMessage::Pong(Nonce(9))).is_none());
    assert!(pong_for(&NetworkMessage::Error(ErrorCode::TimedOut)).is_none());
}
