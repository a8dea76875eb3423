use network_wire::correlation::{route, OutstandingRpcs, Route};
use network_wire::message::{
    DirectSendMsg, ErrorCode, NetworkMessage, Nonce, ProtocolId, RpcRequest, RpcResponse,
};

fn response(id: u32) -> RpcResponse {
    RpcResponse { request_id: id, priority: 0, raw_response: vec![] }
}

#[test]
fn routes_by_protocol_and_kind() {
    let req = NetworkMessage::RpcRequest(RpcRequest {
        request_id: 1,
        protocol_id: ProtocolId::HealthCheckerRpc,
        priority: 0,
        raw_request: vec![],
    });
    assert_eq!(route(&req), Route::Protocol(ProtocolId::HealthCheckerRpc));
    let unknown = NetworkMessage::DirectSendMsg(DirectSendMsg {
        protocol_id: ProtocolId::Unregistered(40),
        priority: 0,
        raw_msg: vec![1],
    });
    assert_eq!(route(&unknown), Route::Unroutable(40));
    assert_eq!(route(&NetworkMessage::Ping(Nonce(1))), Route::Liveness);
    assert_eq!(route(&NetworkMessage::Pong(Nonce(1))), Route::Liveness);
    assert_eq!(route(&NetworkMessage::RpcResponse(response(12))), Route::Response(12));
    assert_eq!(route(&NetworkMessage::Error(ErrorCode::TimedOut)), Route::Error);
}

#[test]
fn response_completes_outstanding_request() {
    let mut t = OutstandingRpcs::new();
    assert!(t.issue(7));
    assert!(t.issue(8));
    assert!(t.is_outstanding(7));
    assert!(t.complete(&response(7)));
    assert!(!t.is_outstanding(7));
    assert!(t.is_outstanding(8));
}

#[test]
fn orphan_response_is_dropped() {
    let mut t = OutstandingRpcs::new();
    assert!(t.issue(3));
    assert!(t.cancel(3));
    assert!(!t.complete(&response(3)));
    assert!(!t.complete(&response(99)));
    assert!(!t.is_outstanding(3));
}

#[test]
fn duplicate_outstanding_id_is_refused() {
    let mut t = OutstandingRpcs::new();
    assert!(t.issue(5));
    assert!(!t.issue(5));
    assert!(t.complete(&response(5)));
    assert!(!t.is_outstanding(5));
    // Once completed, the id may be reused at once.
    assert!(t.issue(5));
    assert!(t.is_outstanding(5));
}

#[test]
fn connection_failure_fails_every_request() {
    let mut t = OutstandingRpcs::new();
    assert!(t.issue(1));
    assert!(t.issue(2));
    assert!(t.issue(3));
    let mut failed = t.fail_all();
    failed.sort();
    assert_eq!(failed, vec![1, 2, 3]);
    assert!(!t.is_outstanding(2));
    assert!(t.fail_all().is_empty());
}
