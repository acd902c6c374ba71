use rpc_router::ProtocolId;
use rpc_router::Request;
use rpc_router::Response;
use rpc_router::RpcStatus;
use rpc_router::STATUS_FACTORY_FAILED;
use rpc_router::STATUS_OK;
use rpc_router::STATUS_PROTOCOL_SERVICE_NOT_FOUND;

#[test]
fn request_keeps_id_and_payload() {
    let req = Request::new(77, b"opaque".to_vec());
    assert_eq!(req.call_id, 77);
    assert_eq!(req.into_message(), b"opaque".to_vec());
}

#[test]
fn status_constructors_carry_their_diagnostics() {
    let ok = RpcStatus::ok();
    assert_eq!(ok.code, STATUS_OK);
    assert!(ok.is_ok());
    assert!(ok.details.is_empty());

    let id = ProtocolId::from_bytes(b"/tari/wallet/1.0".to_vec());
    let not_found = RpcStatus::protocol_service_not_found(&id);
    assert_eq!(not_found.code, STATUS_PROTOCOL_SERVICE_NOT_FOUND);
    assert!(!not_found.is_ok());
    assert_eq!(not_found.details, b"/tari/wallet/1.0".to_vec());

    let failed = RpcStatus::factory_failed(&id);
    assert_eq!(failed.code, STATUS_FACTORY_FAILED);
    assert!(!failed.is_ok());
    assert_eq!(failed.details, b"/tari/wallet/1.0".to_vec());
}

#[test]
fn single_message_response_streams_once() {
    let resp = Response::from_message(b"one and only".to_vec());
    assert!(resp.status.is_ok());
    let mut body = resp.into_message();
    assert_eq!(body.next().unwrap(), b"one and only".to_vec());
    assert!(body.next().is_none());
}

#[test]
fn failure_response_has_empty_body() {
    let id = ProtocolId::from_bytes(b"nope".to_vec());
    let resp = Response::from_status(RpcStatus::protocol_service_not_found(&id));
    assert!(!resp.status.is_ok());
    let mut body = resp.into_message();
    assert!(body.next().is_none());
}
