use rust_backend::json_rpc::{JsonRpcRequest, JsonRpcResponse, INTERNAL_ERROR_CODE};

#[test]
fn test_response_success() {
    let status: serde_json::Value = serde_json::from_str(r#"{"status": "ok"}"#).unwrap();
    let response = JsonRpcResponse::success(serde_json::Value::from(1), status);

    assert!(response.result.is_some());
    assert!(response.error.is_none());
}

#[test]
fn test_response_error() {
    let response = JsonRpcResponse::error(
        serde_json::Value::from(1),
        -32603,
        "Internal error".to_string(),
    );

    assert!(response.result.is_none());
    assert!(response.error.is_some());
    assert_eq!(response.error.unwrap().code, -32603);
}

#[test]
fn success_keeps_fields() {
    let r = JsonRpcResponse::success(serde_json::Value::from(7), serde_json::Value::from("x"));
    assert_eq!(r.jsonrpc, "2.0");
    assert_eq!(r.id, serde_json::Value::from(7));
    assert_eq!(r.result, Some(serde_json::Value::from("x")));
    assert!(r.is_well_formed());
}

#[test]
fn internal_error_has_internal_code() {
    let r = JsonRpcResponse::internal_error(serde_json::Value::from("a"), "boom".to_string());
    let e = r.error.unwrap();
    assert_eq!(e.code, INTERNAL_ERROR_CODE);
    assert_eq!(e.code, -32603);
    assert_eq!(e.message, "boom");
    assert!(e.data.is_none());
    assert_eq!(r.id, serde_json::Value::from("a"));
}

#[test]
fn response_with_both_or_neither_is_not_well_formed() {
    let mut r = JsonRpcResponse::success(serde_json::Value::from(1), serde_json::Value::Null);
    let e = JsonRpcResponse::error(serde_json::Value::from(1), 1, "m".to_string());
    r.error = e.error;
    assert!(!r.is_well_formed());
    r.result = None;
    assert!(r.is_well_formed());
    r.error = None;
    assert!(!r.is_well_formed());
}

#[test]
fn ping_request_fields() {
    let p = JsonRpcRequest::ping(1234);
    assert_eq!(p.jsonrpc, "2.0");
    assert_eq!(p.method, "ping");
    assert_eq!(p.params, serde_json::Value::Object(serde_json::Map::new()));
    assert_eq!(p.id, serde_json::Value::from(1234u64));
}
