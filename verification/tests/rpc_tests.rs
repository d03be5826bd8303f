use erbium_blockchain::rpc::{
    dispatch, error_code_for, mempool_listing_fees, parse_priority, validate_request, wealth_tier,
    JsonrpcField, RequestError, RequestShape, RpcMethod, TxPriority, INTERNAL_ERROR, METHOD_NOT_FOUND,
};

fn shape(is_object: bool, jsonrpc: JsonrpcField, has_method: bool) -> RequestShape {
    RequestShape { is_object, jsonrpc, has_method }
}

#[test]
fn test_validate_request_accepts_v2() {
    let r = shape(true, JsonrpcField::Text("2.0".to_string()), true);
    assert_eq!(validate_request(&r), Ok(()));
}

#[test]
fn test_validate_request_errors() {
    let r = shape(false, JsonrpcField::Text("2.0".to_string()), true);
    assert_eq!(validate_request(&r), Err(RequestError::NotAnObject));
    assert_eq!(RequestError::NotAnObject.message(), "Request must be a JSON object");
    let r = shape(true, JsonrpcField::Missing, true);
    assert_eq!(validate_request(&r), Err(RequestError::MissingVersion));
    assert_eq!(RequestError::MissingVersion.message(), "Missing 'jsonrpc' field");
    let r = shape(true, JsonrpcField::Text("1.0".to_string()), true);
    assert_eq!(validate_request(&r), Err(RequestError::UnsupportedVersion));
    let r = shape(true, JsonrpcField::Other, true);
    assert_eq!(validate_request(&r), Err(RequestError::UnsupportedVersion));
    assert_eq!(RequestError::UnsupportedVersion.message(), "Only JSON-RPC 2.0 is supported");
    let r = shape(true, JsonrpcField::Text("2.0".to_string()), false);
    assert_eq!(validate_request(&r), Err(RequestError::MissingMethod));
    assert_eq!(RequestError::MissingMethod.message(), "Missing 'method' field");
}

#[test]
fn test_dispatch_known_and_unknown() {
    assert_eq!(dispatch("getBalance"), Ok(RpcMethod::GetBalance));
    assert_eq!(dispatch("ping"), Ok(RpcMethod::Ping));
    assert_eq!(dispatch("getNetworkStats"), Ok(RpcMethod::GetNetworkStats));
    assert_eq!(dispatch("nope"), Err("Method 'nope' not found".to_string()));
}

#[test]
fn test_error_code_for() {
    assert_eq!(error_code_for("Method 'x' not found"), METHOD_NOT_FOUND);
    assert_eq!(error_code_for("Missing required parameter: 'address'"), INTERNAL_ERROR);
    assert_eq!(METHOD_NOT_FOUND, -32601);
    assert_eq!(INTERNAL_ERROR, -32603);
}

#[test]
fn test_wealth_tier_bounds() {
    assert_eq!(wealth_tier(0), "Empty");
    assert_eq!(wealth_tier(1), "Small");
    assert_eq!(wealth_tier(1000), "Small");
    assert_eq!(wealth_tier(1001), "Medium");
    assert_eq!(wealth_tier(10000), "Medium");
    assert_eq!(wealth_tier(10001), "Large");
    assert_eq!(wealth_tier(100000), "Large");
    assert_eq!(wealth_tier(100001), "Whale");
}

#[test]
fn test_mempool_listing() {
    assert_eq!(parse_priority("high"), TxPriority::High);
    assert_eq!(parse_priority("all"), TxPriority::Unfiltered);
    assert_eq!(mempool_listing_fees(None, TxPriority::High), vec![100, 150, 200]);
    assert_eq!(mempool_listing_fees(Some(4), TxPriority::Medium), vec![50, 75]);
    assert_eq!(mempool_listing_fees(Some(1000), TxPriority::Low).len(), 50);
    assert_eq!(mempool_listing_fees(Some(2), TxPriority::Low), vec![10, 15]);
    assert!(mempool_listing_fees(Some(20), TxPriority::Unfiltered).is_empty());
}
