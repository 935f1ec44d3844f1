use p2p_handshake_solana::solana::domain::{
    DataReceive, DataReceiveError, DataReceiveResult, DataReceiveResultError, DataSend,
    METHOD_NOT_FOUND,
};

fn response(jsonrpc: &str, feature_set: u32, solana_core: &str, id: u8) -> DataReceive {
    DataReceive {
        jsonrpc: jsonrpc.to_string(),
        result: DataReceiveResult { feature_set, solana_core: solana_core.to_string() },
        id,
    }
}

#[test]
fn data_send_new_keeps_the_method() {
    let data = DataSend::new("wrongMethodName".to_string());
    assert_eq!(data.jsonrpc, "2.0");
    assert_eq!(data.id, 1);
    assert_eq!(data.method, "wrongMethodName");
}

#[test]
fn data_send_default_calls_get_version() {
    let data = DataSend::default();
    assert_eq!(
        data,
        DataSend { jsonrpc: "2.0".to_string(), id: 1, method: "getVersion".to_string() }
    );
}

#[test]
fn data_receive_result_default_is_the_mainnet_baseline() {
    let result = DataReceiveResult::default();
    assert_eq!(result.feature_set, 3580551090);
    assert_eq!(result.solana_core, "1.17.23");
}

#[test]
fn data_receive_result_testnet_is_the_testnet_baseline() {
    let result = DataReceiveResult::testnet();
    assert_eq!(result.feature_set, 756280933);
    assert_eq!(result.solana_core, "1.18.1");
}

#[test]
fn data_receive_new_takes_the_protocol_version() {
    let data = DataReceive::new("PotentiallyHazardousData".to_string());
    assert_eq!(data, response("PotentiallyHazardousData", 3580551090, "1.17.23", 1));
}

#[test]
fn data_receive_new_testnet_takes_the_protocol_version() {
    let data = DataReceive::new_testnet("2.0".to_string());
    assert_eq!(data, response("2.0", 756280933, "1.18.1", 1));
}

#[test]
fn data_receive_default_is_the_mainnet_response() {
    assert_eq!(DataReceive::default(), response("2.0", 3580551090, "1.17.23", 1));
}

#[test]
fn data_receive_equality_compares_every_field() {
    let base = response("2.0", 3580551090, "1.17.23", 1);
    assert!(base == response("2.0", 3580551090, "1.17.23", 1));
    assert!(base != response("2.1", 3580551090, "1.17.23", 1));
    assert!(base != response("2.0", 3580551091, "1.17.23", 1));
    assert!(base != response("2.0", 3580551090, "1.17.24", 1));
    assert!(base != response("2.0", 3580551090, "1.17.23", 2));
}

#[test]
fn verify_accepts_both_baselines() {
    assert!(DataReceive::default().verify());
    assert!(DataReceive::new_testnet("2.0".to_string()).verify());
    assert!(response("2.0", 3580551090, "1.17.23", 1).verify());
    assert!(response("2.0", 756280933, "1.18.1", 1).verify());
}

#[test]
fn verify_rejects_an_unknown_version() {
    assert!(!response("2.0", 3580551090, "9.9.9", 1).verify());
    assert!(!response("2.0", 1, "1.17.23", 1).verify());
}

#[test]
fn verify_rejects_a_mix_of_the_baselines() {
    assert!(!response("2.0", 3580551090, "1.18.1", 1).verify());
    assert!(!response("2.0", 756280933, "1.17.23", 1).verify());
}

#[test]
fn verify_rejects_a_near_miss() {
    assert!(!response("2.0", 3580551089, "1.17.23", 1).verify());
    assert!(!response("2.0", 3580551090, "1.17.2", 1).verify());
    assert!(!response("2.0", 3580551090, "1.17.23 ", 1).verify());
    assert!(!response("2.0", 3580551090, "", 1).verify());
}

#[test]
fn verify_rejects_a_foreign_envelope() {
    assert!(!DataReceive::new("PotentiallyHazardousData".to_string()).verify());
    assert!(!DataReceive::new_testnet("1.0".to_string()).verify());
    assert!(!response("2.0", 3580551090, "1.17.23", 0).verify());
    assert!(!response("2.0", 756280933, "1.18.1", 2).verify());
}

#[test]
fn data_receive_result_error_default_is_method_not_found() {
    let error = DataReceiveResultError::default();
    assert_eq!(METHOD_NOT_FOUND, -32601);
    assert_eq!(error.code, -32601);
    assert_eq!(error.message, "Method not found");
}

#[test]
fn data_receive_error_default_wraps_method_not_found() {
    let data = DataReceiveError::default();
    assert_eq!(
        data,
        DataReceiveError {
            jsonrpc: "2.0".to_string(),
            error: DataReceiveResultError { code: -32601, message: "Method not found".to_string() },
            id: 1,
        }
    );
}
