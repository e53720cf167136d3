use qsb_did_resolver::did::{RawDidDetails, RawDidKey, RawKeyRole, RawVerificationMethodType};
use qsb_did_resolver::rpc::{
    check_http_status, did_request, interpret_rpc_response, ResolverError, RpcError, RpcResponse,
};
use qsb_did_resolver::service::{
    begin_resolution, finish_resolution, internal_error_body, resolution_for, ResolveStep,
};

const DID: &str = "did:qsb:6QWeT6FpJrm8AF1btu6WH2k2Xhq6t5vbYf7uV5mG4NfN";

fn record() -> RawDidDetails {
    RawDidDetails {
        version: 2,
        deactivated: false,
        keys: vec![RawDidKey {
            key_id: b"#k".to_vec(),
            vm_type: RawVerificationMethodType::Multikey,
            multicodec: None,
            public_key: vec![7],
            roles: vec![RawKeyRole::Authentication],
            controller: None,
            revoked: false,
        }],
        services: vec![],
        metadata: vec![],
        next_key_index: 1,
    }
}

fn response(result: Option<Option<RawDidDetails>>, error: Option<RpcError>) -> RpcResponse {
    RpcResponse { jsonrpc: "2.0".to_string(), id: 1, result, error }
}

#[test]
fn request_asks_for_the_did() {
    let req = did_request(DID);
    assert_eq!(req.get("jsonrpc").and_then(|v| v.as_str()), Some("2.0"));
    assert_eq!(req.get("id").and_then(|v| v.as_u64()), Some(1));
    assert_eq!(req.get("method").and_then(|v| v.as_str()), Some("did_getByString"));
    assert_eq!(req.get("params").and_then(|v| v.at(0)).and_then(|v| v.as_str()), Some(DID));
    assert!(req.get("params").and_then(|v| v.at(1)).is_none());
}

#[test]
fn http_status_must_be_success() {
    assert!(check_http_status(200).is_ok());
    assert!(check_http_status(204).is_ok());
    assert!(check_http_status(299).is_ok());
    assert!(matches!(check_http_status(199), Err(ResolverError::HttpStatus(199))));
    assert!(matches!(check_http_status(404), Err(ResolverError::HttpStatus(404))));
    assert!(matches!(check_http_status(500), Err(ResolverError::HttpStatus(500))));
}

#[test]
fn rpc_error_wins_over_result() {
    let r = interpret_rpc_response(response(
        Some(Some(record())),
        Some(RpcError { code: -32000, message: "boom".to_string() }),
    ));
    assert!(matches!(r, Err(ResolverError::Rpc { code: -32000, ref message }) if message == "boom"));
}

#[test]
fn rpc_missing_result_is_error() {
    assert!(matches!(interpret_rpc_response(response(None, None)), Err(ResolverError::MissingResult)));
}

#[test]
fn rpc_result_is_returned() {
    assert!(matches!(interpret_rpc_response(response(Some(None), None)), Ok(None)));
    match interpret_rpc_response(response(Some(Some(record())), None)) {
        Ok(Some(d)) => assert_eq!(d.version, 2),
        other => panic!("unexpected {:?}", other),
    }
}

#[test]
fn invalid_did_is_answered_without_node() {
    match begin_resolution("did:qsb:not-base58!") {
        ResolveStep::Respond(reply) => {
            assert_eq!(reply.status, 400);
            assert!(reply.body.did_document.is_none());
            assert_eq!(
                reply.body.did_resolution_metadata.get("error").and_then(|v| v.as_str()),
                Some("invalidDid")
            );
        }
        ResolveStep::QueryNode => panic!("invalid DID must not reach the node"),
    }
}

#[test]
fn valid_did_goes_to_node() {
    assert!(matches!(begin_resolution(DID), ResolveStep::QueryNode));
}

#[test]
fn node_record_gives_ok() {
    let reply = finish_resolution(DID, Ok(Some(record())));
    assert_eq!(reply.status, 200);
    let doc = reply.body.did_document.expect("document");
    assert_eq!(doc.get("id").and_then(|v| v.as_str()), Some(DID));
    assert_eq!(
        doc.get("authentication").and_then(|v| v.at(0)).and_then(|v| v.as_str()),
        Some("#k")
    );
}

#[test]
fn node_without_record_gives_not_found() {
    let reply = finish_resolution(DID, Ok(None));
    assert_eq!(reply.status, 404);
    assert!(reply.body.did_document.is_none());
    assert_eq!(
        reply.body.did_resolution_metadata.get("error").and_then(|v| v.as_str()),
        Some("notFound")
    );
}

#[test]
fn node_failure_gives_bad_gateway() {
    let reply = finish_resolution(DID, Err(ResolverError::MissingResult));
    assert_eq!(reply.status, 502);
    assert!(reply.body.did_document.is_none());
    assert_eq!(reply.body.did_document_metadata.get("deactivated").and_then(|v| v.as_bool()), Some(false));
    assert_eq!(reply.body.did_document_metadata.get("versionId").and_then(|v| v.as_u64()), Some(0));
    assert_eq!(reply.body.did_resolution_metadata.get("contentType").map(|v| v.is_null()), Some(true));
    // This body is not rewritten: the error code stays a byte array.
    let error = reply.body.did_resolution_metadata.get("error").expect("error");
    let bytes: Vec<u64> = (0..13).map(|i| error.at(i).and_then(|v| v.as_u64()).expect("byte")).collect();
    assert_eq!(bytes, b"internalError".iter().map(|b| *b as u64).collect::<Vec<u64>>());
    assert!(error.at(13).is_none());
    assert!(internal_error_body().did_document.is_none());
}

#[test]
fn resolution_for_maps_or_reports_not_found() {
    let found = resolution_for(DID, Some(record()));
    assert!(found.did_document.is_some());
    let missing = resolution_for(DID, None);
    assert!(missing.did_document.is_none());
    assert_eq!(missing.did_resolution_metadata.error, Some(b"notFound".to_vec()));
}
