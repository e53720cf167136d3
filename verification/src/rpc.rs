//! The node's JSON-RPC method `did_getByString`: the request sent and the
//! reading of the reply.

use crate::did::RawDidDetails;
use crate::json::{
    lemma_json_models_push, lemma_member_models_push, member_models, JsonModel, JsonNumber,
    JsonValue, NumberModel,
};
use vstd::prelude::*;

verus! {

/// Why resolving through the node failed.
#[derive(Debug)]
pub enum ResolverError {
    /// The HTTP client could not be built.
    ClientSetup(String),
    /// The request could not be sent, or no reply came.
    Transport(String),
    /// The node answered with an HTTP status outside `200..=299`.
    HttpStatus(u16),
    /// The reply body is not a JSON-RPC response.
    Decode(String),
    /// The node reported a JSON-RPC error.
    Rpc { code: i64, message: String },
    /// The reply carries neither a result nor an error.
    MissingResult,
}

/// The outcome of a call to the node.
pub type ResolverResult<T> = Result<T, ResolverError>;

/// A JSON-RPC error object.
#[derive(Debug)]
pub struct RpcError {
    pub code: i64,
    pub message: String,
}

/// A JSON-RPC response to `did_getByString`. The result is the record, or
/// `None` when the node reports that the DID does not exist.
#[derive(Debug)]
pub struct RpcResponse {
    pub jsonrpc: String,
    pub id: u32,
    pub result: Option<Option<RawDidDetails>>,
    pub error: Option<RpcError>,
}

/// The JSON-RPC request for the record of `did`.
pub open spec fn request_json(did: Seq<char>) -> JsonModel {
    JsonModel::Object(
        seq![
            ("jsonrpc"@, JsonModel::Str("2.0"@)),
            ("id"@, JsonModel::Number(NumberModel::U64(1))),
            ("method"@, JsonModel::Str("did_getByString"@)),
            ("params"@, JsonModel::Array(seq![JsonModel::Str(did)])),
        ],
    )
}

/// Builds the JSON-RPC request body that asks the node for the record of
/// `did`: version `2.0`, id `1`, method `did_getByString`, params `[did]`.
pub fn did_request(did: &str) -> (req: JsonValue)
    ensures
        req@ == request_json(did@),
{
    let did_value = JsonValue::String(did.to_owned());
    let mut params: Vec<JsonValue> = Vec::new();
    proof {
        lemma_json_models_push(params@, did_value);
    }
    params.push(did_value);
    let mut members: Vec<(String, JsonValue)> = Vec::new();
    let k1 = "jsonrpc".to_owned();
    let v1 = JsonValue::String("2.0".to_owned());
    proof {
        lemma_member_models_push(members@, k1, v1);
    }
    members.push((k1, v1));
    let k2 = "id".to_owned();
    let v2 = JsonValue::Number(JsonNumber::U64(1));
    proof {
        lemma_member_models_push(members@, k2, v2);
    }
    members.push((k2, v2));
    let k3 = "method".to_owned();
    let v3 = JsonValue::String("did_getByString".to_owned());
    proof {
        lemma_member_models_push(members@, k3, v3);
    }
    members.push((k3, v3));
    let k4 = "params".to_owned();
    let v4 = JsonValue::Array(params);
    proof {
        lemma_member_models_push(members@, k4, v4);
    }
    members.push((k4, v4));
    proof {
        assert(member_models(members@) =~= request_json(did@)->Object_0);
    }
    JsonValue::Object(members)
}

/// Whether an HTTP status is a success (`200..=299`).
pub open spec fn is_success_status(status: u16) -> bool {
    200 <= status <= 299
}

/// Accepts a success status and turns any other into `HttpStatus`.
pub fn check_http_status(status: u16) -> (r: ResolverResult<()>)
    ensures
        r is Ok <==> is_success_status(status),
        r matches Err(e) ==> e == ResolverError::HttpStatus(status),
{
    if 200 <= status && status <= 299 {
        Ok(())
    } else {
        Err(ResolverError::HttpStatus(status))
    }
}

/// Reads a decoded reply: a reported error wins, then a missing result is
/// an error, and otherwise the result is the outcome.
pub fn interpret_rpc_response(response: RpcResponse) -> (r: ResolverResult<Option<RawDidDetails>>)
    ensures
        match response.error {
            Some(e) => r == ResolverResult::<Option<RawDidDetails>>::Err(
                ResolverError::Rpc { code: e.code, message: e.message },
            ),
            None => match response.result {
                Some(found) => r == ResolverResult::<Option<RawDidDetails>>::Ok(found),
                None => r == ResolverResult::<Option<RawDidDetails>>::Err(
                    ResolverError::MissingResult,
                ),
            },
        },
{
    if let Some(err) = response.error {
        return Err(ResolverError::Rpc { code: err.code, message: err.message });
    }
    match response.result {
        Some(found) => Ok(found),
        None => Err(ResolverError::MissingResult),
    }
}

} // verus!
