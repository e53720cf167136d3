//! The decisions of the HTTP resolver endpoint `GET /1.0/identifiers/{did}`.
//!
//! Serving a request takes two steps: `begin_resolution` decides from the
//! DID alone whether to answer at once or to ask the node; after the node's
//! answer, `finish_resolution` decides the HTTP reply.

use crate::did::RawDidDetails;
use crate::document::{
    document_metadata_json, document_metadata_to_json, http_form, resolution_metadata_json,
    resolution_metadata_to_json, DidDocumentMetadata, DidResolutionMetadata, DidResolutionResult,
    DidResolutionResultHttp, HttpModel, ResolutionMetadataModel,
};
use crate::resolver::{
    failed_resolution, invalid_did_code, invalid_did_result, is_qsb_did, keys_within_limits,
    map_raw_to_resolution, not_found_code, not_found_result, resolution_of, valid_qsb_did,
};
use crate::rpc::ResolverResult;
use vstd::prelude::*;
use vstd::string::StringSliceAdditionalSpecFns;

verus! {

/// An HTTP reply: status code and JSON body.
#[derive(Debug)]
pub struct HttpReply {
    pub status: u16,
    pub body: DidResolutionResultHttp,
}

/// What to do with a resolution request before anything is asked of the node.
#[derive(Debug)]
pub enum ResolveStep {
    /// Answer at once with this reply.
    Respond(HttpReply),
    /// Ask the node for the DID's record, then call `finish_resolution`.
    QueryNode,
}

/// The HTTP status codes the endpoint uses.
pub open spec fn status_ok() -> u16 {
    200
}

pub open spec fn status_bad_request() -> u16 {
    400
}

pub open spec fn status_not_found() -> u16 {
    404
}

pub open spec fn status_bad_gateway() -> u16 {
    502
}

/// The resolution error reported when the node cannot be used.
pub open spec fn internal_error_code() -> Seq<u8> {
    "internalError".spec_bytes()
}

/// The body served when the node cannot be used: no document, the document
/// metadata `{"deactivated": false, "versionId": 0}`, and the resolution
/// metadata with `contentType` null and the error `internalError`, whose
/// bytes are served as a plain number array (this body is not rewritten).
pub open spec fn internal_error_http() -> HttpModel {
    HttpModel {
        did_document: None,
        did_document_metadata: document_metadata_json(
            DidDocumentMetadata { deactivated: false, version_id: 0 },
        ),
        did_resolution_metadata: resolution_metadata_json(
            ResolutionMetadataModel { content_type: None, error: Some(internal_error_code()) },
        ),
    }
}

/// The body served when the node cannot be used.
pub fn internal_error_body() -> (body: DidResolutionResultHttp)
    ensures
        body@ == internal_error_http(),
{
    let metadata = DidDocumentMetadata { deactivated: false, version_id: 0 };
    let resolution = DidResolutionMetadata {
        content_type: None,
        error: Some("internalError".as_bytes_vec()),
    };
    DidResolutionResultHttp {
        did_document: None,
        did_document_metadata: document_metadata_to_json(&metadata),
        did_resolution_metadata: resolution_metadata_to_json(&resolution),
    }
}

/// Decides what to do with a request for `did`: a DID that is not a valid
/// `did:qsb` DID is answered at once with `400` and the `invalidDid` result;
/// a valid one is looked up on the node.
pub fn begin_resolution(did: &str) -> (step: ResolveStep)
    ensures
        valid_qsb_did(did.spec_bytes()) ==> step is QueryNode,
        !valid_qsb_did(did.spec_bytes()) ==> (step matches ResolveStep::Respond(reply)
            && reply.status == status_bad_request() && reply.body@ == http_form(
            failed_resolution(invalid_did_code()),
        )),
{
    if !is_qsb_did(did) {
        ResolveStep::Respond(
            HttpReply { status: 400, body: invalid_did_result().into_http() },
        )
    } else {
        ResolveStep::QueryNode
    }
}

/// The resolution result for `did` given the node's answer: the mapped
/// record when there is one, and the `notFound` result otherwise.
pub fn resolution_for(did: &str, found: Option<RawDidDetails>) -> (res: DidResolutionResult)
    requires
        found matches Some(d) ==> keys_within_limits(d.keys@),
    ensures
        match found {
            Some(d) => res@ == resolution_of(did.spec_bytes(), d),
            None => res@ == failed_resolution(not_found_code()),
        },
{
    match found {
        Some(details) => map_raw_to_resolution(did, details),
        None => not_found_result(),
    }
}

/// Decides the reply once the node has answered for `did`: `200` with the
/// resolved document when the node has a record, `404` with `notFound` when
/// it has none, and `502` with `internalError` when the call failed.
pub fn finish_resolution(did: &str, outcome: ResolverResult<Option<RawDidDetails>>) -> (reply:
    HttpReply)
    requires
        outcome matches Ok(Some(d)) ==> keys_within_limits(d.keys@),
    ensures
        match outcome {
            Ok(Some(d)) => reply.status == status_ok() && reply.body@ == http_form(
                resolution_of(did.spec_bytes(), d),
            ),
            Ok(None) => reply.status == status_not_found() && reply.body@ == http_form(
                failed_resolution(not_found_code()),
            ),
            Err(_) => reply.status == status_bad_gateway() && reply.body@
                == internal_error_http(),
        },
{
    match outcome {
        Ok(Some(details)) => HttpReply {
            status: 200,
            body: map_raw_to_resolution(did, details).into_http(),
        },
        Ok(None) => HttpReply { status: 404, body: not_found_result().into_http() },
        Err(_) => HttpReply { status: 502, body: internal_error_body() },
    }
}

} // verus!
