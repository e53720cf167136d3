//! The DID record as a node stores it (`did_getByString` result).

use crate::json::JsonValue;
use vstd::prelude::*;

verus! {

/// A verification relationship that a key may take part in.
#[derive(Debug, Clone, Copy, PartialEq, Eq)]
pub enum RawKeyRole {
    Authentication,
    AssertionMethod,
    KeyAgreement,
    CapabilityInvocation,
    CapabilityDelegation,
}

/// How a key's public key material is published.
#[derive(Debug, Clone, Copy, PartialEq, Eq)]
pub enum RawVerificationMethodType {
    Multikey,
    JsonWebKey2020,
}

/// One key of a DID record.
#[derive(Debug, Clone)]
pub struct RawDidKey {
    pub key_id: Vec<u8>,
    pub vm_type: RawVerificationMethodType,
    pub multicodec: Option<u64>,
    pub public_key: Vec<u8>,
    pub roles: Vec<RawKeyRole>,
    pub controller: Option<Vec<u8>>,
    pub revoked: bool,
}

/// A service endpoint of a DID record; it is published unchanged.
#[derive(Debug, Clone)]
pub struct ServiceEndpoint {
    pub id: Vec<u8>,
    pub service_type: Vec<u8>,
    pub endpoint: Vec<u8>,
}

/// A DID record.
#[derive(Debug, Clone)]
pub struct RawDidDetails {
    pub version: u64,
    pub deactivated: bool,
    pub keys: Vec<RawDidKey>,
    pub services: Vec<ServiceEndpoint>,
    pub metadata: Vec<JsonValue>,
    pub next_key_index: u32,
}

/// Ghost model of a `ServiceEndpoint`.
pub struct ServiceModel {
    pub id: Seq<u8>,
    pub service_type: Seq<u8>,
    pub endpoint: Seq<u8>,
}

impl View for ServiceEndpoint {
    type V = ServiceModel;

    open spec fn view(&self) -> ServiceModel {
        ServiceModel { id: self.id@, service_type: self.service_type@, endpoint: self.endpoint@ }
    }
}

/// An optional byte string, by its contents.
pub open spec fn opt_bytes(o: Option<Vec<u8>>) -> Option<Seq<u8>> {
    match o {
        Some(v) => Some(v@),
        None => None,
    }
}

} // verus!
