//! W3C DID resolution result and its JSON rendering.

use crate::did::{opt_bytes, ServiceEndpoint, ServiceModel};
use crate::json::{
    lemma_rewritten_all_index, lemma_rewritten_members_index, is_u64_number, all_u64_numbers, array_bytes, served_text, rewritten_members, json_models, lemma_json_models_push, lemma_member_models_push, member_models,
    rewrite_bytes_to_strings, rewritten, JsonModel, JsonNumber, JsonValue, NumberModel,
};
use vstd::prelude::*;

verus! {

/// A verification method of a DID document.
#[derive(Debug, Clone)]
pub struct DidVerificationMethod {
    pub id: Vec<u8>,
    pub vm_type: Vec<u8>,
    pub controller: Vec<u8>,
    pub public_key_multibase: Option<Vec<u8>>,
    pub public_key_jwk: Option<Vec<u8>>,
}

/// A DID document.
#[derive(Debug, Clone)]
pub struct DidDocument {
    pub context: Vec<Vec<u8>>,
    pub id: Vec<u8>,
    pub verification_method: Vec<DidVerificationMethod>,
    pub authentication: Vec<Vec<u8>>,
    pub assertion_method: Vec<Vec<u8>>,
    pub key_agreement: Vec<Vec<u8>>,
    pub capability_invocation: Vec<Vec<u8>>,
    pub capability_delegation: Vec<Vec<u8>>,
    pub service: Vec<ServiceEndpoint>,
}

/// Metadata about the DID document.
#[derive(Debug, Clone, Copy)]
pub struct DidDocumentMetadata {
    pub deactivated: bool,
    pub version_id: u64,
}

/// Metadata about the resolution itself.
#[derive(Debug, Clone)]
pub struct DidResolutionMetadata {
    pub content_type: Option<Vec<u8>>,
    pub error: Option<Vec<u8>>,
}

/// The result of resolving a DID.
#[derive(Debug, Clone)]
pub struct DidResolutionResult {
    pub did_document: Option<DidDocument>,
    pub did_document_metadata: DidDocumentMetadata,
    pub did_resolution_metadata: DidResolutionMetadata,
}

/// The resolution result as served over HTTP: JSON in which byte strings
/// are text.
#[derive(Debug, Clone)]
pub struct DidResolutionResultHttp {
    pub did_document: Option<JsonValue>,
    pub did_document_metadata: JsonValue,
    pub did_resolution_metadata: JsonValue,
}

/// Ghost model of a `DidVerificationMethod`.
pub struct MethodModel {
    pub id: Seq<u8>,
    pub vm_type: Seq<u8>,
    pub controller: Seq<u8>,
    pub public_key_multibase: Option<Seq<u8>>,
    pub public_key_jwk: Option<Seq<u8>>,
}

/// Ghost model of a `DidDocument`.
pub struct DocumentModel {
    pub context: Seq<Seq<u8>>,
    pub id: Seq<u8>,
    pub verification_method: Seq<MethodModel>,
    pub authentication: Seq<Seq<u8>>,
    pub assertion_method: Seq<Seq<u8>>,
    pub key_agreement: Seq<Seq<u8>>,
    pub capability_invocation: Seq<Seq<u8>>,
    pub capability_delegation: Seq<Seq<u8>>,
    pub service: Seq<ServiceModel>,
}

/// Ghost model of a `DidResolutionMetadata`.
pub struct ResolutionMetadataModel {
    pub content_type: Option<Seq<u8>>,
    pub error: Option<Seq<u8>>,
}

/// Ghost model of a `DidResolutionResult`.
pub struct ResolutionModel {
    pub did_document: Option<DocumentModel>,
    pub did_document_metadata: DidDocumentMetadata,
    pub did_resolution_metadata: ResolutionMetadataModel,
}

/// Ghost model of a `DidResolutionResultHttp`.
pub struct HttpModel {
    pub did_document: Option<JsonModel>,
    pub did_document_metadata: JsonModel,
    pub did_resolution_metadata: JsonModel,
}

impl View for DidVerificationMethod {
    type V = MethodModel;

    open spec fn view(&self) -> MethodModel {
        MethodModel {
            id: self.id@,
            vm_type: self.vm_type@,
            controller: self.controller@,
            public_key_multibase: opt_bytes(self.public_key_multibase),
            public_key_jwk: opt_bytes(self.public_key_jwk),
        }
    }
}

/// The contents of a list of byte strings.
pub open spec fn byte_lists(v: Seq<Vec<u8>>) -> Seq<Seq<u8>> {
    v.map_values(|b: Vec<u8>| b@)
}

impl View for DidDocument {
    type V = DocumentModel;

    open spec fn view(&self) -> DocumentModel {
        DocumentModel {
            context: byte_lists(self.context@),
            id: self.id@,
            verification_method: self.verification_method@.map_values(
                |m: DidVerificationMethod| m@,
            ),
            authentication: byte_lists(self.authentication@),
            assertion_method: byte_lists(self.assertion_method@),
            key_agreement: byte_lists(self.key_agreement@),
            capability_invocation: byte_lists(self.capability_invocation@),
            capability_delegation: byte_lists(self.capability_delegation@),
            service: self.service@.map_values(|s: ServiceEndpoint| s@),
        }
    }
}

impl View for DidResolutionMetadata {
    type V = ResolutionMetadataModel;

    open spec fn view(&self) -> ResolutionMetadataModel {
        ResolutionMetadataModel {
            content_type: opt_bytes(self.content_type),
            error: opt_bytes(self.error),
        }
    }
}

impl View for DidResolutionResult {
    type V = ResolutionModel;

    open spec fn view(&self) -> ResolutionModel {
        ResolutionModel {
            did_document: match self.did_document {
                Some(d) => Some(d@),
                None => None,
            },
            did_document_metadata: self.did_document_metadata,
            did_resolution_metadata: self.did_resolution_metadata@,
        }
    }
}

impl View for DidResolutionResultHttp {
    type V = HttpModel;

    open spec fn view(&self) -> HttpModel {
        HttpModel {
            did_document: match self.did_document {
                Some(d) => Some(d@),
                None => None,
            },
            did_document_metadata: self.did_document_metadata@,
            did_resolution_metadata: self.did_resolution_metadata@,
        }
    }
}

// ---------------------------------------------------------------------------
// JSON form of the resolution result: field names as in the W3C DID
// resolution format, byte strings as arrays of numbers, absent options as
// `null`.
// ---------------------------------------------------------------------------

/// A byte string as a JSON array of numbers.
pub open spec fn bytes_json(b: Seq<u8>) -> JsonModel {
    JsonModel::Array(Seq::new(b.len(), |i: int| JsonModel::Number(NumberModel::U64(b[i] as u64))))
}

/// An optional byte string as JSON (`null` when absent).
pub open spec fn opt_bytes_json(o: Option<Seq<u8>>) -> JsonModel {
    match o {
        Some(b) => bytes_json(b),
        None => JsonModel::Null,
    }
}

/// A list of byte strings as a JSON array of arrays.
pub open spec fn byte_lists_json(s: Seq<Seq<u8>>) -> JsonModel {
    JsonModel::Array(Seq::new(s.len(), |i: int| bytes_json(s[i])))
}

pub open spec fn method_json(m: MethodModel) -> JsonModel {
    JsonModel::Object(
        seq![
            ("id"@, bytes_json(m.id)),
            ("type"@, bytes_json(m.vm_type)),
            ("controller"@, bytes_json(m.controller)),
            ("publicKeyMultibase"@, opt_bytes_json(m.public_key_multibase)),
            ("publicKeyJwk"@, opt_bytes_json(m.public_key_jwk)),
        ],
    )
}

pub open spec fn service_json(s: ServiceModel) -> JsonModel {
    JsonModel::Object(
        seq![
            ("id"@, bytes_json(s.id)),
            ("type"@, bytes_json(s.service_type)),
            ("serviceEndpoint"@, bytes_json(s.endpoint)),
        ],
    )
}

pub open spec fn document_json(d: DocumentModel) -> JsonModel {
    JsonModel::Object(
        seq![
            ("@context"@, byte_lists_json(d.context)),
            ("id"@, bytes_json(d.id)),
            (
                "verificationMethod"@,
                JsonModel::Array(
                    Seq::new(
                        d.verification_method.len(),
                        |i: int| method_json(d.verification_method[i]),
                    ),
                ),
            ),
            ("authentication"@, byte_lists_json(d.authentication)),
            ("assertionMethod"@, byte_lists_json(d.assertion_method)),
            ("keyAgreement"@, byte_lists_json(d.key_agreement)),
            ("capabilityInvocation"@, byte_lists_json(d.capability_invocation)),
            ("capabilityDelegation"@, byte_lists_json(d.capability_delegation)),
            (
                "service"@,
                JsonModel::Array(Seq::new(d.service.len(), |i: int| service_json(d.service[i]))),
            ),
        ],
    )
}

pub open spec fn document_metadata_json(m: DidDocumentMetadata) -> JsonModel {
    JsonModel::Object(
        seq![
            ("deactivated"@, JsonModel::Bool(m.deactivated)),
            ("versionId"@, JsonModel::Number(NumberModel::U64(m.version_id))),
        ],
    )
}

pub open spec fn resolution_metadata_json(m: ResolutionMetadataModel) -> JsonModel {
    JsonModel::Object(
        seq![
            ("contentType"@, opt_bytes_json(m.content_type)),
            ("error"@, opt_bytes_json(m.error)),
        ],
    )
}

/// What `into_http` serves for a resolution result.
pub open spec fn http_form(r: ResolutionModel) -> HttpModel {
    HttpModel {
        did_document: match r.did_document {
            Some(d) => Some(rewritten(document_json(d))),
            None => None,
        },
        did_document_metadata: rewritten(document_metadata_json(r.did_document_metadata)),
        did_resolution_metadata: rewritten(resolution_metadata_json(r.did_resolution_metadata)),
    }
}

/// An optional byte string as served: its text, or `null` when absent.
pub open spec fn served_opt_bytes(o: Option<Seq<u8>>) -> JsonModel {
    match o {
        Some(b) => JsonModel::Str(served_text(b)),
        None => JsonModel::Null,
    }
}

/// A byte string is served as the text its bytes decode to.
pub proof fn lemma_bytes_served_as_text(b: Seq<u8>)
    ensures
        rewritten(bytes_json(b)) == JsonModel::Str(served_text(b)),
{
    let items = bytes_json(b)->Array_0;
    assert(all_u64_numbers(items));
    assert(array_bytes(items) =~= b);
}

/// The resolution metadata is served with its content type and error as
/// text (or `null` when absent).
pub proof fn lemma_resolution_metadata_served(m: ResolutionMetadataModel)
    ensures
        rewritten(resolution_metadata_json(m)) == JsonModel::Object(
            seq![
                ("contentType"@, served_opt_bytes(m.content_type)),
                ("error"@, served_opt_bytes(m.error)),
            ],
        ),
{
    if let Some(b) = m.content_type {
        lemma_bytes_served_as_text(b);
    }
    if let Some(b) = m.error {
        lemma_bytes_served_as_text(b);
    }
    let members = resolution_metadata_json(m)->Object_0;
    reveal_with_fuel(rewritten_members, 3);
    assert(members.drop_last().drop_last() =~= Seq::<(Seq<char>, JsonModel)>::empty());
    assert(members.drop_last() =~= seq![members[0]]);
    assert(rewritten_members(members) =~= seq![
        ("contentType"@, served_opt_bytes(m.content_type)),
        ("error"@, served_opt_bytes(m.error)),
    ]);
}

/// The document metadata is served unchanged: a boolean and a number.
pub proof fn lemma_document_metadata_served(m: DidDocumentMetadata)
    ensures
        rewritten(document_metadata_json(m)) == document_metadata_json(m),
{
    let members = document_metadata_json(m)->Object_0;
    reveal_with_fuel(rewritten_members, 3);
    assert(members.drop_last().drop_last() =~= Seq::<(Seq<char>, JsonModel)>::empty());
    assert(members.drop_last() =~= seq![members[0]]);
    assert(rewritten_members(members) =~= members);
}

/// A verification method as served: each byte string as text, an absent key
/// format as `null`.
pub open spec fn served_method(m: MethodModel) -> JsonModel {
    JsonModel::Object(
        seq![
            ("id"@, JsonModel::Str(served_text(m.id))),
            ("type"@, JsonModel::Str(served_text(m.vm_type))),
            ("controller"@, JsonModel::Str(served_text(m.controller))),
            ("publicKeyMultibase"@, served_opt_bytes(m.public_key_multibase)),
            ("publicKeyJwk"@, served_opt_bytes(m.public_key_jwk)),
        ],
    )
}

/// A service endpoint as served: each byte string as text.
pub open spec fn served_service(s: ServiceModel) -> JsonModel {
    JsonModel::Object(
        seq![
            ("id"@, JsonModel::Str(served_text(s.id))),
            ("type"@, JsonModel::Str(served_text(s.service_type))),
            ("serviceEndpoint"@, JsonModel::Str(served_text(s.endpoint))),
        ],
    )
}

/// A list as served: the served elements, except that an empty list (an
/// array with no element that is not a number) is served as the empty text.
pub open spec fn served_array(items: Seq<JsonModel>) -> JsonModel {
    if items.len() == 0 {
        JsonModel::Str(served_text(Seq::empty()))
    } else {
        JsonModel::Array(items)
    }
}

/// A list of byte strings as served: each as text.
pub open spec fn served_list(l: Seq<Seq<u8>>) -> JsonModel {
    served_array(Seq::new(l.len(), |i: int| JsonModel::Str(served_text(l[i]))))
}

proof fn lemma_opt_bytes_served(o: Option<Seq<u8>>)
    ensures
        rewritten(opt_bytes_json(o)) == served_opt_bytes(o),
{
    if let Some(b) = o {
        lemma_bytes_served_as_text(b);
    }
}

/// Rewriting an array of objects (or of arrays) rewrites each element, and
/// serves an empty one as the empty text.
proof fn lemma_array_of_non_numbers_served(items: Seq<JsonModel>)
    requires
        forall|i: int| 0 <= i < items.len() ==> !is_u64_number(#[trigger] items[i]),
    ensures
        rewritten(JsonModel::Array(items)) == served_array(
            Seq::new(items.len(), |i: int| rewritten(items[i])),
        ),
{
    lemma_rewritten_all_index(items);
    if items.len() == 0 {
        assert(array_bytes(items) =~= Seq::<u8>::empty());
    } else {
        assert(!is_u64_number(items[0]));
        assert(!all_u64_numbers(items));
        assert(crate::json::rewritten_all(items) =~= Seq::new(
            items.len(),
            |i: int| rewritten(items[i]),
        ));
    }
}

/// A list of byte strings is served as its texts.
pub proof fn lemma_byte_list_served(l: Seq<Seq<u8>>)
    ensures
        rewritten(byte_lists_json(l)) == served_list(l),
{
    let items = byte_lists_json(l)->Array_0;
    lemma_array_of_non_numbers_served(items);
    assert forall|i: int| 0 <= i < items.len() implies rewritten(#[trigger] items[i])
        == JsonModel::Str(served_text(l[i])) by {
        lemma_bytes_served_as_text(l[i]);
    }
    assert(Seq::new(items.len(), |i: int| rewritten(items[i])) =~= Seq::new(
        l.len(),
        |i: int| JsonModel::Str(served_text(l[i])),
    ));
}

/// A verification method is served with its id, type, controller and key
/// material, each in the member of that name.
pub proof fn lemma_method_served(m: MethodModel)
    ensures
        rewritten(method_json(m)) == served_method(m),
{
    let members = method_json(m)->Object_0;
    lemma_rewritten_members_index(members);
    lemma_bytes_served_as_text(m.id);
    lemma_bytes_served_as_text(m.vm_type);
    lemma_bytes_served_as_text(m.controller);
    lemma_opt_bytes_served(m.public_key_multibase);
    lemma_opt_bytes_served(m.public_key_jwk);
    assert(rewritten_members(members) =~= served_method(m)->Object_0);
}

/// A service endpoint is served with its id, type and endpoint, each in the
/// member of that name.
pub proof fn lemma_service_served(e: ServiceModel)
    ensures
        rewritten(service_json(e)) == served_service(e),
{
    let members = service_json(e)->Object_0;
    lemma_rewritten_members_index(members);
    lemma_bytes_served_as_text(e.id);
    lemma_bytes_served_as_text(e.service_type);
    lemma_bytes_served_as_text(e.endpoint);
    assert(rewritten_members(members) =~= served_service(e)->Object_0);
}

/// A DID document is served member by member: each list in the member of
/// its own name, with its byte strings as text, its methods and services as
/// served objects.
pub proof fn lemma_document_served(d: DocumentModel)
    ensures
        rewritten(document_json(d)) == JsonModel::Object(
            seq![
                ("@context"@, served_list(d.context)),
                ("id"@, JsonModel::Str(served_text(d.id))),
                (
                    "verificationMethod"@,
                    served_array(
                        Seq::new(
                            d.verification_method.len(),
                            |i: int| served_method(d.verification_method[i]),
                        ),
                    ),
                ),
                ("authentication"@, served_list(d.authentication)),
                ("assertionMethod"@, served_list(d.assertion_method)),
                ("keyAgreement"@, served_list(d.key_agreement)),
                ("capabilityInvocation"@, served_list(d.capability_invocation)),
                ("capabilityDelegation"@, served_list(d.capability_delegation)),
                (
                    "service"@,
                    served_array(Seq::new(d.service.len(), |i: int| served_service(d.service[i]))),
                ),
            ],
        ),
{
    let members = document_json(d)->Object_0;
    lemma_rewritten_members_index(members);
    lemma_byte_list_served(d.context);
    lemma_bytes_served_as_text(d.id);
    lemma_byte_list_served(d.authentication);
    lemma_byte_list_served(d.assertion_method);
    lemma_byte_list_served(d.key_agreement);
    lemma_byte_list_served(d.capability_invocation);
    lemma_byte_list_served(d.capability_delegation);
    let methods = Seq::new(
        d.verification_method.len(),
        |i: int| method_json(d.verification_method[i]),
    );
    lemma_array_of_non_numbers_served(methods);
    assert forall|i: int| 0 <= i < methods.len() implies rewritten(#[trigger] methods[i])
        == served_method(d.verification_method[i]) by {
        lemma_method_served(d.verification_method[i]);
    }
    assert(Seq::new(methods.len(), |i: int| rewritten(methods[i])) =~= Seq::new(
        d.verification_method.len(),
        |i: int| served_method(d.verification_method[i]),
    ));
    let services = Seq::new(d.service.len(), |i: int| service_json(d.service[i]));
    lemma_array_of_non_numbers_served(services);
    assert forall|i: int| 0 <= i < services.len() implies rewritten(#[trigger] services[i])
        == served_service(d.service[i]) by {
        lemma_service_served(d.service[i]);
    }
    assert(Seq::new(services.len(), |i: int| rewritten(services[i])) =~= Seq::new(
        d.service.len(),
        |i: int| served_service(d.service[i]),
    ));
    assert(rewritten_members(members) =~= seq![
        ("@context"@, served_list(d.context)),
        ("id"@, JsonModel::Str(served_text(d.id))),
        (
            "verificationMethod"@,
            served_array(
                Seq::new(
                    d.verification_method.len(),
                    |i: int| served_method(d.verification_method[i]),
                ),
            ),
        ),
        ("authentication"@, served_list(d.authentication)),
        ("assertionMethod"@, served_list(d.assertion_method)),
        ("keyAgreement"@, served_list(d.key_agreement)),
        ("capabilityInvocation"@, served_list(d.capability_invocation)),
        ("capabilityDelegation"@, served_list(d.capability_delegation)),
        ("service"@, served_array(Seq::new(d.service.len(), |i: int| served_service(d.service[i])))),
    ]);
}

/// Appends the member `key: value` to an object's member list.
fn push_member(members: &mut Vec<(String, JsonValue)>, key: &str, value: JsonValue)
    ensures
        member_models(final(members)@) == member_models(old(members)@).push((key@, value@)),
{
    let k = key.to_owned();
    proof {
        lemma_member_models_push(members@, k, value);
    }
    members.push((k, value));
}

/// A byte string as a JSON array of numbers.
pub fn bytes_to_json(b: &Vec<u8>) -> (v: JsonValue)
    ensures
        v@ == bytes_json(b@),
{
    let mut items: Vec<JsonValue> = Vec::new();
    let mut i: usize = 0;
    while i < b.len()
        invariant
            0 <= i <= b@.len(),
            json_models(items@) =~= Seq::new(
                i as nat,
                |k: int| JsonModel::Number(NumberModel::U64(b@[k] as u64)),
            ),
        decreases b@.len() - i,
    {
        let item = JsonValue::Number(JsonNumber::U64(b[i] as u64));
        proof {
            lemma_json_models_push(items@, item);
        }
        items.push(item);
        i = i + 1;
    }
    JsonValue::Array(items)
}

fn opt_bytes_to_json(o: &Option<Vec<u8>>) -> (v: JsonValue)
    ensures
        v@ == opt_bytes_json(opt_bytes(*o)),
{
    match o {
        Some(b) => bytes_to_json(b),
        None => JsonValue::Null,
    }
}

fn byte_lists_to_json(s: &Vec<Vec<u8>>) -> (v: JsonValue)
    ensures
        v@ == byte_lists_json(byte_lists(s@)),
{
    let mut items: Vec<JsonValue> = Vec::new();
    let mut i: usize = 0;
    while i < s.len()
        invariant
            0 <= i <= s@.len(),
            json_models(items@) =~= Seq::new(i as nat, |k: int| bytes_json(s@[k]@)),
        decreases s@.len() - i,
    {
        let item = bytes_to_json(&s[i]);
        proof {
            lemma_json_models_push(items@, item);
        }
        items.push(item);
        i = i + 1;
    }
    proof {
        assert(json_models(items@) =~= byte_lists_json(byte_lists(s@))->Array_0);
    }
    JsonValue::Array(items)
}

fn method_to_json(m: &DidVerificationMethod) -> (v: JsonValue)
    ensures
        v@ == method_json(m@),
{
    let mut members: Vec<(String, JsonValue)> = Vec::new();
    push_member(&mut members, "id", bytes_to_json(&m.id));
    push_member(&mut members, "type", bytes_to_json(&m.vm_type));
    push_member(&mut members, "controller", bytes_to_json(&m.controller));
    push_member(&mut members, "publicKeyMultibase", opt_bytes_to_json(&m.public_key_multibase));
    push_member(&mut members, "publicKeyJwk", opt_bytes_to_json(&m.public_key_jwk));
    proof {
        assert(member_models(Seq::<(String, JsonValue)>::empty()) =~= Seq::empty());
    }
    let v = JsonValue::Object(members);
    proof {
        assert(member_models(members@) =~= method_json(m@)->Object_0);
    }
    v
}


fn service_to_json(e: &ServiceEndpoint) -> (v: JsonValue)
    ensures
        v@ == service_json(e@),
{
    let mut members: Vec<(String, JsonValue)> = Vec::new();
    push_member(&mut members, "id", bytes_to_json(&e.id));
    push_member(&mut members, "type", bytes_to_json(&e.service_type));
    push_member(&mut members, "serviceEndpoint", bytes_to_json(&e.endpoint));
    proof {
        assert(member_models(members@) =~= service_json(e@)->Object_0);
    }
    JsonValue::Object(members)
}

fn methods_to_json(ms: &Vec<DidVerificationMethod>) -> (v: JsonValue)
    ensures
        v@ == JsonModel::Array(Seq::new(ms@.len(), |i: int| method_json(ms@[i]@))),
{
    let mut items: Vec<JsonValue> = Vec::new();
    let mut i: usize = 0;
    while i < ms.len()
        invariant
            0 <= i <= ms@.len(),
            json_models(items@) =~= Seq::new(i as nat, |k: int| method_json(ms@[k]@)),
        decreases ms@.len() - i,
    {
        let item = method_to_json(&ms[i]);
        proof {
            lemma_json_models_push(items@, item);
        }
        items.push(item);
        i = i + 1;
    }
    JsonValue::Array(items)
}

fn services_to_json(es: &Vec<ServiceEndpoint>) -> (v: JsonValue)
    ensures
        v@ == JsonModel::Array(Seq::new(es@.len(), |i: int| service_json(es@[i]@))),
{
    let mut items: Vec<JsonValue> = Vec::new();
    let mut i: usize = 0;
    while i < es.len()
        invariant
            0 <= i <= es@.len(),
            json_models(items@) =~= Seq::new(i as nat, |k: int| service_json(es@[k]@)),
        decreases es@.len() - i,
    {
        let item = service_to_json(&es[i]);
        proof {
            lemma_json_models_push(items@, item);
        }
        items.push(item);
        i = i + 1;
    }
    JsonValue::Array(items)
}

/// The JSON form of a DID document, byte strings still as number arrays.
pub fn document_to_json(d: &DidDocument) -> (v: JsonValue)
    ensures
        v@ == document_json(d@),
{
    let mut members: Vec<(String, JsonValue)> = Vec::new();
    push_member(&mut members, "@context", byte_lists_to_json(&d.context));
    push_member(&mut members, "id", bytes_to_json(&d.id));
    push_member(&mut members, "verificationMethod", methods_to_json(&d.verification_method));
    push_member(&mut members, "authentication", byte_lists_to_json(&d.authentication));
    push_member(&mut members, "assertionMethod", byte_lists_to_json(&d.assertion_method));
    push_member(&mut members, "keyAgreement", byte_lists_to_json(&d.key_agreement));
    push_member(
        &mut members,
        "capabilityInvocation",
        byte_lists_to_json(&d.capability_invocation),
    );
    push_member(
        &mut members,
        "capabilityDelegation",
        byte_lists_to_json(&d.capability_delegation),
    );
    push_member(&mut members, "service", services_to_json(&d.service));
    proof {
        let dm = d@;
        assert(Seq::new(d.verification_method@.len(), |i: int| method_json(d.verification_method@[i]@))
            =~= Seq::new(dm.verification_method.len(), |i: int| method_json(dm.verification_method[i])));
        assert(Seq::new(d.service@.len(), |i: int| service_json(d.service@[i]@))
            =~= Seq::new(dm.service.len(), |i: int| service_json(dm.service[i])));
        assert(member_models(members@) =~= document_json(d@)->Object_0);
    }
    JsonValue::Object(members)
}

/// The JSON form of the document metadata.
pub fn document_metadata_to_json(m: &DidDocumentMetadata) -> (v: JsonValue)
    ensures
        v@ == document_metadata_json(*m),
{
    let mut members: Vec<(String, JsonValue)> = Vec::new();
    push_member(&mut members, "deactivated", JsonValue::Bool(m.deactivated));
    push_member(&mut members, "versionId", JsonValue::Number(JsonNumber::U64(m.version_id)));
    proof {
        assert(member_models(members@) =~= document_metadata_json(*m)->Object_0);
    }
    JsonValue::Object(members)
}

/// The JSON form of the resolution metadata, byte strings still as number
/// arrays.
pub fn resolution_metadata_to_json(m: &DidResolutionMetadata) -> (v: JsonValue)
    ensures
        v@ == resolution_metadata_json(m@),
{
    let mut members: Vec<(String, JsonValue)> = Vec::new();
    push_member(&mut members, "contentType", opt_bytes_to_json(&m.content_type));
    push_member(&mut members, "error", opt_bytes_to_json(&m.error));
    proof {
        assert(member_models(members@) =~= resolution_metadata_json(m@)->Object_0);
    }
    JsonValue::Object(members)
}

impl DidResolutionResult {
    /// Renders the result as JSON with every byte string turned into text.
    pub fn into_http(self) -> (out: DidResolutionResultHttp)
        ensures
            out@ == http_form(self@),
    {
        let did_document = match &self.did_document {
            Some(d) => Some(rewrite_bytes_to_strings(document_to_json(d))),
            None => None,
        };
        let did_document_metadata = rewrite_bytes_to_strings(
            document_metadata_to_json(&self.did_document_metadata),
        );
        let did_resolution_metadata = rewrite_bytes_to_strings(
            resolution_metadata_to_json(&self.did_resolution_metadata),
        );
        DidResolutionResultHttp { did_document, did_document_metadata, did_resolution_metadata }
    }
}

} // verus!
