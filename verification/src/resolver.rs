//! DID validation and the mapping from a node's DID record to a resolution
//! result.

use crate::base58::{base58_decoded_len, base58_decodes_to_len, is_base58};
use crate::did::{
    RawDidDetails, RawDidKey, RawKeyRole, RawVerificationMethodType, ServiceEndpoint,
};
use crate::document::{
    byte_lists, document_json, document_metadata_json, lemma_bytes_served_as_text, http_form, lemma_document_metadata_served,
    lemma_resolution_metadata_served, DidDocument, DidDocumentMetadata, DidResolutionMetadata,
    DidResolutionResult, HttpModel,
    DidVerificationMethod, DocumentModel, MethodModel, ResolutionMetadataModel, ResolutionModel,
};
use crate::json::{
    lemma_rewritten_members_index, lemma_text_served_unchanged, served_text, JsonModel,
};
use crate::multibase::{
    base64_url_no_pad_decode, lemma_multibase_key_decodes, multibase_from_public_key, multibase_key,
};
use crate::varint::uvarint;
use vstd::prelude::*;
use vstd::string::StringSliceAdditionalSpecFns;
use vstd::utf8::encode_utf8;

verus! {

// ---------------------------------------------------------------------------
// DID syntax
// ---------------------------------------------------------------------------

/// The bytes of the method prefix `did:qsb:`.
pub open spec fn qsb_prefix() -> Seq<u8> {
    seq![0x64u8, 0x69, 0x64, 0x3a, 0x71, 0x73, 0x62, 0x3a]
}

/// Length in bytes of the identifier that a `did:qsb` DID encodes.
pub open spec fn qsb_id_len() -> nat {
    32
}

/// A `did:qsb` DID: the prefix `did:qsb:`, then a base58 identifier that
/// decodes to exactly 32 bytes.
pub open spec fn valid_qsb_did(did: Seq<u8>) -> bool {
    &&& did.len() >= qsb_prefix().len()
    &&& did.take(qsb_prefix().len() as int) == qsb_prefix()
    &&& is_base58(did.skip(qsb_prefix().len() as int))
    &&& base58_decoded_len(did.skip(qsb_prefix().len() as int)) == qsb_id_len()
}

/// Checks that `did` is a well-formed `did:qsb` DID: prefix `did:qsb:`, a
/// Base58 identifier, and an identifier that decodes to exactly 32 bytes.
pub fn is_qsb_did(did: &str) -> (ok: bool)
    ensures
        ok == valid_qsb_did(did.spec_bytes()),
{
    let bytes = did.as_bytes();
    let has_prefix = bytes.len() >= 8 && bytes[0] == 0x64 && bytes[1] == 0x69 && bytes[2] == 0x64
        && bytes[3] == 0x3a && bytes[4] == 0x71 && bytes[5] == 0x73 && bytes[6] == 0x62
        && bytes[7] == 0x3a;
    if !has_prefix {
        proof {
            if bytes@.len() >= 8 {
                let t = bytes@.take(8);
                if t == qsb_prefix() {
                    assert(t[0] == bytes@[0] && t[1] == bytes@[1] && t[2] == bytes@[2] && t[3]
                        == bytes@[3] && t[4] == bytes@[4] && t[5] == bytes@[5] && t[6]
                        == bytes@[6] && t[7] == bytes@[7]);
                }
            }
        }
        return false;
    }
    proof {
        assert(bytes@.take(8) =~= qsb_prefix());
    }
    base58_decodes_to_len(bytes, 8, 32)
}

// ---------------------------------------------------------------------------
// Fixed texts
// ---------------------------------------------------------------------------

/// The JSON-LD contexts of every resolved document.
pub open spec fn did_contexts() -> Seq<Seq<u8>> {
    seq![
        "https://www.w3.org/ns/did/v1".spec_bytes(),
        "https://w3id.org/security/multikey/v1".spec_bytes(),
        "https://w3id.org/security/suites/jws-2020/v1".spec_bytes(),
    ]
}

/// The content type of a successful resolution.
pub open spec fn did_ld_json() -> Seq<u8> {
    "application/did+ld+json".spec_bytes()
}

/// The resolution error for a malformed DID.
pub open spec fn invalid_did_code() -> Seq<u8> {
    "invalidDid".spec_bytes()
}

/// The resolution error for a DID the node does not know.
pub open spec fn not_found_code() -> Seq<u8> {
    "notFound".spec_bytes()
}

/// The `type` of a verification method.
pub open spec fn vm_type_label(t: RawVerificationMethodType) -> Seq<u8> {
    match t {
        RawVerificationMethodType::Multikey => "Multikey".spec_bytes(),
        RawVerificationMethodType::JsonWebKey2020 => "JsonWebKey2020".spec_bytes(),
    }
}

// ---------------------------------------------------------------------------
// The mapping, as ghost functions
// ---------------------------------------------------------------------------

/// The verification method published for a key of the DID `did`: its id,
/// its type, its controller (the DID itself when the key names none), and
/// the key material (multibase for a Multikey with a multicodec, none for a
/// Multikey without one, the raw key for a JsonWebKey2020).
pub open spec fn method_of(did: Seq<u8>, k: RawDidKey) -> MethodModel {
    MethodModel {
        id: k.key_id@,
        vm_type: vm_type_label(k.vm_type),
        controller: match k.controller {
            Some(c) => c@,
            None => did,
        },
        public_key_multibase: match k.vm_type {
            RawVerificationMethodType::Multikey => match k.multicodec {
                Some(codec) => Some(multibase_key(k.public_key@, codec)),
                None => None,
            },
            RawVerificationMethodType::JsonWebKey2020 => None,
        },
        public_key_jwk: match k.vm_type {
            RawVerificationMethodType::Multikey => None,
            RawVerificationMethodType::JsonWebKey2020 => Some(k.public_key@),
        },
    }
}

/// The verification methods of the non-revoked keys, in key order.
pub open spec fn methods_of(did: Seq<u8>, keys: Seq<RawDidKey>) -> Seq<MethodModel>
    decreases keys.len(),
{
    if keys.len() == 0 {
        Seq::empty()
    } else {
        let rest = methods_of(did, keys.drop_last());
        if keys.last().revoked {
            rest
        } else {
            rest.push(method_of(did, keys.last()))
        }
    }
}

/// The key id `id` once for every occurrence of `role` in `roles`.
pub open spec fn ids_for_role(id: Seq<u8>, roles: Seq<RawKeyRole>, role: RawKeyRole) -> Seq<
    Seq<u8>,
>
    decreases roles.len(),
{
    if roles.len() == 0 {
        Seq::empty()
    } else {
        let rest = ids_for_role(id, roles.drop_last(), role);
        if roles.last() == role {
            rest.push(id)
        } else {
            rest
        }
    }
}

/// The key ids listed under the verification relationship `role`: for each
/// non-revoked key in order, its id once per time the key holds `role`.
pub open spec fn role_members(keys: Seq<RawDidKey>, role: RawKeyRole) -> Seq<Seq<u8>>
    decreases keys.len(),
{
    if keys.len() == 0 {
        Seq::empty()
    } else {
        let rest = role_members(keys.drop_last(), role);
        if keys.last().revoked {
            rest
        } else {
            rest + ids_for_role(keys.last().key_id@, keys.last().roles@, role)
        }
    }
}

/// The DID document published for the record `details` of the DID `did`.
pub open spec fn document_of(did: Seq<u8>, details: RawDidDetails) -> DocumentModel {
    DocumentModel {
        context: did_contexts(),
        id: did,
        verification_method: methods_of(did, details.keys@),
        authentication: role_members(details.keys@, RawKeyRole::Authentication),
        assertion_method: role_members(details.keys@, RawKeyRole::AssertionMethod),
        key_agreement: role_members(details.keys@, RawKeyRole::KeyAgreement),
        capability_invocation: role_members(details.keys@, RawKeyRole::CapabilityInvocation),
        capability_delegation: role_members(details.keys@, RawKeyRole::CapabilityDelegation),
        service: details.services@.map_values(|s: ServiceEndpoint| s@),
    }
}

/// The successful resolution of the DID `did` whose record is `details`.
pub open spec fn resolution_of(did: Seq<u8>, details: RawDidDetails) -> ResolutionModel {
    ResolutionModel {
        did_document: Some(document_of(did, details)),
        did_document_metadata: DidDocumentMetadata {
            deactivated: details.deactivated,
            version_id: details.version,
        },
        did_resolution_metadata: ResolutionMetadataModel {
            content_type: Some(did_ld_json()),
            error: None,
        },
    }
}

/// A failed resolution with the error `code`.
pub open spec fn failed_resolution(code: Seq<u8>) -> ResolutionModel {
    ResolutionModel {
        did_document: None,
        did_document_metadata: DidDocumentMetadata { deactivated: false, version_id: 0 },
        did_resolution_metadata: ResolutionMetadataModel { content_type: None, error: Some(code) },
    }
}

/// Every key's material fits in memory (a `Vec` never holds more than
/// `isize::MAX` bytes).
pub open spec fn keys_within_limits(keys: Seq<RawDidKey>) -> bool {
    forall|i: int| 0 <= i < keys.len() ==> (#[trigger] keys[i]).public_key@.len() <= isize::MAX
}

// ---------------------------------------------------------------------------
// Lemmas about the ghost mapping
// ---------------------------------------------------------------------------

proof fn lemma_methods_of_step(did: Seq<u8>, keys: Seq<RawDidKey>, i: int)
    requires
        0 <= i < keys.len(),
    ensures
        methods_of(did, keys.take(i + 1)) == if keys[i].revoked {
            methods_of(did, keys.take(i))
        } else {
            methods_of(did, keys.take(i)).push(method_of(did, keys[i]))
        },
{
    assert(keys.take(i + 1).drop_last() =~= keys.take(i));
}

proof fn lemma_role_members_step(keys: Seq<RawDidKey>, i: int, role: RawKeyRole)
    requires
        0 <= i < keys.len(),
    ensures
        role_members(keys.take(i + 1), role) == if keys[i].revoked {
            role_members(keys.take(i), role)
        } else {
            role_members(keys.take(i), role) + ids_for_role(keys[i].key_id@, keys[i].roles@, role)
        },
{
    assert(keys.take(i + 1).drop_last() =~= keys.take(i));
}

proof fn lemma_ids_for_role_step(id: Seq<u8>, roles: Seq<RawKeyRole>, r: int, role: RawKeyRole)
    requires
        0 <= r < roles.len(),
    ensures
        ids_for_role(id, roles.take(r + 1), role) == if roles[r] == role {
            ids_for_role(id, roles.take(r), role).push(id)
        } else {
            ids_for_role(id, roles.take(r), role)
        },
{
    assert(roles.take(r + 1).drop_last() =~= roles.take(r));
}

/// The key is still in force.
pub open spec fn is_active(k: RawDidKey) -> bool {
    !k.revoked
}

/// The document's verification methods are exactly those of the
/// non-revoked keys, in the order of the record.
pub proof fn lemma_methods_are_active_keys(did: Seq<u8>, keys: Seq<RawDidKey>)
    ensures
        methods_of(did, keys) == keys.filter(|k: RawDidKey| is_active(k)).map_values(
            |k: RawDidKey| method_of(did, k),
        ),
    decreases keys.len(),
{
    reveal_with_fuel(Seq::<RawDidKey>::filter, 1);
    if keys.len() > 0 {
        lemma_methods_are_active_keys(did, keys.drop_last());
        let f = keys.drop_last().filter(|k: RawDidKey| is_active(k));
        if is_active(keys.last()) {
            assert(f.push(keys.last()).map_values(|k: RawDidKey| method_of(did, k)) =~= f.map_values(
                |k: RawDidKey| method_of(did, k),
            ).push(method_of(did, keys.last())));
        }
    }
}

proof fn lemma_ids_for_role_all_id(id: Seq<u8>, roles: Seq<RawKeyRole>, role: RawKeyRole)
    ensures
        forall|j: int|
            0 <= j < ids_for_role(id, roles, role).len() ==> #[trigger] ids_for_role(
                id,
                roles,
                role,
            )[j] == id,
    decreases roles.len(),
{
    if roles.len() > 0 {
        lemma_ids_for_role_all_id(id, roles.drop_last(), role);
        let rest = ids_for_role(id, roles.drop_last(), role);
        let all = ids_for_role(id, roles, role);
        assert forall|j: int| 0 <= j < all.len() implies #[trigger] all[j] == id by {
            if j < rest.len() {
                assert(all[j] == rest[j]);
            }
        }
    }
}

/// Some method of `methods` has the id `id`.
pub open spec fn has_method_with_id(methods: Seq<MethodModel>, id: Seq<u8>) -> bool {
    exists|k: int| 0 <= k < methods.len() && (#[trigger] methods[k]).id == id
}

/// Every key id listed under a verification relationship is the id of one
/// of the document's verification methods.
pub proof fn lemma_relationships_reference_methods(
    did: Seq<u8>,
    keys: Seq<RawDidKey>,
    role: RawKeyRole,
)
    ensures
        forall|j: int|
            0 <= j < role_members(keys, role).len() ==> has_method_with_id(
                methods_of(did, keys),
                #[trigger] role_members(keys, role)[j],
            ),
    decreases keys.len(),
{
    if keys.len() > 0 {
        let prev = keys.drop_last();
        lemma_relationships_reference_methods(did, prev, role);
        let last = keys.last();
        lemma_ids_for_role_all_id(last.key_id@, last.roles@, role);
        let members = role_members(keys, role);
        let methods = methods_of(did, keys);
        let prev_members = role_members(prev, role);
        let prev_methods = methods_of(did, prev);
        assert forall|j: int| 0 <= j < members.len() implies has_method_with_id(
            methods,
            #[trigger] members[j],
        ) by {
            if j < prev_members.len() {
                assert(has_method_with_id(prev_methods, prev_members[j]));
                let k = choose|k: int|
                    0 <= k < prev_methods.len() && (#[trigger] prev_methods[k]).id
                        == prev_members[j];
                assert(methods[k] == prev_methods[k]);
                assert(members[j] == prev_members[j]);
            } else {
                let ids = ids_for_role(last.key_id@, last.roles@, role);
                assert(members[j] == ids[j - prev_members.len()]);
                let k = prev_methods.len() as int;
                assert(methods[k] == method_of(did, last));
            }
        }
    }
}

/// A failed resolution is served without a document, with the document
/// metadata `{"deactivated": false, "versionId": 0}`, and with a null
/// content type and the error code as text.
pub proof fn lemma_failed_resolution_served(code: Seq<u8>)
    ensures
        http_form(failed_resolution(code)) == (HttpModel {
            did_document: None,
            did_document_metadata: document_metadata_json(
                DidDocumentMetadata { deactivated: false, version_id: 0 },
            ),
            did_resolution_metadata: JsonModel::Object(
                seq![
                    ("contentType"@, JsonModel::Null),
                    ("error"@, JsonModel::Str(served_text(code))),
                ],
            ),
        }),
{
    let r = failed_resolution(code);
    lemma_resolution_metadata_served(r.did_resolution_metadata);
    lemma_document_metadata_served(r.did_document_metadata);
}

/// A successful resolution is served with a document, with the record's
/// deactivation flag and version as document metadata, and with the content
/// type `application/did+ld+json` as text and a null error.
pub proof fn lemma_resolution_served(did: Seq<u8>, details: RawDidDetails)
    ensures
        http_form(resolution_of(did, details)).did_document is Some,
        http_form(resolution_of(did, details)).did_document_metadata == document_metadata_json(
            DidDocumentMetadata { deactivated: details.deactivated, version_id: details.version },
        ),
        http_form(resolution_of(did, details)).did_resolution_metadata == JsonModel::Object(
            seq![
                ("contentType"@, JsonModel::Str("application/did+ld+json"@)),
                ("error"@, JsonModel::Null),
            ],
        ),
{
    let r = resolution_of(did, details);
    lemma_resolution_metadata_served(r.did_resolution_metadata);
    lemma_document_metadata_served(r.did_document_metadata);
    lemma_text_served_unchanged("application/did+ld+json"@);
}

/// The error codes of failed resolutions are served as the texts
/// `invalidDid` and `notFound`.
pub proof fn lemma_error_codes_served_as_text()
    ensures
        served_text(invalid_did_code()) == "invalidDid"@,
        served_text(not_found_code()) == "notFound"@,
{
    lemma_text_served_unchanged("invalidDid"@);
    lemma_text_served_unchanged("notFound"@);
}

/// The served document's `id` member is the DID as text.
pub proof fn lemma_served_document_id(did: Seq<char>, details: RawDidDetails)
    ensures
        http_form(resolution_of(encode_utf8(did), details)).did_document matches Some(
            JsonModel::Object(members),
        ) && members.len() == 9 && members[1] == ("id"@, JsonModel::Str(did)),
{
    let d = document_of(encode_utf8(did), details);
    let members = document_json(d)->Object_0;
    lemma_rewritten_members_index(members);
    lemma_bytes_served_as_text(encode_utf8(did));
    lemma_text_served_unchanged(did);
}

/// The list of a document that holds the verification relationship `role`.
pub open spec fn relationship(d: DocumentModel, role: RawKeyRole) -> Seq<Seq<u8>> {
    match role {
        RawKeyRole::Authentication => d.authentication,
        RawKeyRole::AssertionMethod => d.assertion_method,
        RawKeyRole::KeyAgreement => d.key_agreement,
        RawKeyRole::CapabilityInvocation => d.capability_invocation,
        RawKeyRole::CapabilityDelegation => d.capability_delegation,
    }
}

/// The key is in force and holds `role`.
pub open spec fn holds_role(k: RawDidKey, role: RawKeyRole) -> bool {
    !k.revoked && k.roles@.contains(role)
}

/// `id` is the id of a key of `keys` that is in force and holds `role`.
pub open spec fn id_of_key_holding(keys: Seq<RawDidKey>, role: RawKeyRole, id: Seq<u8>) -> bool {
    exists|i: int| 0 <= i < keys.len() && holds_role(keys[i], role) && (#[trigger] keys[i]).key_id@ == id
}

proof fn lemma_ids_for_role_nonempty(id: Seq<u8>, roles: Seq<RawKeyRole>, role: RawKeyRole)
    ensures
        ids_for_role(id, roles, role).len() > 0 <==> roles.contains(role),
    decreases roles.len(),
{
    if roles.len() > 0 {
        lemma_ids_for_role_nonempty(id, roles.drop_last(), role);
        if roles.drop_last().contains(role) {
            let k = choose|k: int| 0 <= k < roles.drop_last().len() && roles.drop_last()[k] == role;
            assert(roles[k] == role);
        }
        if roles.contains(role) && roles.last() != role {
            let k = choose|k: int| 0 <= k < roles.len() && roles[k] == role;
            assert(roles.drop_last()[k] == role);
        }
        if roles.last() == role {
            assert(roles[roles.len() - 1] == role);
        }
    }
}

proof fn lemma_role_members_sound(keys: Seq<RawDidKey>, role: RawKeyRole)
    ensures
        forall|j: int|
            0 <= j < role_members(keys, role).len() ==> id_of_key_holding(
                keys,
                role,
                #[trigger] role_members(keys, role)[j],
            ),
    decreases keys.len(),
{
    if keys.len() > 0 {
        let prev = keys.drop_last();
        lemma_role_members_sound(prev, role);
        let last = keys.last();
        lemma_ids_for_role_all_id(last.key_id@, last.roles@, role);
        lemma_ids_for_role_nonempty(last.key_id@, last.roles@, role);
        let list = role_members(keys, role);
        let prev_list = role_members(prev, role);
        assert forall|j: int| 0 <= j < list.len() implies id_of_key_holding(
            keys,
            role,
            #[trigger] list[j],
        ) by {
            if j < prev_list.len() {
                assert(list[j] == prev_list[j]);
                assert(id_of_key_holding(prev, role, prev_list[j]));
                let i = choose|i: int|
                    0 <= i < prev.len() && holds_role(prev[i], role) && (#[trigger] prev[i]).key_id@
                        == prev_list[j];
                assert(keys[i] == prev[i]);
            } else {
                let ids = ids_for_role(last.key_id@, last.roles@, role);
                assert(list[j] == ids[j - prev_list.len()]);
                assert(keys[keys.len() - 1] == last);
            }
        }
    }
}

proof fn lemma_role_members_complete(keys: Seq<RawDidKey>, role: RawKeyRole)
    ensures
        forall|i: int|
            0 <= i < keys.len() && holds_role(#[trigger] keys[i], role) ==> role_members(
                keys,
                role,
            ).contains(keys[i].key_id@),
    decreases keys.len(),
{
    if keys.len() > 0 {
        let prev = keys.drop_last();
        lemma_role_members_complete(prev, role);
        let last = keys.last();
        lemma_ids_for_role_all_id(last.key_id@, last.roles@, role);
        lemma_ids_for_role_nonempty(last.key_id@, last.roles@, role);
        let list = role_members(keys, role);
        let prev_list = role_members(prev, role);
        assert forall|i: int| 0 <= i < keys.len() && holds_role(#[trigger] keys[i], role) implies list.contains(
            keys[i].key_id@,
        ) by {
            if i < prev.len() {
                assert(prev[i] == keys[i]);
                let j = choose|j: int| 0 <= j < prev_list.len() && prev_list[j] == keys[i].key_id@;
                assert(list[j] == prev_list[j]);
            } else {
                let ids = ids_for_role(last.key_id@, last.roles@, role);
                assert(list[prev_list.len() as int] == ids[0]);
            }
        }
    }
}

/// Each verification relationship of a resolved document lists the ids of
/// the record's keys that are in force and hold that relationship, and
/// nothing else: every listed id is the id of such a key, and every such
/// key's id is listed.
pub proof fn lemma_relationships_follow_record(
    did: Seq<u8>,
    details: RawDidDetails,
    role: RawKeyRole,
)
    ensures
        resolution_of(did, details).did_document is Some,
        ({
            let keys = details.keys@;
            let list = relationship(resolution_of(did, details).did_document->0, role);
            &&& forall|j: int| 0 <= j < list.len() ==> id_of_key_holding(keys, role, #[trigger] list[j])
            &&& forall|i: int|
                0 <= i < keys.len() && holds_role(#[trigger] keys[i], role) ==> list.contains(
                    keys[i].key_id@,
                )
        }),
{
    lemma_role_members_sound(details.keys@, role);
    lemma_role_members_complete(details.keys@, role);
}

/// The `k`-th verification method of a resolved document carries the
/// `k`-th key in force: its id; its controller, or the DID when it names
/// none; for a Multikey with a multicodec, a multibase text that starts with
/// `u` and decodes back to the codec's uvarint followed by the key; for a
/// JsonWebKey2020, the key itself.
pub proof fn lemma_methods_carry_keys(did: Seq<u8>, keys: Seq<RawDidKey>)
    ensures
        ({
            let active = keys.filter(|k: RawDidKey| is_active(k));
            let methods = methods_of(did, keys);
            &&& methods.len() == active.len()
            &&& forall|k: int|
                0 <= k < methods.len() ==> {
                    let m = #[trigger] methods[k];
                    let key = active[k];
                    &&& !key.revoked
                    &&& m.id == key.key_id@
                    &&& m.controller == (match key.controller {
                        Some(c) => c@,
                        None => did,
                    })
                    &&& (key.vm_type == RawVerificationMethodType::Multikey
                        && key.multicodec is Some) ==> (m.public_key_multibase matches Some(t)
                        && t[0] == 0x75 && base64_url_no_pad_decode(t.drop_first()) == Some(
                        uvarint(key.multicodec->0) + key.public_key@,
                    ))
                    &&& key.vm_type == RawVerificationMethodType::JsonWebKey2020 ==> (
                    m.public_key_jwk == Some(key.public_key@) && m.public_key_multibase is None)
                }
        }),
{
    lemma_methods_are_active_keys(did, keys);
    let active = keys.filter(|k: RawDidKey| is_active(k));
    let methods = methods_of(did, keys);
    assert forall|k: int| 0 <= k < methods.len() implies ({
        let m = #[trigger] methods[k];
        let key = active[k];
        &&& !key.revoked
        &&& m.id == key.key_id@
        &&& m.controller == (match key.controller {
            Some(c) => c@,
            None => did,
        })
        &&& (key.vm_type == RawVerificationMethodType::Multikey && key.multicodec is Some) ==> (
        m.public_key_multibase matches Some(t) && t[0] == 0x75 && base64_url_no_pad_decode(
            t.drop_first(),
        ) == Some(uvarint(key.multicodec->0) + key.public_key@))
        &&& key.vm_type == RawVerificationMethodType::JsonWebKey2020 ==> (m.public_key_jwk == Some(
            key.public_key@,
        ) && m.public_key_multibase is None)
    }) by {
        let key = active[k];
        assert(methods[k] == method_of(did, key));
        keys.lemma_filter_pred(|k: RawDidKey| is_active(k), k);
        if key.multicodec is Some {
            lemma_multibase_key_decodes(key.public_key@, key.multicodec->0);
        }
    }
}

// ---------------------------------------------------------------------------
// Exec
// ---------------------------------------------------------------------------

fn copy_bytes(v: &Vec<u8>) -> (c: Vec<u8>)
    ensures
        c@ == v@,
{
    let c = v.clone();
    proof {
        assert(c@ =~= v@);
    }
    c
}

fn vm_type_label_bytes(t: RawVerificationMethodType) -> (label: Vec<u8>)
    ensures
        label@ == vm_type_label(t),
{
    match t {
        RawVerificationMethodType::Multikey => "Multikey".as_bytes_vec(),
        RawVerificationMethodType::JsonWebKey2020 => "JsonWebKey2020".as_bytes_vec(),
    }
}

/// The verification method of one key of `did`.
fn method_for_key(did: &Vec<u8>, key: &RawDidKey) -> (m: DidVerificationMethod)
    requires
        key.public_key@.len() <= isize::MAX,
    ensures
        m@ == method_of(did@, *key),
{
    let controller = match &key.controller {
        Some(c) => copy_bytes(c),
        None => copy_bytes(did),
    };
    let (public_key_multibase, public_key_jwk) = match key.vm_type {
        RawVerificationMethodType::Multikey => (
            match key.multicodec {
                Some(codec) => Some(multibase_from_public_key(key.public_key.as_slice(), codec)),
                None => None,
            },
            None,
        ),
        RawVerificationMethodType::JsonWebKey2020 => (None, Some(copy_bytes(&key.public_key))),
    };
    DidVerificationMethod {
        id: copy_bytes(&key.key_id),
        vm_type: vm_type_label_bytes(key.vm_type),
        controller,
        public_key_multibase,
        public_key_jwk,
    }
}

/// The successful resolution of `did`, whose record the node returned as
/// `details`: a document that lists the non-revoked keys as verification
/// methods and under their verification relationships, with the record's
/// services; metadata with the record's version and deactivation flag; and
/// the content type `application/did+ld+json`.
pub fn map_raw_to_resolution(did: &str, details: RawDidDetails) -> (res: DidResolutionResult)
    requires
        keys_within_limits(details.keys@),
    ensures
        res@ == resolution_of(did.spec_bytes(), details),
{
    let did_bytes = did.as_bytes_vec();
    let ghost did_model = did_bytes@;
    let ghost keys = details.keys@;
    let mut verification_method: Vec<DidVerificationMethod> = Vec::new();
    let mut authentication: Vec<Vec<u8>> = Vec::new();
    let mut assertion_method: Vec<Vec<u8>> = Vec::new();
    let mut key_agreement: Vec<Vec<u8>> = Vec::new();
    let mut capability_invocation: Vec<Vec<u8>> = Vec::new();
    let mut capability_delegation: Vec<Vec<u8>> = Vec::new();
    proof {
        assert(keys.take(0) =~= Seq::<RawDidKey>::empty());
        assert(verification_method@.map_values(|m: DidVerificationMethod| m@) =~= Seq::empty());
        assert(byte_lists(authentication@) =~= Seq::empty());
    }
    let mut i: usize = 0;
    while i < details.keys.len()
        invariant
            0 <= i <= keys.len(),
            keys == details.keys@,
            did_model == did_bytes@,
            keys_within_limits(keys),
            verification_method@.map_values(|m: DidVerificationMethod| m@) == methods_of(
                did_model,
                keys.take(i as int),
            ),
            byte_lists(authentication@) == role_members(
                keys.take(i as int),
                RawKeyRole::Authentication,
            ),
            byte_lists(assertion_method@) == role_members(
                keys.take(i as int),
                RawKeyRole::AssertionMethod,
            ),
            byte_lists(key_agreement@) == role_members(
                keys.take(i as int),
                RawKeyRole::KeyAgreement,
            ),
            byte_lists(capability_invocation@) == role_members(
                keys.take(i as int),
                RawKeyRole::CapabilityInvocation,
            ),
            byte_lists(capability_delegation@) == role_members(
                keys.take(i as int),
                RawKeyRole::CapabilityDelegation,
            ),
        decreases keys.len() - i,
    {
        let key = &details.keys[i];
        proof {
            lemma_methods_of_step(did_model, keys, i as int);
            lemma_role_members_step(keys, i as int, RawKeyRole::Authentication);
            lemma_role_members_step(keys, i as int, RawKeyRole::AssertionMethod);
            lemma_role_members_step(keys, i as int, RawKeyRole::KeyAgreement);
            lemma_role_members_step(keys, i as int, RawKeyRole::CapabilityInvocation);
            lemma_role_members_step(keys, i as int, RawKeyRole::CapabilityDelegation);
        }
        if !key.revoked {
            let method = method_for_key(&did_bytes, key);
            proof {
                assert(verification_method@.push(method).map_values(|m: DidVerificationMethod| m@)
                    =~= verification_method@.map_values(|m: DidVerificationMethod| m@).push(
                    method@,
                ));
            }
            verification_method.push(method);
            let ghost id = key.key_id@;
            let ghost roles = key.roles@;
            let ghost auth0 = byte_lists(authentication@);
            let ghost assert0 = byte_lists(assertion_method@);
            let ghost agree0 = byte_lists(key_agreement@);
            let ghost inv0 = byte_lists(capability_invocation@);
            let ghost del0 = byte_lists(capability_delegation@);
            let mut r: usize = 0;
            proof {
                assert(roles.take(0) =~= Seq::<RawKeyRole>::empty());
                assert(auth0 + Seq::<Seq<u8>>::empty() =~= auth0);
                assert(assert0 + Seq::<Seq<u8>>::empty() =~= assert0);
                assert(agree0 + Seq::<Seq<u8>>::empty() =~= agree0);
                assert(inv0 + Seq::<Seq<u8>>::empty() =~= inv0);
                assert(del0 + Seq::<Seq<u8>>::empty() =~= del0);
            }
            while r < key.roles.len()
                invariant
                    0 <= r <= roles.len(),
                    roles == key.roles@,
                    id == key.key_id@,
                    byte_lists(authentication@) == auth0 + ids_for_role(
                        id,
                        roles.take(r as int),
                        RawKeyRole::Authentication,
                    ),
                    byte_lists(assertion_method@) == assert0 + ids_for_role(
                        id,
                        roles.take(r as int),
                        RawKeyRole::AssertionMethod,
                    ),
                    byte_lists(key_agreement@) == agree0 + ids_for_role(
                        id,
                        roles.take(r as int),
                        RawKeyRole::KeyAgreement,
                    ),
                    byte_lists(capability_invocation@) == inv0 + ids_for_role(
                        id,
                        roles.take(r as int),
                        RawKeyRole::CapabilityInvocation,
                    ),
                    byte_lists(capability_delegation@) == del0 + ids_for_role(
                        id,
                        roles.take(r as int),
                        RawKeyRole::CapabilityDelegation,
                    ),
                decreases roles.len() - r,
            {
                proof {
                    lemma_ids_for_role_step(id, roles, r as int, RawKeyRole::Authentication);
                    lemma_ids_for_role_step(id, roles, r as int, RawKeyRole::AssertionMethod);
                    lemma_ids_for_role_step(id, roles, r as int, RawKeyRole::KeyAgreement);
                    lemma_ids_for_role_step(id, roles, r as int, RawKeyRole::CapabilityInvocation);
                    lemma_ids_for_role_step(id, roles, r as int, RawKeyRole::CapabilityDelegation);
                }
                let vm_id = copy_bytes(&key.key_id);
                match key.roles[r] {
                    RawKeyRole::Authentication => {
                        proof {
                            assert(byte_lists(authentication@.push(vm_id)) =~= byte_lists(
                                authentication@,
                            ).push(id));
                        }
                        authentication.push(vm_id);
                    },
                    RawKeyRole::AssertionMethod => {
                        proof {
                            assert(byte_lists(assertion_method@.push(vm_id)) =~= byte_lists(
                                assertion_method@,
                            ).push(id));
                        }
                        assertion_method.push(vm_id);
                    },
                    RawKeyRole::KeyAgreement => {
                        proof {
                            assert(byte_lists(key_agreement@.push(vm_id)) =~= byte_lists(
                                key_agreement@,
                            ).push(id));
                        }
                        key_agreement.push(vm_id);
                    },
                    RawKeyRole::CapabilityInvocation => {
                        proof {
                            assert(byte_lists(capability_invocation@.push(vm_id)) =~= byte_lists(
                                capability_invocation@,
                            ).push(id));
                        }
                        capability_invocation.push(vm_id);
                    },
                    RawKeyRole::CapabilityDelegation => {
                        proof {
                            assert(byte_lists(capability_delegation@.push(vm_id)) =~= byte_lists(
                                capability_delegation@,
                            ).push(id));
                        }
                        capability_delegation.push(vm_id);
                    },
                }
                r = r + 1;
            }
            proof {
                assert(roles.take(roles.len() as int) =~= roles);
            }
        }
        i = i + 1;
    }
    proof {
        assert(keys.take(keys.len() as int) =~= keys);
    }
    let mut context: Vec<Vec<u8>> = Vec::new();
    context.push("https://www.w3.org/ns/did/v1".as_bytes_vec());
    context.push("https://w3id.org/security/multikey/v1".as_bytes_vec());
    context.push("https://w3id.org/security/suites/jws-2020/v1".as_bytes_vec());
    proof {
        assert(byte_lists(context@) =~= did_contexts());
    }
    DidResolutionResult {
        did_document: Some(
            DidDocument {
                context,
                id: did_bytes,
                verification_method,
                authentication,
                assertion_method,
                key_agreement,
                capability_invocation,
                capability_delegation,
                service: details.services,
            },
        ),
        did_document_metadata: DidDocumentMetadata {
            deactivated: details.deactivated,
            version_id: details.version,
        },
        did_resolution_metadata: DidResolutionMetadata {
            content_type: Some("application/did+ld+json".as_bytes_vec()),
            error: None,
        },
    }
}

/// The resolution result for a malformed DID: no document, error `invalidDid`.
pub fn invalid_did_result() -> (res: DidResolutionResult)
    ensures
        res@ == failed_resolution(invalid_did_code()),
{
    DidResolutionResult {
        did_document: None,
        did_document_metadata: DidDocumentMetadata { deactivated: false, version_id: 0 },
        did_resolution_metadata: DidResolutionMetadata {
            content_type: None,
            error: Some("invalidDid".as_bytes_vec()),
        },
    }
}

/// The resolution result for a DID the node does not know: no document,
/// error `notFound`.
pub fn not_found_result() -> (res: DidResolutionResult)
    ensures
        res@ == failed_resolution(not_found_code()),
{
    DidResolutionResult {
        did_document: None,
        did_document_metadata: DidDocumentMetadata { deactivated: false, version_id: 0 },
        did_resolution_metadata: DidResolutionMetadata {
            content_type: None,
            error: Some("notFound".as_bytes_vec()),
        },
    }
}

} // verus!
