use qsb_did_resolver::did::{
    RawDidDetails, RawDidKey, RawKeyRole, RawVerificationMethodType, ServiceEndpoint,
};
use qsb_did_resolver::multibase::multibase_from_public_key;
use qsb_did_resolver::resolver::{
    invalid_did_result, is_qsb_did, map_raw_to_resolution, not_found_result,
};
use qsb_did_resolver::varint::encode_uvarint;

fn sample_did() -> &'static str {
    "did:qsb:6QWeT6FpJrm8AF1btu6WH2k2Xhq6t5vbYf7uV5mG4NfN"
}

fn key(id: &str, vm_type: RawVerificationMethodType, roles: Vec<RawKeyRole>, revoked: bool) -> RawDidKey {
    RawDidKey {
        key_id: id.as_bytes().to_vec(),
        vm_type,
        multicodec: Some(0xed),
        public_key: vec![1, 2, 3],
        roles,
        controller: None,
        revoked,
    }
}

fn details(keys: Vec<RawDidKey>) -> RawDidDetails {
    RawDidDetails {
        version: 1,
        deactivated: false,
        keys,
        services: vec![],
        metadata: vec![],
        next_key_index: 0,
    }
}

#[test]
fn maps_resolution_success_shape() {
    let did = sample_did();
    let details = RawDidDetails {
        version: 7,
        deactivated: false,
        keys: vec![RawDidKey {
            key_id: format!("{did}#update").into_bytes(),
            vm_type: RawVerificationMethodType::Multikey,
            multicodec: Some(0x1210),
            public_key: vec![0x11; 1312],
            roles: vec![RawKeyRole::Authentication, RawKeyRole::AssertionMethod],
            controller: None,
            revoked: false,
        }],
        services: vec![ServiceEndpoint {
            id: b"#messaging".to_vec(),
            service_type: b"Messaging".to_vec(),
            endpoint: b"https://example.org/messages".to_vec(),
        }],
        metadata: vec![],
        next_key_index: 8,
    };

    let out = map_raw_to_resolution(did, details).into_http();
    assert_eq!(
        out.did_resolution_metadata.get("contentType").and_then(|v| v.as_str()),
        Some("application/did+ld+json")
    );
    assert_eq!(out.did_resolution_metadata.get("error").map(|v| v.is_null()), Some(true));
    assert_eq!(out.did_document_metadata.get("versionId").and_then(|v| v.as_u64()), Some(7));
    assert_eq!(out.did_document_metadata.get("deactivated").and_then(|v| v.as_bool()), Some(false));

    let doc = out.did_document.expect("did document must exist");
    assert_eq!(doc.get("id").and_then(|v| v.as_str()), Some(did));
    let vm = doc.get("verificationMethod").and_then(|v| v.at(0)).expect("method");
    let update = format!("{did}#update");
    assert_eq!(vm.get("id").and_then(|v| v.as_str()), Some(update.as_str()));
    assert_eq!(vm.get("controller").and_then(|v| v.as_str()), Some(did));
    assert_eq!(vm.get("type").and_then(|v| v.as_str()), Some("Multikey"));
    let service = doc.get("service").and_then(|v| v.at(0)).expect("service");
    assert_eq!(service.get("id").and_then(|v| v.as_str()), Some("#messaging"));
    assert_eq!(
        service.get("serviceEndpoint").and_then(|v| v.as_str()),
        Some("https://example.org/messages")
    );
}

#[test]
fn invalid_did_error_shape() {
    let out = invalid_did_result().into_http();
    assert!(out.did_document.is_none());
    assert_eq!(out.did_resolution_metadata.get("error").and_then(|v| v.as_str()), Some("invalidDid"));
}

#[test]
fn not_found_error_shape() {
    let out = not_found_result().into_http();
    assert!(out.did_document.is_none());
    assert_eq!(out.did_resolution_metadata.get("error").and_then(|v| v.as_str()), Some("notFound"));
}

#[test]
fn failed_results_have_neutral_metadata() {
    for r in [invalid_did_result(), not_found_result()] {
        assert!(r.did_document.is_none());
        assert!(!r.did_document_metadata.deactivated);
        assert_eq!(r.did_document_metadata.version_id, 0);
        assert!(r.did_resolution_metadata.content_type.is_none());
    }
}

#[test]
fn accepts_valid_qsb_dids() {
    assert!(is_qsb_did(sample_did()));
    // 32 zero bytes: every character is a leading '1'.
    assert!(is_qsb_did("did:qsb:11111111111111111111111111111111"));
    // 32 bytes of 0xff.
    assert!(is_qsb_did("did:qsb:JEKNVnkbo3jma5nREBBJCDoXFVeKkD56V3xKrvRmWxFG"));
    // 31 zero bytes then 0x01.
    assert!(is_qsb_did("did:qsb:11111111111111111111111111111112"));
}

#[test]
fn rejects_wrong_prefix() {
    assert!(!is_qsb_did("did:web:6QWeT6FpJrm8AF1btu6WH2k2Xhq6t5vbYf7uV5mG4NfN"));
    assert!(!is_qsb_did("DID:qsb:6QWeT6FpJrm8AF1btu6WH2k2Xhq6t5vbYf7uV5mG4NfN"));
    assert!(!is_qsb_did("did:qsb"));
    assert!(!is_qsb_did(""));
}

#[test]
fn rejects_non_base58_identifier() {
    // '0', 'O', 'I', 'l' are not in the alphabet.
    assert!(!is_qsb_did("did:qsb:0QWeT6FpJrm8AF1btu6WH2k2Xhq6t5vbYf7uV5mG4NfN"));
    assert!(!is_qsb_did("did:qsb:6QWeT6FpJrm8AF1btu6WH2k2Xhq6t5vbYf7uV5mG4NfI"));
    assert!(!is_qsb_did("did:qsb:6QWeT6FpJrm8AF1btu6WH2k2Xhq6t5vbYf7uV5mG4Nfl"));
    assert!(!is_qsb_did("did:qsb:6QWeT6FpJrm8AF1btu6WH2k2Xhq6t5vbYf7uV5mG4NfÄ"));
}

#[test]
fn rejects_wrong_decoded_length() {
    assert!(!is_qsb_did("did:qsb:"));
    // 31 zero bytes.
    assert!(!is_qsb_did("did:qsb:1111111111111111111111111111111"));
    // 33 zero bytes.
    assert!(!is_qsb_did("did:qsb:111111111111111111111111111111111"));
    // 33 bytes of 0xff.
    assert!(!is_qsb_did("did:qsb:2K3n5t4wSaF5mj27Tw9vStXWLWyRjjiH5Cp3CFLpKVCr1c"));
    // 31 bytes of 0x01.
    assert!(!is_qsb_did("did:qsb:tVojvhToWjQ8Xvo4UPx2Xz9eRy7auyYMmZBjc2XfN"));
    assert!(!is_qsb_did("did:qsb:6QWeT6FpJrm8AF1btu6WH2k2Xhq6t5vbYf7uV5mG4NfN2"));
}

#[test]
fn encodes_uvarints() {
    assert_eq!(encode_uvarint(0), vec![0]);
    assert_eq!(encode_uvarint(127), vec![127]);
    assert_eq!(encode_uvarint(128), vec![128, 1]);
    assert_eq!(encode_uvarint(300), vec![172, 2]);
    assert_eq!(encode_uvarint(0x1210), vec![0x90, 0x24]);
    assert_eq!(encode_uvarint(u64::MAX), vec![255, 255, 255, 255, 255, 255, 255, 255, 255, 1]);
}

#[test]
fn uvarint_decodes_back() {
    for v in [0u64, 1, 127, 128, 255, 300, 0x1210, 1 << 35, u64::MAX] {
        let bytes = encode_uvarint(v);
        assert!(!bytes.is_empty() && bytes.len() <= 10);
        let mut value: u128 = 0;
        for (i, b) in bytes.iter().enumerate() {
            assert_eq!(*b >= 0x80, i + 1 < bytes.len());
            value |= ((*b & 0x7f) as u128) << (7 * i);
        }
        assert_eq!(value, v as u128);
    }
}

#[test]
fn multibase_encodes_prefixed_key() {
    assert_eq!(multibase_from_public_key(&[1, 2, 3], 0xed), b"u7QEBAgM".to_vec());
    assert_eq!(multibase_from_public_key(&[0xfb, 0xff], 0xed), b"u7QH7_w".to_vec());
    let long = multibase_from_public_key(&[0x11; 1312], 0x1210);
    assert_eq!(long.len(), 1 + 1752);
    assert!(long.starts_with(b"ukCQRERERE"));
}

#[test]
fn maps_keys_to_methods_and_relationships() {
    let did = sample_did();
    let mut jwk = key("k2", RawVerificationMethodType::JsonWebKey2020, vec![RawKeyRole::KeyAgreement], false);
    jwk.controller = Some(b"did:qsb:other".to_vec());
    let mut no_codec = key(
        "k3",
        RawVerificationMethodType::Multikey,
        vec![RawKeyRole::CapabilityInvocation, RawKeyRole::CapabilityInvocation],
        false,
    );
    no_codec.multicodec = None;
    let keys = vec![
        key("k1", RawVerificationMethodType::Multikey, vec![RawKeyRole::Authentication, RawKeyRole::CapabilityDelegation], false),
        key("revoked", RawVerificationMethodType::Multikey, vec![RawKeyRole::Authentication], true),
        jwk,
        no_codec,
    ];
    let res = map_raw_to_resolution(did, details(keys));
    let doc = res.did_document.expect("document");
    assert_eq!(doc.id, did.as_bytes().to_vec());
    assert_eq!(doc.context.len(), 3);
    assert_eq!(doc.context[0], b"https://www.w3.org/ns/did/v1".to_vec());
    assert_eq!(doc.context[1], b"https://w3id.org/security/multikey/v1".to_vec());
    assert_eq!(doc.context[2], b"https://w3id.org/security/suites/jws-2020/v1".to_vec());
    let ids: Vec<Vec<u8>> = doc.verification_method.iter().map(|m| m.id.clone()).collect();
    assert_eq!(ids, vec![b"k1".to_vec(), b"k2".to_vec(), b"k3".to_vec()]);

    let k1 = &doc.verification_method[0];
    assert_eq!(k1.vm_type, b"Multikey".to_vec());
    assert_eq!(k1.controller, did.as_bytes().to_vec());
    assert_eq!(k1.public_key_multibase, Some(b"u7QEBAgM".to_vec()));
    assert_eq!(k1.public_key_jwk, None);

    let k2 = &doc.verification_method[1];
    assert_eq!(k2.vm_type, b"JsonWebKey2020".to_vec());
    assert_eq!(k2.controller, b"did:qsb:other".to_vec());
    assert_eq!(k2.public_key_multibase, None);
    assert_eq!(k2.public_key_jwk, Some(vec![1, 2, 3]));

    let k3 = &doc.verification_method[2];
    assert_eq!(k3.public_key_multibase, None);
    assert_eq!(k3.public_key_jwk, None);

    assert_eq!(doc.authentication, vec![b"k1".to_vec()]);
    assert!(doc.assertion_method.is_empty());
    assert_eq!(doc.key_agreement, vec![b"k2".to_vec()]);
    assert_eq!(doc.capability_invocation, vec![b"k3".to_vec(), b"k3".to_vec()]);
    assert_eq!(doc.capability_delegation, vec![b"k1".to_vec()]);
    // Every relationship entry names a listed method.
    for list in [&doc.authentication, &doc.key_agreement, &doc.capability_invocation, &doc.capability_delegation] {
        for id in list.iter() {
            assert!(ids.contains(id));
        }
    }
    assert_eq!(res.did_document_metadata.version_id, 1);
}

#[test]
fn all_revoked_keys_give_empty_document() {
    let keys = vec![
        key("a", RawVerificationMethodType::Multikey, vec![RawKeyRole::Authentication], true),
        key("b", RawVerificationMethodType::JsonWebKey2020, vec![RawKeyRole::KeyAgreement], true),
    ];
    let mut d = details(keys);
    d.deactivated = true;
    d.version = 9;
    let res = map_raw_to_resolution(sample_did(), d);
    assert!(res.did_document_metadata.deactivated);
    assert_eq!(res.did_document_metadata.version_id, 9);
    let doc = res.did_document.expect("document");
    assert!(doc.verification_method.is_empty());
    assert!(doc.authentication.is_empty());
    assert!(doc.key_agreement.is_empty());
}
