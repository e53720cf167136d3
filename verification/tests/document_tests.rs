use qsb_did_resolver::document::{
    DidDocument, DidDocumentMetadata, DidResolutionMetadata, DidResolutionResult,
};
use qsb_did_resolver::json::{rewrite_bytes_to_strings, JsonNumber, JsonValue};

fn num(n: u64) -> JsonValue {
    JsonValue::Number(JsonNumber::U64(n))
}

fn bytes(b: &[u8]) -> JsonValue {
    JsonValue::Array(b.iter().map(|x| num(*x as u64)).collect())
}

fn object(members: Vec<(&str, JsonValue)>) -> JsonValue {
    JsonValue::Object(members.into_iter().map(|(k, v)| (k.to_string(), v)).collect())
}

#[test]
fn rewrites_byte_arrays_to_utf8_strings() {
    let input = object(vec![
        ("id", JsonValue::Array(vec![num(100), num(105), num(100), num(58), num(113), num(115), num(98), num(58), num(97)])),
        (
            "nested",
            object(vec![(
                "arr",
                JsonValue::Array(vec![JsonValue::Array(vec![
                    num(35),
                    num(107),
                    num(101),
                    num(121),
                    num(45),
                    num(49),
                ])]),
            )]),
        ),
    ]);
    let output = rewrite_bytes_to_strings(input);
    assert_eq!(output.get("id").and_then(|v| v.as_str()), Some("did:qsb:a"));
    assert_eq!(
        output
            .get("nested")
            .and_then(|v| v.get("arr"))
            .and_then(|v| v.at(0))
            .and_then(|v| v.as_str()),
        Some("#key-1")
    );
}

#[test]
fn rewrite_replaces_invalid_utf8() {
    let output = rewrite_bytes_to_strings(bytes(&[0x68, 0xff, 0x69]));
    assert_eq!(output.as_str(), Some("h\u{FFFD}i"));
}

#[test]
fn rewrite_turns_empty_array_into_empty_string() {
    let output = rewrite_bytes_to_strings(object(vec![("list", JsonValue::Array(vec![]))]));
    assert_eq!(output.get("list").and_then(|v| v.as_str()), Some(""));
}

#[test]
fn rewrite_keeps_mixed_arrays_and_scalars() {
    let input = JsonValue::Array(vec![
        num(1),
        JsonValue::String("x".to_string()),
        JsonValue::Bool(true),
        JsonValue::Null,
        JsonValue::Number(JsonNumber::Other("-3".to_string())),
        bytes(b"ok"),
    ]);
    let output = rewrite_bytes_to_strings(input);
    assert_eq!(output.at(0).and_then(|v| v.as_u64()), Some(1));
    assert_eq!(output.at(1).and_then(|v| v.as_str()), Some("x"));
    assert_eq!(output.at(2).and_then(|v| v.as_bool()), Some(true));
    assert_eq!(output.at(3).map(|v| v.is_null()), Some(true));
    assert!(matches!(output.at(4), Some(JsonValue::Number(JsonNumber::Other(s))) if s == "-3"));
    assert_eq!(output.at(5).and_then(|v| v.as_str()), Some("ok"));
    assert!(output.at(6).is_none());
}

#[test]
fn rewrite_truncates_numbers_to_bytes() {
    // 0x161 keeps its low byte 0x61 ('a').
    let output = rewrite_bytes_to_strings(JsonValue::Array(vec![num(0x161), num(98)]));
    assert_eq!(output.as_str(), Some("ab"));
}

#[test]
fn rewrite_is_idempotent_on_example() {
    let make = || object(vec![("a", bytes(b"xy")), ("b", JsonValue::Array(vec![bytes(b"z"), JsonValue::Null]))]);
    let once = rewrite_bytes_to_strings(make());
    let twice = rewrite_bytes_to_strings(rewrite_bytes_to_strings(make()));
    for out in [&once, &twice] {
        assert_eq!(out.get("a").and_then(|v| v.as_str()), Some("xy"));
        assert_eq!(out.get("b").and_then(|v| v.at(0)).and_then(|v| v.as_str()), Some("z"));
        assert_eq!(out.get("b").and_then(|v| v.at(1)).map(|v| v.is_null()), Some(true));
    }
}

#[test]
fn get_returns_first_of_repeated_members_and_none_elsewhere() {
    let v = object(vec![("k", num(1)), ("k", num(2))]);
    assert_eq!(v.get("k").and_then(|x| x.as_u64()), Some(1));
    assert!(v.get("missing").is_none());
    assert!(num(3).get("k").is_none());
    assert!(v.at(0).is_none());
}

#[test]
fn into_http_renders_all_byte_strings_as_text() {
    let result = DidResolutionResult {
        did_document: Some(DidDocument {
            context: vec![b"ctx".to_vec()],
            id: b"did:qsb:x".to_vec(),
            verification_method: vec![],
            authentication: vec![b"did:qsb:x#a".to_vec()],
            assertion_method: vec![],
            key_agreement: vec![],
            capability_invocation: vec![],
            capability_delegation: vec![],
            service: vec![],
        }),
        did_document_metadata: DidDocumentMetadata { deactivated: true, version_id: 3 },
        did_resolution_metadata: DidResolutionMetadata {
            content_type: Some(b"text/x".to_vec()),
            error: None,
        },
    };
    let out = result.into_http();
    let doc = out.did_document.expect("document");
    assert_eq!(doc.get("@context").and_then(|v| v.at(0)).and_then(|v| v.as_str()), Some("ctx"));
    assert_eq!(doc.get("id").and_then(|v| v.as_str()), Some("did:qsb:x"));
    // Empty lists are all-number arrays too, so they become empty strings.
    assert_eq!(doc.get("verificationMethod").and_then(|v| v.as_str()), Some(""));
    assert_eq!(doc.get("service").and_then(|v| v.as_str()), Some(""));
    assert_eq!(
        doc.get("authentication").and_then(|v| v.at(0)).and_then(|v| v.as_str()),
        Some("did:qsb:x#a")
    );
    assert_eq!(out.did_document_metadata.get("deactivated").and_then(|v| v.as_bool()), Some(true));
    assert_eq!(out.did_document_metadata.get("versionId").and_then(|v| v.as_u64()), Some(3));
    assert_eq!(
        out.did_resolution_metadata.get("contentType").and_then(|v| v.as_str()),
        Some("text/x")
    );
    assert_eq!(out.did_resolution_metadata.get("error").map(|v| v.is_null()), Some(true));
}

#[test]
fn json_clone_keeps_the_tree() {
    let original = object(vec![("a", bytes(b"xy")), ("b", JsonValue::Array(vec![JsonValue::Null, num(5)]))]);
    let copy = original.clone();
    drop(original);
    assert_eq!(copy.get("a").and_then(|v| v.at(1)).and_then(|v| v.as_u64()), Some(b'y' as u64));
    assert_eq!(copy.get("b").and_then(|v| v.at(1)).and_then(|v| v.as_u64()), Some(5));
    let served = DidResolutionResult {
        did_document: None,
        did_document_metadata: DidDocumentMetadata { deactivated: false, version_id: 1 },
        did_resolution_metadata: DidResolutionMetadata { content_type: None, error: None },
    }
    .into_http();
    let again = served.clone();
    assert_eq!(again.did_document_metadata.get("versionId").and_then(|v| v.as_u64()), Some(1));
}
