# qsb_did_resolver

A resolver for `did:qsb` DIDs whose core is verified with Verus.

## Layout

- `src/` — the verified library
  - `base58.rs` — Base58 alphabet, value and decoded length of an identifier
  - `varint.rs` — unsigned LEB128 encoding of multicodec codes
  - `multibase.rs` — `u` (base64url, no padding) multibase keys; calls the `base64` crate
  - `json.rs` — the library's JSON value tree and the rewriting of byte arrays into strings
  - `did.rs` — the DID record that the node returns
  - `document.rs` — the DID resolution result and its JSON form (`into_http`)
  - `resolver.rs` — DID validation and the mapping from a record to a resolution result
  - `rpc.rs` — the `did_getByString` JSON-RPC request and the reading of its reply
  - `service.rs` — the decisions of the HTTP endpoint
- `tests/` — tests of the library
- `app/` — the executable: HTTP server (`serve`) and one-shot resolver (`resolve`),
  the node's HTTP client, and serde forms of the library's types

## DID validation

A DID is accepted when it starts with `did:qsb:`, the rest is Base58 (Bitcoin
alphabet), and that identifier decodes to exactly 32 bytes. Anything else is
answered with the resolution error `invalidDid` (HTTP 400) without asking the node.

## Running

    qsb_did_resolver serve --listen-addr 127.0.0.1:8080 --node-rpc-url http://127.0.0.1:9944
    qsb_did_resolver resolve --node-rpc-url http://127.0.0.1:9944 --did did:qsb:YOUR_DID_ID --pretty

## Endpoints

- `GET /health`
- `GET /1.0/identifiers/{did}` — 200 with the document, 404 `notFound`,
  400 `invalidDid`, 502 `internalError` when the node cannot be used.
