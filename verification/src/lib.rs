//! Verified core of a `did:qsb` DID resolver.
//!
//! The library validates DID strings, maps the on-chain DID record returned by
//! a node into a W3C DID resolution result, and renders that result as the
//! JSON value served over HTTP.

pub mod varint;
pub mod base58;
pub mod json;
pub mod did;
pub mod document;
pub mod multibase;
pub mod resolver;
pub mod rpc;
pub mod service;
