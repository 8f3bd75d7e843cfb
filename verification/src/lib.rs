//! Typed transaction envelopes: the legacy and the access-list transaction
//! shapes under one tagged value, their recursive-length-prefix encodings and
//! their signing hashes.

pub mod access_list;
pub mod decoding;
pub mod document;
pub mod eip2930;
pub mod encoding;
pub mod envelope;
pub mod hex;
pub mod keccak;
pub mod primitives;
pub mod stream;
pub mod textual;
pub mod transaction;

pub use access_list::{AccessList, AccessListItem};
pub use document::Value;
pub use eip2930::Eip2930TransactionRequest;
pub use envelope::TransactionEnvelope;
pub use primitives::{Address, Signature, H256, U256};
pub use textual::DecodeError;
pub use transaction::TransactionRequest;
