//! The envelope: either shape of transaction under one type, with the hash
//! that is signed.

use vstd::prelude::*;
use vstd::std_specs::convert::FromSpecImpl;
use crate::eip2930::{Eip2930TransactionRequest, Eip2930TransactionRequestView};
use crate::encoding::{encode, Item};
use crate::keccak::{keccak256, keccak256_digest};
use crate::primitives::H256;
use crate::transaction::{TransactionRequest, TransactionRequestView};

verus! {

/// The type byte of a legacy transaction.
pub const LEGACY_TYPE: u8 = 0x00;

/// The type byte of an access-list transaction.
pub const EIP2930_TYPE: u8 = 0x01;

/// What an envelope is: the shape, and the transaction in it.
pub enum TransactionEnvelopeView {
    Legacy(TransactionRequestView),
    Eip2930(Eip2930TransactionRequestView),
}

/// A transaction of either shape. An envelope never changes its shape.
#[derive(Clone, Debug, PartialEq, Eq)]
pub enum TransactionEnvelope {
    // 0x00
    Legacy(TransactionRequest),
    // 0x01
    Eip2930(Eip2930TransactionRequest),
}

impl View for TransactionEnvelope {
    type V = TransactionEnvelopeView;

    open spec fn view(&self) -> TransactionEnvelopeView {
        match self {
            TransactionEnvelope::Legacy(tx) => TransactionEnvelopeView::Legacy(tx@),
            TransactionEnvelope::Eip2930(tx) => TransactionEnvelopeView::Eip2930(tx@),
        }
    }
}

impl TransactionEnvelopeView {
    /// The byte that tells the shape: `0x00` for a legacy transaction, `0x01`
    /// for an access-list transaction.
    pub open spec fn type_byte(self) -> u8 {
        match self {
            TransactionEnvelopeView::Legacy(_) => LEGACY_TYPE,
            TransactionEnvelopeView::Eip2930(_) => EIP2930_TYPE,
        }
    }

    /// The item that is signed for the chain `chain_id`: that of the
    /// transaction in the envelope.
    pub open spec fn signing_item(self, chain_id: u64) -> Item {
        match self {
            TransactionEnvelopeView::Legacy(tx) => tx.signing_item(chain_id),
            TransactionEnvelopeView::Eip2930(tx) => tx.signing_item(chain_id),
        }
    }

    /// The bytes that are hashed for signing: the type byte, then the
    /// encoding of the item that is signed.
    pub open spec fn preimage(self, chain_id: u64) -> Seq<u8> {
        seq![self.type_byte()] + encode(self.signing_item(chain_id))
    }

    /// The hash that is signed: the Keccak-256 digest of the preimage.
    pub open spec fn sighash(self, chain_id: u64) -> Seq<u8> {
        keccak256_digest(self.preimage(chain_id))
    }
}

/// The hash that is signed depends on the envelope and the chain id alone:
/// equal envelopes and equal chain ids have equal hashes.
pub proof fn lemma_sighash_deterministic(
    a: TransactionEnvelope,
    b: TransactionEnvelope,
    chain_a: u64,
    chain_b: u64,
)
    requires
        a@ == b@,
        chain_a == chain_b,
    ensures
        a@.sighash(chain_a) == b@.sighash(chain_b),
        a@.sighash(chain_a) == keccak256_digest(a@.preimage(chain_a)),
{
}

/// The preimage starts with the type byte, so two envelopes of different
/// shapes never have the same preimage, whatever their transactions encode
/// to.
pub proof fn lemma_preimage_tells_shape(
    a: TransactionEnvelope,
    b: TransactionEnvelope,
    chain_a: u64,
    chain_b: u64,
)
    ensures
        a@.preimage(chain_a)[0] == a@.type_byte(),
        a@.preimage(chain_a).skip(1) == encode(a@.signing_item(chain_a)),
        a@.type_byte() != b@.type_byte() ==> a@.preimage(chain_a) != b@.preimage(chain_b),
{
    assert(a@.preimage(chain_a).skip(1) =~= encode(a@.signing_item(chain_a)));
    assert(b@.preimage(chain_b)[0] == b@.type_byte());
}

impl TransactionEnvelope {
    /// The byte that tells the shape of the transaction.
    pub fn type_byte(&self) -> (byte: u8)
        ensures
            byte == self@.type_byte(),
    {
        match self {
            TransactionEnvelope::Legacy(_) => LEGACY_TYPE,
            TransactionEnvelope::Eip2930(_) => EIP2930_TYPE,
        }
    }

    /// The bytes that are hashed for signing on the chain `chain_id`: the
    /// type byte, then the encoding of the transaction.
    pub fn sighash_preimage(&self, chain_id: u64) -> (bytes: Vec<u8>)
        ensures
            bytes@ == self@.preimage(chain_id),
    {
        let mut encoded: Vec<u8> = Vec::new();
        encoded.push(self.type_byte());
        let mut body = match self {
            TransactionEnvelope::Legacy(tx) => tx.rlp(chain_id),
            TransactionEnvelope::Eip2930(tx) => tx.rlp(chain_id),
        };
        encoded.append(&mut body);
        proof {
            assert(encoded@ =~= self@.preimage(chain_id));
        }
        encoded
    }

    /// Hashes the transaction's data with the provided chain id
    pub fn sighash(&self, chain_id: u64) -> (hash: H256)
        ensures
            hash@ == self@.sighash(chain_id),
    {
        let encoded = self.sighash_preimage(chain_id);
        H256(keccak256(encoded.as_slice()))
    }
}

impl From<TransactionRequest> for TransactionEnvelope {
    fn from(src: TransactionRequest) -> (envelope: TransactionEnvelope) {
        TransactionEnvelope::Legacy(src)
    }
}

impl FromSpecImpl<TransactionRequest> for TransactionEnvelope {
    open spec fn obeys_from_spec() -> bool {
        true
    }

    open spec fn from_spec(src: TransactionRequest) -> TransactionEnvelope {
        TransactionEnvelope::Legacy(src)
    }
}

impl From<Eip2930TransactionRequest> for TransactionEnvelope {
    fn from(src: Eip2930TransactionRequest) -> (envelope: TransactionEnvelope) {
        TransactionEnvelope::Eip2930(src)
    }
}

impl FromSpecImpl<Eip2930TransactionRequest> for TransactionEnvelope {
    open spec fn obeys_from_spec() -> bool {
        true
    }

    open spec fn from_spec(src: Eip2930TransactionRequest) -> TransactionEnvelope {
        TransactionEnvelope::Eip2930(src)
    }
}

} // verus!
