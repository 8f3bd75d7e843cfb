//! The legacy transaction and its encoding for signing.

use vstd::prelude::*;
use crate::access_list::AccessList;
use crate::eip2930::Eip2930TransactionRequest;
use crate::encoding::{encode, uint, Item};
use crate::primitives::{Address, U256};
use crate::stream::{append_bytes, append_u64, begin_list, into_bytes, new_stream, sink, Sink};

verus! {

/// The number of fields in the encoding of a legacy transaction: the six of
/// its body and three for the signature.
pub const NUM_TX_FIELDS: usize = 9;

/// What a legacy transaction is: each field that was set, as a number or as
/// bytes.
pub struct TransactionRequestView {
    pub nonce: Option<nat>,
    pub gas_price: Option<nat>,
    pub gas: Option<nat>,
    pub to: Option<Seq<u8>>,
    pub value: Option<nat>,
    pub data: Option<Seq<u8>>,
}

/// A legacy transaction. A field that was not set is absent.
#[derive(Clone, Debug, PartialEq, Eq)]
pub struct TransactionRequest {
    /// Recipient address (None for contract creation)
    pub to: Option<Address>,
    /// Supplied gas (None for sensible default)
    pub gas: Option<U256>,
    /// Gas price (None for sensible default)
    pub gas_price: Option<U256>,
    /// Transferred value (None for no transfer)
    pub value: Option<U256>,
    /// The compiled code of a contract or the data of a call
    pub data: Option<Vec<u8>>,
    /// Transaction nonce (None for next available nonce)
    pub nonce: Option<U256>,
}

impl Default for TransactionRequest {
    fn default() -> (tx: TransactionRequest)
        ensures
            tx == empty_request(),
    {
        TransactionRequest::new()
    }
}

/// The number that an integer field holds, if it was set.
pub open spec fn uint_view(field: Option<U256>) -> Option<nat> {
    match field {
        Some(n) => Some(n@),
        None => None,
    }
}

impl View for TransactionRequest {
    type V = TransactionRequestView;

    open spec fn view(&self) -> TransactionRequestView {
        TransactionRequestView {
            nonce: uint_view(self.nonce),
            gas_price: uint_view(self.gas_price),
            gas: uint_view(self.gas),
            to: match self.to {
                Some(address) => Some(address@),
                None => None,
            },
            value: uint_view(self.value),
            data: match self.data {
                Some(bytes) => Some(bytes@),
                None => None,
            },
        }
    }
}

/// The number that an integer field is encoded as: zero where it is absent.
pub open spec fn uint_or_zero(field: Option<nat>) -> nat {
    match field {
        Some(n) => n,
        None => 0,
    }
}

/// The bytes that a field of bytes is encoded as: none where it is absent.
pub open spec fn bytes_or_empty(field: Option<Seq<u8>>) -> Seq<u8> {
    match field {
        Some(bytes) => bytes,
        None => Seq::empty(),
    }
}

impl TransactionRequestView {
    /// The six items of the body, in order: nonce, gas price, gas limit,
    /// recipient, value, data. An absent integer is zero, an absent recipient
    /// or absent data the empty string.
    pub open spec fn base_items(self) -> Seq<Item> {
        seq![
            uint(uint_or_zero(self.nonce)),
            uint(uint_or_zero(self.gas_price)),
            uint(uint_or_zero(self.gas)),
            Item::Bytes(bytes_or_empty(self.to)),
            uint(uint_or_zero(self.value)),
            Item::Bytes(bytes_or_empty(self.data)),
        ]
    }

    /// The item that is signed: the list of the six items of the body, the
    /// chain id and two zeros.
    pub open spec fn signing_item(self, chain_id: u64) -> Item {
        Item::List(self.base_items() + seq![uint(chain_id as nat), uint(0), uint(0)])
    }
}

/// Appends an integer field to `stream`: the integer where it is set, the
/// empty string where it is not.
fn append_uint(stream: &mut rlp::RlpStream, field: &Option<U256>)
    ensures
        sink(*final(stream)) == sink(*old(stream)).put(
            encode(uint(uint_or_zero(uint_view(*field)))),
        ),
{
    match field {
        Some(n) => {
            let bytes = n.to_minimal_bytes();
            append_bytes(stream, bytes.as_slice());
        },
        None => {
            let bytes: Vec<u8> = Vec::new();
            append_bytes(stream, bytes.as_slice());
        },
    }
}

/// The transaction with no field set.
pub open spec fn empty_request() -> TransactionRequest {
    TransactionRequest { to: None, gas: None, gas_price: None, value: None, data: None, nonce: None }
}

impl TransactionRequest {
    /// A transaction with no field set.
    pub fn new() -> (tx: TransactionRequest)
        ensures
            tx == empty_request(),
    {
        TransactionRequest {
            to: None,
            gas: None,
            gas_price: None,
            value: None,
            data: None,
            nonce: None,
        }
    }

    /// This transaction with the recipient `to`.
    pub fn to(self, to: Address) -> (tx: TransactionRequest)
        ensures
            tx == (TransactionRequest { to: Some(to), ..self }),
    {
        TransactionRequest { to: Some(to), ..self }
    }

    /// This transaction with the gas limit `gas`.
    pub fn gas(self, gas: U256) -> (tx: TransactionRequest)
        ensures
            tx == (TransactionRequest { gas: Some(gas), ..self }),
    {
        TransactionRequest { gas: Some(gas), ..self }
    }

    /// This transaction with the gas price `gas_price`.
    pub fn gas_price(self, gas_price: U256) -> (tx: TransactionRequest)
        ensures
            tx == (TransactionRequest { gas_price: Some(gas_price), ..self }),
    {
        TransactionRequest { gas_price: Some(gas_price), ..self }
    }

    /// This transaction with the value `value`.
    pub fn value(self, value: U256) -> (tx: TransactionRequest)
        ensures
            tx == (TransactionRequest { value: Some(value), ..self }),
    {
        TransactionRequest { value: Some(value), ..self }
    }

    /// This transaction with the data `data`.
    pub fn data(self, data: Vec<u8>) -> (tx: TransactionRequest)
        ensures
            tx == (TransactionRequest { data: Some(data), ..self }),
    {
        TransactionRequest { data: Some(data), ..self }
    }

    /// This transaction with the nonce `nonce`.
    pub fn nonce(self, nonce: U256) -> (tx: TransactionRequest)
        ensures
            tx == (TransactionRequest { nonce: Some(nonce), ..self }),
    {
        TransactionRequest { nonce: Some(nonce), ..self }
    }

    /// Appends the six fields of the body to `stream`, each as one item:
    /// nonce, gas price, gas limit, recipient, value, data.
    pub fn rlp_base(&self, stream: &mut rlp::RlpStream)
        ensures
            sink(*final(stream)) == sink(*old(stream)).put_all(self@.base_items()),
    {
        let ghost start = sink(*stream);
        let ghost items = self@.base_items();
        append_uint(stream, &self.nonce);
        append_uint(stream, &self.gas_price);
        append_uint(stream, &self.gas);
        match &self.to {
            Some(address) => {
                append_bytes(stream, address.as_bytes());
            },
            None => {
                let bytes: Vec<u8> = Vec::new();
                append_bytes(stream, bytes.as_slice());
            },
        }
        append_uint(stream, &self.value);
        match &self.data {
            Some(data) => {
                append_bytes(stream, data.as_slice());
            },
            None => {
                let bytes: Vec<u8> = Vec::new();
                append_bytes(stream, bytes.as_slice());
            },
        }
        proof {
            start.lemma_put_all_push(items.take(0), items[0]);
            start.lemma_put_all_push(items.take(1), items[1]);
            start.lemma_put_all_push(items.take(2), items[2]);
            start.lemma_put_all_push(items.take(3), items[3]);
            start.lemma_put_all_push(items.take(4), items[4]);
            start.lemma_put_all_push(items.take(5), items[5]);
            assert(items.take(0).push(items[0]) =~= items.take(1));
            assert(items.take(1).push(items[1]) =~= items.take(2));
            assert(items.take(2).push(items[2]) =~= items.take(3));
            assert(items.take(3).push(items[3]) =~= items.take(4));
            assert(items.take(4).push(items[4]) =~= items.take(5));
            assert(items.take(5).push(items[5]) =~= items);
        }
    }

    /// The encoding of the transaction for signing on the chain `chain_id`.
    pub fn rlp(&self, chain_id: u64) -> (bytes: Vec<u8>)
        ensures
            bytes@ == encode(self@.signing_item(chain_id)),
    {
        let mut stream = new_stream();
        begin_list(&mut stream, NUM_TX_FIELDS);
        self.rlp_base(&mut stream);
        append_u64(&mut stream, chain_id);
        append_u64(&mut stream, 0);
        append_u64(&mut stream, 0);
        proof {
            let base = self@.base_items();
            let id = uint(chain_id as nat);
            let all = base + seq![id, uint(0), uint(0)];
            let begun = Sink::empty().begin(9);
            begun.lemma_put_all_push(base, id);
            begun.lemma_put_all_push(base.push(id), uint(0));
            begun.lemma_put_all_push(base.push(id).push(uint(0)), uint(0));
            assert(base.push(id).push(uint(0)).push(uint(0)) =~= all);
            Sink::empty().lemma_begin_put_all(all);
            Sink::lemma_empty_put(encode(self@.signing_item(chain_id)));
        }
        into_bytes(stream)
    }

    /// This transaction with the access list `access_list`.
    pub fn with_access_list(self, access_list: AccessList) -> (tx: Eip2930TransactionRequest)
        ensures
            tx.tx == self,
            tx.access_list == access_list,
    {
        Eip2930TransactionRequest::new(self, access_list)
    }
}

} // verus!
