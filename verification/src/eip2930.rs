//! The access-list transaction: a legacy transaction together with an access
//! list.

use vstd::prelude::*;
use crate::access_list::{
    access_list_item, lemma_read_access_list, read_access_list, AccessList, AccessListItemView,
};
use crate::decoding::{content, decode, lemma_decode_encode, lemma_fits, LENGTH_LIMIT};
use crate::encoding::{be_value, encode, lemma_value_of_minimal_be, uint, Item};
use crate::primitives::{Signature, SignatureView};
use crate::stream::{append_bytes, append_u64, begin_list, into_bytes, new_stream, sink, Sink};
use crate::transaction::{
    bytes_or_empty, uint_or_zero, TransactionRequest, TransactionRequestView, NUM_TX_FIELDS,
};

verus! {

/// The number of fields in the encoding of an access-list transaction: those
/// of a legacy transaction and the access list.
pub const NUM_EIP2930_FIELDS: usize = NUM_TX_FIELDS + 1;

/// What an access-list transaction is.
pub struct Eip2930TransactionRequestView {
    pub tx: TransactionRequestView,
    pub access_list: Seq<AccessListItemView>,
}

/// An EIP-2930 transaction is a legacy transaction including an
/// [`AccessList`].
#[derive(Clone, Debug, PartialEq, Eq)]
pub struct Eip2930TransactionRequest {
    pub tx: TransactionRequest,
    pub access_list: AccessList,
}

impl View for Eip2930TransactionRequest {
    type V = Eip2930TransactionRequestView;

    open spec fn view(&self) -> Eip2930TransactionRequestView {
        Eip2930TransactionRequestView { tx: self.tx@, access_list: self.access_list@ }
    }
}

impl Eip2930TransactionRequestView {
    /// The items that the two encodings share: the six of the body and the
    /// access list.
    pub open spec fn body_items(self) -> Seq<Item> {
        self.tx.base_items().push(access_list_item(self.access_list))
    }

    /// The item that is signed: the list of the six items of the body, the
    /// access list, the chain id and two zeros.
    pub open spec fn signing_item(self, chain_id: u64) -> Item {
        Item::List(self.body_items() + seq![uint(chain_id as nat), uint(0), uint(0)])
    }

    /// The item with a signature: the list of the six items of the body, the
    /// access list and the three numbers of the signature.
    pub open spec fn signed_item(self, signature: SignatureView) -> Item {
        Item::List(
            self.body_items() + seq![uint(signature.v), uint(signature.r), uint(signature.s)],
        )
    }
}

/// The ten fields that the encoding of an access-list transaction holds, in
/// the order of the encoding: integers as numbers, the recipient and the data
/// as bytes.
pub struct Eip2930Fields {
    pub nonce: nat,
    pub gas_price: nat,
    pub gas: nat,
    pub to: Seq<u8>,
    pub value: nat,
    pub data: Seq<u8>,
    pub access_list: Seq<AccessListItemView>,
    pub v: nat,
    pub r: nat,
    pub s: nat,
}

/// The fields that `item` holds: `None` unless it is a list of ten, the
/// seventh an access list and the others strings.
pub open spec fn read_fields(item: Item) -> Option<Eip2930Fields> {
    match item {
        Item::List(items) => if items.len() == 10 && items[0] is Bytes && items[1] is Bytes
            && items[2] is Bytes && items[3] is Bytes && items[4] is Bytes && items[5] is Bytes
            && read_access_list(items[6]) is Some && items[7] is Bytes && items[8] is Bytes
            && items[9] is Bytes {
            Some(
                Eip2930Fields {
                    nonce: be_value(items[0]->Bytes_0),
                    gas_price: be_value(items[1]->Bytes_0),
                    gas: be_value(items[2]->Bytes_0),
                    to: items[3]->Bytes_0,
                    value: be_value(items[4]->Bytes_0),
                    data: items[5]->Bytes_0,
                    access_list: read_access_list(items[6])->Some_0,
                    v: be_value(items[7]->Bytes_0),
                    r: be_value(items[8]->Bytes_0),
                    s: be_value(items[9]->Bytes_0),
                },
            )
        } else {
            None
        },
        Item::Bytes(_) => None,
    }
}

/// The fields that `bytes` holds: `None` unless `bytes` is the encoding of
/// one list of ten that has the shape of an access-list transaction.
pub open spec fn decode_fields(bytes: Seq<u8>) -> Option<Eip2930Fields> {
    match decode(bytes) {
        Some(item) => read_fields(item),
        None => None,
    }
}

impl Eip2930TransactionRequestView {
    /// The fields of the encoding with the last three given.
    pub open spec fn fields_with(self, v: nat, r: nat, s: nat) -> Eip2930Fields {
        Eip2930Fields {
            nonce: uint_or_zero(self.tx.nonce),
            gas_price: uint_or_zero(self.tx.gas_price),
            gas: uint_or_zero(self.tx.gas),
            to: bytes_or_empty(self.tx.to),
            value: uint_or_zero(self.tx.value),
            data: bytes_or_empty(self.tx.data),
            access_list: self.access_list,
            v,
            r,
            s,
        }
    }

    /// The seven items of the body and three integers are read back as the
    /// fields of the transaction and those integers.
    pub proof fn lemma_read_fields(self, v: nat, r: nat, s: nat)
        ensures
            read_fields(Item::List(self.body_items() + seq![uint(v), uint(r), uint(s)])) == Some(
                self.fields_with(v, r, s),
            ),
    {
        let items = self.body_items() + seq![uint(v), uint(r), uint(s)];
        lemma_read_access_list(self.access_list);
        lemma_value_of_minimal_be(uint_or_zero(self.tx.nonce));
        lemma_value_of_minimal_be(uint_or_zero(self.tx.gas_price));
        lemma_value_of_minimal_be(uint_or_zero(self.tx.gas));
        lemma_value_of_minimal_be(uint_or_zero(self.tx.value));
        lemma_value_of_minimal_be(v);
        lemma_value_of_minimal_be(r);
        lemma_value_of_minimal_be(s);
        assert(items.len() == 10);
        assert(items[6] == access_list_item(self.access_list));
    }
}

/// Decoding the encoding for signing gives back the fields of the
/// transaction, in order, then the chain id and two zeros. This holds
/// wherever the ten encoded fields together are shorter than the limit from
/// which lengths are no longer written in full.
pub proof fn lemma_rlp_decodes(tx: Eip2930TransactionRequest, chain_id: u64)
    requires
        content(tx@.signing_item(chain_id)).len() < LENGTH_LIMIT,
    ensures
        decode_fields(encode(tx@.signing_item(chain_id))) == Some(
            tx@.fields_with(chain_id as nat, 0, 0),
        ),
{
    lemma_fits(tx@.signing_item(chain_id));
    lemma_decode_encode(tx@.signing_item(chain_id));
    tx@.lemma_read_fields(chain_id as nat, 0, 0);
}

/// Decoding the encoding with a signature gives back the fields of the
/// transaction, in order, then the three numbers of the signature. This holds
/// wherever the ten encoded fields together are shorter than the limit from
/// which lengths are no longer written in full.
pub proof fn lemma_rlp_signed_decodes(tx: Eip2930TransactionRequest, signature: Signature)
    requires
        content(tx@.signed_item(signature@)).len() < LENGTH_LIMIT,
    ensures
        decode_fields(encode(tx@.signed_item(signature@))) == Some(
            tx@.fields_with(signature@.v, signature@.r, signature@.s),
        ),
{
    lemma_fits(tx@.signed_item(signature@));
    lemma_decode_encode(tx@.signed_item(signature@));
    tx@.lemma_read_fields(signature@.v, signature@.r, signature@.s);
}

impl Eip2930TransactionRequest {
    /// The transaction `tx` with the access list `access_list`.
    pub fn new(tx: TransactionRequest, access_list: AccessList) -> (request: Self)
        ensures
            request.tx == tx,
            request.access_list == access_list,
    {
        Self { tx, access_list }
    }

    /// Begins the list of ten in `stream` and appends the body and the access
    /// list.
    fn rlp_body(&self, stream: &mut rlp::RlpStream)
        ensures
            sink(*final(stream)) == sink(*old(stream)).begin(10).put_all(self@.body_items()),
    {
        let ghost begun = sink(*stream).begin(10);
        begin_list(stream, NUM_EIP2930_FIELDS);
        self.tx.rlp_base(stream);
        // append the access list in addition to the base rlp encoding
        self.access_list.rlp_append(stream);
        proof {
            begun.lemma_put_all_push(self@.tx.base_items(), access_list_item(self@.access_list));
        }
    }

    /// The encoding of the transaction for signing on the chain `chain_id`.
    pub fn rlp(&self, chain_id: u64) -> (bytes: Vec<u8>)
        ensures
            bytes@ == encode(self@.signing_item(chain_id)),
    {
        let mut stream = new_stream();
        self.rlp_body(&mut stream);
        // append the signature fields
        append_u64(&mut stream, chain_id);
        append_u64(&mut stream, 0);
        append_u64(&mut stream, 0);
        proof {
            lemma_list_of_ten(self@.body_items(), uint(chain_id as nat), uint(0), uint(0));
            Sink::lemma_empty_put(encode(self@.signing_item(chain_id)));
        }
        into_bytes(stream)
    }

    /// Produces the RLP encoding of the transaction with the provided
    /// signature.
    pub fn rlp_signed(&self, signature: &Signature) -> (bytes: Vec<u8>)
        ensures
            bytes@ == encode(self@.signed_item(signature@)),
    {
        let mut stream = new_stream();
        self.rlp_body(&mut stream);
        // append the signature
        append_u64(&mut stream, signature.v);
        let r = signature.r.to_minimal_bytes();
        append_bytes(&mut stream, r.as_slice());
        let s = signature.s.to_minimal_bytes();
        append_bytes(&mut stream, s.as_slice());
        proof {
            lemma_list_of_ten(
                self@.body_items(),
                uint(signature@.v),
                uint(signature@.r),
                uint(signature@.s),
            );
            Sink::lemma_empty_put(encode(self@.signed_item(signature@)));
        }
        into_bytes(stream)
    }
}

/// Seven items and three more, put into a list of ten that was begun in an
/// empty stream, leave the encoding of the list of all ten.
proof fn lemma_list_of_ten(body: Seq<Item>, v: Item, r: Item, s: Item)
    requires
        body.len() == 7,
    ensures
        Sink::empty().begin(10).put_all(body).put(encode(v)).put(encode(r)).put(encode(s))
            == Sink::empty().put(encode(Item::List(body + seq![v, r, s]))),
{
    let all = body + seq![v, r, s];
    let begun = Sink::empty().begin(10);
    begun.lemma_put_all_push(body, v);
    begun.lemma_put_all_push(body.push(v), r);
    begun.lemma_put_all_push(body.push(v).push(r), s);
    assert(body.push(v).push(r).push(s) =~= all);
    Sink::empty().lemma_begin_put_all(all);
}

} // verus!
