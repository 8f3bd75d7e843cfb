//! The object form of transactions: how each shape is written as a document
//! and read back from one.

use vstd::prelude::*;
use vstd::string::StringExecFns;
use crate::access_list::{AccessList, AccessListItem, AccessListItemView};
use crate::document::{
    field, find, lemma_list_view_index, lemma_list_view_push, lemma_object_view_push, list_view,
    object_view, Value, ValueView,
};
use crate::eip2930::{Eip2930TransactionRequest, Eip2930TransactionRequestView};
use crate::envelope::{TransactionEnvelope, TransactionEnvelopeView};
use crate::hex::{
    bytes_text, decode_hex, encode_hex, lemma_parse_bytes_text, lemma_parse_quantity_text,
    minimal_nibbles, option_view, parse_bytes, parse_fixed, parse_quantity, quantity_text,
    MAX_QUANTITY_DIGITS,
};
use crate::primitives::{Address, H256, U256};
use crate::transaction::{uint_view, TransactionRequest, TransactionRequestView};

verus! {

/// Why a document was not read as a transaction.
#[derive(Clone, Copy, Debug, PartialEq, Eq)]
pub enum DecodeError {
    /// The document is not an object.
    MalformedInput,
    /// The field `type` names no shape of transaction.
    UnknownTransactionType,
    /// A field that is needed is absent, or a field does not hold what it
    /// should.
    MissingField,
}

/// What was read, as what it is: the view of the value that was found, or
/// the error.
pub open spec fn found_view<T: View>(found: Result<T, DecodeError>) -> Result<T::V, DecodeError> {
    match found {
        Ok(value) => Ok(value@),
        Err(error) => Err(error),
    }
}

/// What was read of a field that may be absent, as what it is.
pub open spec fn found_option<T: View>(found: Result<Option<T>, DecodeError>) -> Result<
    Option<T::V>,
    DecodeError,
> {
    match found {
        Ok(Some(value)) => Ok(Some(value@)),
        Ok(None) => Ok(None),
        Err(error) => Err(error),
    }
}

/// The object with the field `name` set to `value`, if there is a value.
pub open spec fn with_field(
    object: Map<Seq<char>, ValueView>,
    name: Seq<char>,
    value: Option<ValueView>,
) -> Map<Seq<char>, ValueView> {
    match value {
        Some(value) => object.insert(name, value),
        None => object,
    }
}

/// An integer field as a value: the text of the integer.
pub open spec fn quantity_value(n: Option<nat>) -> Option<ValueView> {
    match n {
        Some(n) => Some(ValueView::Text(quantity_text(n))),
        None => None,
    }
}

/// A field of bytes as a value: the text of the bytes.
pub open spec fn bytes_value(bytes: Option<Seq<u8>>) -> Option<ValueView> {
    match bytes {
        Some(bytes) => Some(ValueView::Text(bytes_text(bytes))),
        None => None,
    }
}

/// The object with the fields of a legacy transaction that are set: `to`,
/// `gas`, `gasPrice`, `value`, `data`, `nonce`.
pub open spec fn request_fields(
    object: Map<Seq<char>, ValueView>,
    tx: TransactionRequestView,
) -> Map<Seq<char>, ValueView> {
    let object = with_field(object, "to"@, bytes_value(tx.to));
    let object = with_field(object, "gas"@, quantity_value(tx.gas));
    let object = with_field(object, "gasPrice"@, quantity_value(tx.gas_price));
    let object = with_field(object, "value"@, quantity_value(tx.value));
    let object = with_field(object, "data"@, bytes_value(tx.data));
    with_field(object, "nonce"@, quantity_value(tx.nonce))
}

/// A storage key as a value.
pub open spec fn key_value(key: Seq<u8>) -> ValueView {
    ValueView::Text(bytes_text(key))
}

/// An access-list item as a value: the object of `address` and
/// `storageKeys`.
pub open spec fn entry_value(entry: AccessListItemView) -> ValueView {
    ValueView::Object(
        Map::empty().insert("address"@, ValueView::Text(bytes_text(entry.address))).insert(
            "storageKeys"@,
            ValueView::List(entry.storage_keys.map_values(|key: Seq<u8>| key_value(key))),
        ),
    )
}

/// An access list as a value: the list of its items.
pub open spec fn access_list_value(list: Seq<AccessListItemView>) -> ValueView {
    ValueView::List(list.map_values(|entry: AccessListItemView| entry_value(entry)))
}

/// The object with the fields of an access-list transaction: those of the
/// legacy transaction in it, and `access_list`.
pub open spec fn eip2930_fields(
    object: Map<Seq<char>, ValueView>,
    tx: Eip2930TransactionRequestView,
) -> Map<Seq<char>, ValueView> {
    request_fields(object, tx.tx).insert("access_list"@, access_list_value(tx.access_list))
}

/// A legacy transaction as a document.
pub open spec fn request_value(tx: TransactionRequestView) -> ValueView {
    ValueView::Object(request_fields(Map::empty(), tx))
}

/// An access-list transaction as a document.
pub open spec fn eip2930_value(tx: Eip2930TransactionRequestView) -> ValueView {
    ValueView::Object(eip2930_fields(Map::empty(), tx))
}

/// The object that holds nothing but the field `type`.
pub open spec fn tagged(tag: Seq<char>) -> Map<Seq<char>, ValueView> {
    Map::empty().insert("type"@, ValueView::Text(tag))
}

/// An envelope as a document: the field `type`, `0x00` or `0x01`, and in the
/// same object the fields of the transaction.
pub open spec fn envelope_value(envelope: TransactionEnvelopeView) -> ValueView {
    match envelope {
        TransactionEnvelopeView::Legacy(tx) => ValueView::Object(
            request_fields(tagged("0x00"@), tx),
        ),
        TransactionEnvelopeView::Eip2930(tx) => ValueView::Object(
            eip2930_fields(tagged("0x01"@), tx),
        ),
    }
}

/// What a field that may be absent holds, read by `parse`: nothing where the
/// field is absent or null, an error where it is no text or a text that
/// `parse` does not take.
pub open spec fn read_optional<T>(
    object: Map<Seq<char>, ValueView>,
    name: Seq<char>,
    parse: spec_fn(Seq<char>) -> Option<T>,
) -> Result<Option<T>, DecodeError> {
    match field(object, name) {
        None => Ok(None),
        Some(ValueView::Null) => Ok(None),
        Some(ValueView::Text(text)) => match parse(text) {
            Some(found) => Ok(Some(found)),
            None => Err(DecodeError::MissingField),
        },
        Some(_) => Err(DecodeError::MissingField),
    }
}

/// An integer field of an object.
pub open spec fn read_quantity(object: Map<Seq<char>, ValueView>, name: Seq<char>) -> Result<
    Option<nat>,
    DecodeError,
> {
    read_optional(object, name, |text: Seq<char>| parse_quantity(text))
}

/// An address field of an object.
pub open spec fn read_address(object: Map<Seq<char>, ValueView>, name: Seq<char>) -> Result<
    Option<Seq<u8>>,
    DecodeError,
> {
    read_optional(object, name, |text: Seq<char>| parse_fixed(text, 20))
}

/// A field of bytes of an object.
pub open spec fn read_data(object: Map<Seq<char>, ValueView>, name: Seq<char>) -> Result<
    Option<Seq<u8>>,
    DecodeError,
> {
    read_optional(object, name, |text: Seq<char>| parse_bytes(text))
}

/// The legacy transaction that the fields of an object hold. Fields of other
/// names are passed over.
pub open spec fn read_request(object: Map<Seq<char>, ValueView>) -> Result<
    TransactionRequestView,
    DecodeError,
> {
    match (
        read_address(object, "to"@),
        read_quantity(object, "gas"@),
        read_quantity(object, "gasPrice"@),
        read_quantity(object, "value"@),
        read_data(object, "data"@),
        read_quantity(object, "nonce"@),
    ) {
        (Ok(to), Ok(gas), Ok(gas_price), Ok(value), Ok(data), Ok(nonce)) => Ok(
            TransactionRequestView { nonce, gas_price, gas, to, value, data },
        ),
        _ => Err(DecodeError::MissingField),
    }
}

/// The storage key that a value holds.
pub open spec fn read_key(value: ValueView) -> Option<Seq<u8>> {
    match value {
        ValueView::Text(text) => parse_fixed(text, 32),
        _ => None,
    }
}

/// The storage keys that a list of values holds, if each holds one.
pub open spec fn read_keys(values: Seq<ValueView>) -> Option<Seq<Seq<u8>>> {
    if forall|i: int| 0 <= i < values.len() ==> read_key(#[trigger] values[i]) is Some {
        Some(values.map_values(|value: ValueView| read_key(value)->Some_0))
    } else {
        None
    }
}

/// The access-list item that a value holds: an object with an address under
/// `address` and a list of storage keys under `storageKeys`.
pub open spec fn read_entry_value(value: ValueView) -> Option<AccessListItemView> {
    match value {
        ValueView::Object(object) => match (
            field(object, "address"@),
            field(object, "storageKeys"@),
        ) {
            (Some(ValueView::Text(address)), Some(ValueView::List(keys))) => match (
                parse_fixed(address, 20),
                read_keys(keys),
            ) {
                (Some(address), Some(storage_keys)) => Some(
                    AccessListItemView { address, storage_keys },
                ),
                _ => None,
            },
            _ => None,
        },
        _ => None,
    }
}

/// The access list under `access_list`, which must be there and be a list of
/// access-list items.
pub open spec fn read_access_list_field(object: Map<Seq<char>, ValueView>) -> Result<
    Seq<AccessListItemView>,
    DecodeError,
> {
    match field(object, "access_list"@) {
        Some(ValueView::List(values)) => if forall|i: int|
            0 <= i < values.len() ==> read_entry_value(#[trigger] values[i]) is Some {
            Ok(values.map_values(|value: ValueView| read_entry_value(value)->Some_0))
        } else {
            Err(DecodeError::MissingField)
        },
        _ => Err(DecodeError::MissingField),
    }
}

/// The access-list transaction that the fields of an object hold.
pub open spec fn read_eip2930(object: Map<Seq<char>, ValueView>) -> Result<
    Eip2930TransactionRequestView,
    DecodeError,
> {
    match (read_request(object), read_access_list_field(object)) {
        (Ok(tx), Ok(access_list)) => Ok(Eip2930TransactionRequestView { tx, access_list }),
        _ => Err(DecodeError::MissingField),
    }
}

/// The legacy transaction that a document holds.
pub open spec fn decode_request(value: ValueView) -> Result<TransactionRequestView, DecodeError> {
    match value {
        ValueView::Object(object) => read_request(object),
        _ => Err(DecodeError::MalformedInput),
    }
}

/// The access-list transaction that a document holds.
pub open spec fn decode_eip2930(value: ValueView) -> Result<
    Eip2930TransactionRequestView,
    DecodeError,
> {
    match value {
        ValueView::Object(object) => read_eip2930(object),
        _ => Err(DecodeError::MalformedInput),
    }
}

/// The envelope that a document holds: the shape that the field `type`
/// names, read from the fields of the same object.
pub open spec fn decode_envelope(value: ValueView) -> Result<
    TransactionEnvelopeView,
    DecodeError,
> {
    match value {
        ValueView::Object(object) => match field(object, "type"@) {
            Some(ValueView::Text(tag)) => if tag == "0x00"@ {
                match read_request(object) {
                    Ok(tx) => Ok(TransactionEnvelopeView::Legacy(tx)),
                    Err(error) => Err(error),
                }
            } else if tag == "0x01"@ {
                match read_eip2930(object) {
                    Ok(tx) => Ok(TransactionEnvelopeView::Eip2930(tx)),
                    Err(error) => Err(error),
                }
            } else {
                Err(DecodeError::UnknownTransactionType)
            },
            _ => Err(DecodeError::MissingField),
        },
        _ => Err(DecodeError::MalformedInput),
    }
}

/// No two field names are the same.
pub proof fn lemma_field_names_differ()
    ensures
        "type"@ != "to"@,
        "type"@ != "gas"@,
        "type"@ != "gasPrice"@,
        "type"@ != "value"@,
        "type"@ != "data"@,
        "type"@ != "nonce"@,
        "type"@ != "access_list"@,
        "to"@ != "gas"@,
        "to"@ != "gasPrice"@,
        "to"@ != "value"@,
        "to"@ != "data"@,
        "to"@ != "nonce"@,
        "to"@ != "access_list"@,
        "gas"@ != "gasPrice"@,
        "gas"@ != "value"@,
        "gas"@ != "data"@,
        "gas"@ != "nonce"@,
        "gas"@ != "access_list"@,
        "gasPrice"@ != "value"@,
        "gasPrice"@ != "data"@,
        "gasPrice"@ != "nonce"@,
        "gasPrice"@ != "access_list"@,
        "value"@ != "data"@,
        "value"@ != "nonce"@,
        "value"@ != "access_list"@,
        "data"@ != "nonce"@,
        "data"@ != "access_list"@,
        "nonce"@ != "access_list"@,
        "address"@ != "storageKeys"@,
        "0x00"@ != "0x01"@,
{
    reveal_strlit("type");
    reveal_strlit("to");
    reveal_strlit("gas");
    reveal_strlit("gasPrice");
    reveal_strlit("value");
    reveal_strlit("data");
    reveal_strlit("nonce");
    reveal_strlit("access_list");
    reveal_strlit("address");
    reveal_strlit("storageKeys");
    reveal_strlit("0x00");
    reveal_strlit("0x01");
    assert("type"@.len() == 4 && "to"@.len() == 2 && "gas"@.len() == 3);
    assert("gasPrice"@.len() == 8 && "value"@.len() == 5 && "data"@.len() == 4);
    assert("nonce"@.len() == 5 && "access_list"@.len() == 11);
    assert("address"@.len() == 7 && "storageKeys"@.len() == 11);
    assert("type"@[0] == 't' && "data"@[0] == 'd');
    assert("value"@[0] == 'v' && "nonce"@[0] == 'n');
    assert("0x00"@[3] == '0' && "0x01"@[3] == '1');
}

/// The name is one of the six fields of a legacy transaction.
pub open spec fn is_request_field(name: Seq<char>) -> bool {
    name == "to"@ || name == "gas"@ || name == "gasPrice"@ || name == "value"@ || name == "data"@
        || name == "nonce"@
}

/// The integer, if there is one, has a text that is read back: no more than
/// 64 digits.
pub open spec fn quantity_fits(n: Option<nat>) -> bool {
    match n {
        Some(n) => minimal_nibbles(n).len() <= MAX_QUANTITY_DIGITS,
        None => true,
    }
}

/// The fields are those of some transaction: each integer has at most 64
/// hexadecimal digits, and the recipient, if there is one, has 20 bytes.
pub open spec fn request_is_valid(tx: TransactionRequestView) -> bool {
    &&& quantity_fits(tx.nonce)
    &&& quantity_fits(tx.gas_price)
    &&& quantity_fits(tx.gas)
    &&& quantity_fits(tx.value)
    &&& match tx.to {
        Some(to) => to.len() == 20,
        None => true,
    }
}

/// The item is that of some access list: its address has 20 bytes and each
/// of its storage keys 32.
pub open spec fn entry_is_valid(entry: AccessListItemView) -> bool {
    &&& entry.address.len() == 20
    &&& forall|i: int| 0 <= i < entry.storage_keys.len() ==> #[trigger] entry.storage_keys[i].len()
        == 32
}

/// The fields are those of some access-list transaction.
pub open spec fn eip2930_is_valid(tx: Eip2930TransactionRequestView) -> bool {
    &&& request_is_valid(tx.tx)
    &&& forall|i: int| 0 <= i < tx.access_list.len() ==> entry_is_valid(#[trigger] tx.access_list[i])
}

/// The view of a legacy transaction is valid.
pub proof fn lemma_request_is_valid(tx: TransactionRequest)
    ensures
        request_is_valid(tx@),
{
    if let Some(n) = tx.nonce {
        n.lemma_quantity_digits();
    }
    if let Some(n) = tx.gas_price {
        n.lemma_quantity_digits();
    }
    if let Some(n) = tx.gas {
        n.lemma_quantity_digits();
    }
    if let Some(n) = tx.value {
        n.lemma_quantity_digits();
    }
}

/// The view of an access-list transaction is valid.
pub proof fn lemma_eip2930_is_valid(tx: Eip2930TransactionRequest)
    ensures
        eip2930_is_valid(tx@),
{
    lemma_request_is_valid(tx.tx);
}

/// What a legacy transaction sets in an object is read back from it, and
/// fields of other names stay as they were.
pub proof fn lemma_read_request_fields(base: Map<Seq<char>, ValueView>, tx: TransactionRequestView)
    requires
        request_is_valid(tx),
        forall|name: Seq<char>| is_request_field(name) ==> !base.contains_key(name),
    ensures
        read_request(request_fields(base, tx)) == Ok::<TransactionRequestView, DecodeError>(tx),
        forall|name: Seq<char>|
            !is_request_field(name) ==> field(request_fields(base, tx), name) == field(base, name),
{
    lemma_field_names_differ();
    if let Some(n) = tx.nonce {
        lemma_parse_quantity_text(n);
    }
    if let Some(n) = tx.gas_price {
        lemma_parse_quantity_text(n);
    }
    if let Some(n) = tx.gas {
        lemma_parse_quantity_text(n);
    }
    if let Some(n) = tx.value {
        lemma_parse_quantity_text(n);
    }
    if let Some(to) = tx.to {
        lemma_parse_bytes_text(to);
    }
    if let Some(data) = tx.data {
        lemma_parse_bytes_text(data);
    }
    let object = request_fields(base, tx);
    assert(is_request_field("to"@) && is_request_field("gas"@) && is_request_field("gasPrice"@)
        && is_request_field("value"@) && is_request_field("data"@) && is_request_field("nonce"@));
    assert(read_address(object, "to"@) == Ok::<Option<Seq<u8>>, DecodeError>(tx.to));
    assert(read_quantity(object, "gas"@) == Ok::<Option<nat>, DecodeError>(tx.gas));
    assert(read_quantity(object, "gasPrice"@) == Ok::<Option<nat>, DecodeError>(tx.gas_price));
    assert(read_quantity(object, "value"@) == Ok::<Option<nat>, DecodeError>(tx.value));
    assert(read_data(object, "data"@) == Ok::<Option<Seq<u8>>, DecodeError>(tx.data));
    assert(read_quantity(object, "nonce"@) == Ok::<Option<nat>, DecodeError>(tx.nonce));
}

/// A field of another name does not change the legacy transaction that is
/// read from an object.
pub proof fn lemma_read_request_ignores(
    object: Map<Seq<char>, ValueView>,
    name: Seq<char>,
    value: ValueView,
)
    requires
        !is_request_field(name),
    ensures
        read_request(object.insert(name, value)) == read_request(object),
{
}

/// An access-list item is read back from its value.
pub proof fn lemma_read_entry_of_value(entry: AccessListItemView)
    requires
        entry_is_valid(entry),
    ensures
        read_entry_value(entry_value(entry)) == Some(entry),
{
    lemma_field_names_differ();
    lemma_parse_bytes_text(entry.address);
    let values = entry.storage_keys.map_values(|key: Seq<u8>| key_value(key));
    assert forall|i: int| 0 <= i < values.len() implies read_key(#[trigger] values[i]) == Some(
        entry.storage_keys[i],
    ) by {
        lemma_parse_bytes_text(entry.storage_keys[i]);
    }
    assert(values.map_values(|value: ValueView| read_key(value)->Some_0) =~= entry.storage_keys);
}

/// An access list is read back from the object it was set in.
pub proof fn lemma_read_access_list_field(
    object: Map<Seq<char>, ValueView>,
    list: Seq<AccessListItemView>,
)
    requires
        forall|i: int| 0 <= i < list.len() ==> entry_is_valid(#[trigger] list[i]),
    ensures
        read_access_list_field(object.insert("access_list"@, access_list_value(list))) == Ok::<
            Seq<AccessListItemView>,
            DecodeError,
        >(list),
{
    let values = list.map_values(|entry: AccessListItemView| entry_value(entry));
    assert forall|i: int| 0 <= i < values.len() implies read_entry_value(#[trigger] values[i]) == Some(
        list[i],
    ) by {
        lemma_read_entry_of_value(list[i]);
    }
    assert(values.map_values(|value: ValueView| read_entry_value(value)->Some_0) =~= list);
}

/// What an access-list transaction sets in an object is read back from it,
/// and the field `type` stays as it was.
pub proof fn lemma_read_eip2930_fields(
    base: Map<Seq<char>, ValueView>,
    tx: Eip2930TransactionRequestView,
)
    requires
        eip2930_is_valid(tx),
        forall|name: Seq<char>| is_request_field(name) ==> !base.contains_key(name),
    ensures
        read_eip2930(eip2930_fields(base, tx)) == Ok::<Eip2930TransactionRequestView, DecodeError>(
            tx,
        ),
        field(eip2930_fields(base, tx), "type"@) == field(base, "type"@),
{
    lemma_field_names_differ();
    lemma_read_request_fields(base, tx.tx);
    let inner = request_fields(base, tx.tx);
    let list = access_list_value(tx.access_list);
    lemma_read_request_ignores(inner, "access_list"@, list);
    lemma_read_access_list_field(inner, tx.access_list);
    assert(!is_request_field("type"@));
}

/// The document of an envelope is read back as that envelope.
pub proof fn lemma_envelope_round_trip(envelope: TransactionEnvelope)
    ensures
        decode_envelope(envelope_value(envelope@)) == Ok::<TransactionEnvelopeView, DecodeError>(
            envelope@,
        ),
{
    lemma_field_names_differ();
    match envelope {
        TransactionEnvelope::Legacy(tx) => {
            lemma_request_is_valid(tx);
            lemma_read_request_fields(tagged("0x00"@), tx@);
            assert(!is_request_field("type"@));
        },
        TransactionEnvelope::Eip2930(tx) => {
            lemma_eip2930_is_valid(tx);
            lemma_read_eip2930_fields(tagged("0x01"@), tx@);
        },
    }
}

/// The document of a legacy envelope is also read as the legacy transaction
/// in it: the field `type` is passed over.
pub proof fn lemma_legacy_envelope_reads_as_request(tx: TransactionRequest)
    ensures
        decode_request(envelope_value(TransactionEnvelope::Legacy(tx)@)) == Ok::<
            TransactionRequestView,
            DecodeError,
        >(tx@),
{
    lemma_field_names_differ();
    lemma_request_is_valid(tx);
    lemma_read_request_fields(tagged("0x00"@), tx@);
}

/// The document of an access-list envelope is also read as the access-list
/// transaction in it: the field `type` is passed over.
pub proof fn lemma_eip2930_envelope_reads_as_request(tx: Eip2930TransactionRequest)
    ensures
        decode_eip2930(envelope_value(TransactionEnvelope::Eip2930(tx)@)) == Ok::<
            Eip2930TransactionRequestView,
            DecodeError,
        >(tx@),
{
    lemma_field_names_differ();
    lemma_eip2930_is_valid(tx);
    lemma_read_eip2930_fields(tagged("0x01"@), tx@);
}

/// The document of a legacy transaction is read back as that transaction.
pub proof fn lemma_request_round_trip(tx: TransactionRequest)
    ensures
        decode_request(request_value(tx@)) == Ok::<TransactionRequestView, DecodeError>(tx@),
{
    lemma_request_is_valid(tx);
    lemma_read_request_fields(Map::empty(), tx@);
}

/// The document of an access-list transaction is read back as that
/// transaction.
pub proof fn lemma_eip2930_round_trip(tx: Eip2930TransactionRequest)
    ensures
        decode_eip2930(eip2930_value(tx@)) == Ok::<Eip2930TransactionRequestView, DecodeError>(
            tx@,
        ),
{
    lemma_eip2930_is_valid(tx);
    lemma_read_eip2930_fields(Map::empty(), tx@);
}

/// Adds the field `name` with the value `value` at the end of `fields`.
fn push_field(fields: &mut Vec<(String, Value)>, name: &str, value: Value)
    ensures
        object_view(final(fields)@) == object_view(old(fields)@).insert(name@, value@),
{
    let name = String::from_str(name);
    proof {
        lemma_object_view_push(fields@, name, value);
    }
    fields.push((name, value));
}

/// Adds the integer field `name`, if it is set.
fn push_quantity(fields: &mut Vec<(String, Value)>, name: &str, n: &Option<U256>)
    ensures
        object_view(final(fields)@) == with_field(
            object_view(old(fields)@),
            name@,
            quantity_value(uint_view(*n)),
        ),
{
    if let Some(n) = n {
        push_field(fields, name, Value::Text(n.to_hex()));
    }
}

/// Adds the fields of a legacy transaction that are set.
fn push_request(fields: &mut Vec<(String, Value)>, tx: &TransactionRequest)
    ensures
        object_view(final(fields)@) == request_fields(object_view(old(fields)@), tx@),
{
    if let Some(to) = &tx.to {
        push_field(fields, "to", Value::Text(to.to_hex()));
    }
    push_quantity(fields, "gas", &tx.gas);
    push_quantity(fields, "gasPrice", &tx.gas_price);
    push_quantity(fields, "value", &tx.value);
    if let Some(data) = &tx.data {
        push_field(fields, "data", Value::Text(encode_hex(data.as_slice())));
    }
    push_quantity(fields, "nonce", &tx.nonce);
}

/// Adds the fields of an access-list transaction.
fn push_eip2930(fields: &mut Vec<(String, Value)>, tx: &Eip2930TransactionRequest)
    ensures
        object_view(final(fields)@) == eip2930_fields(object_view(old(fields)@), tx@),
{
    push_request(fields, &tx.tx);
    push_field(fields, "access_list", tx.access_list.to_value());
}

/// The integer field `name` of an object.
fn get_quantity(fields: &Vec<(String, Value)>, name: &str) -> (found: Result<
    Option<U256>,
    DecodeError,
>)
    ensures
        found_option(found) == read_quantity(object_view(fields@), name@),
{
    match find(fields, name) {
        None => Ok(None),
        Some(Value::Null) => Ok(None),
        Some(Value::Text(text)) => match U256::from_hex(text.as_str()) {
            Some(n) => Ok(Some(n)),
            None => Err(DecodeError::MissingField),
        },
        Some(_) => Err(DecodeError::MissingField),
    }
}

/// The address field `name` of an object.
fn get_address(fields: &Vec<(String, Value)>, name: &str) -> (found: Result<
    Option<Address>,
    DecodeError,
>)
    ensures
        found_option(found) == read_address(object_view(fields@), name@),
{
    match find(fields, name) {
        None => Ok(None),
        Some(Value::Null) => Ok(None),
        Some(Value::Text(text)) => match Address::from_hex(text.as_str()) {
            Some(address) => Ok(Some(address)),
            None => Err(DecodeError::MissingField),
        },
        Some(_) => Err(DecodeError::MissingField),
    }
}

/// The field of bytes `name` of an object.
fn get_data(fields: &Vec<(String, Value)>, name: &str) -> (found: Result<
    Option<Vec<u8>>,
    DecodeError,
>)
    ensures
        found_option(found) == read_data(object_view(fields@), name@),
{
    match find(fields, name) {
        None => Ok(None),
        Some(Value::Null) => Ok(None),
        Some(Value::Text(text)) => match decode_hex(text.as_str()) {
            Some(data) => Ok(Some(data)),
            None => Err(DecodeError::MissingField),
        },
        Some(_) => Err(DecodeError::MissingField),
    }
}

/// The legacy transaction that the fields of an object hold.
fn get_request(fields: &Vec<(String, Value)>) -> (found: Result<TransactionRequest, DecodeError>)
    ensures
        found_view(found) == read_request(object_view(fields@)),
{
    let to = get_address(fields, "to");
    let gas = get_quantity(fields, "gas");
    let gas_price = get_quantity(fields, "gasPrice");
    let value = get_quantity(fields, "value");
    let data = get_data(fields, "data");
    let nonce = get_quantity(fields, "nonce");
    match (to, gas, gas_price, value, data, nonce) {
        (Ok(to), Ok(gas), Ok(gas_price), Ok(value), Ok(data), Ok(nonce)) => Ok(
            TransactionRequest { to, gas, gas_price, value, data, nonce },
        ),
        _ => Err(DecodeError::MissingField),
    }
}

/// The storage keys that a list of values holds, if each holds one.
fn get_keys(values: &Vec<Value>) -> (found: Option<Vec<H256>>)
    ensures
        match found {
            Some(keys) => read_keys(list_view(values@)) == Some(
                keys@.map_values(|key: H256| key@),
            ),
            None => read_keys(list_view(values@)) is None,
        },
{
    let mut keys: Vec<H256> = Vec::new();
    let mut i: usize = 0;
    proof {
        lemma_list_view_index(values@);
    }
    while i < values.len()
        invariant
            i <= values.len(),
            keys.len() == i,
            list_view(values@).len() == values.len(),
            forall|k: int| 0 <= k < values.len() ==> #[trigger] list_view(values@)[k] == values[k]@,
            forall|k: int| 0 <= k < i ==> read_key(#[trigger] list_view(values@)[k]) == Some(keys[k]@),
        decreases values.len() - i,
    {
        let key = match &values[i] {
            Value::Text(text) => H256::from_hex(text.as_str()),
            _ => None,
        };
        match key {
            Some(key) => {
                keys.push(key);
            },
            None => {
                proof {
                    assert(read_key(list_view(values@)[i as int]) is None);
                }
                return None;
            },
        }
        i = i + 1;
    }
    proof {
        let read = list_view(values@).map_values(|value: ValueView| read_key(value)->Some_0);
        assert(read =~= keys@.map_values(|key: H256| key@));
    }
    Some(keys)
}

/// The access-list item that a value holds.
fn get_entry(value: &Value) -> (found: Option<AccessListItem>)
    ensures
        option_view(found) == read_entry_value(value@),
{
    match value {
        Value::Object(fields) => match (find(fields, "address"), find(fields, "storageKeys")) {
            (Some(Value::Text(address)), Some(Value::List(keys))) => match (
                Address::from_hex(address.as_str()),
                get_keys(keys),
            ) {
                (Some(address), Some(storage_keys)) => Some(
                    AccessListItem { address, storage_keys },
                ),
                _ => None,
            },
            _ => None,
        },
        _ => None,
    }
}

/// The access list under `access_list`.
fn get_access_list(fields: &Vec<(String, Value)>) -> (found: Result<AccessList, DecodeError>)
    ensures
        found_view(found) == read_access_list_field(object_view(fields@)),
{
    match find(fields, "access_list") {
        Some(Value::List(values)) => {
            let mut entries: Vec<AccessListItem> = Vec::new();
            let mut i: usize = 0;
            proof {
                lemma_list_view_index(values@);
            }
            while i < values.len()
                invariant
                    i <= values.len(),
                    entries.len() == i,
                    field(object_view(fields@), "access_list"@) == Some(
                        ValueView::List(list_view(values@)),
                    ),
                    list_view(values@).len() == values.len(),
                    forall|k: int|
                        0 <= k < values.len() ==> #[trigger] list_view(values@)[k] == values[k]@,
                    forall|k: int|
                        0 <= k < i ==> read_entry_value(#[trigger] list_view(values@)[k]) == Some(
                            entries[k]@,
                        ),
                decreases values.len() - i,
            {
                match get_entry(&values[i]) {
                    Some(entry) => {
                        entries.push(entry);
                    },
                    None => {
                        proof {
                            let found = list_view(values@);
                            assert(read_entry_value(found[i as int]) is None);
                            assert(field(object_view(fields@), "access_list"@) == Some(
                                ValueView::List(found),
                            ));
                        }
                        return Err(DecodeError::MissingField);
                    },
                }
                i = i + 1;
            }
            let list = AccessList(entries);
            proof {
                let read = list_view(values@).map_values(
                    |value: ValueView| read_entry_value(value)->Some_0,
                );
                assert(read =~= list@);
            }
            Ok(list)
        },
        _ => Err(DecodeError::MissingField),
    }
}

/// The access-list transaction that the fields of an object hold.
fn get_eip2930(fields: &Vec<(String, Value)>) -> (found: Result<
    Eip2930TransactionRequest,
    DecodeError,
>)
    ensures
        found_view(found) == read_eip2930(object_view(fields@)),
{
    match (get_request(fields), get_access_list(fields)) {
        (Ok(tx), Ok(access_list)) => Ok(Eip2930TransactionRequest { tx, access_list }),
        _ => Err(DecodeError::MissingField),
    }
}

impl AccessListItem {
    /// The item as a value: the object of `address` and `storageKeys`.
    pub fn to_value(&self) -> (value: Value)
        ensures
            value@ == entry_value(self@),
    {
        let mut keys: Vec<Value> = Vec::new();
        let mut i: usize = 0;
        while i < self.storage_keys.len()
            invariant
                i <= self.storage_keys.len(),
                list_view(keys@) == self@.storage_keys.take(i as int).map_values(
                    |key: Seq<u8>| key_value(key),
                ),
            decreases self.storage_keys.len() - i,
        {
            let key = Value::Text(self.storage_keys[i].to_hex());
            proof {
                lemma_list_view_push(keys@, key);
                let before = self@.storage_keys.take(i as int).map_values(
                    |key: Seq<u8>| key_value(key),
                );
                let after = self@.storage_keys.take(i + 1).map_values(
                    |key: Seq<u8>| key_value(key),
                );
                assert(after =~= before.push(key@));
            }
            keys.push(key);
            i = i + 1;
        }
        proof {
            assert(self@.storage_keys.take(self.storage_keys.len() as int) =~= self@.storage_keys);
        }
        let mut fields: Vec<(String, Value)> = Vec::new();
        push_field(&mut fields, "address", Value::Text(self.address.to_hex()));
        push_field(&mut fields, "storageKeys", Value::List(keys));
        Value::Object(fields)
    }

    /// The item that a value holds, or `None` unless it is an object with an
    /// address under `address` and a list of storage keys under
    /// `storageKeys`.
    pub fn from_value(value: &Value) -> (found: Option<AccessListItem>)
        ensures
            option_view(found) == read_entry_value(value@),
    {
        get_entry(value)
    }
}

impl AccessList {
    /// The access list as a value: the list of its items.
    pub fn to_value(&self) -> (value: Value)
        ensures
            value@ == access_list_value(self@),
    {
        let entries = &self.0;
        let mut values: Vec<Value> = Vec::new();
        let mut i: usize = 0;
        while i < entries.len()
            invariant
                i <= entries.len(),
                entries@ == self.0@,
                list_view(values@) == self@.take(i as int).map_values(
                    |entry: AccessListItemView| entry_value(entry),
                ),
            decreases entries.len() - i,
        {
            let value = entries[i].to_value();
            proof {
                lemma_list_view_push(values@, value);
                let before = self@.take(i as int).map_values(
                    |entry: AccessListItemView| entry_value(entry),
                );
                let after = self@.take(i + 1).map_values(
                    |entry: AccessListItemView| entry_value(entry),
                );
                assert(after =~= before.push(value@));
            }
            values.push(value);
            i = i + 1;
        }
        proof {
            assert(self@.take(entries.len() as int) =~= self@);
        }
        Value::List(values)
    }
}

impl TransactionRequest {
    /// The transaction as a document: an object with the fields that are
    /// set.
    pub fn to_value(&self) -> (value: Value)
        ensures
            value@ == request_value(self@),
    {
        let mut fields: Vec<(String, Value)> = Vec::new();
        push_request(&mut fields, self);
        Value::Object(fields)
    }

    /// The transaction that a document holds. A document that is no object is
    /// malformed; a field that is not what it should be gives
    /// `MissingField`; fields of other names are passed over.
    pub fn from_value(value: &Value) -> (found: Result<TransactionRequest, DecodeError>)
        ensures
            found_view(found) == decode_request(value@),
    {
        match value {
            Value::Object(fields) => get_request(fields),
            _ => Err(DecodeError::MalformedInput),
        }
    }
}

impl Eip2930TransactionRequest {
    /// The transaction as a document: an object with the fields of the
    /// legacy transaction that are set, and `access_list`.
    pub fn to_value(&self) -> (value: Value)
        ensures
            value@ == eip2930_value(self@),
    {
        let mut fields: Vec<(String, Value)> = Vec::new();
        push_eip2930(&mut fields, self);
        Value::Object(fields)
    }

    /// The transaction that a document holds. A document that is no object is
    /// malformed; an absent access list, or a field that is not what it
    /// should be, gives `MissingField`; fields of other names are passed
    /// over.
    pub fn from_value(value: &Value) -> (found: Result<Eip2930TransactionRequest, DecodeError>)
        ensures
            found_view(found) == decode_eip2930(value@),
    {
        match value {
            Value::Object(fields) => get_eip2930(fields),
            _ => Err(DecodeError::MalformedInput),
        }
    }
}

impl TransactionEnvelope {
    /// The envelope as a document: an object with the field `type`, `0x00`
    /// for a legacy and `0x01` for an access-list transaction, and the fields
    /// of the transaction.
    pub fn to_value(&self) -> (value: Value)
        ensures
            value@ == envelope_value(self@),
    {
        let mut fields: Vec<(String, Value)> = Vec::new();
        match self {
            TransactionEnvelope::Legacy(tx) => {
                push_field(&mut fields, "type", Value::Text(String::from_str("0x00")));
                push_request(&mut fields, tx);
            },
            TransactionEnvelope::Eip2930(tx) => {
                push_field(&mut fields, "type", Value::Text(String::from_str("0x01")));
                push_eip2930(&mut fields, tx);
            },
        }
        Value::Object(fields)
    }

    /// The envelope that a document holds. A document that is no object is
    /// malformed; a `type` other than `0x00` and `0x01` is an unknown type;
    /// an absent `type`, or a field that is not what it should be, gives
    /// `MissingField`.
    pub fn from_value(value: &Value) -> (found: Result<TransactionEnvelope, DecodeError>)
        ensures
            found_view(found) == decode_envelope(value@),
    {
        match value {
            Value::Object(fields) => match find(fields, "type") {
                Some(Value::Text(tag)) => {
                    let legacy = String::from_str("0x00");
                    let typed = String::from_str("0x01");
                    if *tag == legacy {
                        match get_request(fields) {
                            Ok(tx) => Ok(TransactionEnvelope::Legacy(tx)),
                            Err(error) => Err(error),
                        }
                    } else if *tag == typed {
                        match get_eip2930(fields) {
                            Ok(tx) => Ok(TransactionEnvelope::Eip2930(tx)),
                            Err(error) => Err(error),
                        }
                    } else {
                        Err(DecodeError::UnknownTransactionType)
                    }
                },
                _ => Err(DecodeError::MissingField),
            },
            _ => Err(DecodeError::MalformedInput),
        }
    }
}

} // verus!
