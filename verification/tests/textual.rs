use tx_envelope::access_list::{AccessList, AccessListItem};
use tx_envelope::document::{find, Value};
use tx_envelope::eip2930::Eip2930TransactionRequest;
use tx_envelope::envelope::TransactionEnvelope;
use tx_envelope::hex::{decode_hex, encode_hex};
use tx_envelope::primitives::{Address, H256, U256};
use tx_envelope::textual::DecodeError;
use tx_envelope::transaction::TransactionRequest;

fn to_json(value: &Value) -> serde_json::Value {
    match value {
        Value::Null => serde_json::Value::Null,
        Value::Bool(b) => serde_json::Value::Bool(*b),
        Value::Number(text) => serde_json::from_str(text).unwrap(),
        Value::Text(text) => serde_json::Value::String(text.clone()),
        Value::List(items) => serde_json::Value::Array(items.iter().map(to_json).collect()),
        Value::Object(fields) => {
            let mut map = serde_json::Map::new();
            for (name, value) in fields {
                map.insert(name.clone(), to_json(value));
            }
            serde_json::Value::Object(map)
        }
    }
}

fn from_json(value: &serde_json::Value) -> Value {
    match value {
        serde_json::Value::Null => Value::Null,
        serde_json::Value::Bool(b) => Value::Bool(*b),
        serde_json::Value::Number(n) => Value::Number(n.to_string()),
        serde_json::Value::String(text) => Value::Text(text.clone()),
        serde_json::Value::Array(items) => Value::List(items.iter().map(from_json).collect()),
        serde_json::Value::Object(map) => {
            Value::Object(map.iter().map(|(name, value)| (name.clone(), from_json(value))).collect())
        }
    }
}

fn to_string(value: &Value) -> String {
    serde_json::to_string(&to_json(value)).unwrap()
}

fn from_str(text: &str) -> Value {
    from_json(&serde_json::from_str::<serde_json::Value>(text).unwrap())
}

fn text(value: &str) -> Value {
    Value::Text(value.to_string())
}

fn object(fields: Vec<(&str, Value)>) -> Value {
    Value::Object(fields.into_iter().map(|(name, value)| (name.to_string(), value)).collect())
}

const ZERO_ADDRESS: &str = "0x0000000000000000000000000000000000000000";
const ZERO_KEY: &str = "0x0000000000000000000000000000000000000000000000000000000000000000";

#[test]
fn serde_legacy_tx() {
    let tx = TransactionRequest::new().to(Address::zero()).value(U256::from(100u64));
    let tx = TransactionEnvelope::from(tx);
    let serialized = to_string(&tx.to_value());

    // deserializes to either the envelope type or the inner type
    let de = TransactionEnvelope::from_value(&from_str(&serialized)).unwrap();
    assert_eq!(tx, de);

    let de = TransactionRequest::from_value(&from_str(&serialized)).unwrap();
    assert_eq!(tx, TransactionEnvelope::Legacy(de));
}

#[test]
fn serde_eip2930_tx() {
    let access_list =
        vec![AccessListItem { address: Address::zero(), storage_keys: vec![H256::zero()] }];
    let tx = TransactionRequest::new()
        .to(Address::zero())
        .value(U256::from(100u64))
        .with_access_list(AccessList::from(access_list));
    let tx = TransactionEnvelope::from(tx);
    let serialized = to_string(&tx.to_value());

    // deserializes to either the envelope type or the inner type
    let de = TransactionEnvelope::from_value(&from_str(&serialized)).unwrap();
    assert_eq!(tx, de);

    let de = Eip2930TransactionRequest::from_value(&from_str(&serialized)).unwrap();
    assert_eq!(tx, TransactionEnvelope::Eip2930(de));
}

#[test]
fn legacy_document_is_exact() {
    let tx = TransactionRequest::new().to(Address::zero()).value(U256::from(100u64));
    let envelope = TransactionEnvelope::Legacy(tx.clone());
    assert_eq!(
        envelope.to_value(),
        object(vec![("type", text("0x00")), ("to", text(ZERO_ADDRESS)), ("value", text("0x64"))])
    );
    assert_eq!(
        tx.to_value(),
        object(vec![("to", text(ZERO_ADDRESS)), ("value", text("0x64"))])
    );
    assert_eq!(TransactionRequest::new().to_value(), object(vec![]));
}

#[test]
fn typed_document_is_exact() {
    let item = AccessListItem { address: Address::zero(), storage_keys: vec![H256::zero()] };
    let tx = TransactionRequest::new()
        .nonce(U256::from(1u64))
        .gas(U256::from(21000u64))
        .gas_price(U256::from(255u64))
        .data(vec![0xab, 0x01])
        .with_access_list(AccessList::from(vec![item]));
    let entry = object(vec![
        ("address", text(ZERO_ADDRESS)),
        ("storageKeys", Value::List(vec![text(ZERO_KEY)])),
    ]);
    assert_eq!(
        TransactionEnvelope::Eip2930(tx.clone()).to_value(),
        object(vec![
            ("type", text("0x01")),
            ("gas", text("0x5208")),
            ("gasPrice", text("0xff")),
            ("data", text("0xab01")),
            ("nonce", text("0x1")),
            ("access_list", Value::List(vec![entry])),
        ])
    );
    let json = to_string(&tx.to_value());
    assert!(json.contains("\"storageKeys\""));
    assert!(json.contains("\"access_list\""));
    assert!(!json.contains("\"type\""));
}

#[test]
fn every_field_comes_back() {
    let items = vec![
        AccessListItem {
            address: Address([0x11; 20]),
            storage_keys: vec![H256([0x01; 32]), H256([0x02; 32]), H256([0x01; 32])],
        },
        AccessListItem { address: Address([0x22; 20]), storage_keys: vec![] },
    ];
    let tx = TransactionRequest::new()
        .nonce(U256::zero())
        .gas(U256::from(u64::MAX))
        .gas_price(U256::from_be_bytes([0xff; 32]))
        .to(Address([0xee; 20]))
        .value(U256::from(1u64))
        .data(vec![0, 1, 2, 0xff]);
    let typed = tx.clone().with_access_list(AccessList::from(items));
    for envelope in [TransactionEnvelope::Legacy(tx.clone()), TransactionEnvelope::Eip2930(typed.clone())] {
        let value = envelope.to_value();
        assert_eq!(TransactionEnvelope::from_value(&value), Ok(envelope.clone()));
        assert_eq!(TransactionEnvelope::from_value(&from_str(&to_string(&value))), Ok(envelope));
    }
    assert_eq!(TransactionRequest::from_value(&tx.to_value()), Ok(tx.clone()));
    assert_eq!(Eip2930TransactionRequest::from_value(&typed.to_value()), Ok(typed.clone()));
    let document = TransactionEnvelope::Eip2930(typed.clone()).to_value();
    assert_eq!(Eip2930TransactionRequest::from_value(&document), Ok(typed));
    assert_eq!(TransactionRequest::from_value(&document), Ok(tx));
}

#[test]
fn unknown_type_is_refused() {
    let document = object(vec![("type", text("0x02")), ("value", text("0x64"))]);
    assert_eq!(
        TransactionEnvelope::from_value(&document),
        Err(DecodeError::UnknownTransactionType)
    );
    let document = from_str(r#"{"type":"legacy"}"#);
    assert_eq!(
        TransactionEnvelope::from_value(&document),
        Err(DecodeError::UnknownTransactionType)
    );
}

#[test]
fn a_document_that_is_no_object_is_malformed() {
    for document in [from_str("[]"), from_str("\"0x00\""), from_str("null"), from_str("7")] {
        assert_eq!(TransactionEnvelope::from_value(&document), Err(DecodeError::MalformedInput));
        assert_eq!(TransactionRequest::from_value(&document), Err(DecodeError::MalformedInput));
        assert_eq!(
            Eip2930TransactionRequest::from_value(&document),
            Err(DecodeError::MalformedInput)
        );
    }
}

#[test]
fn missing_fields_are_reported() {
    let missing = Err(DecodeError::MissingField);
    assert_eq!(TransactionEnvelope::from_value(&from_str(r#"{"value":"0x64"}"#)), missing);
    assert_eq!(TransactionEnvelope::from_value(&from_str(r#"{"type":1}"#)), missing);
    assert_eq!(TransactionEnvelope::from_value(&from_str(r#"{"type":"0x01"}"#)), missing);
    assert_eq!(
        Eip2930TransactionRequest::from_value(&from_str(r#"{"value":"0x64"}"#)),
        Err(DecodeError::MissingField)
    );
    assert_eq!(
        Eip2930TransactionRequest::from_value(&from_str(r#"{"access_list":null}"#)),
        Err(DecodeError::MissingField)
    );
    let entry = r#"{"type":"0x01","access_list":[{"address":"0x0000000000000000000000000000000000000000"}]}"#;
    assert_eq!(TransactionEnvelope::from_value(&from_str(entry)), missing);
    let entry = r#"{"type":"0x01","access_list":[{"storageKeys":[]}]}"#;
    assert_eq!(TransactionEnvelope::from_value(&from_str(entry)), missing);
    let entry = r#"{"type":"0x01","access_list":["0x00"]}"#;
    assert_eq!(TransactionEnvelope::from_value(&from_str(entry)), missing);
}

#[test]
fn fields_of_the_wrong_shape_are_reported() {
    let missing = Err(DecodeError::MissingField);
    for document in [
        r#"{"value":100}"#,
        r#"{"value":"100"}"#,
        r#"{"value":"0x"}"#,
        r#"{"value":"0xg1"}"#,
        r#"{"value":"0x10000000000000000000000000000000000000000000000000000000000000000"}"#,
        r#"{"to":"0x00"}"#,
        r#"{"to":["0x0000000000000000000000000000000000000000"]}"#,
        r#"{"data":"0x123"}"#,
        r#"{"data":"abcd"}"#,
        r#"{"nonce":true}"#,
        r#"{"gas":{}}"#,
        r#"{"gasPrice":"0xé"}"#,
    ] {
        assert_eq!(TransactionRequest::from_value(&from_str(document)), missing);
    }
    let keys = r#"{"access_list":[{"address":"0x0000000000000000000000000000000000000000","storageKeys":["0x00"]}]}"#;
    assert_eq!(
        Eip2930TransactionRequest::from_value(&from_str(keys)),
        Err(DecodeError::MissingField)
    );
}

#[test]
fn absent_and_null_fields_are_not_set() {
    let tx = TransactionRequest::from_value(&from_str(r#"{"value":null,"extra":[1,2]}"#));
    assert_eq!(tx, Ok(TransactionRequest::new()));
    assert_eq!(TransactionRequest::from_value(&from_str("{}")), Ok(TransactionRequest::default()));
    let typed = Eip2930TransactionRequest::from_value(&from_str(r#"{"access_list":[]}"#));
    assert_eq!(typed, Ok(TransactionRequest::new().with_access_list(AccessList::from(vec![]))));
}

#[test]
fn digits_are_read_in_either_case() {
    let tx = TransactionRequest::from_value(&from_str(
        r#"{"value":"0x00Ff","data":"0xABcd","to":"0xABCDEFabcdef0123456789000000000000000000"}"#,
    ))
    .unwrap();
    assert_eq!(tx.value, Some(U256::from(255u64)));
    assert_eq!(tx.data, Some(vec![0xab, 0xcd]));
    let mut to = [0u8; 20];
    to[..10].copy_from_slice(&[0xab, 0xcd, 0xef, 0xab, 0xcd, 0xef, 0x01, 0x23, 0x45, 0x67]);
    to[10] = 0x89;
    assert_eq!(tx.to, Some(Address(to)));
}

#[test]
fn the_later_of_two_fields_counts() {
    let fields = vec![
        ("value".to_string(), text("0x1")),
        ("nonce".to_string(), text("0x5")),
        ("value".to_string(), text("0x2")),
    ];
    assert_eq!(find(&fields, "value"), Some(&text("0x2")));
    assert_eq!(find(&fields, "nonce"), Some(&text("0x5")));
    assert_eq!(find(&fields, "gas"), None);
    let tx = TransactionRequest::from_value(&Value::Object(fields)).unwrap();
    assert_eq!(tx.value, Some(U256::from(2u64)));
}

#[test]
fn hexadecimal_text_is_exact() {
    assert_eq!(encode_hex(&[]), "0x");
    assert_eq!(encode_hex(&[0x00, 0x0f, 0xa0, 0xff]), "0x000fa0ff");
    assert_eq!(decode_hex("0x000fa0ff"), Some(vec![0x00, 0x0f, 0xa0, 0xff]));
    assert_eq!(decode_hex("0x"), Some(vec![]));
    assert_eq!(decode_hex("0X00"), None);
    assert_eq!(decode_hex("00"), None);
    assert_eq!(decode_hex("0x0"), None);
    assert_eq!(decode_hex("0x0g"), None);
    assert_eq!(decode_hex(""), None);
    assert_eq!(U256::zero().to_hex(), "0x0");
    assert_eq!(U256::from(100u64).to_hex(), "0x64");
    assert_eq!(U256::from(0x1000u64).to_hex(), "0x1000");
    assert_eq!(U256::from(u64::MAX).to_hex(), "0xffffffffffffffff");
    assert_eq!(U256::from_be_bytes([0xff; 32]).to_hex(), format!("0x{}", "f".repeat(64)));
    assert_eq!(U256::from_hex("0x64"), Some(U256::from(100u64)));
    assert_eq!(U256::from_hex("0x0"), Some(U256::zero()));
    assert_eq!(U256::from_hex("0x0000064"), Some(U256::from(100u64)));
    assert_eq!(
        U256::from_hex(&format!("0x{}", "f".repeat(64))),
        Some(U256::from_be_bytes([0xff; 32]))
    );
    assert_eq!(U256::from_hex(&format!("0x1{}", "0".repeat(64))), None);
    assert_eq!(U256::from_hex("0x"), None);
    assert_eq!(U256::from_hex("64"), None);
    assert_eq!(Address::zero().to_hex(), ZERO_ADDRESS);
    assert_eq!(Address::from_hex(ZERO_ADDRESS), Some(Address::zero()));
    assert_eq!(Address::from_hex(ZERO_KEY), None);
    assert_eq!(H256::zero().to_hex(), ZERO_KEY);
    assert_eq!(H256::from_hex(ZERO_KEY), Some(H256::zero()));
    assert_eq!(H256::from_hex(ZERO_ADDRESS), None);
    assert_eq!(H256([0x5a; 32]).to_hex(), format!("0x{}", "5a".repeat(32)));
}

#[test]
fn access_list_items_are_read_alone() {
    let item = AccessListItem { address: Address([7; 20]), storage_keys: vec![H256([9; 32])] };
    assert_eq!(AccessListItem::from_value(&item.to_value()), Some(item.clone()));
    assert_eq!(AccessListItem::from_value(&text("0x00")), None);
    assert_eq!(AccessList::from(vec![item.clone()]).to_value(), Value::List(vec![item.to_value()]));
    assert_eq!(AccessListItem::default().storage_keys, vec![]);
    assert_eq!(AccessListItem::default().address, Address::zero());
}
