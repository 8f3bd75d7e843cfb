use tx_envelope::access_list::{AccessList, AccessListItem};
use tx_envelope::eip2930::Eip2930TransactionRequest;
use tx_envelope::envelope::TransactionEnvelope;
use tx_envelope::primitives::{Address, Signature, H256, U256};
use tx_envelope::transaction::TransactionRequest;

fn unhex(text: &str) -> Vec<u8> {
    (0..text.len() / 2).map(|i| u8::from_str_radix(&text[2 * i..2 * i + 2], 16).unwrap()).collect()
}

fn sample_request() -> TransactionRequest {
    TransactionRequest::new().to(Address::zero()).value(U256::from(100u64))
}

fn sample_access_list() -> AccessList {
    AccessList::from(vec![AccessListItem {
        address: Address::zero(),
        storage_keys: vec![H256::zero()],
    }])
}

fn sample_typed() -> Eip2930TransactionRequest {
    sample_request().with_access_list(sample_access_list())
}

const LEGACY: &str = "dd8080809400000000000000000000000000000000000000006480018080";
const ACCESS_LIST: &str = "f838f7940000000000000000000000000000000000000000e1a00000000000000000000000000000000000000000000000000000000000000000";
const TYPED: &str = "f8578080809400000000000000000000000000000000000000006480f838f7940000000000000000000000000000000000000000e1a00000000000000000000000000000000000000000000000000000000000000000018080";
const SIGNED: &str = "f8798080809400000000000000000000000000000000000000006480f838f7940000000000000000000000000000000000000000e1a0000000000000000000000000000000000000000000000000000000000000000025820102a08000000000000000000000000000000000000000000000000000000000000000";

#[test]
fn empty_access_list_is_one_byte() {
    assert_eq!(AccessList::from(vec![]).rlp_bytes(), vec![0xc0u8]);
    assert_eq!(AccessList::default().rlp_bytes(), vec![0xc0u8]);
}

#[test]
fn item_without_keys_holds_an_empty_list() {
    let item = AccessListItem { address: Address([0x11; 20]), storage_keys: vec![] };
    let mut expected = vec![0xd6u8, 0x94];
    expected.extend_from_slice(&[0x11; 20]);
    expected.push(0xc0);
    assert_eq!(item.rlp_bytes(), expected);
}

#[test]
fn access_list_encoding_is_exact() {
    assert_eq!(sample_access_list().rlp_bytes(), unhex(ACCESS_LIST));
}

#[test]
fn access_list_keeps_order_and_duplicates() {
    let key_a = H256([0xaa; 32]);
    let key_b = H256([0xbb; 32]);
    let item = AccessListItem {
        address: Address([0x01; 20]),
        storage_keys: vec![key_b, key_a, key_b],
    };
    let bytes = item.rlp_bytes();
    let decoded = rlp::Rlp::new(&bytes);
    assert_eq!(decoded.item_count().unwrap(), 2);
    let keys = decoded.at(1).unwrap();
    assert_eq!(keys.item_count().unwrap(), 3);
    assert_eq!(keys.val_at::<Vec<u8>>(0).unwrap(), vec![0xbb; 32]);
    assert_eq!(keys.val_at::<Vec<u8>>(1).unwrap(), vec![0xaa; 32]);
    assert_eq!(keys.val_at::<Vec<u8>>(2).unwrap(), vec![0xbb; 32]);
}

#[test]
fn legacy_encoding_is_exact() {
    assert_eq!(sample_request().rlp(1), unhex(LEGACY));
}

#[test]
fn typed_encoding_is_exact() {
    assert_eq!(sample_typed().rlp(1), unhex(TYPED));
}

#[test]
fn signed_encoding_is_exact() {
    let mut s = [0u8; 32];
    s[0] = 0x80;
    let signature =
        Signature { v: 37, r: U256::from(0x0102u64), s: U256::from_be_bytes(s) };
    assert_eq!(sample_typed().rlp_signed(&signature), unhex(SIGNED));
}

#[test]
fn typed_encoding_decodes_to_ten_fields() {
    let tx = TransactionRequest::new()
        .nonce(U256::from(7u64))
        .gas_price(U256::from(1_000_000_000u64))
        .gas(U256::from(21_000u64))
        .to(Address([0x22; 20]))
        .value(U256::from(100u64))
        .data(vec![0xde, 0xad, 0xbe, 0xef])
        .with_access_list(sample_access_list());
    let bytes = tx.rlp(5);
    let decoded = rlp::Rlp::new(&bytes);
    assert!(decoded.is_list());
    assert_eq!(decoded.item_count().unwrap(), 10);
    assert_eq!(decoded.val_at::<u64>(0).unwrap(), 7);
    assert_eq!(decoded.val_at::<u64>(1).unwrap(), 1_000_000_000);
    assert_eq!(decoded.val_at::<u64>(2).unwrap(), 21_000);
    assert_eq!(decoded.val_at::<Vec<u8>>(3).unwrap(), vec![0x22; 20]);
    assert_eq!(decoded.val_at::<u64>(4).unwrap(), 100);
    assert_eq!(decoded.val_at::<Vec<u8>>(5).unwrap(), vec![0xde, 0xad, 0xbe, 0xef]);
    let list = decoded.at(6).unwrap();
    assert_eq!(list.as_raw(), &unhex(ACCESS_LIST)[..]);
    assert_eq!(list.item_count().unwrap(), 1);
    let entry = list.at(0).unwrap();
    assert_eq!(entry.val_at::<Vec<u8>>(0).unwrap(), vec![0u8; 20]);
    assert_eq!(entry.at(1).unwrap().val_at::<Vec<u8>>(0).unwrap(), vec![0u8; 32]);
    assert_eq!(decoded.val_at::<u64>(7).unwrap(), 5);
    assert_eq!(decoded.val_at::<u64>(8).unwrap(), 0);
    assert_eq!(decoded.val_at::<u64>(9).unwrap(), 0);
}

#[test]
fn signed_encoding_ends_with_the_signature() {
    let signature = Signature { v: 38, r: U256::from(0xabcdefu64), s: U256::from(0x1234u64) };
    let tx = sample_typed();
    let signed = tx.rlp_signed(&signature);
    let unsigned = tx.rlp(1);
    let signed = rlp::Rlp::new(&signed);
    let unsigned = rlp::Rlp::new(&unsigned);
    assert_eq!(signed.item_count().unwrap(), unsigned.item_count().unwrap());
    assert_eq!(signed.item_count().unwrap(), 10);
    assert_eq!(signed.at(7).unwrap().as_raw(), &[0x26u8][..]);
    assert_eq!(signed.at(8).unwrap().as_raw(), &[0x83u8, 0xab, 0xcd, 0xef][..]);
    assert_eq!(signed.at(9).unwrap().as_raw(), &[0x82u8, 0x12, 0x34][..]);
    for i in 0..7 {
        assert_eq!(signed.at(i).unwrap().as_raw(), unsigned.at(i).unwrap().as_raw());
    }
}

#[test]
fn legacy_encoding_has_nine_fields() {
    let bytes = sample_request().rlp(1);
    let decoded = rlp::Rlp::new(&bytes);
    assert_eq!(decoded.item_count().unwrap(), 9);
    assert_eq!(decoded.val_at::<u64>(6).unwrap(), 1);
}

#[test]
fn chain_id_is_written_without_leading_zeros() {
    let bytes = TransactionRequest::new().rlp(0x0102);
    assert_eq!(bytes, vec![0xcb, 0x80, 0x80, 0x80, 0x80, 0x80, 0x80, 0x82, 0x01, 0x02, 0x80, 0x80]);
    let bytes = TransactionRequest::new().rlp(u64::MAX);
    assert_eq!(&bytes[7..16], &[0x88, 0xff, 0xff, 0xff, 0xff, 0xff, 0xff, 0xff, 0xff][..]);
}

#[test]
fn absent_fields_encode_as_zero_and_as_the_empty_string() {
    let absent = TransactionRequest::new().rlp(1);
    let zero = TransactionRequest::new()
        .nonce(U256::zero())
        .gas_price(U256::zero())
        .gas(U256::zero())
        .value(U256::zero())
        .data(vec![])
        .rlp(1);
    assert_eq!(absent, vec![0xc9, 0x80, 0x80, 0x80, 0x80, 0x80, 0x80, 0x01, 0x80, 0x80]);
    assert_eq!(absent, zero);
}

#[test]
fn one_small_byte_is_its_own_encoding() {
    let bytes = TransactionRequest::new().data(vec![0x7f]).rlp(1);
    assert_eq!(bytes[6], 0x7f);
    let bytes = TransactionRequest::new().data(vec![0x80]).rlp(1);
    assert_eq!(&bytes[6..8], &[0x81, 0x80][..]);
}

#[test]
fn long_data_has_a_long_header() {
    let bytes = TransactionRequest::new().data(vec![0xab; 56]).rlp(1);
    assert_eq!(&bytes[..2], &[0xf8, 66][..]);
    assert_eq!(&bytes[7..9], &[0xb8, 56][..]);
    assert_eq!(&bytes[9..65], &[0xab; 56][..]);
    let bytes = TransactionRequest::new().data(vec![0xab; 55]).rlp(1);
    assert_eq!(&bytes[..2], &[0xf8, 64][..]);
    assert_eq!(bytes[7], 0xb7);
    let bytes = TransactionRequest::new().data(vec![0xcd; 300]).rlp(1);
    assert_eq!(&bytes[..3], &[0xf9, 0x01, 0x37][..]);
    assert_eq!(&bytes[8..11], &[0xb9, 0x01, 0x2c][..]);
    assert_eq!(bytes.len(), 3 + 311);
}

#[test]
fn preimage_starts_with_type_byte() {
    let legacy = TransactionEnvelope::Legacy(sample_request());
    let preimage = legacy.sighash_preimage(1);
    assert_eq!(legacy.type_byte(), 0x00);
    assert_eq!(preimage[0], 0x00);
    assert_eq!(&preimage[1..], &unhex(LEGACY)[..]);
    let typed = TransactionEnvelope::Eip2930(sample_typed());
    let preimage = typed.sighash_preimage(1);
    assert_eq!(typed.type_byte(), 0x01);
    assert_eq!(preimage[0], 0x01);
    assert_eq!(&preimage[1..33], &unhex(TYPED)[..32]);
    assert_eq!(&preimage[1..], &unhex(TYPED)[..]);
}

#[test]
fn sighash_is_the_digest_of_the_preimage() {
    let legacy = TransactionEnvelope::from(sample_request());
    assert_eq!(
        legacy.sighash(1),
        H256([
            0x73, 0xf6, 0x18, 0x5d, 0x26, 0xf9, 0x47, 0x0a, 0xda, 0x10, 0x3c, 0xbc, 0x6c, 0x2c,
            0x54, 0xce, 0x0d, 0xb5, 0x9c, 0x4c, 0xc1, 0xf0, 0x25, 0x1a, 0xa6, 0xe0, 0x28, 0x69,
            0x49, 0x62, 0xee, 0x26,
        ])
    );
    let typed = TransactionEnvelope::from(sample_typed());
    assert_eq!(
        typed.sighash(1),
        H256([
            0xf2, 0xbb, 0x53, 0xf5, 0x0e, 0x04, 0xc6, 0x2d, 0xfd, 0x42, 0xd0, 0xee, 0x31, 0xf8,
            0x8e, 0x6c, 0x42, 0x43, 0x54, 0x72, 0x93, 0xf5, 0xa4, 0x5a, 0x75, 0x3e, 0x5e, 0xb9,
            0x89, 0xbf, 0xb9, 0x2b,
        ])
    );
}

#[test]
fn sighash_is_deterministic() {
    let a = TransactionEnvelope::Eip2930(sample_typed());
    let b = TransactionEnvelope::Eip2930(sample_typed());
    assert_eq!(a, b);
    assert_eq!(a.sighash(1), b.sighash(1));
    assert_eq!(a.sighash(1), a.sighash(1));
    assert_ne!(a.sighash(1), a.sighash(2));
}

#[test]
fn shapes_hash_differently() {
    let legacy = TransactionEnvelope::Legacy(sample_request());
    let typed = TransactionEnvelope::Eip2930(
        sample_request().with_access_list(AccessList::from(vec![])),
    );
    assert_ne!(legacy.sighash_preimage(1)[0], typed.sighash_preimage(1)[0]);
    assert_ne!(legacy.sighash_preimage(1), typed.sighash_preimage(1));
    assert_ne!(legacy.sighash(1), typed.sighash(1));
}

#[test]
fn conversions_pick_the_shape() {
    assert_eq!(
        TransactionEnvelope::from(sample_request()),
        TransactionEnvelope::Legacy(sample_request())
    );
    assert_eq!(
        TransactionEnvelope::from(sample_typed()),
        TransactionEnvelope::Eip2930(sample_typed())
    );
    let typed = Eip2930TransactionRequest::new(sample_request(), sample_access_list());
    assert_eq!(typed.tx, sample_request());
    assert_eq!(typed.access_list, sample_access_list());
    assert_eq!(typed, sample_typed());
}

#[test]
fn integers_keep_their_value() {
    assert_eq!(U256::from(100u64).to_minimal_bytes(), vec![100u8]);
    assert_eq!(U256::from(0u64).to_minimal_bytes(), Vec::<u8>::new());
    assert_eq!(U256::zero(), U256::from(0u64));
    assert_eq!(U256::from(0x0102u64).to_minimal_bytes(), vec![1u8, 2]);
    assert_eq!(U256::from(u64::MAX).to_minimal_bytes(), vec![0xffu8; 8]);
    let mut bytes = [0u8; 32];
    bytes[31] = 100;
    assert_eq!(U256::from(100u64).to_be_bytes(), bytes);
    assert_eq!(U256::from_be_bytes(bytes), U256::from_u64(100));
    assert_eq!(U256::from_be_bytes([0xff; 32]).to_minimal_bytes(), vec![0xffu8; 32]);
}

#[test]
fn body_and_access_list_join_a_list_that_was_begun() {
    let mut stream = rlp::RlpStream::new_list(7);
    sample_request().rlp_base(&mut stream);
    assert!(!stream.is_finished());
    sample_access_list().rlp_append(&mut stream);
    assert!(stream.is_finished());
    let bytes = stream.out().to_vec();
    let typed = unhex(TYPED);
    assert_eq!(&bytes[..2], &[0xf8, 84][..]);
    assert_eq!(&bytes[2..], &typed[2..86]);
}

#[test]
fn items_of_an_inner_list_close_the_outer_list_too() {
    let item = AccessListItem { address: Address([0x33; 20]), storage_keys: vec![] };
    let mut stream = rlp::RlpStream::new();
    stream.begin_list(1);
    stream.begin_list(2);
    item.rlp_append(&mut stream);
    assert!(!stream.is_finished());
    AccessList::from(vec![]).rlp_append(&mut stream);
    assert!(stream.is_finished());
    let mut expected = vec![0xd9u8, 0xd8];
    expected.extend_from_slice(&item.rlp_bytes());
    expected.push(0xc0);
    assert_eq!(stream.out().to_vec(), expected);
}
