//! The recursive-length-prefix encoding of byte strings and lists, as
//! functions on sequences of bytes.

use vstd::prelude::*;

verus! {

/// The number that a big-endian byte string stands for. The empty string
/// stands for zero.
pub open spec fn be_value(bytes: Seq<u8>) -> nat
    decreases bytes.len(),
{
    if bytes.len() == 0 {
        0
    } else {
        be_value(bytes.drop_last()) * 256 + bytes.last() as nat
    }
}

/// The shortest big-endian byte string that stands for `n`: no leading zero
/// byte, and the empty string for zero.
pub open spec fn minimal_be(n: nat) -> Seq<u8>
    decreases n,
{
    if n == 0 {
        Seq::empty()
    } else {
        minimal_be(n / 256).push((n % 256) as u8)
    }
}

/// The largest payload length that has a one-byte header.
pub const SHORT_LIMIT: usize = 55;

/// First header byte of the shortest string.
pub const STRING_BASE: u8 = 0x80;

/// First header byte of the shortest list.
pub const LIST_BASE: u8 = 0xc0;

/// Lengths are written in at most four bytes: of a longer length the low 32
/// bits are kept.
pub open spec fn written_length(len: nat) -> Seq<u8> {
    minimal_be(len % 0x1_0000_0000)
}

/// The header that announces a payload of `len` bytes: one byte, `base + len`,
/// up to 55 bytes, and beyond that `base + 55` plus the number of length
/// bytes, followed by the length itself, big-endian.
pub open spec fn header(base: u8, len: nat) -> Seq<u8> {
    if len <= SHORT_LIMIT {
        seq![(base + len) as u8]
    } else {
        seq![(base + SHORT_LIMIT + written_length(len).len()) as u8] + written_length(len)
    }
}

/// The encoding of a byte string: a single byte below `0x80` is its own
/// encoding, any other string follows its header.
pub open spec fn string_item(bytes: Seq<u8>) -> Seq<u8> {
    if bytes.len() == 1 && bytes[0] < STRING_BASE {
        bytes
    } else {
        header(STRING_BASE, bytes.len()) + bytes
    }
}

/// The encoding of a list whose encoded items, one after the other, are
/// `payload`.
pub open spec fn list_item(payload: Seq<u8>) -> Seq<u8> {
    header(LIST_BASE, payload.len()) + payload
}

/// What is encoded: a byte string, or a list of such items.
pub enum Item {
    Bytes(Seq<u8>),
    List(Seq<Item>),
}

/// The item that stands for a non-negative integer: its shortest big-endian
/// byte string, so the empty string for zero.
pub open spec fn uint(n: nat) -> Item {
    Item::Bytes(minimal_be(n))
}

/// The encoding of an item.
pub open spec fn encode(item: Item) -> Seq<u8>
    decreases item,
{
    match item {
        Item::Bytes(bytes) => string_item(bytes),
        Item::List(items) => list_item(encode_all(items)),
    }
}

/// The encodings of `items`, one after the other.
pub open spec fn encode_all(items: Seq<Item>) -> Seq<u8>
    decreases items,
{
    if items.len() == 0 {
        Seq::empty()
    } else {
        encode(items[0]) + encode_all(items.drop_first())
    }
}

/// One more item at the end adds its encoding at the end.
pub proof fn lemma_encode_all_push(items: Seq<Item>, last: Item)
    ensures
        encode_all(items.push(last)) == encode_all(items) + encode(last),
    decreases items.len(),
{
    let longer = items.push(last);
    if items.len() == 0 {
        assert(longer.drop_first() =~= items);
        assert(encode_all(longer) =~= encode(last));
        assert(encode_all(items) + encode(last) =~= encode(last));
    } else {
        lemma_encode_all_push(items.drop_first(), last);
        assert(longer.drop_first() =~= items.drop_first().push(last));
        assert(longer[0] == items[0]);
        assert(encode_all(longer) =~= encode_all(items) + encode(last));
    }
}

/// One more byte at the end multiplies by 256 and adds the byte.
pub proof fn lemma_be_value_push(bytes: Seq<u8>, last: u8)
    ensures
        be_value(bytes.push(last)) == be_value(bytes) * 256 + last as nat,
{
    assert(bytes.push(last).drop_last() =~= bytes);
}

/// Leading zero bytes do not change the number.
pub proof fn lemma_be_value_leading_zeros(bytes: Seq<u8>, count: int)
    requires
        0 <= count <= bytes.len(),
        forall|i: int| 0 <= i < count ==> bytes[i] == 0,
    ensures
        be_value(bytes) == be_value(bytes.skip(count)),
    decreases bytes.len(),
{
    if bytes.len() == 0 {
        assert(bytes.skip(count) =~= bytes);
    } else if count == bytes.len() {
        lemma_be_value_leading_zeros(bytes.drop_last(), count - 1);
        assert(bytes.drop_last().skip(count - 1).len() == 0);
        assert(bytes.skip(count).len() == 0);
    } else {
        lemma_be_value_leading_zeros(bytes.drop_last(), count);
        assert(bytes.skip(count).drop_last() =~= bytes.drop_last().skip(count));
    }
}

/// Two byte strings of one length that stand for the same number are the
/// same.
pub proof fn lemma_be_value_injective(a: Seq<u8>, b: Seq<u8>)
    requires
        a.len() == b.len(),
        be_value(a) == be_value(b),
    ensures
        a == b,
    decreases a.len(),
{
    if a.len() > 0 {
        lemma_be_value_injective(a.drop_last(), b.drop_last());
        assert(a.drop_last().push(a.last()) =~= a);
        assert(b.drop_last().push(b.last()) =~= b);
    }
    assert(a =~= b);
}

/// A byte string that starts with a non-zero byte stands for a positive
/// number.
pub proof fn lemma_be_value_positive(bytes: Seq<u8>)
    requires
        bytes.len() > 0,
        bytes[0] != 0,
    ensures
        be_value(bytes) > 0,
    decreases bytes.len(),
{
    if bytes.len() > 1 {
        lemma_be_value_positive(bytes.drop_last());
    }
}

/// A byte string without a leading zero byte is the shortest for its number.
pub proof fn lemma_minimal_be_of_value(bytes: Seq<u8>)
    requires
        bytes.len() == 0 || bytes[0] != 0,
    ensures
        minimal_be(be_value(bytes)) == bytes,
    decreases bytes.len(),
{
    if bytes.len() > 0 {
        lemma_be_value_positive(bytes);
        lemma_minimal_be_of_value(bytes.drop_last());
        let n = be_value(bytes);
        let high = be_value(bytes.drop_last());
        assert(n / 256 == high && n % 256 == bytes.last() as nat);
        assert(minimal_be(n) == minimal_be(high).push(bytes.last()));
        assert(bytes.drop_last().push(bytes.last()) =~= bytes);
    }
}

/// The shortest byte string of a number stands for that number, and does not
/// start with a zero byte.
pub proof fn lemma_value_of_minimal_be(n: nat)
    ensures
        be_value(minimal_be(n)) == n,
        minimal_be(n).len() == 0 <==> n == 0,
        n > 0 ==> minimal_be(n)[0] != 0,
    decreases n,
{
    if n > 0 {
        lemma_value_of_minimal_be(n / 256);
        let high = minimal_be(n / 256);
        let low = (n % 256) as u8;
        lemma_be_value_push(high, low);
        if n / 256 > 0 {
            assert(high.push(low)[0] == high[0]);
        }
    }
}

} // verus!
