//! Reading an encoding back: the inverse of the encoding, as functions on
//! sequences of bytes, and the proof that it is one.

use vstd::prelude::*;
use crate::encoding::{
    be_value, encode, encode_all, header, lemma_value_of_minimal_be, list_item, minimal_be,
    string_item, written_length, Item, LIST_BASE, SHORT_LIMIT, STRING_BASE,
};

verus! {

/// Lengths from here on are not written in full.
pub const LENGTH_LIMIT: u64 = 0x1_0000_0000;

/// The first item of `bytes`, taken apart: whether it is a list, its content
/// (the bytes of a string, the encoded items of a list) and what follows it.
/// `None` where `bytes` is empty or ends before the item does.
pub open spec fn split_first(bytes: Seq<u8>) -> Option<(bool, Seq<u8>, Seq<u8>)> {
    if bytes.len() == 0 {
        None
    } else if bytes[0] < STRING_BASE {
        Some((false, bytes.take(1), bytes.skip(1)))
    } else {
        let is_list = bytes[0] >= LIST_BASE;
        let offset: int = if is_list {
            bytes[0] - LIST_BASE
        } else {
            bytes[0] - STRING_BASE
        };
        if offset <= SHORT_LIMIT {
            if bytes.len() >= 1 + offset {
                Some((is_list, bytes.subrange(1, 1 + offset), bytes.skip(1 + offset)))
            } else {
                None
            }
        } else {
            let width = offset - SHORT_LIMIT;
            if bytes.len() >= 1 + width {
                let start = 1 + width;
                let len = be_value(bytes.subrange(1, start));
                if bytes.len() >= start + len {
                    Some((is_list, bytes.subrange(start, start + len), bytes.skip(start + len)))
                } else {
                    None
                }
            } else {
                None
            }
        }
    }
}

/// The items that `bytes` holds one after the other, or `None` where `bytes`
/// is not a run of whole items.
pub open spec fn decode_all(bytes: Seq<u8>) -> Option<Seq<Item>>
    decreases bytes.len(),
{
    if bytes.len() == 0 {
        Some(Seq::empty())
    } else {
        match split_first(bytes) {
            None => None,
            Some((is_list, content, rest)) => {
                let first = if !is_list {
                    Some(Item::Bytes(content))
                } else {
                    match decode_all(content) {
                        Some(items) => Some(Item::List(items)),
                        None => None,
                    }
                };
                match (first, decode_all(rest)) {
                    (Some(item), Some(items)) => Some(seq![item] + items),
                    _ => None,
                }
            },
        }
    }
}

/// The one item that `bytes` holds, or `None` where `bytes` is not exactly
/// one item.
pub open spec fn decode(bytes: Seq<u8>) -> Option<Item> {
    match decode_all(bytes) {
        Some(items) => if items.len() == 1 {
            Some(items[0])
        } else {
            None
        },
        None => None,
    }
}

/// What the header of an item announces: the bytes of a string, the encoded
/// items of a list.
pub open spec fn content(item: Item) -> Seq<u8> {
    match item {
        Item::Bytes(bytes) => bytes,
        Item::List(items) => encode_all(items),
    }
}

/// Every length in the encoding of the item is written in full: the item's
/// own content, and that of each item in it, is shorter than the limit.
pub open spec fn fits(item: Item) -> bool
    decreases item,
{
    content(item).len() < LENGTH_LIMIT && match item {
        Item::Bytes(_) => true,
        Item::List(items) => forall|i: int| 0 <= i < items.len() ==> fits(#[trigger] items[i]),
    }
}

/// A number below the limit has at most four bytes.
pub proof fn lemma_minimal_be_width(n: nat)
    requires
        n < LENGTH_LIMIT,
    ensures
        minimal_be(n).len() <= 4,
        n > 0 ==> minimal_be(n).len() >= 1,
{
    reveal_with_fuel(minimal_be, 6);
}

/// A header starts with a byte that tells the kind and either the length or
/// the width of the length, which then follows.
pub proof fn lemma_header(base: u8, len: nat)
    requires
        base == STRING_BASE || base == LIST_BASE,
        len < LENGTH_LIMIT,
    ensures
        len <= SHORT_LIMIT ==> header(base, len) == seq![(base + len) as u8],
        len > SHORT_LIMIT ==> {
            let width = minimal_be(len).len() as int;
            &&& 1 <= width <= 4
            &&& header(base, len).len() == 1 + width
            &&& header(base, len)[0] == base + SHORT_LIMIT + width
            &&& header(base, len).subrange(1, 1 + width) == minimal_be(len)
            &&& be_value(minimal_be(len)) == len
        },
{
    if len > SHORT_LIMIT {
        lemma_minimal_be_width(len);
        lemma_value_of_minimal_be(len);
        assert(written_length(len) == minimal_be(len));
        let width = minimal_be(len).len() as int;
        assert(header(base, len).subrange(1, 1 + width) =~= minimal_be(len));
    }
}

/// An encoded item is never empty, and is at least as long as its content.
pub proof fn lemma_encode_len(item: Item)
    ensures
        encode(item).len() >= 1,
        encode(item).len() >= content(item).len(),
{
}

/// An item at the head of a run of bytes is split off as it was encoded.
pub proof fn lemma_split_first_encode(item: Item, rest: Seq<u8>)
    requires
        content(item).len() < LENGTH_LIMIT,
    ensures
        split_first(encode(item) + rest) == Some((item is List, content(item), rest)),
{
    let inner = content(item);
    let bytes = encode(item) + rest;
    let len = inner.len();
    match item {
        Item::Bytes(b) => {
            if b.len() == 1 && b[0] < STRING_BASE {
                assert(bytes.take(1) =~= b);
                assert(bytes.skip(1) =~= rest);
            } else {
                lemma_split_after_header(STRING_BASE, inner, rest);
            }
        },
        Item::List(_) => {
            lemma_split_after_header(LIST_BASE, inner, rest);
        },
    }
}

/// A header, the content that it announces and more bytes are split after
/// the content.
proof fn lemma_split_after_header(base: u8, inner: Seq<u8>, rest: Seq<u8>)
    requires
        base == STRING_BASE || base == LIST_BASE,
        inner.len() < LENGTH_LIMIT,
    ensures
        split_first(header(base, inner.len()) + inner + rest) == Some(
            (base == LIST_BASE, inner, rest),
        ),
{
    let len = inner.len() as int;
    let head = header(base, inner.len());
    let bytes = head + inner + rest;
    lemma_header(base, inner.len());
    if len <= SHORT_LIMIT {
        assert(bytes[0] == head[0]);
        assert(bytes.subrange(1, 1 + len) =~= inner);
        assert(bytes.skip(1 + len) =~= rest);
    } else {
        let width = minimal_be(inner.len()).len() as int;
        assert(bytes[0] == head[0]);
        assert(bytes.subrange(1, 1 + width) =~= head.subrange(1, 1 + width));
        assert(bytes.subrange(1 + width, 1 + width + len) =~= inner);
        assert(bytes.skip(1 + width + len) =~= rest);
    }
}

/// Encoded items that fit are read back as they were, in order.
pub proof fn lemma_decode_all_encode_all(items: Seq<Item>)
    requires
        forall|i: int| 0 <= i < items.len() ==> fits(#[trigger] items[i]),
    ensures
        decode_all(encode_all(items)) == Some(items),
    decreases items,
{
    if items.len() > 0 {
        let first = items[0];
        let others = items.drop_first();
        let bytes = encode_all(items);
        assert(fits(first));
        assert forall|i: int| 0 <= i < others.len() implies fits(#[trigger] others[i]) by {
            assert(others[i] == items[i + 1]);
        }
        lemma_encode_len(first);
        lemma_split_first_encode(first, encode_all(others));
        lemma_decode_all_encode_all(others);
        match first {
            Item::Bytes(_) => {},
            Item::List(children) => {
                lemma_decode_all_encode_all(children);
            },
        }
        assert(seq![first] + others =~= items);
    }
}

/// An encoded item that fits is read back as it was.
pub proof fn lemma_decode_encode(item: Item)
    requires
        fits(item),
    ensures
        decode(encode(item)) == Some(item),
{
    let one = seq![item];
    assert(one.drop_first() =~= Seq::<Item>::empty());
    assert(encode_all(one.drop_first()) =~= Seq::<u8>::empty());
    assert(encode_all(one) =~= encode(item));
    lemma_decode_all_encode_all(one);
}

/// The encoding of a run of items is at least as long as the encoding of
/// each of them.
pub proof fn lemma_encode_all_len(items: Seq<Item>, i: int)
    requires
        0 <= i < items.len(),
    ensures
        encode_all(items).len() >= encode(items[i]).len(),
    decreases items.len(),
{
    if i > 0 {
        lemma_encode_all_len(items.drop_first(), i - 1);
    }
}

/// An item whose content is shorter than the limit fits: nothing in it is
/// longer than the whole.
pub proof fn lemma_fits(item: Item)
    requires
        content(item).len() < LENGTH_LIMIT,
    ensures
        fits(item),
    decreases item,
{
    match item {
        Item::Bytes(_) => {},
        Item::List(items) => {
            assert forall|i: int| 0 <= i < items.len() implies fits(#[trigger] items[i]) by {
                lemma_encode_all_len(items, i);
                lemma_encode_len(items[i]);
                lemma_fits(items[i]);
            }
        },
    }
}

} // verus!
