//! The append-only encoder of the `rlp` crate, seen through a model of what
//! it has been given.
//!
//! The encoder writes the length of a string or of a list in at most four
//! bytes, the low 32 bits of the length. The model says the same: see
//! `written_length`.

use vstd::prelude::*;
use crate::encoding::{
    encode, encode_all, lemma_encode_all_push, list_item, minimal_be, string_item, Item,
};

verus! {

/// `rlp::RlpStream`, the encoder. What is inside it is not seen here: the two
/// functions below name what it holds.
#[verifier::external_type_specification]
#[verifier::external_body]
pub struct ExRlpStream(rlp::RlpStream);

/// The encoded items that the stream holds outside of any unfinished list.
pub uninterp spec fn finished_bytes(stream: rlp::RlpStream) -> Seq<u8>;

/// The lists that were begun and are not complete yet, the outermost first:
/// of each, how many items it still expects and the payload it has so far.
pub uninterp spec fn unfinished_lists(stream: rlp::RlpStream) -> Seq<(int, Seq<u8>)>;

/// What a stream holds.
pub struct Sink {
    pub done: Seq<u8>,
    pub open: Seq<(int, Seq<u8>)>,
}

impl Sink {
    /// A stream that was given nothing.
    pub open spec fn empty() -> Sink {
        Sink { done: Seq::empty(), open: Seq::empty() }
    }

    /// The stream after one more encoded item. The item joins the innermost
    /// unfinished list; where it is the last that the list expects, the list
    /// is complete and becomes, under its header, an item of the level above.
    pub open spec fn put(self, item: Seq<u8>) -> Sink
        decreases self.open.len(),
    {
        if self.open.len() == 0 {
            Sink { done: self.done + item, open: self.open }
        } else {
            let (expected, payload) = self.open.last();
            let outer = Sink { done: self.done, open: self.open.drop_last() };
            if expected == 1 {
                outer.put(list_item(payload + item))
            } else {
                Sink { done: self.done, open: outer.open.push((expected - 1, payload + item)) }
            }
        }
    }

    /// The stream with one more unfinished list, innermost, that still
    /// expects `expected` items and has `payload` so far.
    pub open spec fn within(self, expected: int, payload: Seq<u8>) -> Sink {
        Sink { done: self.done, open: self.open.push((expected, payload)) }
    }

    /// The stream after a list of `len` items was begun. An empty list is
    /// complete at once.
    pub open spec fn begin(self, len: int) -> Sink {
        if len == 0 {
            self.put(list_item(Seq::empty()))
        } else {
            self.within(len, Seq::empty())
        }
    }

    /// An item put into the innermost list either completes it or leaves it
    /// expecting one item less.
    pub proof fn lemma_within_put(self, expected: int, payload: Seq<u8>, item: Seq<u8>)
        ensures
            self.within(expected, payload).put(item) == if expected == 1 {
                self.put(list_item(payload + item))
            } else {
                self.within(expected - 1, payload + item)
            },
    {
        let inner = self.within(expected, payload);
        assert(inner.open.drop_last() =~= self.open);
        assert(Sink { done: inner.done, open: inner.open.drop_last() } == self);
    }

    /// The stream after each of `items`, in order.
    pub open spec fn put_all(self, items: Seq<Item>) -> Sink
        decreases items.len(),
    {
        if items.len() == 0 {
            self
        } else {
            self.put_all(items.drop_last()).put(encode(items.last()))
        }
    }

    /// One more item at the end is put last.
    pub proof fn lemma_put_all_push(self, items: Seq<Item>, last: Item)
        ensures
            self.put_all(items.push(last)) == self.put_all(items).put(encode(last)),
    {
        assert(items.push(last).drop_last() =~= items);
    }

    /// Items put into the innermost list, fewer than it expects, join its
    /// payload.
    pub proof fn lemma_within_put_all(
        self,
        expected: int,
        payload: Seq<u8>,
        items: Seq<Item>,
    )
        requires
            items.len() < expected,
        ensures
            self.within(expected, payload).put_all(items) == self.within(
                expected - items.len(),
                payload + encode_all(items),
            ),
        decreases items.len(),
    {
        if items.len() == 0 {
            assert(payload + encode_all(items) =~= payload);
        } else {
            let front = items.drop_last();
            self.lemma_within_put_all(expected, payload, front);
            self.lemma_within_put(
                expected - front.len(),
                payload + encode_all(front),
                encode(items.last()),
            );
            lemma_encode_all_push(front, items.last());
            assert(front.push(items.last()) =~= items);
            assert(payload + encode_all(front) + encode(items.last()) =~= payload + encode_all(
                items,
            ));
        }
    }

    /// A list that is begun and then given as many items as it expects is one
    /// item of the level above: the list of those items.
    pub proof fn lemma_begin_put_all(self, items: Seq<Item>)
        ensures
            self.begin(items.len() as int).put_all(items) == self.put(encode(Item::List(items))),
    {
        if items.len() > 0 {
            let front = items.drop_last();
            self.lemma_within_put_all(items.len() as int, Seq::empty(), front);
            self.lemma_within_put(1, Seq::empty() + encode_all(front), encode(items.last()));
            lemma_encode_all_push(front, items.last());
            assert(front.push(items.last()) =~= items);
            assert(Seq::<u8>::empty() + encode_all(front) + encode(items.last()) =~= encode_all(
                items,
            ));
        }
    }

    /// Outside of any list, an item is appended to the bytes that are done.
    pub proof fn lemma_empty_put(item: Seq<u8>)
        ensures
            Sink::empty().put(item) == (Sink { done: item, open: Seq::empty() }),
    {
        assert(Seq::<u8>::empty() + item =~= item);
    }
}

/// The model of a stream.
pub open spec fn sink(stream: rlp::RlpStream) -> Sink {
    Sink { done: finished_bytes(stream), open: unfinished_lists(stream) }
}

/// `RlpStream::new`: a stream with nothing in it and no list begun.
#[verifier::external_body]
pub(crate) fn new_stream() -> (stream: rlp::RlpStream)
    ensures
        finished_bytes(stream) == Seq::<u8>::empty(),
        unfinished_lists(stream) == Seq::<(int, Seq<u8>)>::empty(),
{
    rlp::RlpStream::new()
}

/// `RlpStream::begin_list`: opens a list that expects `len` items; with
/// `len` zero it appends the empty list as one item.
#[verifier::external_body]
pub(crate) fn begin_list(stream: &mut rlp::RlpStream, len: usize)
    ensures
        finished_bytes(*final(stream)) == sink(*old(stream)).begin(len as int).done,
        unfinished_lists(*final(stream)) == sink(*old(stream)).begin(len as int).open,
{
    stream.begin_list(len);
}

/// `RlpStream::append` on a byte slice: appends the bytes as one string item.
#[verifier::external_body]
pub(crate) fn append_bytes(stream: &mut rlp::RlpStream, value: &[u8])
    ensures
        finished_bytes(*final(stream)) == sink(*old(stream)).put(string_item(value@)).done,
        unfinished_lists(*final(stream)) == sink(*old(stream)).put(string_item(value@)).open,
{
    stream.append(&value);
}

/// `RlpStream::append` on a `u64`: appends the integer as one string item,
/// its big-endian bytes without the leading zero bytes.
#[verifier::external_body]
pub(crate) fn append_u64(stream: &mut rlp::RlpStream, value: u64)
    ensures
        finished_bytes(*final(stream)) == sink(*old(stream)).put(
            string_item(minimal_be(value as nat)),
        ).done,
        unfinished_lists(*final(stream)) == sink(*old(stream)).put(
            string_item(minimal_be(value as nat)),
        ).open,
{
    stream.append(&value);
}

/// `RlpStream::out`: hands out the bytes of a stream in which every list
/// that was begun is complete. On any other stream it panics.
#[verifier::external_body]
pub(crate) fn into_bytes(stream: rlp::RlpStream) -> (bytes: Vec<u8>)
    requires
        unfinished_lists(stream).len() == 0,
    ensures
        bytes@ == finished_bytes(stream),
{
    stream.out().to_vec()
}

} // verus!
