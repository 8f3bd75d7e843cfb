//! Access lists: the addresses and storage keys that a transaction declares
//! it will touch.

use vstd::prelude::*;
use vstd::std_specs::convert::FromSpecImpl;
use crate::encoding::{encode, Item};
use crate::primitives::{Address, H256};
use crate::stream::{append_bytes, begin_list, into_bytes, new_stream, sink, Sink};

verus! {

/// What an access-list item is: the bytes of its address and of each of its
/// storage keys, in the order given.
pub struct AccessListItemView {
    pub address: Seq<u8>,
    pub storage_keys: Seq<Seq<u8>>,
}

/// One address with the storage keys accessed under it. The keys keep the
/// order in which they were given, and a key may occur twice.
#[derive(Clone, Debug, PartialEq, Eq)]
pub struct AccessListItem {
    /// Accessed address
    pub address: Address,
    /// Accessed storage keys
    pub storage_keys: Vec<H256>,
}

impl View for AccessListItem {
    type V = AccessListItemView;

    open spec fn view(&self) -> AccessListItemView {
        AccessListItemView {
            address: self.address@,
            storage_keys: self.storage_keys@.map_values(|key: H256| key@),
        }
    }
}

/// An ordered list of access-list items. Two lists are equal only where
/// their items and the order of the items are.
#[derive(Clone, Debug, PartialEq, Eq)]
pub struct AccessList(pub Vec<AccessListItem>);

impl View for AccessList {
    type V = Seq<AccessListItemView>;

    open spec fn view(&self) -> Seq<AccessListItemView> {
        self.0@.map_values(|item: AccessListItem| item@)
    }
}

impl From<Vec<AccessListItem>> for AccessList {
    fn from(src: Vec<AccessListItem>) -> (list: AccessList) {
        AccessList(src)
    }
}

impl FromSpecImpl<Vec<AccessListItem>> for AccessList {
    open spec fn obeys_from_spec() -> bool {
        true
    }

    open spec fn from_spec(src: Vec<AccessListItem>) -> AccessList {
        AccessList(src)
    }
}

impl Default for AccessList {
    fn default() -> (list: AccessList)
        ensures
            list@ == Seq::<AccessListItemView>::empty(),
    {
        let list = AccessList(Vec::new());
        assert(list@ =~= Seq::<AccessListItemView>::empty());
        list
    }
}

impl Default for AccessListItem {
    fn default() -> (item: AccessListItem)
        ensures
            item.address@ == Seq::new(20, |i: int| 0u8),
            item.storage_keys@ == Seq::<H256>::empty(),
    {
        AccessListItem { address: Address::zero(), storage_keys: Vec::new() }
    }
}

impl AccessListItemView {
    /// The item that is encoded: the list of the address and of the list of
    /// the storage keys.
    pub open spec fn item(self) -> Item {
        Item::List(seq![Item::Bytes(self.address), Item::List(self.key_items())])
    }

    /// The storage keys as items, in order.
    pub open spec fn key_items(self) -> Seq<Item> {
        self.storage_keys.map_values(|key: Seq<u8>| Item::Bytes(key))
    }
}

/// The items of an access list as items to encode, in order.
pub open spec fn entry_items(items: Seq<AccessListItemView>) -> Seq<Item> {
    items.map_values(|item: AccessListItemView| item.item())
}

/// The item that an access list is encoded as: the list of its items. The
/// empty access list is the empty list, the single byte `0xc0`.
pub open spec fn access_list_item(items: Seq<AccessListItemView>) -> Item {
    Item::List(entry_items(items))
}

/// The access-list item that `item` stands for: `None` unless it is a list of
/// two, a string and a list of strings.
pub open spec fn read_entry(item: Item) -> Option<AccessListItemView> {
    match item {
        Item::List(pair) => if pair.len() == 2 && pair[0] is Bytes && pair[1] is List && (
        forall|i: int| 0 <= i < pair[1]->List_0.len() ==> #[trigger] pair[1]->List_0[i] is Bytes) {
            Some(
                AccessListItemView {
                    address: pair[0]->Bytes_0,
                    storage_keys: pair[1]->List_0.map_values(|key: Item| key->Bytes_0),
                },
            )
        } else {
            None
        },
        Item::Bytes(_) => None,
    }
}

/// The access list that `item` stands for: `None` unless it is a list of
/// access-list items.
pub open spec fn read_access_list(item: Item) -> Option<Seq<AccessListItemView>> {
    match item {
        Item::List(entries) => if forall|i: int|
            0 <= i < entries.len() ==> read_entry(#[trigger] entries[i]) is Some {
            Some(entries.map_values(|entry: Item| read_entry(entry)->Some_0))
        } else {
            None
        },
        Item::Bytes(_) => None,
    }
}

/// The item of an access-list item is read back as that item.
pub proof fn lemma_read_entry(entry: AccessListItemView)
    ensures
        read_entry(entry.item()) == Some(entry),
{
    let keys = entry.key_items();
    let back = keys.map_values(|key: Item| key->Bytes_0);
    assert(back =~= entry.storage_keys);
}

/// The item of an access list is read back as that list.
pub proof fn lemma_read_access_list(list: Seq<AccessListItemView>)
    ensures
        read_access_list(access_list_item(list)) == Some(list),
{
    let entries = entry_items(list);
    assert forall|i: int| 0 <= i < entries.len() implies read_entry(#[trigger] entries[i])
        == Some(list[i]) by {
        lemma_read_entry(list[i]);
    }
    let back = entries.map_values(|entry: Item| read_entry(entry)->Some_0);
    assert(back =~= list);
}

impl AccessListItem {
    /// Appends the item to `stream` as one list of two: the address, then the
    /// list of the storage keys.
    pub fn rlp_append(&self, stream: &mut rlp::RlpStream)
        ensures
            sink(*final(stream)) == sink(*old(stream)).put(encode(self@.item())),
    {
        let ghost outer = sink(*stream);
        let ghost keys = self@.key_items();
        let ghost address = Item::Bytes(self@.address);
        begin_list(stream, 2);
        append_bytes(stream, self.address.as_bytes());
        let ghost inner = sink(*stream);
        let count = self.storage_keys.len();
        begin_list(stream, count);
        let mut i: usize = 0;
        while i < count
            invariant
                i <= count,
                count == self.storage_keys.len(),
                keys == self@.key_items(),
                sink(*stream) == inner.begin(count as int).put_all(keys.take(i as int)),
            decreases count - i,
        {
            append_bytes(stream, self.storage_keys[i].as_bytes());
            proof {
                inner.begin(count as int).lemma_put_all_push(keys.take(i as int), keys[i as int]);
                assert(keys.take(i as int).push(keys[i as int]) =~= keys.take(i + 1));
            }
            i = i + 1;
        }
        proof {
            assert(keys.take(count as int) =~= keys);
            inner.lemma_begin_put_all(keys);
            let pair = seq![address, Item::List(keys)];
            let begun = outer.begin(2);
            let first = Seq::<Item>::empty().push(address);
            begun.lemma_put_all_push(Seq::empty(), address);
            begun.lemma_put_all_push(first, Item::List(keys));
            assert(first.push(Item::List(keys)) =~= pair);
            assert(begun.put_all(Seq::empty()) == begun);
            assert(sink(*stream) == begun.put_all(pair));
            outer.lemma_begin_put_all(pair);
        }
    }

    /// The encoding of the item.
    pub fn rlp_bytes(&self) -> (bytes: Vec<u8>)
        ensures
            bytes@ == encode(self@.item()),
    {
        let mut stream = new_stream();
        self.rlp_append(&mut stream);
        proof {
            Sink::lemma_empty_put(encode(self@.item()));
        }
        into_bytes(stream)
    }
}

impl AccessList {
    /// Appends the access list to `stream` as one list, of one list per item.
    pub fn rlp_append(&self, stream: &mut rlp::RlpStream)
        ensures
            sink(*final(stream)) == sink(*old(stream)).put(encode(access_list_item(self@))),
    {
        let ghost outer = sink(*stream);
        let ghost items = entry_items(self@);
        let count = self.0.len();
        begin_list(stream, count);
        let mut i: usize = 0;
        while i < count
            invariant
                i <= count,
                count == self.0.len(),
                items == entry_items(self@),
                sink(*stream) == outer.begin(count as int).put_all(items.take(i as int)),
            decreases count - i,
        {
            self.0[i].rlp_append(stream);
            proof {
                outer.begin(count as int).lemma_put_all_push(
                    items.take(i as int),
                    items[i as int],
                );
                assert(items.take(i as int).push(items[i as int]) =~= items.take(i + 1));
            }
            i = i + 1;
        }
        proof {
            assert(items.take(count as int) =~= items);
            outer.lemma_begin_put_all(items);
        }
    }

    /// The encoding of the access list. The empty list encodes as the single
    /// byte `0xc0`.
    pub fn rlp_bytes(&self) -> (bytes: Vec<u8>)
        ensures
            bytes@ == encode(access_list_item(self@)),
    {
        let mut stream = new_stream();
        self.rlp_append(&mut stream);
        proof {
            Sink::lemma_empty_put(encode(access_list_item(self@)));
        }
        into_bytes(stream)
    }
}

} // verus!
