//! Documents: the object form in which transactions are written out and read
//! back, a tree of texts, lists and objects.

use vstd::prelude::*;
use vstd::string::StringExecFns;

verus! {

/// What a document is: its texts as sequences of characters, and its objects
/// as maps from field names to values. Where a field name occurs twice in an
/// object, the later value counts.
pub enum ValueView {
    Null,
    Bool(bool),
    Number(Seq<char>),
    Text(Seq<char>),
    List(Seq<ValueView>),
    Object(Map<Seq<char>, ValueView>),
}

/// A value of a document.
#[derive(Debug, PartialEq, Eq)]
pub enum Value {
    /// No value.
    Null,
    /// A truth value.
    Bool(bool),
    /// A number, as it is written.
    Number(String),
    /// A text.
    Text(String),
    /// A list of values.
    List(Vec<Value>),
    /// An object: field names with their values.
    Object(Vec<(String, Value)>),
}

/// The values of a list, each as what it is.
pub open spec fn list_view(items: Seq<Value>) -> Seq<ValueView>
    decreases items,
{
    if items.len() == 0 {
        Seq::empty()
    } else {
        list_view(items.drop_last()).push(items.last()@)
    }
}

/// The fields of an object as a map: a later field of the same name replaces
/// an earlier one.
pub open spec fn object_view(fields: Seq<(String, Value)>) -> Map<Seq<char>, ValueView>
    decreases fields,
{
    if fields.len() == 0 {
        Map::empty()
    } else {
        object_view(fields.drop_last()).insert(fields.last().0@, fields.last().1@)
    }
}

impl View for Value {
    type V = ValueView;

    open spec fn view(&self) -> ValueView
        decreases self,
    {
        match self {
            Value::Null => ValueView::Null,
            Value::Bool(b) => ValueView::Bool(*b),
            Value::Number(text) => ValueView::Number(text@),
            Value::Text(text) => ValueView::Text(text@),
            Value::List(items) => ValueView::List(list_view(items@)),
            Value::Object(fields) => ValueView::Object(object_view(fields@)),
        }
    }
}

/// The value of the field `name` of an object, if the object has that field.
pub open spec fn field(object: Map<Seq<char>, ValueView>, name: Seq<char>) -> Option<ValueView> {
    if object.contains_key(name) {
        Some(object[name])
    } else {
        None
    }
}

/// One more value at the end of a list is one more at the end of what the
/// list is.
pub proof fn lemma_list_view_push(items: Seq<Value>, last: Value)
    ensures
        list_view(items.push(last)) == list_view(items).push(last@),
{
    assert(items.push(last).drop_last() =~= items);
}

/// A list is, value by value, what its values are.
pub proof fn lemma_list_view_index(items: Seq<Value>)
    ensures
        list_view(items).len() == items.len(),
        forall|i: int| 0 <= i < items.len() ==> #[trigger] list_view(items)[i] == items[i]@,
    decreases items.len(),
{
    if items.len() > 0 {
        lemma_list_view_index(items.drop_last());
        assert(list_view(items) == list_view(items.drop_last()).push(items.last()@));
    } else {
        assert(list_view(items) == Seq::<ValueView>::empty());
    }
}

/// One more field at the end of an object sets that field.
pub proof fn lemma_object_view_push(fields: Seq<(String, Value)>, name: String, value: Value)
    ensures
        object_view(fields.push((name, value))) == object_view(fields).insert(name@, value@),
{
    assert(fields.push((name, value)).drop_last() =~= fields);
}

/// The value of the field `name` in `fields`, if there is one: the last that
/// has that name.
pub fn find<'a>(fields: &'a Vec<(String, Value)>, name: &str) -> (found: Option<&'a Value>)
    ensures
        match found {
            Some(value) => field(object_view(fields@), name@) == Some(value@),
            None => field(object_view(fields@), name@) is None,
        },
{
    let wanted = String::from_str(name);
    let mut i: usize = fields.len();
    proof {
        assert(fields@.take(i as int) =~= fields@);
    }
    while i > 0
        invariant
            i <= fields.len(),
            wanted@ == name@,
            field(object_view(fields@), name@) == field(object_view(fields@.take(i as int)), name@),
        decreases i,
    {
        i = i - 1;
        proof {
            let longer = fields@.take(i + 1);
            assert(longer.drop_last() =~= fields@.take(i as int));
            assert(object_view(longer) == object_view(longer.drop_last()).insert(
                longer.last().0@,
                longer.last().1@,
            ));
        }
        if fields[i].0 == wanted {
            return Some(&fields[i].1);
        }
    }
    proof {
        assert(object_view(fields@.take(0)) == Map::<Seq<char>, ValueView>::empty());
    }
    None
}

} // verus!
