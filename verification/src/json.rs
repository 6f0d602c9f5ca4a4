//! JSON values as plain data, and the property names they hold.

use vstd::prelude::*;

use crate::text::string_views;

verus! {

/// A JSON value.
#[derive(Debug, PartialEq, Eq)]
pub enum JsonValue {
    Null,
    Bool(bool),
    /// A number, by its JSON text.
    Number(String),
    String(String),
    Array(Vec<JsonValue>),
    /// An object's members (name and value), in order, with distinct names.
    Object(Vec<(String, JsonValue)>),
}

/// The property names that occur in a value at any depth, in document order
/// (each member's name before the names inside its value).
pub open spec fn value_names(v: JsonValue) -> Seq<Seq<char>>
    decreases v,
{
    match v {
        JsonValue::Array(items) => items_names(items@),
        JsonValue::Object(members) => members_names(members@),
        _ => Seq::empty(),
    }
}

/// The property names that occur in a sequence of values, in order.
pub open spec fn items_names(items: Seq<JsonValue>) -> Seq<Seq<char>>
    decreases items,
{
    if items.len() == 0 {
        Seq::empty()
    } else {
        items_names(items.drop_last()) + value_names(items.last())
    }
}

/// The property names that occur in a sequence of object members: each
/// member's name followed by the names inside its value, in order.
pub open spec fn members_names(members: Seq<(String, JsonValue)>) -> Seq<Seq<char>>
    decreases members,
{
    if members.len() == 0 {
        Seq::empty()
    } else {
        members_names(members.drop_last()) + seq![members.last().0@] + value_names(
            members.last().1,
        )
    }
}


/// Each member's name, and every name inside its value at any depth, is
/// among the names of the members.
pub proof fn lemma_members_names_cover(members: Seq<(String, JsonValue)>, i: int)
    requires
        0 <= i < members.len(),
    ensures
        members_names(members).contains(members[i].0@),
        forall|n: Seq<char>|
            #[trigger] value_names(members[i].1).contains(n) ==> members_names(members).contains(n),
    decreases members.len(),
{
    let init = members.drop_last();
    let a = members_names(init);
    let all = members_names(members);
    if i == members.len() - 1 {
        let v = value_names(members.last().1);
        assert(all == a + seq![members.last().0@] + v);
        assert(all[a.len() as int] == members[i].0@);
        assert forall|n: Seq<char>| #[trigger] value_names(members[i].1).contains(n) implies all.contains(
            n,
        ) by {
            let j = choose|j: int| 0 <= j < v.len() && v[j] == n;
            assert(all[a.len() + 1 + j] == n);
        }
    } else {
        lemma_members_names_cover(init, i);
        assert(init[i] == members[i]);
        assert(all == a + (seq![members.last().0@] + value_names(members.last().1)));
        let k = choose|k: int| 0 <= k < a.len() && a[k] == members[i].0@;
        assert(all[k] == members[i].0@);
        assert forall|n: Seq<char>| #[trigger] value_names(members[i].1).contains(n) implies all.contains(
            n,
        ) by {
            assert(a.contains(n));
            let j = choose|j: int| 0 <= j < a.len() && a[j] == n;
            assert(all[j] == n);
        }
    }
}

/// Every name inside an array's items, at any depth, is among the names of
/// the array.
pub proof fn lemma_items_names_cover(items: Seq<JsonValue>, i: int)
    requires
        0 <= i < items.len(),
    ensures
        forall|n: Seq<char>|
            #[trigger] value_names(items[i]).contains(n) ==> items_names(items).contains(n),
    decreases items.len(),
{
    let init = items.drop_last();
    let a = items_names(init);
    let all = items_names(items);
    assert(all == a + value_names(items.last()));
    if i == items.len() - 1 {
        assert forall|n: Seq<char>| #[trigger] value_names(items[i]).contains(n) implies all.contains(
            n,
        ) by {
            let v = value_names(items.last());
            let j = choose|j: int| 0 <= j < v.len() && v[j] == n;
            assert(all[a.len() + j] == n);
        }
    } else {
        lemma_items_names_cover(init, i);
        assert(init[i] == items[i]);
        assert forall|n: Seq<char>| #[trigger] value_names(items[i]).contains(n) implies all.contains(
            n,
        ) by {
            assert(a.contains(n));
            let j = choose|j: int| 0 <= j < a.len() && a[j] == n;
            assert(all[j] == n);
        }
    }
}

/// Whether a value is a scalar (null, boolean, number or string).
pub open spec fn is_scalar(v: JsonValue) -> bool {
    !(v is Array) && !(v is Object)
}

/// Scalar values hold no property names, so string data (such as the value
/// `"pan"`) never counts as a name: where every member's value is a scalar,
/// the names are exactly the members' own names, in order.
pub proof fn lemma_scalar_members_names(members: Seq<(String, JsonValue)>)
    requires
        forall|i: int| 0 <= i < members.len() ==> is_scalar(#[trigger] members[i].1),
    ensures
        members_names(members) == members.map_values(|m: (String, JsonValue)| m.0@),
    decreases members.len(),
{
    if members.len() > 0 {
        let init = members.drop_last();
        assert forall|i: int| 0 <= i < init.len() implies is_scalar(#[trigger] init[i].1) by {
            assert(init[i] == members[i]);
        }
        lemma_scalar_members_names(init);
        assert(is_scalar(members[members.len() - 1].1));
        assert(value_names(members.last().1) =~= Seq::<Seq<char>>::empty());
        assert(members.map_values(|m: (String, JsonValue)| m.0@) =~= init.map_values(
            |m: (String, JsonValue)| m.0@,
        ).push(members.last().0@));
        assert(members_names(members) =~= members_names(init) + seq![members.last().0@]);
    }
}

/// Appends the property names in `v` to `out`.
fn push_value_names(v: &JsonValue, out: &mut Vec<String>)
    ensures
        string_views(final(out)@) == string_views(old(out)@) + value_names(*v),
    decreases v,
{
    match v {
        JsonValue::Array(items) => push_items_names(items, out),
        JsonValue::Object(members) => push_members_names(members, out),
        _ => {
            assert(string_views(out@) =~= string_views(out@) + value_names(*v));
        },
    }
}

/// Appends the property names in `items` to `out`.
fn push_items_names(items: &Vec<JsonValue>, out: &mut Vec<String>)
    ensures
        string_views(final(out)@) == string_views(old(out)@) + items_names(items@),
    decreases items,
{
    let ghost start = string_views(out@);
    let mut i: usize = 0;
    assert(items_names(items@.take(0)) =~= Seq::<Seq<char>>::empty());
    assert(start + items_names(items@.take(0)) =~= start);
    while i < items.len()
        invariant
            i <= items@.len(),
            string_views(out@) == start + items_names(items@.take(i as int)),
        decreases items@.len() - i,
    {
        assert(decreases_to!(items => items@[i as int]));
        push_value_names(&items[i], out);
        assert(items@.take(i + 1).drop_last() =~= items@.take(i as int));
        assert(items@.take(i + 1).last() == items@[i as int]);
        i = i + 1;
        assert(string_views(out@) =~= start + items_names(items@.take(i as int)));
    }
    assert(items@.take(items@.len() as int) =~= items@);
}

/// Appends the property names in `members` to `out`.
fn push_members_names(members: &Vec<(String, JsonValue)>, out: &mut Vec<String>)
    ensures
        string_views(final(out)@) == string_views(old(out)@) + members_names(members@),
    decreases members,
{
    let ghost start = string_views(out@);
    let mut i: usize = 0;
    assert(members_names(members@.take(0)) =~= Seq::<Seq<char>>::empty());
    assert(start + members_names(members@.take(0)) =~= start);
    while i < members.len()
        invariant
            i <= members@.len(),
            string_views(out@) == start + members_names(members@.take(i as int)),
        decreases members@.len() - i,
    {
        let ghost before = string_views(out@);
        let name = members[i].0.clone();
        out.push(name);
        assert(string_views(out@) =~= before + seq![members@[i as int].0@]);
        assert(decreases_to!(members => members@[i as int].1));
        push_value_names(&members[i].1, out);
        assert(members@.take(i + 1).drop_last() =~= members@.take(i as int));
        assert(members@.take(i + 1).last() == members@[i as int]);
        i = i + 1;
        assert(string_views(out@) =~= start + members_names(members@.take(i as int)));
    }
    assert(members@.take(members@.len() as int) =~= members@);
}

/// The property names that occur in an object's members at any depth, in
/// document order.
pub fn property_names(members: &Vec<(String, JsonValue)>) -> (r: Vec<String>)
    ensures
        string_views(r@) == members_names(members@),
{
    let mut out: Vec<String> = Vec::new();
    assert(string_views(out@) =~= Seq::<Seq<char>>::empty());
    push_members_names(members, &mut out);
    assert(Seq::<Seq<char>>::empty() + members_names(members@) =~= members_names(members@));
    out
}


} // verus!
