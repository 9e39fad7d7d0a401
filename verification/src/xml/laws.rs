//! How an element is read.

use vstd::prelude::*;
use crate::chars::{parsed_u32, trimmed};
use crate::xml::{attr_from, elements, elements_in, named, says_true, text_of, Item, Tree};

verus! {

/// The value of an attribute is that of the first of its name; an element without one of
/// that name has none.
pub proof fn law_the_first_attribute_counts(
    attrs: Seq<(Seq<char>, Seq<char>)>,
    name: Seq<char>,
    k: int,
)
    ensures
        0 <= k < attrs.len() && attrs[k].0 == name && (forall|j: int|
            0 <= j < k ==> (#[trigger] attrs[j]).0 != name) ==> attr_from(attrs, name) == Some(
            attrs[k].1,
        ),
        (forall|j: int| 0 <= j < attrs.len() ==> (#[trigger] attrs[j]).0 != name) ==> attr_from(
            attrs,
            name,
        ) is None,
    decreases attrs.len(),
{
    if attrs.len() > 0 {
        let rest = attrs.skip(1);
        law_the_first_attribute_counts(rest, name, k - 1);
        if 0 < k < attrs.len() && attrs[k].0 == name && (forall|j: int|
            0 <= j < k ==> (#[trigger] attrs[j]).0 != name) {
            assert(attrs[0].0 != name);
            assert(rest[k - 1] == attrs[k]);
            assert forall|j: int| 0 <= j < k - 1 implies (#[trigger] rest[j]).0 != name by {
                assert(rest[j] == attrs[j + 1]);
            }
        }
        if forall|j: int| 0 <= j < attrs.len() ==> (#[trigger] attrs[j]).0 != name {
            assert(attrs[0].0 != name);
            assert forall|j: int| 0 <= j < rest.len() implies (#[trigger] rest[j]).0 != name by {
                assert(rest[j] == attrs[j + 1]);
            }
        }
    }
}

/// The child of a name is the first of that name.
pub proof fn law_the_first_child_counts(v: Seq<Tree>, name: Seq<char>, k: int)
    ensures
        0 <= k < v.len() && v[k].name == name && (forall|j: int|
            0 <= j < k ==> (#[trigger] v[j]).name != name) ==> named(v, name) == Some(v[k]),
        (forall|j: int| 0 <= j < v.len() ==> (#[trigger] v[j]).name != name) ==> named(
            v,
            name,
        ) is None,
    decreases v.len(),
{
    if v.len() > 0 {
        let rest = v.skip(1);
        law_the_first_child_counts(rest, name, k - 1);
        if 0 < k < v.len() && v[k].name == name && (forall|j: int|
            0 <= j < k ==> (#[trigger] v[j]).name != name) {
            assert(v[0].name != name);
            assert(rest[k - 1] == v[k]);
            assert forall|j: int| 0 <= j < k - 1 implies (#[trigger] rest[j]).name != name by {
                assert(rest[j] == v[j + 1]);
            }
        }
        if forall|j: int| 0 <= j < v.len() ==> (#[trigger] v[j]).name != name {
            assert(v[0].name != name);
            assert forall|j: int| 0 <= j < rest.len() implies (#[trigger] rest[j]).name != name by {
                assert(rest[j] == v[j + 1]);
            }
        }
    }
}

/// The text inside an element is that of its children, one after the other, at any depth;
/// and its elements are its children that are elements, in their order.
pub proof fn law_children_come_in_order(v: Seq<Item>, s: Seq<char>, t: Tree)
    ensures
        text_of(v.push(Item::Text(s))) == text_of(v) + s,
        text_of(v.push(Item::Element(t))) == text_of(v) + t.inner_text(),
        text_of(Seq::<Item>::empty()).len() == 0,
        elements(v.push(Item::Text(s))) == elements(v),
        elements(v.push(Item::Element(t))) == elements(v).push(t),
        elements_in(v.push(Item::Text(s))) == elements_in(v),
        elements_in(v.push(Item::Element(t))) == elements_in(v) + (seq![t] + t.inside()),
{
    assert(v.push(Item::Text(s)).drop_last() =~= v);
    assert(v.push(Item::Element(t)).drop_last() =~= v);
    assert(elements_in(v.push(Item::Text(s))) =~= elements_in(v));
}

/// What says yes.
pub proof fn law_what_says_yes(v: Seq<char>, e: Tree, name: Seq<char>)
    ensures
        says_true(v) <==> trimmed(v) == "true"@ || trimmed(v) == "1"@ || trimmed(v) == "on"@,
        e.attr(name) is None ==> e.attr_bool(name) is None && e.attr_u32(name) is None
            && e.text_attr(name).len() == 0,
        e.attr(name) is Some ==> e.text_attr(name) == e.attr(name)->0 && e.attr_u32(name)
            == parsed_u32(trimmed(e.attr(name)->0)),
        e.attr(name) == Some("true"@) ==> e.attr_bool(name) == Some(true),
        e.attr(name) == Some("false"@) ==> e.attr_bool(name) == Some(false),
{
    reveal_strlit("true");
    reveal_strlit("false");
    reveal_strlit("1");
    reveal_strlit("on");
    crate::chars::lemma_trimmed_already("true"@);
    crate::chars::lemma_trimmed_already("false"@);
    assert("true"@.len() == 4 && "false"@.len() == 5 && "1"@.len() == 1 && "on"@.len() == 2);
}

} // verus!
