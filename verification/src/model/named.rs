//! Things that are found by their name in an ordered list.

use vstd::prelude::*;
use vstd::string::*;

verus! {

/// A value that carries a name.
pub trait Named {
    /// The name.
    spec fn label(&self) -> Seq<char>;

    /// The name.
    fn name_ref(&self) -> (r: &String)
        ensures
            r@ == self.label(),
    ;
}

/// The names of the items, in order.
pub open spec fn labels<T: Named>(items: Seq<T>) -> Seq<Seq<char>> {
    Seq::new(items.len(), |i: int| items[i].label())
}

/// Whether no two of the items have the same name.
pub open spec fn distinct<T: Named>(items: Seq<T>) -> bool {
    forall|i: int, j: int|
        0 <= i < j < items.len() ==> (#[trigger] items[i]).label() != (#[trigger] items[j]).label()
}

/// Whether one of the items is called `name`.
pub open spec fn holds<T: Named>(items: Seq<T>, name: Seq<char>) -> bool {
    exists|i: int| 0 <= i < items.len() && (#[trigger] items[i]).label() == name
}

/// Whether `i` is the first position of an item called `name`.
pub open spec fn first_at<T: Named>(items: Seq<T>, name: Seq<char>, i: int) -> bool {
    &&& 0 <= i < items.len()
    &&& items[i].label() == name
    &&& forall|j: int| 0 <= j < i ==> (#[trigger] items[j]).label() != name
}

/// The first position of an item called `name`; the length of the list when
/// there is none.
pub open spec fn position_of<T: Named>(items: Seq<T>, name: Seq<char>) -> int
    decreases items.len(),
{
    if items.len() == 0 {
        0
    } else if items[0].label() == name {
        0
    } else {
        1 + position_of(items.drop_first(), name)
    }
}

/// `position_of` gives the first position of the name, if the name occurs.
pub proof fn lemma_position_of<T: Named>(items: Seq<T>, name: Seq<char>)
    ensures
        0 <= position_of(items, name) <= items.len(),
        position_of(items, name) < items.len() <==> holds(items, name),
        position_of(items, name) < items.len() ==> first_at(items, name, position_of(items, name)),
    decreases items.len(),
{
    if items.len() == 0 {
    } else if items[0].label() == name {
        assert(items[0].label() == name);
    } else {
        let rest = items.drop_first();
        lemma_position_of(rest, name);
        let p = position_of(rest, name);
        if p < rest.len() {
            assert(rest[p] == items[p + 1]);
            assert(items[p + 1].label() == name);
            assert forall|j: int| 0 <= j < p + 1 implies (#[trigger] items[j]).label() != name by {
                if j > 0 {
                    assert(rest[j - 1] == items[j]);
                }
            }
        } else {
            assert forall|i: int| 0 <= i < items.len() implies (#[trigger] items[i]).label()
                != name by {
                if i > 0 {
                    assert(rest[i - 1] == items[i]);
                }
            }
        }
    }
}

/// The first position of a name is the only one that is first.
pub proof fn lemma_first_at_unique<T: Named>(items: Seq<T>, name: Seq<char>, i: int)
    requires
        first_at(items, name, i),
    ensures
        position_of(items, name) == i,
{
    lemma_position_of(items, name);
    let p = position_of(items, name);
    assert(holds(items, name));
    if p < i {
        assert(items[p].label() != name);
    } else if i < p {
        assert(items[i].label() != name);
    }
}

/// Where a name stands depends on the names of the items only.
pub proof fn lemma_position_by_labels<T: Named, U: Named>(a: Seq<T>, b: Seq<U>, name: Seq<char>)
    requires
        labels(a) == labels(b),
    ensures
        position_of(a, name) == position_of(b, name),
        holds(a, name) == holds(b, name),
    decreases a.len(),
{
    assert(a.len() == labels(a).len());
    assert(b.len() == labels(b).len());
    if a.len() > 0 {
        assert(labels(a)[0] == a[0].label());
        assert(labels(b)[0] == b[0].label());
        if a[0].label() != name {
            assert(labels(a.drop_first()) =~= labels(a).drop_first());
            assert(labels(b.drop_first()) =~= labels(b).drop_first());
            lemma_position_by_labels(a.drop_first(), b.drop_first(), name);
        }
    }
    lemma_position_of(a, name);
    lemma_position_of(b, name);
}

/// An item added at the end is found under its name unless an earlier item has
/// it, and leaves every other name where it stood.
pub proof fn lemma_position_pushed<T: Named>(items: Seq<T>, item: T, name: Seq<char>)
    ensures
        holds(items.push(item), name) == (holds(items, name) || item.label() == name),
        holds(items, name) ==> position_of(items.push(item), name) == position_of(items, name),
        !holds(items, name) && item.label() == name ==> position_of(items.push(item), name)
            == items.len(),
{
    let more = items.push(item);
    lemma_position_of(items, name);
    lemma_position_of(more, name);
    if holds(items, name) {
        let p = position_of(items, name);
        assert(more[p] == items[p]);
        assert forall|j: int| 0 <= j < p implies (#[trigger] more[j]).label() != name by {
            assert(more[j] == items[j]);
        }
        lemma_first_at_unique(more, name, p);
    } else if item.label() == name {
        assert(more[items.len() as int] == item);
        assert forall|j: int| 0 <= j < items.len() implies (#[trigger] more[j]).label() != name by {
            assert(more[j] == items[j]);
        }
        lemma_first_at_unique(more, name, items.len() as int);
    } else {
        assert forall|j: int| 0 <= j < more.len() implies (#[trigger] more[j]).label() != name by {
            if j < items.len() {
                assert(more[j] == items[j]);
            }
        }
    }
}

/// Finds the first item called `name`.
pub fn find_named<T: Named>(items: &Vec<T>, name: &str) -> (r: Option<usize>)
    ensures
        match r {
            Some(i) => first_at(items@, name@, i as int) && position_of(items@, name@) == i,
            None => !holds(items@, name@) && position_of(items@, name@) == items@.len(),
        },
{
    let wanted = String::from_str(name);
    let mut i: usize = 0;
    while i < items.len()
        invariant
            i <= items@.len(),
            wanted@ == name@,
            forall|j: int| 0 <= j < i ==> (#[trigger] items@[j]).label() != name@,
        decreases items@.len() - i,
    {
        if *items[i].name_ref() == wanted {
            proof {
                lemma_first_at_unique(items@, name@, i as int);
            }
            return Some(i);
        }
        i += 1;
    }
    proof {
        lemma_position_of(items@, name@);
    }
    None
}

/// Adds `item` at the end unless an item of its name is there already; says
/// whether it was added.
pub fn add_named<T: Named>(items: &mut Vec<T>, item: T) -> (r: bool)
    ensures
        r == !holds(old(items)@, item.label()),
        r ==> final(items)@ == old(items)@.push(item),
        !r ==> final(items)@ == old(items)@,
        distinct(old(items)@) ==> distinct(final(items)@),
{
    let found = find_named(items, item.name_ref().as_str());
    match found {
        Some(_) => false,
        None => {
            items.push(item);
            true
        },
    }
}

/// Whether `after` is `before` with `item` put under its name: the item stands
/// under its name, and what stood under any other name still does.
pub open spec fn is_put<T: Named>(before: Seq<T>, item: T, after: Seq<T>) -> bool {
    &&& holds(after, item.label())
    &&& after[position_of(after, item.label())] == item
    &&& forall|other: Seq<char>|
        other != item.label() ==> holds(after, other) == holds(before, other) && (holds(
            before,
            other,
        ) ==> after[position_of(after, other)] == before[position_of(before, other)])
}

/// Puts the item under its name, in place of the item that stood there.
pub fn put_named<T: Named>(items: &mut Vec<T>, item: T)
    ensures
        is_put(old(items)@, item, final(items)@),
        distinct(old(items)@) ==> distinct(final(items)@),
{
    let ghost before = items@;
    let ghost name = item.label();
    match find_named(items, item.name_ref().as_str()) {
        Some(i) => {
            items.set(i, item);
            proof {
                assert(labels(items@) =~= labels(before));
                assert forall|other: Seq<char>|
                    holds(items@, other) == holds(before, other) && position_of(items@, other)
                        == position_of(before, other) by {
                    lemma_position_by_labels(items@, before, other);
                }
                lemma_position_of(before, name);
                assert forall|other: Seq<char>| other != name && holds(before, other) implies items@[position_of(
                    items@,
                    other,
                )] == before[position_of(before, other)] by {
                    lemma_position_of(before, other);
                }
                assert forall|a: int, b: int| 0 <= a < b < items@.len() && distinct(
                    before,
                ) implies (#[trigger] items@[a]).label() != (#[trigger] items@[b]).label() by {
                    assert(labels(items@)[a] == items@[a].label());
                    assert(labels(items@)[b] == items@[b].label());
                    assert(labels(before)[a] == before[a].label());
                    assert(labels(before)[b] == before[b].label());
                }
            }
        },
        None => {
            items.push(item);
            proof {
                assert forall|other: Seq<char>|
                    holds(items@, other) == (holds(before, other) || other == name) && (holds(
                        before,
                        other,
                    ) ==> position_of(items@, other) == position_of(before, other)) by {
                    lemma_position_pushed(before, item, other);
                }
                lemma_position_pushed(before, item, name);
                assert forall|other: Seq<char>| other != name && holds(before, other) implies items@[position_of(
                    items@,
                    other,
                )] == before[position_of(before, other)] by {
                    lemma_position_of(before, other);
                }
            }
        },
    }
}

} // verus!
