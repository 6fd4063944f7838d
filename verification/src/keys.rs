//! Key identifiers and ordered lists of them.

use crate::model::{has_marker, names_of, GROUPING_MARKER};
use vstd::prelude::*;

verus! {

/// The predicate that holds of every identifier but `name`.
pub open spec fn other_than(name: Seq<char>) -> spec_fn(Seq<char>) -> bool {
    |key: Seq<char>| key != name
}

/// `keys` with every occurrence of `name` taken out, the rest in order.
pub open spec fn without(keys: Seq<Seq<char>>, name: Seq<char>) -> Seq<Seq<char>> {
    keys.filter(other_than(name))
}

/// Whether a key identifier is of the unrecognized form.
pub fn contains_marker(name: &String) -> (marked: bool)
    ensures
        marked == has_marker(name@),
{
    let mut marked = false;
    for c in it: name.as_str().chars()
        invariant
            it.seq() == name@,
            marked <==> exists|j: int| 0 <= j < it.index() && name@[j] == GROUPING_MARKER,
    {
        if c == GROUPING_MARKER {
            marked = true;
        }
    }
    marked
}

/// Whether `name` is among `keys`.
pub fn contains_name(keys: &Vec<String>, name: &String) -> (found: bool)
    ensures
        found == names_of(keys@).contains(name@),
{
    let mut i: usize = 0;
    while i < keys.len()
        invariant
            i <= keys.len(),
            forall|j: int| 0 <= j < i ==> names_of(keys@)[j] != name@,
        decreases keys.len() - i,
    {
        if keys[i] == *name {
            assert(names_of(keys@)[i as int] == name@);
            return true;
        }
        i += 1;
    }
    false
}

/// Whether two lists hold the same identifiers in the same order.
pub fn same_names(left: &Vec<String>, right: &Vec<String>) -> (same: bool)
    ensures
        same == (names_of(left@) == names_of(right@)),
{
    if left.len() != right.len() {
        assert(names_of(left@).len() != names_of(right@).len());
        return false;
    }
    let mut i: usize = 0;
    while i < left.len()
        invariant
            i <= left.len(),
            left.len() == right.len(),
            forall|j: int| 0 <= j < i ==> names_of(left@)[j] == names_of(right@)[j],
        decreases left.len() - i,
    {
        if left[i] != right[i] {
            assert(names_of(left@)[i as int] != names_of(right@)[i as int]);
            return false;
        }
        i += 1;
    }
    assert(names_of(left@) =~= names_of(right@));
    true
}

/// A copy of `keys` without `name`, the rest in order.
pub fn remove_name(keys: &Vec<String>, name: &String) -> (rest: Vec<String>)
    ensures
        names_of(rest@) == without(names_of(keys@), name@),
{
    let mut rest: Vec<String> = Vec::new();
    let mut i: usize = 0;
    assert(names_of(keys@).take(0) =~= Seq::empty());
    assert(names_of(rest@) =~= Seq::empty());
    assert(without(Seq::empty(), name@) =~= Seq::empty()) by {
        reveal(Seq::filter);
    }
    while i < keys.len()
        invariant
            i <= keys.len(),
            names_of(rest@) == without(names_of(keys@).take(i as int), name@),
        decreases keys.len() - i,
    {
        let ghost before = names_of(keys@).take(i as int);
        let ghost kept = names_of(rest@);
        proof {
            assert(names_of(keys@).take(i + 1) =~= before.push(keys@[i as int]@));
            before.lemma_filter_push(keys@[i as int]@, other_than(name@));
        }
        if keys[i] != *name {
            rest.push(keys[i].clone());
            assert(names_of(rest@) =~= kept.push(keys@[i as int]@));
        }
        i += 1;
    }
    assert(names_of(keys@).take(keys.len() as int) =~= names_of(keys@));
    rest
}

/// Taking a key out of a list that holds no key twice and no unrecognized
/// identifier leaves such a list.
pub proof fn lemma_without_keeps_wf(keys: Seq<Seq<char>>, name: Seq<char>)
    requires
        keys.no_duplicates(),
        forall|i: int| 0 <= i < keys.len() ==> !has_marker(#[trigger] keys[i]),
    ensures
        without(keys, name).no_duplicates(),
        forall|i: int|
            0 <= i < without(keys, name).len() ==> !has_marker(#[trigger] without(keys, name)[i]),
        !without(keys, name).contains(name),
        forall|key: Seq<char>|
            key != name ==> (without(keys, name).contains(key) <==> keys.contains(key)),
    decreases keys.len(),
{
    reveal(Seq::filter);
    if keys.len() > 0 {
        let front = keys.drop_last();
        let last = keys.last();
        lemma_without_keeps_wf(front, name);
        let rest = without(front, name);
        assert forall|key: Seq<char>| rest.contains(key) implies front.contains(key) by {
            if key != name {
            }
        }
        if last != name {
            assert(without(keys, name) == rest.push(last));
            assert(!front.contains(last));
            assert forall|key: Seq<char>| key != name implies (rest.push(last).contains(key)
                <==> keys.contains(key)) by {
                if rest.push(last).contains(key) {
                    let i = choose|i: int| 0 <= i < rest.push(last).len() && rest.push(last)[i] == key;
                    if i < rest.len() {
                        assert(rest.contains(key));
                        let j = choose|j: int| 0 <= j < front.len() && front[j] == key;
                        assert(keys[j] == key);
                    } else {
                        assert(keys[keys.len() - 1] == key);
                    }
                }
                if keys.contains(key) {
                    let i = choose|i: int| 0 <= i < keys.len() && keys[i] == key;
                    if i < front.len() {
                        assert(front[i] == key);
                        assert(front.contains(key));
                        let j = choose|j: int| 0 <= j < rest.len() && rest[j] == key;
                        assert(rest.push(last)[j] == key);
                    } else {
                        assert(rest.push(last)[rest.len() as int] == key);
                    }
                }
            }
        } else {
            assert(without(keys, name) == rest);
            assert forall|key: Seq<char>| key != name implies (rest.contains(key)
                <==> keys.contains(key)) by {
                if rest.contains(key) {
                    let j = choose|j: int| 0 <= j < front.len() && front[j] == key;
                    assert(keys[j] == key);
                }
                if keys.contains(key) {
                    let i = choose|i: int| 0 <= i < keys.len() && keys[i] == key;
                    assert(front[i] == key);
                }
            }
        }
    }
}

/// Taking out a key that a list does not hold leaves the list as it is.
pub proof fn lemma_without_absent(keys: Seq<Seq<char>>, name: Seq<char>)
    requires
        !keys.contains(name),
    ensures
        without(keys, name) == keys,
    decreases keys.len(),
{
    reveal(Seq::filter);
    if keys.len() > 0 {
        let front = keys.drop_last();
        assert forall|i: int| 0 <= i < front.len() implies front[i] != name by {
            assert(keys[i] == front[i]);
        }
        assert(keys[keys.len() - 1] != name);
        lemma_without_absent(front, name);
        assert(front.push(keys.last()) =~= keys);
    }
}

/// Taking a key out of a list that holds no key twice removes the one place
/// where the key stands.
pub proof fn lemma_without_present(keys: Seq<Seq<char>>, name: Seq<char>, index: int)
    requires
        keys.no_duplicates(),
        0 <= index < keys.len(),
        keys[index] == name,
    ensures
        without(keys, name) == keys.remove(index),
    decreases keys.len(),
{
    reveal(Seq::filter);
    let front = keys.drop_last();
    if index == keys.len() - 1 {
        assert forall|i: int| 0 <= i < front.len() implies front[i] != name by {
            assert(keys[i] == front[i]);
        }
        lemma_without_absent(front, name);
        assert(keys.remove(index) =~= front);
    } else {
        assert(keys.last() != name);
        assert(front[index] == name);
        lemma_without_present(front, name, index);
        assert(front.remove(index).push(keys.last()) =~= keys.remove(index));
    }
}

} // verus!
