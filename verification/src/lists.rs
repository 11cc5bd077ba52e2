use vstd::prelude::*;
use crate::types::AccountId;

verus! {

/// The place where `item` first occurs in `list`, if it occurs at all.
pub fn position(list: &Vec<AccountId>, item: &AccountId) -> (r: Option<usize>)
    ensures
        match r {
            Some(i) => i < list.len() && list[i as int] == *item && forall|j: int|
                0 <= j < i ==> list[j] != *item,
            None => !list@.contains(*item),
        },
{
    let mut i: usize = 0;
    while i < list.len()
        invariant
            i <= list.len(),
            forall|j: int| 0 <= j < i ==> list[j] != *item,
        decreases list.len() - i,
    {
        if list[i].same(item) {
            return Some(i);
        }
        i += 1;
    }
    None
}

pub fn contains_account(list: &Vec<AccountId>, item: &AccountId) -> (r: bool)
    ensures
        r == list@.contains(*item),
{
    position(list, item).is_some()
}

pub fn contains_id(list: &Vec<u64>, id: u64) -> (r: bool)
    ensures
        r == list@.contains(id),
{
    let mut i: usize = 0;
    while i < list.len()
        invariant
            i <= list.len(),
            forall|j: int| 0 <= j < i ==> list[j] != id,
        decreases list.len() - i,
    {
        if list[i] == id {
            return true;
        }
        i += 1;
    }
    false
}

/// Appends `item` unless the list holds it already; says whether it was appended.
pub fn insert_account(list: &mut Vec<AccountId>, item: AccountId) -> (added: bool)
    ensures
        added == !old(list)@.contains(item),
        final(list)@ == with_item(old(list)@, item),
{
    if contains_account(list, &item) {
        false
    } else {
        list.push(item);
        true
    }
}

/// Appends `id` unless the list holds it already; says whether it was appended.
pub fn insert_id(list: &mut Vec<u64>, id: u64) -> (added: bool)
    ensures
        added == !old(list)@.contains(id),
        final(list)@ == with_item(old(list)@, id),
{
    if contains_id(list, id) {
        false
    } else {
        list.push(id);
        true
    }
}

/// Removes every occurrence of `id`, keeping the other entries in their order.
pub fn remove_id(list: &mut Vec<u64>, id: u64)
    ensures
        final(list)@ == without_id(old(list)@, id),
{
    let mut kept: Vec<u64> = Vec::new();
    let mut i: usize = 0;
    proof {
        reveal(Seq::filter);
        assert(list@.take(0) =~= Seq::<u64>::empty());
    }
    while i < list.len()
        invariant
            i <= list.len(),
            kept@ == without_id(list@.take(i as int), id),
        decreases list.len() - i,
    {
        proof {
            assert(list@.take(i + 1) =~= list@.take(i as int).push(list[i as int]));
            lemma_without_id_push(list@.take(i as int), list[i as int], id);
        }
        if list[i] != id {
            kept.push(list[i]);
        }
        i += 1;
    }
    proof {
        assert(list@.take(list.len() as int) =~= list@);
    }
    *list = kept;
}

/// `list` with `item` appended, unless it is there already.
pub open spec fn with_item<T>(list: Seq<T>, item: T) -> Seq<T> {
    if list.contains(item) {
        list
    } else {
        list.push(item)
    }
}

/// `list` without any occurrence of `id`.
pub open spec fn without_id(list: Seq<u64>, id: u64) -> Seq<u64> {
    list.filter(|r: u64| r != id)
}

/// A list without repetitions stays so when an item is added by `with_item`,
/// and afterwards holds exactly what it held before and the item.
pub proof fn lemma_with_item<T>(list: Seq<T>, item: T)
    ensures
        list.no_duplicates() ==> with_item(list, item).no_duplicates(),
        forall|x: T| #[trigger] with_item(list, item).contains(x) <==> (list.contains(x) || x == item),
{
    let out = with_item(list, item);
    if !list.contains(item) {
        assert(out[list.len() as int] == item);
        assert forall|x: T| #[trigger] out.contains(x) <==> (list.contains(x) || x == item) by {
            if list.contains(x) {
                let i = choose|i: int| 0 <= i < list.len() && list[i] == x;
                assert(out[i] == x);
            }
        }
    }
}

/// Adding an item that is there already changes nothing.
pub proof fn lemma_with_item_twice<T>(list: Seq<T>, item: T)
    ensures
        with_item(with_item(list, item), item) == with_item(list, item),
{
    lemma_with_item(list, item);
}

/// A prefix that is one entry longer holds that entry and what the shorter held.
pub proof fn lemma_take_next<T>(list: Seq<T>, i: int, x: T)
    requires
        0 <= i < list.len(),
    ensures
        list.take(i + 1).contains(x) <==> (list.take(i).contains(x) || list[i] == x),
{
    let short = list.take(i);
    let long = list.take(i + 1);
    if long.contains(x) {
        let j = choose|j: int| 0 <= j < long.len() && long[j] == x;
        if j < i {
            assert(short[j] == x);
        }
    }
    if short.contains(x) {
        let j = choose|j: int| 0 <= j < short.len() && short[j] == x;
        assert(long[j] == x);
    }
    if list[i] == x {
        assert(long[i] == x);
    }
}

/// A list that does not hold `id` is left as it is by `without_id`.
pub proof fn lemma_without_absent_id(list: Seq<u64>, id: u64)
    requires
        !list.contains(id),
    ensures
        without_id(list, id) == list,
    decreases list.len(),
{
    reveal(Seq::filter);
    if list.len() > 0 {
        let head = list.drop_last();
        assert(list[list.len() - 1] != id);
        assert forall|j: int| 0 <= j < head.len() implies head[j] != id by {
            assert(list[j] == head[j]);
        }
        lemma_without_absent_id(head, id);
        assert(head.push(list.last()) =~= list);
    } else {
        assert(without_id(list, id) =~= list);
    }
}

/// Removing an id a second time changes nothing.
pub proof fn lemma_without_id_twice(list: Seq<u64>, id: u64)
    ensures
        without_id(without_id(list, id), id) == without_id(list, id),
{
    lemma_without_id(list, id);
    lemma_without_absent_id(without_id(list, id), id);
}

/// How `without_id` treats the last entry of a list.
pub proof fn lemma_without_id_push(list: Seq<u64>, last: u64, id: u64)
    ensures
        without_id(list.push(last), id) == if last != id {
            without_id(list, id).push(last)
        } else {
            without_id(list, id)
        },
{
    reveal(Seq::filter);
    assert(list.push(last).drop_last() =~= list);
}

/// `without_id` keeps exactly the entries other than `id`, and adds no repetition.
pub proof fn lemma_without_id(list: Seq<u64>, id: u64)
    ensures
        forall|x: u64| #[trigger] without_id(list, id).contains(x) <==> (list.contains(x) && x != id),
        list.no_duplicates() ==> without_id(list, id).no_duplicates(),
    decreases list.len(),
{
    reveal(Seq::filter);
    let pred = |r: u64| r != id;
    let out = without_id(list, id);
    if list.len() > 0 {
        let head = list.drop_last();
        let rest = without_id(head, id);
        lemma_without_id(head, id);
        assert forall|x: u64| #[trigger] out.contains(x) <==> (list.contains(x) && x != id) by {
            if out.contains(x) {
                let i = choose|i: int| 0 <= i < out.len() && out[i] == x;
                if i < rest.len() {
                    assert(rest[i] == x);
                    assert(rest.contains(x));
                    let j = choose|j: int| 0 <= j < head.len() && head[j] == x;
                    assert(list[j] == x);
                } else {
                    assert(list[list.len() - 1] == x);
                }
            }
            if list.contains(x) && x != id {
                let j = choose|j: int| 0 <= j < list.len() && list[j] == x;
                if j < head.len() {
                    assert(head[j] == x);
                    assert(rest.contains(x));
                    let i = choose|i: int| 0 <= i < rest.len() && rest[i] == x;
                    assert(out[i] == x);
                } else {
                    assert(out[out.len() - 1] == x);
                }
            }
        }
        if list.no_duplicates() {
            assert(head.no_duplicates());
            if pred(list.last()) {
                assert forall|i: int, j: int|
                    0 <= i < out.len() && 0 <= j < out.len() && i != j implies out[i] != out[j] by {
                    if i < rest.len() && j < rest.len() {
                    } else {
                        let k = if i < rest.len() { i } else { j };
                        assert(rest.contains(rest[k]));
                        assert(head.contains(rest[k]));
                        let m = choose|m: int| 0 <= m < head.len() && head[m] == rest[k];
                        assert(list[m] == rest[k]);
                    }
                }
            }
        }
    }
}

} // verus!
