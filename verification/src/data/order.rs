//! The stable ordering of items by their `order` field.

use vstd::prelude::*;

use super::TodoItem;

verus! {

/// Where an item with order `key` goes when inserted into `s` from the
/// back: after every trailing item whose order is larger.
pub open spec fn insert_pos(s: Seq<TodoItem>, key: u64) -> int
    decreases s.len(),
{
    if s.len() == 0 {
        0
    } else if s.last().order > key {
        insert_pos(s.drop_last(), key)
    } else {
        s.len() as int
    }
}

/// `s` with `x` inserted by order, after the items of equal order.
pub open spec fn insert_by_order(s: Seq<TodoItem>, x: TodoItem) -> Seq<TodoItem> {
    s.insert(insert_pos(s, x.order), x)
}

/// The items stably sorted by order: insertion sort, which keeps items of
/// equal order in their original order, as a stable sort by key does.
pub open spec fn sort_by_order(s: Seq<TodoItem>) -> Seq<TodoItem>
    decreases s.len(),
{
    if s.len() == 0 {
        Seq::empty()
    } else {
        insert_by_order(sort_by_order(s.drop_last()), s.last())
    }
}

pub proof fn lemma_insert_pos_bounds(s: Seq<TodoItem>, key: u64)
    ensures
        0 <= insert_pos(s, key) <= s.len(),
    decreases s.len(),
{
    if s.len() > 0 {
        lemma_insert_pos_bounds(s.drop_last(), key);
    }
}

pub proof fn lemma_sort_len(s: Seq<TodoItem>)
    ensures
        sort_by_order(s).len() == s.len(),
    decreases s.len(),
{
    if s.len() > 0 {
        lemma_sort_len(s.drop_last());
        lemma_insert_pos_bounds(sort_by_order(s.drop_last()), s.last().order);
    }
}

/// Inserts `x` by order into `v`.
pub fn insert_item_by_order(v: &mut Vec<TodoItem>, x: TodoItem)
    ensures
        final(v)@ == insert_by_order(old(v)@, x),
{
    let key = x.order;
    let mut j: usize = v.len();
    assert(v@.take(v.len() as int) =~= v@);
    while j > 0 && v[j - 1].order > key
        invariant
            0 <= j <= v.len(),
            insert_pos(v@, key) == insert_pos(v@.take(j as int), key),
        decreases j,
    {
        assert(v@.take(j as int).drop_last() =~= v@.take(j - 1));
        j = j - 1;
    }
    proof {
        assert(v@.take(v.len() as int) =~= v@);
        if j > 0 {
            assert(v@.take(j as int).last() == v@[j - 1]);
        }
    }
    v.insert(j, x);
}

/// Sorts the items stably by order.
pub fn sort_items_by_order(v: &mut Vec<TodoItem>)
    ensures
        final(v)@ == sort_by_order(old(v)@),
{
    let ghost orig = v@;
    let n = v.len();
    let mut out: Vec<TodoItem> = Vec::new();
    let mut k: usize = 0;
    while v.len() > 0
        invariant
            k + v.len() == orig.len(),
            orig.len() == n,
            v@ == orig.skip(k as int),
            out@ == sort_by_order(orig.take(k as int)),
        decreases v.len(),
    {
        let x = v.remove(0);
        assert(orig.take(k + 1).drop_last() =~= orig.take(k as int));
        assert(orig.take(k + 1).last() == x);
        insert_item_by_order(&mut out, x);
        k = k + 1;
        assert(v@ =~= orig.skip(k as int));
    }
    assert(orig.take(k as int) =~= orig);
    *v = out;
}

} // verus!
