//! Putting things in order.

use vstd::prelude::*;

use crate::text::{le, lemma_le_total, lemma_le_trans, text_le};

verus! {

/// Things that have an order in which any two can be compared.
pub trait Ordered: Sized {
    /// Whether `self` may stand before `other`.
    spec fn before(&self, other: &Self) -> bool;

    /// Of two things one may stand before the other.
    proof fn total(a: &Self, b: &Self)
        ensures
            a.before(b) || b.before(a),
    ;

    /// What may stand before a thing may stand before all that come behind it.
    proof fn transitive(a: &Self, b: &Self, c: &Self)
        requires
            a.before(b),
            b.before(c),
        ensures
            a.before(c),
    ;

    /// Whether `self` may stand before `other`.
    fn goes_before(&self, other: &Self) -> (r: bool)
        ensures
            r == self.before(other),
    ;
}

/// Whether `order` lists the positions of `items`, each once, so that the items stand in order,
/// and those that could stand either way keep the order they had.
pub open spec fn ordering<T: Ordered>(items: Seq<T>, order: Seq<usize>) -> bool {
    &&& lists_positions(items.len(), order)
    &&& forall|i: int, j: int|
        0 <= i < j < order.len() ==> comes_first(items, #[trigger] order[i], #[trigger] order[j])
}

/// Whether `order` lists each position below `n` once.
pub open spec fn lists_positions(n: nat, order: Seq<usize>) -> bool {
    &&& order.len() == n
    &&& forall|i: int| 0 <= i < order.len() ==> #[trigger] order[i] < n
    &&& order.no_duplicates()
}

/// Whether the item at position `a` comes before the one at position `b`.
pub open spec fn comes_first<T: Ordered>(items: Seq<T>, a: usize, b: usize) -> bool {
    items[a as int].before(&items[b as int]) && (items[b as int].before(&items[a as int]) ==> a
        < b)
}

proof fn lemma_comes_first_trans<T: Ordered>(items: Seq<T>, a: usize, b: usize, c: usize)
    requires
        comes_first(items, a, b),
        comes_first(items, b, c),
    ensures
        comes_first(items, a, c),
{
    let (x, y, z) = (items[a as int], items[b as int], items[c as int]);
    T::transitive(&x, &y, &z);
    if z.before(&x) {
        T::transitive(&y, &z, &x);
        T::transitive(&z, &x, &y);
    }
}

/// The positions of the items in order.
pub fn sort_positions<T: Ordered>(items: &Vec<T>) -> (order: Vec<usize>)
    ensures
        ordering(items@, order@),
{
    let mut order: Vec<usize> = Vec::new();
    let mut n: usize = 0;
    while n < items.len()
        invariant
            n <= items.len(),
            order.len() == n,
            forall|i: int| 0 <= i < order.len() ==> #[trigger] order@[i] < n,
            order@.no_duplicates(),
            forall|i: int, j: int|
                0 <= i < j < order.len() ==> comes_first(
                    items@,
                    #[trigger] order@[i],
                    #[trigger] order@[j],
                ),
        decreases items.len() - n,
    {
        let ghost old_order = order@;
        let mut at: usize = order.len();
        while at > 0 && !items[order[at - 1]].goes_before(&items[n])
            invariant
                at <= order.len(),
                order@ == old_order,
                n < items.len(),
                order.len() == n,
                forall|i: int| 0 <= i < order.len() ==> #[trigger] order@[i] < n,
                forall|k: int|
                    at <= k < order.len() ==> comes_first(items@, n, #[trigger] order@[k]),
            decreases at,
        {
            proof {
                T::total(&items@[order@[at - 1] as int], &items@[n as int]);
            }
            at = at - 1;
        }
        proof {
            if at > 0 {
                assert(comes_first(items@, old_order[at - 1], n));
                assert forall|k: int| 0 <= k < at implies comes_first(
                    items@,
                    #[trigger] old_order[k],
                    n,
                ) by {
                    if k < at - 1 {
                        lemma_comes_first_trans(items@, old_order[k], old_order[at - 1], n);
                    }
                }
            }
        }
        order.insert(at, n);
        proof {
            assert(order@ =~= old_order.insert(at as int, n));
            assert forall|i: int, j: int| 0 <= i < j < order@.len() implies comes_first(
                items@,
                #[trigger] order@[i],
                #[trigger] order@[j],
            ) by {
                if j < at {
                    assert(order@[i] == old_order[i] && order@[j] == old_order[j]);
                } else if i > at {
                    assert(order@[i] == old_order[i - 1] && order@[j] == old_order[j - 1]);
                } else if i < at && j > at {
                    assert(order@[i] == old_order[i] && order@[j] == old_order[j - 1]);
                } else if i == at {
                    assert(order@[j] == old_order[j - 1]);
                } else {
                    assert(order@[i] == old_order[i]);
                }
            }
            assert forall|i: int| 0 <= i < order@.len() implies #[trigger] order@[i] < n + 1 by {
                if i < at {
                    assert(order@[i] == old_order[i]);
                } else if i > at {
                    assert(order@[i] == old_order[i - 1]);
                }
            }
            assert forall|i: int, j: int|
                0 <= i < order@.len() && 0 <= j < order@.len() && i != j implies order@[i]
                != order@[j] by {
                let a = if i < at { i } else { i - 1 };
                let b = if j < at { j } else { j - 1 };
                if i != at {
                    assert(order@[i] == old_order[a]);
                }
                if j != at {
                    assert(order@[j] == old_order[b]);
                }
            }
        }
        n = n + 1;
    }
    order
}

/// The order of strings.
impl Ordered for String {
    open spec fn before(&self, other: &Self) -> bool {
        text_le(self@, other@)
    }

    proof fn total(a: &Self, b: &Self) {
        lemma_le_total(a@, b@);
    }

    proof fn transitive(a: &Self, b: &Self, c: &Self) {
        lemma_le_trans(a@, b@, c@);
    }

    fn goes_before(&self, other: &Self) -> (r: bool) {
        le(self.as_str(), other.as_str())
    }
}

/// The order of numbers.
impl Ordered for u32 {
    open spec fn before(&self, other: &Self) -> bool {
        *self <= *other
    }

    proof fn total(a: &Self, b: &Self) {
    }

    proof fn transitive(a: &Self, b: &Self, c: &Self) {
    }

    fn goes_before(&self, other: &Self) -> (r: bool) {
        *self <= *other
    }
}

/// Where any two things could stand either way, they keep the order they have.
pub proof fn lemma_all_alike<T: Ordered>(items: Seq<T>, order: Seq<usize>)
    requires
        ordering(items, order),
        forall|i: int, j: int|
            0 <= i < items.len() && 0 <= j < items.len() ==> #[trigger] items[i].before(&items[j]),
    ensures
        forall|i: int| 0 <= i < order.len() ==> #[trigger] order[i] == i,
{
    lemma_countable(order, items.len());
    let same = Seq::new(items.len(), |i: int| i as usize);
    assert(ordering(items, same));
    law_ordering_unique(items, order, same);
}

/// There are not more positions than a position can count.
proof fn lemma_countable(order: Seq<usize>, n: nat)
    requires
        lists_positions(n, order),
    ensures
        n <= usize::MAX + 1,
{
    let s = order.map_values(|i: usize| i as int);
    assert(s.no_duplicates()) by {
        assert forall|i: int, j: int| 0 <= i < s.len() && 0 <= j < s.len() && i != j implies s[i]
            != s[j] by {
            assert(order[i] != order[j]);
        }
    }
    s.unique_seq_to_set();
    let all = vstd::set_lib::set_int_range(0, usize::MAX + 1);
    vstd::set_lib::lemma_int_range(0, usize::MAX + 1);
    assert(s.to_set().subset_of(all));
    vstd::set_lib::lemma_len_subset(s.to_set(), all);
}

/// The items in the order in which their positions are listed.
pub open spec fn picked<A>(items: Seq<A>, order: Seq<usize>) -> Seq<A> {
    order.map_values(|i: usize| items[i as int])
}

/// Two listings of the same things in order are the same listing.
pub proof fn law_ordering_unique<T: Ordered>(items: Seq<T>, a: Seq<usize>, b: Seq<usize>)
    requires
        ordering(items, a),
        ordering(items, b),
    ensures
        a == b,
{
    assert forall|i: int| 0 <= i < a.len() implies a[i] == b[i] by {
        lemma_same_at(items, a, b, i);
    }
    assert(a =~= b);
}

/// Every position below `n` is listed.
pub proof fn lemma_listed(n: nat, order: Seq<usize>, p: usize)
    requires
        lists_positions(n, order),
        p < n,
    ensures
        order.contains(p),
{
    let s = order.map_values(|i: usize| i as int);
    assert(s.no_duplicates()) by {
        assert forall|i: int, j: int| 0 <= i < s.len() && 0 <= j < s.len() && i != j implies s[i]
            != s[j] by {
            assert(order[i] != order[j]);
        }
    }
    s.unique_seq_to_set();
    let all = vstd::set_lib::set_int_range(0, n as int);
    vstd::set_lib::lemma_int_range(0, n as int);
    assert(s.to_set().subset_of(all)) by {
        assert forall|x: int| s.to_set().contains(x) implies all.contains(x) by {
            let i = choose|i: int| 0 <= i < s.len() && s[i] == x;
            assert(order[i] < n);
        }
    }
    vstd::set_lib::lemma_subset_equality(s.to_set(), all);
    assert(all.contains(p as int));
    assert(s.contains(p as int));
    let i = choose|i: int| 0 <= i < s.len() && s[i] == p as int;
    assert(order[i] == p);
}

proof fn lemma_same_at<T: Ordered>(items: Seq<T>, a: Seq<usize>, b: Seq<usize>, i: int)
    requires
        ordering(items, a),
        ordering(items, b),
        0 <= i < a.len(),
    ensures
        a[i] == b[i],
    decreases i,
{
    assert forall|k: int| 0 <= k < i implies a[k] == b[k] by {
        lemma_same_at(items, a, b, k);
    }
    if a[i] != b[i] {
        lemma_listed(items.len(), a, b[i]);
        lemma_listed(items.len(), b, a[i]);
        let p = choose|p: int| 0 <= p < a.len() && a[p] == b[i];
        let q = choose|q: int| 0 <= q < b.len() && b[q] == a[i];
        if p < i {
            assert(a[p] == b[p]);
            assert(b[p] == b[i]);
            assert(false);
        }
        if q < i {
            assert(a[q] == b[q]);
            assert(a[q] == a[i]);
            assert(false);
        }
        assert(comes_first(items, a[i], a[p]));
        assert(comes_first(items, b[i], b[q]));
    }
}

} // verus!
