//! Lists of token identifiers in ascending order.

use vstd::prelude::*;
use vstd::relations::{sorted_by, total_ordering};
use vstd::seq_lib::{group_to_multiset_ensures, lemma_sorted_unique};

verus! {

/// The order of identifiers.
pub open spec fn at_most() -> spec_fn(u128, u128) -> bool {
    |a: u128, b: u128| a <= b
}

/// The identifiers of `ids` in ascending order, each as often as `ids` has
/// it.
pub open spec fn sorted(ids: Seq<u128>) -> Seq<u128> {
    ids.sort_by(at_most())
}

/// Whether no identifier of `ids` is followed by a smaller one.
pub open spec fn nondecreasing(ids: Seq<u128>) -> bool {
    forall|i: int, j: int| 0 <= i < j < ids.len() ==> ids[i] <= ids[j]
}

/// Whether each identifier of `ids` is followed by greater ones only.
pub open spec fn ascending(ids: Seq<u128>) -> bool {
    forall|i: int, j: int| 0 <= i < j < ids.len() ==> ids[i] < ids[j]
}

/// Whether `ids` lists exactly the identifiers of `set`, in ascending order.
pub open spec fn lists(ids: Seq<u128>, set: Set<u128>) -> bool {
    ascending(ids) && forall|k: u128| set.contains(k) <==> ids.contains(k)
}

/// The identifiers of `set` in ascending order.
pub open spec fn ascending_list(set: Set<u128>) -> Seq<u128> {
    choose|ids: Seq<u128>| lists(ids, set)
}

/// What `sorted` gives: an ordered list with the same identifiers, each as
/// often as before.
pub proof fn lemma_sorted(ids: Seq<u128>)
    ensures
        nondecreasing(sorted(ids)),
        sorted(ids).to_multiset() == ids.to_multiset(),
        sorted(ids).len() == ids.len(),
        forall|k: u128| sorted(ids).contains(k) <==> ids.contains(k),
{
    broadcast use group_to_multiset_ensures;

    assert(total_ordering(at_most()));
    ids.lemma_sort_by_ensures(at_most());
    let s = sorted(ids);
    s.to_multiset_ensures();
    ids.to_multiset_ensures();
    assert(s.len() == ids.len());
    assert(nondecreasing(s)) by {
        assert forall|i: int, j: int| 0 <= i < j < s.len() implies s[i] <= s[j] by {
            assert(at_most()(s[i], s[j]));
        }
    }
    assert forall|k: u128| s.contains(k) <==> ids.contains(k) by {
        assert(s.to_multiset().count(k) == ids.to_multiset().count(k));
    }
}

/// Only one ordered list has given identifiers, each a given number of times.
pub proof fn lemma_sorted_is(ids: Seq<u128>, ordered: Seq<u128>)
    requires
        nondecreasing(ordered),
        ordered.to_multiset() == ids.to_multiset(),
    ensures
        ordered == sorted(ids),
{
    assert(total_ordering(at_most()));
    ids.lemma_sort_by_ensures(at_most());
    assert(sorted_by(ordered, at_most())) by {
        assert forall|i: int, j: int| 0 <= i < j < ordered.len() implies #[trigger] at_most()(
            ordered[i],
            ordered[j],
        ) by {}
    }
    lemma_sorted_unique(ordered, sorted(ids), at_most());
}

/// Only one list has the identifiers of a set in ascending order.
pub proof fn lemma_lists_unique(a: Seq<u128>, b: Seq<u128>, set: Set<u128>)
    requires
        lists(a, set),
        lists(b, set),
    ensures
        a == b,
{
    broadcast use group_to_multiset_ensures;

    assert(a.no_duplicates());
    assert(b.no_duplicates());
    a.lemma_multiset_has_no_duplicates();
    b.lemma_multiset_has_no_duplicates();
    assert forall|k: u128| a.to_multiset().count(k) == b.to_multiset().count(k) by {
        assert(a.contains(k) == b.contains(k));
        if a.contains(k) {
            assert(a.to_multiset().contains(k));
            assert(b.to_multiset().contains(k));
        }
    }
    assert(a.to_multiset() =~= b.to_multiset());
    assert(nondecreasing(a));
    assert(nondecreasing(b));
    lemma_sorted_is(a, a);
    lemma_sorted_is(a, b);
}

/// A list of the identifiers of `set` in ascending order is the ascending
/// list of `set`, and makes `set` finite.
pub proof fn lemma_lists_is(ids: Seq<u128>, set: Set<u128>)
    requires
        lists(ids, set),
    ensures
        ids == ascending_list(set),
        lists(ascending_list(set), set),
        set.finite(),
        set.len() == ids.len(),
{
    lemma_lists_unique(ids, ascending_list(set), set);
    assert(ids.no_duplicates());
    ids.unique_seq_to_set();
    assert(ids.to_set() =~= set);
}

/// Filtering one more identifier keeps it where it passes the test.
pub proof fn lemma_filter_step(ids: Seq<u128>, i: int, test: spec_fn(u128) -> bool)
    requires
        0 <= i < ids.len(),
    ensures
        ids.take(i + 1).filter(test) == if test(ids[i]) {
            ids.take(i).filter(test).push(ids[i])
        } else {
            ids.take(i).filter(test)
        },
{
    reveal_with_fuel(Seq::filter, 2);
    let s = ids.take(i + 1);
    assert(s.len() == i + 1);
    assert(s.drop_last() =~= ids.take(i));
    assert(s.last() == ids[i]);
    assert(s.filter(test) == if test(s.last()) {
        s.drop_last().filter(test).push(s.last())
    } else {
        s.drop_last().filter(test)
    });
}

/// A filtered list has each identifier that passes the test.
pub proof fn lemma_filter_has(ids: Seq<u128>, test: spec_fn(u128) -> bool, i: int)
    requires
        0 <= i < ids.len(),
        test(ids[i]),
    ensures
        ids.filter(test).contains(ids[i]),
        ids.filter(test).len() > 0,
{
    ids.lemma_filter_contains(test, i);
}

/// `Itertools::sorted`: the identifiers of `ids` in ascending order, each as
/// often as `ids` has it.
#[verifier::external_body]
fn sorted_copy(ids: &Vec<u128>) -> (r: Vec<u128>)
    ensures
        nondecreasing(r@),
        r@.to_multiset() == ids@.to_multiset(),
{
    itertools::Itertools::sorted(ids.iter().copied()).collect()
}

/// The identifiers of `ids` in ascending order.
pub fn sort_ids(ids: &Vec<u128>) -> (r: Vec<u128>)
    ensures
        r@ == sorted(ids@),
{
    let r = sorted_copy(ids);
    proof {
        lemma_sorted_is(ids@, r@);
    }
    r
}

/// Whether `ids` holds `id` before position `end`.
pub fn holds_before(ids: &Vec<u128>, end: usize, id: u128) -> (r: bool)
    requires
        end <= ids@.len(),
    ensures
        r == ids@.take(end as int).contains(id),
{
    let mut i: usize = 0;
    while i < end
        invariant
            i <= end <= ids@.len(),
            forall|k: int| 0 <= k < i ==> ids@[k] != id,
        decreases end - i,
    {
        if ids[i] == id {
            assert(ids@.take(end as int)[i as int] == id);
            return true;
        }
        i += 1;
    }
    false
}

} // verus!
