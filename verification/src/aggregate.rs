//! The aggregator: the rows of many files, file after file, as one sequence.

use vstd::prelude::*;
use vstd::seq_lib::{lemma_flatten_concat, lemma_multiset_commutative, to_multiset_remove};
use crate::row::Row;

verus! {

/// The rows of each group of `groups`.
pub open spec fn groups_of(groups: Seq<Vec<Row>>) -> Seq<Seq<Row>> {
    Seq::new(groups.len(), |i: int| groups[i]@)
}

/// Every row of every group is well formed.
pub open spec fn all_groups_wf(groups: Seq<Vec<Row>>) -> bool {
    forall|i: int, j: int|
        0 <= i < groups.len() && 0 <= j < groups[i]@.len() ==> (#[trigger] groups[i]@[j]).wf()
}

/// Concatenates the groups: the rows of the first group in their order, then
/// those of the second, and so on. The rows themselves are handed over.
pub fn flatten(rows: Vec<Vec<Row>>) -> (flat_rows: Vec<Row>)
    ensures
        flat_rows@ == groups_of(rows@).flatten(),
        all_groups_wf(rows@) ==> forall|i: int|
            0 <= i < flat_rows@.len() ==> (#[trigger] flat_rows@[i]).wf(),
{
    let ghost groups = rows@;
    let total: usize = rows.len();
    let mut rows = rows;
    let mut stack: Vec<Vec<Row>> = Vec::new();
    while rows.len() > 0
        invariant
            rows@.len() + stack@.len() == total,
            total == groups.len(),
            forall|i: int| 0 <= i < rows@.len() ==> rows@[i] == groups[i],
            forall|j: int| 0 <= j < stack@.len() ==> stack@[j] == groups[total - 1 - j],
        decreases rows@.len(),
    {
        let group = rows.pop().unwrap();
        stack.push(group);
    }
    let mut flat_rows: Vec<Row> = Vec::new();
    let mut done: usize = 0;
    assert(groups_of(groups.subrange(0, 0)) =~= Seq::<Seq<Row>>::empty());
    while stack.len() > 0
        invariant
            done + stack@.len() == total,
            total == groups.len(),
            forall|j: int| 0 <= j < stack@.len() ==> stack@[j] == groups[total - 1 - j],
            flat_rows@ == groups_of(groups.subrange(0, done as int)).flatten(),
            all_groups_wf(groups) ==> forall|i: int|
                0 <= i < flat_rows@.len() ==> (#[trigger] flat_rows@[i]).wf(),
        decreases stack@.len(),
    {
        let mut group = stack.pop().unwrap();
        let ghost before = groups_of(groups.subrange(0, done as int));
        let ghost merged = flat_rows@;
        assert(group == groups[done as int]);
        proof {
            assert(groups_of(groups.subrange(0, done + 1)) =~= before.push(group@));
            before.lemma_flatten_push(group@);
        }
        flat_rows.append(&mut group);
        assert(flat_rows@ == merged + groups[done as int]@);
        done += 1;
    }
    assert(groups.subrange(0, total as int) =~= groups);
    flat_rows
}

/// Flattening two results, each on its own, and then flattening the two
/// outcomes together gives what flattening both at once gives.
pub proof fn lemma_flatten_associative<T>(a: Seq<T>, b: Seq<T>)
    ensures
        seq![seq![a].flatten(), seq![b].flatten()].flatten() == seq![a, b].flatten(),
{
    seq![a].lemma_flatten_singleton();
    seq![b].lemma_flatten_singleton();
}

/// Flattening two lists of results, each on its own, and then flattening the
/// two outcomes together gives what flattening the joined list gives.
pub proof fn lemma_flatten_of_flattened<T>(a: Seq<Seq<T>>, b: Seq<Seq<T>>)
    ensures
        seq![a.flatten(), b.flatten()].flatten() == (a + b).flatten(),
{
    let both = seq![a.flatten(), b.flatten()];
    assert(both =~= seq![a.flatten()].push(b.flatten()));
    seq![a.flatten()].lemma_flatten_push(b.flatten());
    seq![a.flatten()].lemma_flatten_singleton();
    lemma_flatten_concat(a, b);
}

/// The rows of a list of results are those of the list without one result,
/// and those of that result.
pub proof fn lemma_flatten_without<T>(groups: Seq<Seq<T>>, i: int)
    requires
        0 <= i < groups.len(),
    ensures
        groups.flatten().to_multiset() == groups.remove(i).flatten().to_multiset().add(
            groups[i].to_multiset(),
        ),
{
    broadcast use vstd::multiset::group_multiset_axioms;

    let head = groups.subrange(0, i);
    let tail = groups.subrange(i + 1, groups.len() as int);
    let one = seq![groups[i]];
    assert(groups =~= head + one + tail);
    assert(groups.remove(i) =~= head + tail);
    lemma_flatten_concat(head + one, tail);
    lemma_flatten_concat(head, one);
    lemma_flatten_concat(head, tail);
    one.lemma_flatten_singleton();
    lemma_multiset_commutative(head.flatten() + groups[i], tail.flatten());
    lemma_multiset_commutative(head.flatten(), groups[i]);
    lemma_multiset_commutative(head.flatten(), tail.flatten());
    assert(groups.flatten().to_multiset() =~= groups.remove(i).flatten().to_multiset().add(
        groups[i].to_multiset(),
    ));
}

/// In whatever order the results of the files are collected, flattening them
/// gives the same rows, each as often: two lists that hold the same results
/// flatten to sequences that hold the same rows.
pub proof fn lemma_flatten_any_order<T>(a: Seq<Seq<T>>, b: Seq<Seq<T>>)
    requires
        a.to_multiset() == b.to_multiset(),
    ensures
        a.flatten().to_multiset() == b.flatten().to_multiset(),
    decreases a.len(),
{
    broadcast use vstd::multiset::group_multiset_axioms;

    a.to_multiset_ensures();
    b.to_multiset_ensures();
    if a.len() == 0 {
        assert(b.len() == 0);
        assert(a =~= b);
    } else {
        let first = a[0];
        assert(a.contains(first));
        assert(a.to_multiset().count(first) > 0);
        assert(b.to_multiset().count(first) > 0);
        assert(b.contains(first));
        let j = choose|j: int| 0 <= j < b.len() && b[j] == first;
        to_multiset_remove(a, 0);
        to_multiset_remove(b, j);
        lemma_flatten_any_order(a.remove(0), b.remove(j));
        lemma_flatten_without(a, 0);
        lemma_flatten_without(b, j);
    }
}

/// Groups without rows flatten to no rows.
pub proof fn lemma_flatten_of_empty_groups<T>(groups: Seq<Seq<T>>)
    requires
        forall|i: int| 0 <= i < groups.len() ==> (#[trigger] groups[i]).len() == 0,
    ensures
        groups.flatten().len() == 0,
    decreases groups.len(),
{
    if groups.len() > 0 {
        lemma_flatten_of_empty_groups(groups.drop_first());
    }
}

} // verus!
