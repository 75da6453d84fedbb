//! Lists gathered item by item from a file's items, and why their contents
//! do not depend on the order of the items.

use vstd::prelude::*;
use crate::discover::{exported_fn, exported_functions, item_visits, items_visits};
use crate::syntax::{FnDecl, SourceItem};
use crate::validate::first_problem;

verus! {

/// The lists that `f` gives for the elements of `xs`, one after another.
pub open spec fn gather<A, B>(xs: Seq<A>, f: spec_fn(A) -> Seq<B>) -> Seq<B>
    decreases xs.len(),
{
    if xs.len() == 0 {
        Seq::empty()
    } else {
        gather(xs.drop_last(), f) + f(xs.last())
    }
}

pub proof fn lemma_gather_append<A, B>(a: Seq<A>, b: Seq<A>, f: spec_fn(A) -> Seq<B>)
    ensures
        gather(a + b, f) == gather(a, f) + gather(b, f),
    decreases b.len(),
{
    if b.len() == 0 {
        assert(a + b =~= a);
        assert(gather(a, f) + gather(b, f) =~= gather(a, f));
    } else {
        assert((a + b).drop_last() =~= a + b.drop_last());
        assert((a + b).last() == b.last());
        lemma_gather_append(a, b.drop_last(), f);
        assert(gather(a, f) + gather(b.drop_last(), f) + f(b.last()) =~= gather(a, f) + (gather(
            b.drop_last(),
            f,
        ) + f(b.last())));
    }
}

/// Gathering from the same elements in another order gives the same
/// elements, each as often.
pub proof fn lemma_gather_permutation<A, B>(a: Seq<A>, b: Seq<A>, f: spec_fn(A) -> Seq<B>)
    requires
        a.to_multiset() == b.to_multiset(),
    ensures
        gather(a, f).to_multiset() == gather(b, f).to_multiset(),
    decreases b.len(),
{
    broadcast use vstd::seq_lib::group_to_multiset_ensures, vstd::multiset::group_multiset_axioms;

    assert(a.to_multiset().len() == a.len());
    assert(b.to_multiset().len() == b.len());
    if b.len() == 0 {
        assert(a =~= b);
    } else {
        let x = b.last();
        let rest = b.drop_last();
        assert(b =~= rest.push(x));
        assert(a.to_multiset().count(x) > 0);
        assert(a.contains(x));
        let j = choose|j: int| 0 <= j < a.len() && a[j] == x;
        let a2 = a.remove(j);
        assert(a2.to_multiset() =~= a.to_multiset().remove(x));
        assert(rest.to_multiset() =~= b.to_multiset().remove(x));
        lemma_gather_permutation(a2, rest, f);
        let front = a.take(j);
        let back = a.skip(j + 1);
        assert(a =~= front + seq![x] + back);
        assert(a2 =~= front + back);
        lemma_gather_append(front + seq![x], back, f);
        lemma_gather_append(front, seq![x], f);
        lemma_gather_append(front, back, f);
        assert(seq![x].drop_last() =~= Seq::<A>::empty());
        assert(gather(Seq::<A>::empty(), f) + f(x) =~= f(x));
        assert(gather(seq![x], f) == f(x));
        let gf = gather(front, f);
        let gb = gather(back, f);
        vstd::seq_lib::lemma_multiset_commutative(gf + f(x), gb);
        vstd::seq_lib::lemma_multiset_commutative(gf, f(x));
        vstd::seq_lib::lemma_multiset_commutative(gf, gb);
        vstd::seq_lib::lemma_multiset_commutative(gather(rest, f), f(x));
        assert(gather(a, f).to_multiset() =~= gather(a2, f).to_multiset().add(f(x).to_multiset()));
    }
}

/// A function's values as one-element lists, gathered, are the mapped list.
pub proof fn lemma_map_as_gather<A, B>(xs: Seq<A>, g: spec_fn(A) -> B)
    ensures
        xs.map_values(g) == gather(xs, |x: A| seq![g(x)]),
    decreases xs.len(),
{
    if xs.len() == 0 {
        assert(xs.map_values(g) =~= Seq::<B>::empty());
    } else {
        lemma_map_as_gather(xs.drop_last(), g);
        assert(xs.map_values(g) =~= xs.drop_last().map_values(g) + seq![g(xs.last())]);
    }
}

/// Mapping the same elements in another order gives the same values, each as
/// often.
pub proof fn lemma_map_permutation<A, B>(a: Seq<A>, b: Seq<A>, g: spec_fn(A) -> B)
    requires
        a.to_multiset() == b.to_multiset(),
    ensures
        a.map_values(g).to_multiset() == b.map_values(g).to_multiset(),
{
    lemma_map_as_gather(a, g);
    lemma_map_as_gather(b, g);
    lemma_gather_permutation(a, b, |x: A| seq![g(x)]);
}

/// The exported declaration of an item, if it is one.
pub open spec fn export_part(item: SourceItem) -> Seq<FnDecl> {
    match item {
        SourceItem::Fn { function, .. } => if exported_fn(function) {
            seq![function]
        } else {
            Seq::empty()
        },
        SourceItem::Other { .. } => Seq::empty(),
    }
}

pub proof fn lemma_exports_gathered(items: Seq<SourceItem>)
    ensures
        exported_functions(items) == gather(items, |item: SourceItem| export_part(item)),
    decreases items.len(),
{
    if items.len() > 0 {
        lemma_exports_gathered(items.drop_last());
        let earlier = exported_functions(items.drop_last());
        assert(earlier + Seq::<FnDecl>::empty() =~= earlier);
        match items.last() {
            SourceItem::Fn { function, .. } => {
                assert(earlier.push(function) =~= earlier + seq![function]);
            },
            SourceItem::Other { .. } => {},
        }
    }
}

pub proof fn lemma_visits_gathered(items: Seq<SourceItem>)
    ensures
        items_visits(items) == gather(items, |item: SourceItem| item_visits(item)),
    decreases items.len(),
{
    if items.len() > 0 {
        lemma_visits_gathered(items.drop_last());
    }
}

/// A list passes a check that looks at each element alone when every
/// element passes it.
pub proof fn lemma_no_problem_when_each_passes<T>(
    xs: Seq<T>,
    check: spec_fn(T, Seq<T>) -> Result<(), Seq<char>>,
)
    requires
        forall|i: int| 0 <= i < xs.len() ==> (#[trigger] check(xs[i], xs.take(i))) is Ok,
    ensures
        first_problem(xs, check) is Ok,
    decreases xs.len(),
{
    if xs.len() > 0 {
        let front = xs.drop_last();
        assert forall|i: int| 0 <= i < front.len() implies (#[trigger] check(front[i], front.take(i))) is Ok by {
            assert(front.take(i) =~= xs.take(i));
            assert(check(xs[i], xs.take(i)) is Ok);
        }
        lemma_no_problem_when_each_passes(front, check);
        assert(xs.take(xs.len() - 1) =~= front);
        assert(check(xs[xs.len() - 1], xs.take(xs.len() - 1)) is Ok);
    }
}

} // verus!
