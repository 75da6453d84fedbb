//! The order in which discovery lists functions: by Rust name, as `str`
//! compares them.

use vstd::prelude::*;

verus! {

/// Lexicographic order on character sequences, a proper prefix first; for
/// strings this is the order of `str::cmp`.
pub open spec fn text_less(a: Seq<char>, b: Seq<char>) -> bool
    decreases a.len(),
{
    if a.len() == 0 {
        b.len() > 0
    } else if b.len() == 0 {
        false
    } else if a[0] != b[0] {
        (a[0] as u32) < (b[0] as u32)
    } else {
        text_less(a.drop_first(), b.drop_first())
    }
}

/// Where a name goes in a sorted list: after every name not greater than it.
pub open spec fn insert_position(s: Seq<Seq<char>>, x: Seq<char>) -> int
    decreases s.len(),
{
    if s.len() == 0 {
        0
    } else if text_less(x, s[0]) {
        0
    } else {
        1 + insert_position(s.drop_first(), x)
    }
}

/// Insertion sort: each name goes after the equal names already placed.
pub open spec fn sorted_names(names: Seq<Seq<char>>) -> Seq<Seq<char>>
    decreases names.len(),
{
    if names.len() == 0 {
        Seq::empty()
    } else {
        let s = sorted_names(names.drop_last());
        s.insert(insert_position(s, names.last()), names.last())
    }
}

/// Whether `a` sorts before `b`.
pub fn is_text_less(a: &str, b: &str) -> (r: bool)
    ensures
        r == text_less(a@, b@),
{
    let n = a.unicode_len();
    let m = b.unicode_len();
    let mut i: usize = 0;
    proof {
        assert(a@.skip(0) =~= a@);
        assert(b@.skip(0) =~= b@);
    }
    while i < n && i < m
        invariant
            n == a@.len(),
            m == b@.len(),
            i <= n,
            i <= m,
            a@.take(i as int) == b@.take(i as int),
            text_less(a@, b@) == text_less(a@.skip(i as int), b@.skip(i as int)),
        decreases n - i,
    {
        let x = a.get_char(i);
        let y = b.get_char(i);
        proof {
            assert(a@.skip(i as int)[0] == x);
            assert(b@.skip(i as int)[0] == y);
            assert(a@.skip(i as int).drop_first() =~= a@.skip(i + 1));
            assert(b@.skip(i as int).drop_first() =~= b@.skip(i + 1));
        }
        if x != y {
            return (x as u32) < (y as u32);
        }
        proof {
            assert(a@.take(i + 1) =~= a@.take(i as int).push(x));
            assert(b@.take(i + 1) =~= b@.take(i as int).push(y));
        }
        i = i + 1;
    }
    i == n && i < m
}

/// The position found by scanning for the first greater name.
pub proof fn lemma_insert_position(s: Seq<Seq<char>>, x: Seq<char>, k: int)
    requires
        0 <= k <= s.len(),
        forall|j: int| 0 <= j < k ==> !text_less(x, #[trigger] s[j]),
        k == s.len() || text_less(x, s[k]),
    ensures
        insert_position(s, x) == k,
    decreases k,
{
    if k > 0 {
        assert forall|j: int| 0 <= j < k - 1 implies !text_less(x, #[trigger] s.drop_first()[j]) by {
            assert(s.drop_first()[j] == s[j + 1]);
        }
        if k < s.len() {
            assert(s.drop_first()[k - 1] == s[k]);
        }
        assert(!text_less(x, s[0]));
        lemma_insert_position(s.drop_first(), x, k - 1);
    }
}

proof fn lemma_insert_position_bounds(s: Seq<Seq<char>>, x: Seq<char>)
    ensures
        0 <= insert_position(s, x) <= s.len(),
    decreases s.len(),
{
    if s.len() > 0 && !text_less(x, s[0]) {
        lemma_insert_position_bounds(s.drop_first(), x);
    }
}

pub proof fn lemma_sorted_names_len(names: Seq<Seq<char>>)
    ensures
        sorted_names(names).len() == names.len(),
    decreases names.len(),
{
    if names.len() > 0 {
        lemma_sorted_names_len(names.drop_last());
        lemma_insert_position_bounds(sorted_names(names.drop_last()), names.last());
    }
}


proof fn lemma_text_less_transitive(a: Seq<char>, b: Seq<char>, c: Seq<char>)
    requires
        text_less(a, b),
        text_less(b, c),
    ensures
        text_less(a, c),
    decreases a.len(),
{
    if a.len() > 0 && b.len() > 0 && c.len() > 0 && a[0] == b[0] && b[0] == c[0] {
        lemma_text_less_transitive(a.drop_first(), b.drop_first(), c.drop_first());
    }
}

/// Two different names are ordered one way or the other.
pub proof fn lemma_text_less_total(a: Seq<char>, b: Seq<char>)
    ensures
        a != b ==> text_less(a, b) || text_less(b, a),
    decreases a.len(),
{
    if a.len() == 0 {
        if b.len() == 0 {
            assert(a =~= b);
        }
    } else if b.len() > 0 && a[0] != b[0] {
        vstd::utf8::char_u32_cast(a[0], a[0] as u32);
        vstd::utf8::char_u32_cast(b[0], b[0] as u32);
    } else if b.len() > 0 && a[0] == b[0] {
        lemma_text_less_total(a.drop_first(), b.drop_first());
        if a.drop_first() == b.drop_first() {
            assert(a =~= seq![a[0]] + a.drop_first());
            assert(b =~= seq![b[0]] + b.drop_first());
        }
    }
}

pub proof fn lemma_text_less_irreflexive(a: Seq<char>)
    ensures
        !text_less(a, a),
    decreases a.len(),
{
    if a.len() > 0 {
        lemma_text_less_irreflexive(a.drop_first());
    }
}

proof fn lemma_insert_position_spec(s: Seq<Seq<char>>, x: Seq<char>)
    ensures
        0 <= insert_position(s, x) <= s.len(),
        forall|j: int| 0 <= j < insert_position(s, x) ==> !text_less(x, #[trigger] s[j]),
        insert_position(s, x) < s.len() ==> text_less(x, s[insert_position(s, x)]),
    decreases s.len(),
{
    if s.len() > 0 && !text_less(x, s[0]) {
        let t = s.drop_first();
        lemma_insert_position_spec(t, x);
        assert forall|j: int| 0 <= j < insert_position(s, x) implies !text_less(x, #[trigger] s[j]) by {
            if j > 0 {
                assert(s[j] == t[j - 1]);
            }
        }
        if insert_position(s, x) < s.len() {
            assert(s[insert_position(s, x)] == t[insert_position(t, x)]);
        }
    }
}

/// Whether a list of names never has a name sorting before an earlier one.
pub open spec fn names_sorted(s: Seq<Seq<char>>) -> bool {
    forall|i: int, j: int| 0 <= i < j < s.len() ==> !text_less(#[trigger] s[j], #[trigger] s[i])
}

/// The names that discovery lists come out sorted.
pub proof fn sorted_names_are_sorted(names: Seq<Seq<char>>)
    ensures
        names_sorted(sorted_names(names)),
    decreases names.len(),
{
    if names.len() > 0 {
        let s = sorted_names(names.drop_last());
        let x = names.last();
        sorted_names_are_sorted(names.drop_last());
        lemma_insert_position_spec(s, x);
        let p = insert_position(s, x);
        let t = s.insert(p, x);
        assert forall|i: int, j: int| 0 <= i < j < t.len() implies !text_less(#[trigger] t[j], #[trigger] t[i]) by {
            if j < p {
                assert(t[i] == s[i] && t[j] == s[j]);
            } else if j == p {
                assert(t[i] == s[i]);
            } else if i < p {
                assert(t[i] == s[i] && t[j] == s[j - 1]);
            } else if i == p {
                assert(t[j] == s[j - 1]);
                if text_less(t[j], x) {
                    lemma_text_less_transitive(s[j - 1], x, s[p]);
                    if j - 1 == p {
                        lemma_text_less_irreflexive(s[p]);
                    } else {
                        assert(!text_less(s[j - 1], s[p]));
                    }
                }
            } else {
                assert(t[i] == s[i - 1] && t[j] == s[j - 1]);
            }
        }
    }
}

proof fn lemma_insert_multiset(s: Seq<Seq<char>>, p: int, x: Seq<char>)
    requires
        0 <= p <= s.len(),
    ensures
        s.insert(p, x).to_multiset() == s.to_multiset().insert(x),
{
    broadcast use vstd::seq_lib::group_to_multiset_ensures, vstd::multiset::group_multiset_axioms;

    let t = s.insert(p, x);
    assert(t.remove(p) =~= s);
    assert(t[p] == x);
    assert(t.contains(x));
    assert(t.to_multiset().remove(x) == s.to_multiset());
    assert(t.to_multiset() =~= s.to_multiset().insert(x));
}

/// The names that discovery lists are exactly the discovered ones, each as
/// often as it occurs.
pub proof fn sorted_names_are_a_permutation(names: Seq<Seq<char>>)
    ensures
        sorted_names(names).to_multiset() == names.to_multiset(),
    decreases names.len(),
{
    broadcast use vstd::seq_lib::group_to_multiset_ensures;

    if names.len() == 0 {
        assert(sorted_names(names) =~= names);
    } else {
        let s = sorted_names(names.drop_last());
        sorted_names_are_a_permutation(names.drop_last());
        lemma_insert_position_spec(s, names.last());
        lemma_insert_multiset(s, insert_position(s, names.last()), names.last());
        assert(names.drop_last().push(names.last()) =~= names);
    }
}

/// A list of names in strictly increasing order is the only sorted
/// arrangement of its names.
pub proof fn lemma_sorted_arrangement_unique(s1: Seq<Seq<char>>, s2: Seq<Seq<char>>)
    requires
        forall|i: int, j: int| 0 <= i < j < s1.len() ==> text_less(#[trigger] s1[i], #[trigger] s1[j]),
        names_sorted(s2),
        s1.to_multiset() == s2.to_multiset(),
    ensures
        s1 == s2,
    decreases s1.len(),
{
    broadcast use vstd::seq_lib::group_to_multiset_ensures;

    assert(s1.to_multiset().len() == s1.len());
    assert(s2.to_multiset().len() == s2.len());
    if s1.len() == 0 {
        assert(s1 =~= s2);
    } else {
        let a = s1[0];
        let b = s2[0];
        assert(s1.contains(a));
        assert(s2.to_multiset().count(a) > 0);
        assert(s2.contains(a));
        let j = choose|j: int| 0 <= j < s2.len() && s2[j] == a;
        assert(s1.to_multiset().count(b) > 0);
        assert(s1.contains(b));
        let i = choose|i: int| 0 <= i < s1.len() && s1[i] == b;
        if a != b {
            lemma_text_less_total(a, b);
            if text_less(a, b) {
                assert(j != 0);
                assert(!text_less(s2[j], s2[0]));
            } else {
                assert(i != 0);
                assert(text_less(s1[0], s1[i]));
                lemma_text_less_transitive(b, a, b);
                lemma_text_less_irreflexive(b);
            }
        }
        let t1 = s1.remove(0);
        let t2 = s2.remove(0);
        assert(t1.to_multiset() == t2.to_multiset());
        assert forall|x: int, y: int| 0 <= x < y < t1.len() implies text_less(#[trigger] t1[x], #[trigger] t1[y]) by {
            assert(t1[x] == s1[x + 1] && t1[y] == s1[y + 1]);
        }
        assert forall|x: int, y: int| 0 <= x < y < t2.len() implies !text_less(#[trigger] t2[y], #[trigger] t2[x]) by {
            assert(t2[x] == s2[x + 1] && t2[y] == s2[y + 1]);
        }
        lemma_sorted_arrangement_unique(t1, t2);
        assert(s1 =~= seq![a] + t1);
        assert(s2 =~= seq![b] + t2);
    }
}

/// Names in strictly increasing order are all different.
pub proof fn lemma_increasing_distinct(s: Seq<Seq<char>>)
    requires
        forall|i: int, j: int| 0 <= i < j < s.len() ==> text_less(#[trigger] s[i], #[trigger] s[j]),
    ensures
        s.no_duplicates(),
{
    assert forall|i: int, j: int| 0 <= i < s.len() && 0 <= j < s.len() && i != j implies s[i] != s[j] by {
        if i < j {
            assert(text_less(s[i], s[j]));
            if s[i] == s[j] {
                lemma_text_less_irreflexive(s[i]);
            }
        } else {
            assert(text_less(s[j], s[i]));
            if s[i] == s[j] {
                lemma_text_less_irreflexive(s[i]);
            }
        }
    }
}

} // verus!
