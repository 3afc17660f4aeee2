//! Stable ordering of items by text keys.
use vstd::prelude::*;

verus! {

/// `a` comes strictly before `b` in lexicographic order of characters.
pub open spec fn lex_lt(a: Seq<char>, b: Seq<char>) -> bool
    decreases a.len(),
{
    if a.len() == 0 {
        b.len() > 0
    } else if b.len() == 0 {
        false
    } else if a[0] != b[0] {
        a[0] < b[0]
    } else {
        lex_lt(a.drop_first(), b.drop_first())
    }
}

pub proof fn lemma_lex_lt_irreflexive(a: Seq<char>)
    ensures
        !lex_lt(a, a),
    decreases a.len(),
{
    if a.len() > 0 {
        lemma_lex_lt_irreflexive(a.drop_first());
    }
}

pub proof fn lemma_lex_lt_transitive(a: Seq<char>, b: Seq<char>, c: Seq<char>)
    requires
        lex_lt(a, b),
        lex_lt(b, c),
    ensures
        lex_lt(a, c),
    decreases a.len(),
{
    if a.len() > 0 && b.len() > 0 && c.len() > 0 && a[0] == b[0] && b[0] == c[0] {
        lemma_lex_lt_transitive(a.drop_first(), b.drop_first(), c.drop_first());
    }
}

pub proof fn lemma_lex_lt_total(a: Seq<char>, b: Seq<char>)
    ensures
        a == b || lex_lt(a, b) || lex_lt(b, a),
    decreases a.len(),
{
    if a.len() > 0 && b.len() > 0 && a[0] == b[0] {
        lemma_lex_lt_total(a.drop_first(), b.drop_first());
        if a.drop_first() == b.drop_first() {
            assert(a =~= seq![a[0]] + a.drop_first());
            assert(b =~= seq![b[0]] + b.drop_first());
        }
    } else if a.len() == 0 && b.len() == 0 {
        assert(a =~= b);
    }
}

pub proof fn lemma_lex_lt_asymmetric(a: Seq<char>, b: Seq<char>)
    ensures
        !(lex_lt(a, b) && lex_lt(b, a)),
{
    if lex_lt(a, b) && lex_lt(b, a) {
        lemma_lex_lt_transitive(a, b, a);
        lemma_lex_lt_irreflexive(a);
    }
}

/// `order` lists every position of `keys` exactly once.
pub open spec fn is_permutation(order: Seq<usize>, n: int) -> bool {
    &&& order.len() == n
    &&& forall|i: int| 0 <= i < n ==> (#[trigger] order[i]) < n
    &&& forall|i: int, j: int| 0 <= i < j < n ==> #[trigger] order[i] != #[trigger] order[j]
}

/// `order` visits `keys` in non-decreasing key order, and positions with
/// equal keys in their input order.
pub open spec fn is_stable_sorted(order: Seq<usize>, keys: Seq<Seq<char>>) -> bool {
    &&& forall|i: int, j: int| 0 <= i < j < order.len()
        ==> !lex_lt(keys[#[trigger] order[j] as int], keys[#[trigger] order[i] as int])
    &&& forall|i: int, j: int| 0 <= i < j < order.len() && keys[order[i] as int] == keys[order[j] as int]
        ==> #[trigger] order[i] < #[trigger] order[j]
}

/// `a` is lexicographically smaller than `b`.
pub fn text_less(a: &Vec<char>, b: &Vec<char>) -> (r: bool)
    ensures
        r == lex_lt(a@, b@),
{
    let mut i: usize = 0;
    assert(a@.skip(0) =~= a@);
    assert(b@.skip(0) =~= b@);
    loop
        invariant
            i <= a@.len(),
            i <= b@.len(),
            lex_lt(a@, b@) == lex_lt(a@.skip(i as int), b@.skip(i as int)),
        decreases a@.len() - i,
    {
        if i == a.len() {
            return i < b.len();
        }
        if i == b.len() {
            return false;
        }
        assert(a@.skip(i as int)[0] == a@[i as int]);
        assert(b@.skip(i as int)[0] == b@[i as int]);
        if a[i] != b[i] {
            return a[i] < b[i];
        }
        assert(a@.skip(i as int).drop_first() =~= a@.skip(i + 1));
        assert(b@.skip(i as int).drop_first() =~= b@.skip(i + 1));
        i = i + 1;
    }
}

/// The positions of `keys`, ordered by key; equal keys keep their order.
pub fn stable_order(keys: &Vec<Vec<char>>) -> (r: Vec<usize>)
    ensures
        is_permutation(r@, keys@.len() as int),
        is_stable_sorted(r@, Seq::new(keys@.len(), |i: int| keys@[i]@)),
{
    let ghost ks = Seq::new(keys@.len(), |i: int| keys@[i]@);
    let n = keys.len();
    let mut order: Vec<usize> = Vec::new();
    let mut m: usize = 0;
    while m < n
        invariant
            n == keys@.len(),
            ks == Seq::new(keys@.len(), |i: int| keys@[i]@),
            m <= n,
            is_permutation(order@, m as int),
            is_stable_sorted(order@, ks),
        decreases n - m,
    {
        // The first position whose key is greater than the key of `m`.
        let mut p: usize = 0;
        while p < order.len() && !text_less(&keys[m], &keys[order[p]])
            invariant
                n == keys@.len(),
                ks == Seq::new(keys@.len(), |i: int| keys@[i]@),
                m < n,
                p <= order@.len(),
                is_permutation(order@, m as int),
                forall|q: int| 0 <= q < p ==> !lex_lt(ks[m as int], ks[#[trigger] order@[q] as int]),
            decreases order@.len() - p,
        {
            p = p + 1;
        }
        let ghost old_order = order@;
        proof {
            if p < old_order.len() {
                assert(lex_lt(ks[m as int], ks[old_order[p as int] as int]));
            }
            self::lemma_insert_keeps_order(old_order, ks, m as int, p as int);
        }
        order.insert(p, m);
        m = m + 1;
    }
    order
}

proof fn lemma_insert_keeps_order(order: Seq<usize>, ks: Seq<Seq<char>>, m: int, p: int)
    requires
        0 <= m < ks.len(),
        0 <= p <= order.len(),
        m < usize::MAX,
        is_permutation(order, m),
        is_stable_sorted(order, ks),
        forall|q: int| 0 <= q < p ==> !lex_lt(ks[m], ks[#[trigger] order[q] as int]),
        p < order.len() ==> lex_lt(ks[m], ks[order[p] as int]),
    ensures
        is_permutation(order.insert(p, m as usize), m + 1),
        is_stable_sorted(order.insert(p, m as usize), ks),
{
    let r = order.insert(p, m as usize);
    assert forall|i: int| 0 <= i < r.len() implies (#[trigger] r[i]) < m + 1 by {
        if i < p { assert(r[i] == order[i]); } else if i > p { assert(r[i] == order[i - 1]); }
    }
    assert forall|i: int, j: int| 0 <= i < j < m + 1 implies #[trigger] r[i] != #[trigger] r[j] by {
        if i < p && j < p { assert(r[i] == order[i] && r[j] == order[j]); }
        else if i < p && j == p { assert(r[i] == order[i]); }
        else if i < p && j > p { assert(r[i] == order[i] && r[j] == order[j - 1]); }
        else if i == p { assert(r[j] == order[j - 1]); }
        else { assert(r[i] == order[i - 1] && r[j] == order[j - 1]); }
    }
    // Every key after the insertion point is greater than the inserted key.
    assert forall|q: int| p <= q < order.len() implies lex_lt(ks[m], ks[#[trigger] order[q] as int]) by {
        if q > p {
            lemma_lex_lt_total(ks[order[p] as int], ks[order[q] as int]);
            if lex_lt(ks[order[q] as int], ks[order[p] as int]) {
                assert(!lex_lt(ks[order[q] as int], ks[order[p] as int]));
            }
            if ks[order[p] as int] != ks[order[q] as int] {
                lemma_lex_lt_transitive(ks[m], ks[order[p] as int], ks[order[q] as int]);
            }
        }
    }
    assert forall|i: int, j: int| 0 <= i < j < r.len()
        implies !lex_lt(ks[#[trigger] r[j] as int], ks[#[trigger] r[i] as int]) by {
        if i < p && j < p {
            assert(r[i] == order[i] && r[j] == order[j]);
        } else if i < p && j == p {
            assert(r[i] == order[i] && r[j] == m);
        } else if i < p && j > p {
            assert(r[i] == order[i] && r[j] == order[j - 1]);
        } else if i == p {
            assert(r[j] == order[j - 1]);
            lemma_lex_lt_asymmetric(ks[m], ks[order[j - 1] as int]);
        } else {
            assert(r[i] == order[i - 1] && r[j] == order[j - 1]);
        }
    }
    assert forall|i: int, j: int| 0 <= i < j < r.len() && ks[r[i] as int] == ks[r[j] as int]
        implies #[trigger] r[i] < #[trigger] r[j] by {
        if i < p && j < p {
            assert(r[i] == order[i] && r[j] == order[j]);
        } else if i < p && j == p {
            assert(r[i] == order[i]);
        } else if i < p && j > p {
            assert(r[i] == order[i] && r[j] == order[j - 1]);
        } else if i == p {
            assert(r[j] == order[j - 1]);
            lemma_lex_lt_irreflexive(ks[m]);
        } else {
            assert(r[i] == order[i - 1] && r[j] == order[j - 1]);
        }
    }
}

} // verus!
