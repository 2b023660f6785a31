//! Stable ordering of rows by a numeric rank and a text key.
use vstd::prelude::*;

verus! {

/// What a row is ordered by: first `rank`, then `text` compared character by character,
/// then `minor`.
pub struct SortKey {
    pub rank: u64,
    pub text: Vec<char>,
    pub minor: u64,
}

/// Strict lexicographic order of character sequences by code point, as `str`'s `<` orders.
pub open spec fn text_less(a: Seq<char>, b: Seq<char>) -> bool
    decreases a.len(),
{
    if a.len() == 0 {
        b.len() > 0
    } else if b.len() == 0 {
        false
    } else if a[0] != b[0] {
        a[0] < b[0]
    } else {
        text_less(a.drop_first(), b.drop_first())
    }
}

/// Row `i` comes before row `j`: smaller rank, then smaller text, then smaller minor key,
/// then earlier position.
pub open spec fn key_before(keys: Seq<SortKey>, i: int, j: int) -> bool {
    ||| keys[i].rank < keys[j].rank
    ||| keys[i].rank == keys[j].rank && text_less(keys[i].text@, keys[j].text@)
    ||| keys[i].rank == keys[j].rank && keys[i].text@ == keys[j].text@ && keys[i].minor < keys[j].minor
    ||| keys[i].rank == keys[j].rank && keys[i].text@ == keys[j].text@ && keys[i].minor == keys[j].minor
        && i < j
}

/// `order` lists every index below `n` exactly once.
pub open spec fn is_index_permutation(order: Seq<usize>, n: nat) -> bool {
    &&& order.len() == n
    &&& forall|k: int| 0 <= k < n ==> #[trigger] order.contains(k as usize)
    &&& forall|j: int| 0 <= j < order.len() ==> #[trigger] order[j] < n
}

/// Each row of `order` comes before every later row.
pub open spec fn sorted_by_keys(keys: Seq<SortKey>, order: Seq<usize>) -> bool {
    forall|a: int, b: int|
        0 <= a < b < order.len() ==> key_before(keys, #[trigger] order[a] as int, #[trigger] order[b] as int)
}

pub proof fn lemma_text_less_irreflexive(a: Seq<char>)
    ensures
        !text_less(a, a),
    decreases a.len(),
{
    if a.len() > 0 {
        lemma_text_less_irreflexive(a.drop_first());
    }
}

pub proof fn lemma_text_less_transitive(a: Seq<char>, b: Seq<char>, c: Seq<char>)
    requires
        text_less(a, b),
        text_less(b, c),
    ensures
        text_less(a, c),
    decreases a.len(),
{
    if a.len() > 0 && b.len() > 0 && c.len() > 0 {
        if a[0] == b[0] && b[0] == c[0] {
            lemma_text_less_transitive(a.drop_first(), b.drop_first(), c.drop_first());
        }
    }
}

pub proof fn lemma_text_less_total(a: Seq<char>, b: Seq<char>)
    requires
        a != b,
    ensures
        text_less(a, b) || text_less(b, a),
    decreases a.len(),
{
    if a.len() > 0 && b.len() > 0 && a[0] == b[0] {
        if a.drop_first() == b.drop_first() {
            assert(a =~= seq![a[0]] + a.drop_first());
            assert(b =~= seq![b[0]] + b.drop_first());
        }
        lemma_text_less_total(a.drop_first(), b.drop_first());
    } else if a.len() == 0 && b.len() == 0 {
        assert(a =~= b);
    } else if a.len() > 0 && b.len() > 0 {
    }
}

/// `key_before` is a strict total order on distinct rows.
pub proof fn lemma_key_before_order(keys: Seq<SortKey>, i: int, j: int, k: int)
    ensures
        !key_before(keys, i, i),
        key_before(keys, i, j) && key_before(keys, j, k) ==> key_before(keys, i, k),
        i != j ==> key_before(keys, i, j) || key_before(keys, j, i),
{
    lemma_text_less_irreflexive(keys[i].text@);
    if key_before(keys, i, j) && key_before(keys, j, k) {
        if text_less(keys[i].text@, keys[j].text@) && text_less(keys[j].text@, keys[k].text@) {
            lemma_text_less_transitive(keys[i].text@, keys[j].text@, keys[k].text@);
        }
    }
    if keys[i].text@ != keys[j].text@ {
        lemma_text_less_total(keys[i].text@, keys[j].text@);
    }
}

/// Decides `text_less` on two character vectors.
pub fn text_less_exec(a: &Vec<char>, b: &Vec<char>) -> (less: bool)
    ensures
        less == text_less(a@, b@),
{
    let mut i: usize = 0;
    assert(a@.skip(0) =~= a@);
    assert(b@.skip(0) =~= b@);
    while i < a.len() && i < b.len()
        invariant
            i <= a.len(),
            i <= b.len(),
            text_less(a@, b@) == text_less(a@.skip(i as int), b@.skip(i as int)),
        decreases a.len() - i,
    {
        if a[i] != b[i] {
            return a[i] < b[i];
        }
        assert(a@.skip(i as int).drop_first() =~= a@.skip(i + 1));
        assert(b@.skip(i as int).drop_first() =~= b@.skip(i + 1));
        i = i + 1;
    }
    i < b.len() && i == a.len()
}

/// Decides `key_before` for rows `i` and `j`.
pub fn key_before_exec(keys: &Vec<SortKey>, i: usize, j: usize) -> (before: bool)
    requires
        i < keys.len(),
        j < keys.len(),
    ensures
        before == key_before(keys@, i as int, j as int),
{
    let a = &keys[i];
    let b = &keys[j];
    if a.rank != b.rank {
        return a.rank < b.rank;
    }
    if text_less_exec(&a.text, &b.text) {
        return true;
    }
    if text_less_exec(&b.text, &a.text) {
        proof {
            lemma_text_less_irreflexive(a.text@);
        }
        return false;
    }
    proof {
        if a.text@ != b.text@ {
            lemma_text_less_total(a.text@, b.text@);
        }
    }
    if a.minor != b.minor {
        return a.minor < b.minor;
    }
    i < j
}

/// The row indices of `keys` in ascending key order; rows with equal keys keep their
/// relative order, as a stable sort by key leaves them.
pub fn sorted_order(keys: &Vec<SortKey>) -> (order: Vec<usize>)
    ensures
        is_index_permutation(order@, keys.len() as nat),
        sorted_by_keys(keys@, order@),
{
    let n = keys.len();
    let mut order: Vec<usize> = Vec::new();
    let mut i: usize = 0;
    while i < n
        invariant
            n == keys.len(),
            i <= n,
            order.len() == i,
            forall|k: int| 0 <= k < i ==> #[trigger] order@.contains(k as usize),
            forall|j: int| 0 <= j < order.len() ==> #[trigger] order@[j] < i,
            sorted_by_keys(keys@, order@),
        decreases n - i,
    {
        let mut p: usize = 0;
        while p < order.len() && !key_before_exec(keys, i, order[p])
            invariant
                n == keys.len(),
                i < n,
                p <= order.len(),
                forall|j: int| 0 <= j < order.len() ==> #[trigger] order@[j] < i,
                forall|q: int| 0 <= q < p ==> !key_before(keys@, i as int, #[trigger] order@[q] as int),
            decreases order.len() - p,
        {
            p = p + 1;
        }
        let ghost before = order@;
        proof {
            assert forall|q: int| 0 <= q < p implies key_before(keys@, #[trigger] before[q] as int, i as int) by {
                lemma_key_before_order(keys@, before[q] as int, i as int, i as int);
            }
            assert forall|q: int| p <= q < before.len() implies key_before(keys@, i as int, #[trigger] before[q] as int) by {
                if q > p {
                    lemma_key_before_order(keys@, i as int, before[p as int] as int, before[q] as int);
                }
            }
        }
        order.insert(p, i);
        proof {
            assert(order@ == before.insert(p as int, i));
            assert forall|a: int, b: int| 0 <= a < b < order@.len() implies key_before(keys@, #[trigger] order@[a] as int, #[trigger] order@[b] as int) by {
                if a < p && b < p {
                } else if a < p && b == p {
                } else if a < p {
                    assert(order@[b] == before[b - 1]);
                } else if a == p {
                    assert(order@[b] == before[b - 1]);
                } else {
                    assert(order@[a] == before[a - 1]);
                    assert(order@[b] == before[b - 1]);
                }
            }
            assert forall|k: int| 0 <= k < i + 1 implies #[trigger] order@.contains(k as usize) by {
                if k == i {
                    assert(order@[p as int] == i);
                } else {
                    assert(before.contains(k as usize));
                    let w = choose|w: int| 0 <= w < before.len() && before[w] == k as usize;
                    if w < p {
                        assert(order@[w] == k as usize);
                    } else {
                        assert(order@[w + 1] == k as usize);
                    }
                }
            }
            assert forall|j: int| 0 <= j < order.len() implies #[trigger] order@[j] < i + 1 by {
                if j < p {
                } else if j > p {
                    assert(order@[j] == before[j - 1]);
                }
            }
        }
        i = i + 1;
    }
    order
}

/// Two sequences ordered strictly by the same asymmetric relation that hold the same
/// elements are the same sequence.
pub proof fn lemma_sorted_unique<A>(x: Seq<A>, y: Seq<A>, before: spec_fn(A, A) -> bool)
    requires
        forall|a: A, b: A| !(#[trigger] before(a, b) && before(b, a)),
        forall|i: int, j: int| 0 <= i < j < x.len() ==> before(#[trigger] x[i], #[trigger] x[j]),
        forall|i: int, j: int| 0 <= i < j < y.len() ==> before(#[trigger] y[i], #[trigger] y[j]),
        x.to_set() == y.to_set(),
    ensures
        x == y,
    decreases x.len(),
{
    if x.len() == 0 {
        if y.len() > 0 {
            assert(y.to_set().contains(y[0]));
            assert(!x.to_set().contains(y[0]));
        }
        assert(x =~= y);
    } else if y.len() == 0 {
        assert(x.to_set().contains(x[0]));
        assert(!y.to_set().contains(x[0]));
    } else {
        let a = x[0];
        let b = y[0];
        if a != b {
            assert(y.to_set().contains(a));
            let r = choose|r: int| 0 <= r < y.len() && y[r] == a;
            assert(r > 0);
            assert(before(b, a));
            assert(x.to_set().contains(b));
            let q = choose|q: int| 0 <= q < x.len() && x[q] == b;
            assert(q > 0);
            assert(before(a, b));
        }
        let xs = x.drop_first();
        let ys = y.drop_first();
        assert forall|v: A| xs.to_set().contains(v) <==> ys.to_set().contains(v) by {
            if xs.to_set().contains(v) {
                let q = choose|q: int| 0 <= q < xs.len() && xs[q] == v;
                assert(x[q + 1] == v);
                assert(before(x[0], x[q + 1]));
                assert(v != a);
                assert(x.to_set().contains(v));
                assert(y.to_set().contains(v));
                let r = choose|r: int| 0 <= r < y.len() && y[r] == v;
                assert(r != 0);
                assert(ys[r - 1] == v);
            }
            if ys.to_set().contains(v) {
                let q = choose|q: int| 0 <= q < ys.len() && ys[q] == v;
                assert(y[q + 1] == v);
                assert(before(y[0], y[q + 1]));
                assert(v != b);
                assert(y.to_set().contains(v));
                assert(x.to_set().contains(v));
                let r = choose|r: int| 0 <= r < x.len() && x[r] == v;
                assert(r != 0);
                assert(xs[r - 1] == v);
            }
        }
        assert(xs.to_set() =~= ys.to_set());
        assert forall|i: int, j: int| 0 <= i < j < xs.len() implies before(#[trigger] xs[i], #[trigger] xs[j]) by {
            assert(before(x[i + 1], x[j + 1]));
        }
        assert forall|i: int, j: int| 0 <= i < j < ys.len() implies before(#[trigger] ys[i], #[trigger] ys[j]) by {
            assert(before(y[i + 1], y[j + 1]));
        }
        lemma_sorted_unique(xs, ys, before);
        assert(x =~= y) by {
            assert(x =~= seq![a] + xs);
            assert(y =~= seq![b] + ys);
        }
    }
}

} // verus!
