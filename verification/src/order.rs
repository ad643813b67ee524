//! Stable ordering of indices by keys.
use vstd::prelude::*;

verus! {

/// A key by which items are put in order. Keys of which neither comes before the other stay in the
/// order in which they were given.
pub trait Ranked: Sized {
    spec fn before(self, other: Self) -> bool;

    proof fn lemma_asymmetric(a: Self, b: Self)
        requires
            a.before(b),
        ensures
            !b.before(a),
    ;

    proof fn lemma_weak(a: Self, b: Self, c: Self)
        requires
            a.before(b),
            !c.before(b),
        ensures
            a.before(c),
    ;

    fn is_before(&self, other: &Self) -> (r: bool)
        ensures
            r == self.before(*other),
    ;
}

/// `i` comes before `j`: by `less`, or by index where `less` does not tell them apart.
pub open spec fn precedes(less: spec_fn(int, int) -> bool, i: int, j: int) -> bool {
    less(i, j) || (!less(j, i) && i < j)
}

/// `r` lists the indices below `n`, each once, in order.
pub open spec fn is_order(n: nat, less: spec_fn(int, int) -> bool, r: Seq<int>) -> bool {
    &&& r.len() == n
    &&& forall|p: int| 0 <= p < n ==> 0 <= #[trigger] r[p] < n
    &&& forall|i: int| 0 <= i < n ==> r.contains(i)
    &&& forall|p: int, q: int|
        0 <= p < q < n ==> #[trigger] precedes(less, #[trigger] r[p], #[trigger] r[q])
}

/// The indices below `n` in order.
pub open spec fn order_by(n: nat, less: spec_fn(int, int) -> bool) -> Seq<int> {
    choose|r: Seq<int>| is_order(n, less, r)
}

/// `less` never holds both ways.
pub open spec fn asymmetric(n: nat, less: spec_fn(int, int) -> bool) -> bool {
    forall|i: int, j: int| 0 <= i < n && 0 <= j < n && #[trigger] less(i, j) ==> !less(j, i)
}

/// There is no second way to put the indices in order.
pub proof fn lemma_order_unique(n: nat, less: spec_fn(int, int) -> bool, a: Seq<int>, b: Seq<int>)
    requires
        asymmetric(n, less),
        is_order(n, less, a),
        is_order(n, less, b),
    ensures
        a == b,
{
    assert forall|p: int| 0 <= p < n implies a[p] == b[p] by {
        lemma_order_agrees(n, less, a, b, p);
    }
    assert(a =~= b);
}

proof fn lemma_order_agrees(
    n: nat,
    less: spec_fn(int, int) -> bool,
    a: Seq<int>,
    b: Seq<int>,
    p: int,
)
    requires
        asymmetric(n, less),
        is_order(n, less, a),
        is_order(n, less, b),
        0 <= p < n,
    ensures
        a[p] == b[p],
    decreases p,
{
    assert forall|k: int| 0 <= k < p implies a[k] == b[k] by {
        lemma_order_agrees(n, less, a, b, k);
    }
    let x = a[p];
    let y = b[p];
    if x != y {
        assert(a.contains(y));
        assert(b.contains(x));
        let i = choose|i: int| 0 <= i < a.len() && a[i] == y;
        let j = choose|j: int| 0 <= j < b.len() && b[j] == x;
        if i < p {
            assert(a[i] == b[i]);
            assert(precedes(less, b[i], b[p]));
            assert(precedes(less, y, y));
        }
        if j < p {
            assert(a[j] == b[j]);
            assert(precedes(less, a[j], a[p]));
            assert(precedes(less, x, x));
        }
        assert(precedes(less, a[p], a[i]));
        assert(precedes(less, b[p], b[j]));
        assert(precedes(less, x, y));
        assert(precedes(less, y, x));
    }
}

/// An order that was found is the one that is meant.
pub proof fn lemma_order_found(n: nat, less: spec_fn(int, int) -> bool, r: Seq<int>)
    requires
        asymmetric(n, less),
        is_order(n, less, r),
    ensures
        order_by(n, less) == r,
        is_order(n, less, order_by(n, less)),
{
    lemma_order_unique(n, less, r, order_by(n, less));
}

/// An order under one relation is the order that is meant under another that agrees with it.
pub proof fn lemma_order_same(
    n: nat,
    given: spec_fn(int, int) -> bool,
    less: spec_fn(int, int) -> bool,
    r: Seq<int>,
)
    requires
        asymmetric(n, given),
        is_order(n, given, r),
        forall|i: int, j: int| 0 <= i < n && 0 <= j < n ==> #[trigger] less(i, j) == given(i, j),
    ensures
        is_order(n, less, r),
        order_by(n, less) == r,
{
    assert forall|i: int, j: int| 0 <= i < n && 0 <= j < n && #[trigger] less(i, j) implies !less(
        j,
        i,
    ) by {
        assert(given(i, j));
        assert(less(j, i) == given(j, i));
    }
    assert forall|p: int, q: int| 0 <= p < q < n implies #[trigger] precedes(
        less,
        #[trigger] r[p],
        #[trigger] r[q],
    ) by {
        assert(precedes(given, r[p], r[q]));
        assert(less(r[p], r[q]) == given(r[p], r[q]));
        assert(less(r[q], r[p]) == given(r[q], r[p]));
    }
    lemma_order_found(n, less, r);
}

/// What does not come before `j` comes no earlier than what `j` follows.
pub open spec fn weak(n: nat, less: spec_fn(int, int) -> bool) -> bool {
    forall|i: int, j: int, k: int|
        0 <= i < n && 0 <= j < n && 0 <= k < n && #[trigger] less(i, j) && !less(k, j)
            ==> #[trigger] less(i, k)
}

/// Under a weak order there is an order of the indices.
pub proof fn lemma_order_exists(n: nat, less: spec_fn(int, int) -> bool)
    requires
        asymmetric(n, less),
        weak(n, less),
    ensures
        is_order(n, less, order_by(n, less)),
{
    let r = lemma_build_order(n, less);
    lemma_order_found(n, less, r);
}

proof fn lemma_build_order(n: nat, less: spec_fn(int, int) -> bool) -> (r: Seq<int>)
    requires
        asymmetric(n, less),
        weak(n, less),
    ensures
        is_order(n, less, r),
    decreases n,
{
    if n == 0 {
        Seq::empty()
    } else {
        let m = (n - 1) as nat;
        let t = lemma_build_order(m, less);
        let pos = lemma_place(m, less, t, m);
        lemma_inserted(m, less, t, pos);
        t.insert(pos, m as int)
    }
}

/// The place of `n` among the first `end` entries of an order.
proof fn lemma_place(n: nat, less: spec_fn(int, int) -> bool, t: Seq<int>, end: nat) -> (pos: int)
    requires
        is_order(n, less, t),
        end <= n,
        asymmetric(n + 1, less),
        weak(n + 1, less),
        forall|p: int| end <= p < n ==> less(n as int, #[trigger] t[p]),
    ensures
        0 <= pos <= n,
        forall|p: int| pos <= p < n ==> less(n as int, #[trigger] t[p]),
        forall|p: int| 0 <= p < pos ==> !less(n as int, #[trigger] t[p]),
    decreases end,
{
    if end > 0 && less(n as int, t[end - 1]) {
        lemma_place(n, less, t, (end - 1) as nat)
    } else {
        assert forall|p: int| 0 <= p < end implies !less(n as int, #[trigger] t[p]) by {
            if p < end - 1 && less(n as int, t[p]) {
                assert(precedes(less, t[p], t[end - 1]));
                assert(less(t[p], t[end - 1]) ==> !less(t[end - 1], t[p]));
            }
        }
        end as int
    }
}

proof fn lemma_inserted(n: nat, less: spec_fn(int, int) -> bool, t: Seq<int>, pos: int)
    requires
        is_order(n, less, t),
        0 <= pos <= n,
        forall|p: int| pos <= p < n ==> less(n as int, #[trigger] t[p]),
        forall|p: int| 0 <= p < pos ==> !less(n as int, #[trigger] t[p]),
    ensures
        is_order(n + 1, less, t.insert(pos, n as int)),
{
    let now = t.insert(pos, n as int);
    assert forall|i: int| 0 <= i < n + 1 implies now.contains(i) by {
        if i == n {
            assert(now[pos] == i);
        } else {
            assert(t.contains(i));
            let p = choose|p: int| 0 <= p < t.len() && t[p] == i;
            if p < pos {
                assert(now[p] == i);
            } else {
                assert(now[p + 1] == i);
            }
        }
    }
    assert forall|p: int, q: int| 0 <= p < q < n + 1 implies #[trigger] precedes(
        less,
        #[trigger] now[p],
        #[trigger] now[q],
    ) by {
        let a = if p < pos {
            p
        } else {
            p - 1
        };
        let b = if q < pos {
            q
        } else {
            q - 1
        };
        if p == pos {
            assert(now[q] == t[q - 1]);
        } else if q == pos {
            assert(now[p] == t[p]);
        } else {
            assert(now[p] == t[a]);
            assert(now[q] == t[b]);
            assert(precedes(less, t[a], t[b]));
        }
    }
}

pub open spec fn as_ints(v: Seq<usize>) -> Seq<int> {
    v.map_values(|i: usize| i as int)
}

/// The relation that keys put on their indices.
pub open spec fn by_keys<K: Ranked>(keys: Seq<K>) -> spec_fn(int, int) -> bool {
    |i: int, j: int| keys[i].before(keys[j])
}

/// The indices of `keys`, in the order of the keys.
pub fn stable_order<K: Ranked>(keys: &Vec<K>) -> (r: Vec<usize>)
    ensures
        asymmetric(keys@.len(), by_keys(keys@)),
        is_order(keys@.len(), by_keys(keys@), as_ints(r@)),
{
    let ghost less = by_keys(keys@);
    proof {
        assert forall|i: int, j: int| #[trigger] less(i, j) implies !less(j, i) by {
            K::lemma_asymmetric(keys@[i], keys@[j]);
        }
    }
    let mut r: Vec<usize> = Vec::new();
    for n in 0..keys.len()
        invariant
            less == by_keys(keys@),
            is_order(n as nat, less, as_ints(r@)),
            asymmetric(keys@.len(), less),
    {
        let ghost start = as_ints(r@);
        let mut pos: usize = r.len();
        assert forall|p: int| 0 <= p < n implies #[trigger] r@[p] < n by {
            assert(start[p] == r@[p]);
        }
        while pos > 0 && keys[n].is_before(&keys[r[pos - 1]])
            invariant
                pos <= r.len() == n,
                n < keys.len(),
                less == by_keys(keys@),
                start == as_ints(r@),
                forall|p: int| 0 <= p < n ==> #[trigger] r@[p] < n,
                is_order(n as nat, less, start),
                forall|p: int| pos <= p < n ==> less(n as int, #[trigger] start[p]),
            decreases pos,
        {
            assert(start[pos - 1] == r[pos - 1]);
            pos = pos - 1;
        }
        proof {
            assert forall|p: int| 0 <= p < pos implies !less(n as int, #[trigger] start[p]) by {
                assert(start[pos - 1] == r[pos - 1]);
                if p < pos - 1 && less(n as int, start[p]) {
                    assert(precedes(less, start[p], start[pos - 1]));
                    K::lemma_weak(keys@[n as int], keys@[start[p]], keys@[start[pos - 1]]);
                }
            }
        }
        r.insert(pos, n);
        proof {
            assert(as_ints(r@) =~= start.insert(pos as int, n as int));
            lemma_inserted(n as nat, less, start, pos as int);
        }
    }
    r
}

/// What a filter leaves is what was there and passes.
pub proof fn lemma_filter_contains<A>(s: Seq<A>, keep: spec_fn(A) -> bool, x: A)
    ensures
        s.filter(keep).contains(x) <==> s.contains(x) && keep(x),
    decreases s.len(),
{
    reveal(Seq::filter);
    if s.len() > 0 {
        let front = s.drop_last();
        lemma_filter_contains(front, keep, x);
        let kept = front.filter(keep);
        if s.filter(keep).contains(x) {
            let i = choose|i: int| 0 <= i < s.filter(keep).len() && s.filter(keep)[i] == x;
            if i < kept.len() {
                assert(kept[i] == x);
                let j = choose|j: int| 0 <= j < front.len() && front[j] == x;
                assert(s[j] == x);
            } else {
                assert(s[s.len() - 1] == x);
            }
        }
        if s.contains(x) && keep(x) {
            let i = choose|i: int| 0 <= i < s.len() && s[i] == x;
            if i < front.len() {
                assert(front[i] == x);
                let j = choose|j: int| 0 <= j < kept.len() && kept[j] == x;
                assert(s.filter(keep)[j] == x);
            } else {
                assert(s.filter(keep)[kept.len() as int] == x);
            }
        }
    }
}

/// A filter that all items pass leaves them as they are.
pub proof fn lemma_filter_all<A>(s: Seq<A>, keep: spec_fn(A) -> bool)
    requires
        forall|i: int| 0 <= i < s.len() ==> keep(#[trigger] s[i]),
    ensures
        s.filter(keep) == s,
    decreases s.len(),
{
    reveal(Seq::filter);
    if s.len() > 0 {
        lemma_filter_all(s.drop_last(), keep);
        assert(s =~= s.drop_last().push(s.last()));
    }
}

/// What holds of all pairs of items, the earlier first, holds of those that a filter leaves.
pub proof fn lemma_filter_pairs<A>(
    s: Seq<A>,
    keep: spec_fn(A) -> bool,
    rel: spec_fn(A, A) -> bool,
)
    requires
        forall|p: int, q: int|
            0 <= p < q < s.len() ==> #[trigger] rel(#[trigger] s[p], #[trigger] s[q]),
    ensures
        forall|p: int, q: int|
            0 <= p < q < s.filter(keep).len() ==> #[trigger] rel(
                #[trigger] s.filter(keep)[p],
                #[trigger] s.filter(keep)[q],
            ),
    decreases s.len(),
{
    reveal(Seq::filter);
    if s.len() > 0 {
        let front = s.drop_last();
        let kept = front.filter(keep);
        let now = s.filter(keep);
        assert forall|p: int, q: int| 0 <= p < q < front.len() implies #[trigger] rel(
            #[trigger] front[p],
            #[trigger] front[q],
        ) by {
            assert(rel(s[p], s[q]));
        }
        lemma_filter_pairs(front, keep, rel);
        assert forall|p: int, q: int| 0 <= p < q < now.len() implies #[trigger] rel(
            #[trigger] now[p],
            #[trigger] now[q],
        ) by {
            assert(now[p] == kept[p]);
            if q < kept.len() {
                assert(now[q] == kept[q]);
                assert(rel(kept[p], kept[q]));
            } else {
                lemma_filter_contains(front, keep, kept[p]);
                let k = choose|k: int| 0 <= k < front.len() && front[k] == kept[p];
                assert(rel(s[k], s[s.len() - 1]));
            }
        }
    }
}

} // verus!
