//! The order of byte strings, and stable sorting by it.
use vstd::prelude::*;

verus! {

/// Whether `a` comes before `b` in the lexicographic order of byte strings, the order of `str`.
pub open spec fn bytes_less(a: Seq<u8>, b: Seq<u8>) -> bool
    decreases a.len(),
{
    if b.len() == 0 {
        false
    } else if a.len() == 0 {
        true
    } else if a[0] != b[0] {
        a[0] < b[0]
    } else {
        bytes_less(a.drop_first(), b.drop_first())
    }
}

/// Whether `a` comes before `b` in the lexicographic order of byte strings.
pub fn comes_before(a: &[u8], b: &[u8]) -> (r: bool)
    ensures
        r == bytes_less(a@, b@),
{
    let mut i: usize = 0;
    assert(a@.skip(0) == a@);
    assert(b@.skip(0) == b@);
    loop
        invariant
            i <= a.len(),
            i <= b.len(),
            bytes_less(a@, b@) == bytes_less(a@.skip(i as int), b@.skip(i as int)),
        decreases a.len() - i,
    {
        if i == b.len() {
            return false;
        }
        if i == a.len() {
            return true;
        }
        if a[i] != b[i] {
            return a[i] < b[i];
        }
        assert(a@.skip(i as int).drop_first() == a@.skip(i + 1));
        assert(b@.skip(i as int).drop_first() == b@.skip(i + 1));
        i += 1;
    }
}

/// Of two different byte strings one comes before the other.
pub proof fn lemma_less_total(a: Seq<u8>, b: Seq<u8>)
    ensures
        a == b || bytes_less(a, b) || bytes_less(b, a),
    decreases a.len(),
{
    if a.len() == 0 || b.len() == 0 {
        if a.len() == 0 && b.len() == 0 {
            assert(a == b);
        }
    } else if a[0] == b[0] {
        lemma_less_total(a.drop_first(), b.drop_first());
        if a.drop_first() == b.drop_first() {
            assert(a == seq![a[0]] + a.drop_first());
            assert(b == seq![b[0]] + b.drop_first());
        }
    }
}

/// The order is transitive.
pub proof fn lemma_less_transitive(a: Seq<u8>, b: Seq<u8>, c: Seq<u8>)
    requires
        bytes_less(a, b),
        bytes_less(b, c),
    ensures
        bytes_less(a, c),
    decreases a.len(),
{
    if a.len() > 0 && b.len() > 0 && c.len() > 0 && a[0] == b[0] && b[0] == c[0] {
        lemma_less_transitive(a.drop_first(), b.drop_first(), c.drop_first());
    }
}

/// `order` with the index `k` put behind every index whose key does not come after its own.
pub open spec fn put_index(order: Seq<usize>, keys: Seq<Seq<u8>>, k: usize) -> Seq<usize>
    decreases order.len(),
{
    if order.len() > 0 && bytes_less(keys[k as int], keys[order.last() as int]) {
        put_index(order.drop_last(), keys, k).push(order.last())
    } else {
        order.push(k)
    }
}

/// The indices below `n` in the order of their keys; equal keys keep the order of their indices.
pub open spec fn sorted_indices(keys: Seq<Seq<u8>>, n: nat) -> Seq<usize>
    decreases n,
{
    if n == 0 {
        Seq::empty()
    } else {
        put_index(sorted_indices(keys, (n - 1) as nat), keys, (n - 1) as usize)
    }
}

/// The keys of a vector.
pub open spec fn key_views(keys: Seq<Vec<u8>>) -> Seq<Seq<u8>> {
    keys.map_values(|k: Vec<u8>| k@)
}

/// Whether `a` has to stand before `b`: its key comes first, or the keys are equal and `a` is
/// the lesser index.
pub open spec fn stands_before(keys: Seq<Seq<u8>>, a: usize, b: usize) -> bool {
    bytes_less(keys[a as int], keys[b as int]) || (keys[a as int] == keys[b as int] && a < b)
}

/// Whether `order` lists the indices below `n`, each once, in the order of their keys.
pub open spec fn is_sorted_order(order: Seq<usize>, keys: Seq<Seq<u8>>, n: nat) -> bool {
    &&& order.len() == n
    &&& forall|i: int| 0 <= i < order.len() ==> (#[trigger] order[i]) < n
    &&& forall|i: int, j: int|
        0 <= i < j < order.len() ==> stands_before(keys, #[trigger] order[i], #[trigger] order[j])
    &&& forall|k: usize| k < n ==> #[trigger] order.contains(k)
}

proof fn lemma_put_index(order: Seq<usize>, keys: Seq<Seq<u8>>, k: usize)
    requires
        k < keys.len(),
        forall|i: int| 0 <= i < order.len() ==> (#[trigger] order[i]) < k,
        forall|i: int, j: int|
            0 <= i < j < order.len() ==> stands_before(
                keys,
                #[trigger] order[i],
                #[trigger] order[j],
            ),
    ensures
        put_index(order, keys, k).len() == order.len() + 1,
        forall|x: usize|
            #[trigger] put_index(order, keys, k).contains(x) <==> order.contains(x) || x == k,
        forall|i: int, j: int|
            0 <= i < j < put_index(order, keys, k).len() ==> stands_before(
                keys,
                #[trigger] put_index(order, keys, k)[i],
                #[trigger] put_index(order, keys, k)[j],
            ),
    decreases order.len(),
{
    let out = put_index(order, keys, k);
    if order.len() > 0 && bytes_less(keys[k as int], keys[order.last() as int]) {
        let rest = order.drop_last();
        let inner = put_index(rest, keys, k);
        let last = order.last();
        assert forall|i: int| 0 <= i < rest.len() implies (#[trigger] rest[i]) < k by {
            assert(rest[i] == order[i]);
        }
        assert forall|i: int, j: int| 0 <= i < j < rest.len() implies stands_before(
            keys,
            #[trigger] rest[i],
            #[trigger] rest[j],
        ) by {
            assert(rest[i] == order[i] && rest[j] == order[j]);
        }
        lemma_put_index(rest, keys, k);
        assert forall|x: usize| #[trigger] out.contains(x) <==> order.contains(x) || x == k by {
            if order.contains(x) {
                let i = choose|i: int| 0 <= i < order.len() && order[i] == x;
                if i < rest.len() {
                    assert(rest[i] == x);
                    assert(inner.contains(x));
                    let j = choose|j: int| 0 <= j < inner.len() && inner[j] == x;
                    assert(out[j] == x);
                } else {
                    assert(out[inner.len() as int] == x);
                }
            }
            if x == k {
                assert(inner.contains(k));
                let j = choose|j: int| 0 <= j < inner.len() && inner[j] == k;
                assert(out[j] == k);
            }
            if out.contains(x) {
                let i = choose|i: int| 0 <= i < out.len() && out[i] == x;
                if i < inner.len() {
                    assert(inner[i] == x);
                    assert(inner.contains(x));
                    if x != k {
                        let j = choose|j: int| 0 <= j < rest.len() && rest[j] == x;
                        assert(order[j] == x);
                    }
                } else {
                    assert(order[order.len() - 1] == x);
                }
            }
        }
        assert forall|i: int, j: int| 0 <= i < j < out.len() implies stands_before(
            keys,
            #[trigger] out[i],
            #[trigger] out[j],
        ) by {
            if j < inner.len() {
                assert(out[i] == inner[i] && out[j] == inner[j]);
            } else {
                assert(out[j] == last);
                assert(out[i] == inner[i]);
                assert(inner.contains(inner[i]));
                if inner[i] != k {
                    let m = choose|m: int| 0 <= m < rest.len() && rest[m] == inner[i];
                    assert(order[m] == inner[i]);
                    assert(order[order.len() - 1] == last);
                }
            }
        }
    } else {
        assert forall|x: usize| #[trigger] out.contains(x) <==> order.contains(x) || x == k by {
            assert(out[order.len() as int] == k);
            if order.contains(x) {
                let i = choose|i: int| 0 <= i < order.len() && order[i] == x;
                assert(out[i] == x);
            }
        }
        assert forall|i: int, j: int| 0 <= i < j < out.len() implies stands_before(
            keys,
            #[trigger] out[i],
            #[trigger] out[j],
        ) by {
            assert(out[i] == order[i]);
            if j < order.len() {
                assert(out[j] == order[j]);
            } else {
                let last = order.last();
                lemma_less_total(keys[k as int], keys[last as int]);
                assert(order[order.len() - 1] == last);
                if i < order.len() - 1 {
                    assert(stands_before(keys, order[i], order[order.len() - 1]));
                    if bytes_less(keys[order[i] as int], keys[last as int]) && bytes_less(
                        keys[last as int],
                        keys[k as int],
                    ) {
                        lemma_less_transitive(
                            keys[order[i] as int],
                            keys[last as int],
                            keys[k as int],
                        );
                    }
                }
            }
        }
    }
}

/// Sorting lists every index once, in the order of the keys, and keeps the order of the indices
/// with equal keys.
pub proof fn sorting_is_stable(keys: Seq<Seq<u8>>, n: nat)
    requires
        n <= keys.len() <= usize::MAX,
    ensures
        is_sorted_order(sorted_indices(keys, n), keys, n),
    decreases n,
{
    let order = sorted_indices(keys, n);
    if n > 0 {
        let m = (n - 1) as nat;
        let before = sorted_indices(keys, m);
        sorting_is_stable(keys, m);
        lemma_put_index(before, keys, m as usize);
        assert forall|k: usize| k < n implies #[trigger] order.contains(k) by {
            if k < m {
                assert(before.contains(k));
            }
        }
        assert forall|i: int| 0 <= i < order.len() implies (#[trigger] order[i]) < n by {
            assert(order.contains(order[i]));
            if order[i] != m as usize {
                let j = choose|j: int| 0 <= j < before.len() && before[j] == order[i];
                assert(before[j] < m);
            }
        }
    }
}

/// The indices of the keys in the order of the keys; equal keys keep the order of their indices.
pub fn sort_indices(keys: &Vec<Vec<u8>>) -> (r: Vec<usize>)
    ensures
        r@ == sorted_indices(key_views(keys@), keys@.len()),
        is_sorted_order(r@, key_views(keys@), keys@.len()),
{
    let ghost views = key_views(keys@);
    let mut order: Vec<usize> = Vec::new();
    let mut n: usize = 0;
    while n < keys.len()
        invariant
            n <= keys.len(),
            views == key_views(keys@),
            order@ == sorted_indices(views, n as nat),
        decreases keys.len() - n,
    {
        proof {
            sorting_is_stable(views, n as nat);
        }
        let ghost start = order@;
        let mut at: usize = order.len();
        assert(start.take(at as int) == start);
        assert(start.skip(at as int) == Seq::<usize>::empty());
        assert(put_index(start, views, n) == put_index(start.take(at as int), views, n)
            + start.skip(at as int));
        while at > 0 && comes_before(keys[n].as_slice(), keys[order[at - 1]].as_slice())
            invariant
                n < keys.len(),
                views == key_views(keys@),
                order@ == start,
                at <= order.len(),
                forall|i: int| 0 <= i < order.len() ==> (#[trigger] order@[i]) < n,
                put_index(start, views, n) == put_index(start.take(at as int), views, n)
                    + start.skip(at as int),
            decreases at,
        {
            assert(start.take(at as int).last() == start[at - 1]);
            assert(start.take(at as int).drop_last() == start.take(at - 1));
            assert(seq![start[at - 1]] + start.skip(at as int) == start.skip(at - 1));
            assert(put_index(start.take(at - 1), views, n).push(start[at - 1]) + start.skip(
                at as int,
            ) == put_index(start.take(at - 1), views, n) + start.skip(at - 1));
            at -= 1;
        }
        order.insert(at, n);
        assert(start.take(at as int).push(n) + start.skip(at as int) == order@);
        n += 1;
    }
    proof {
        sorting_is_stable(views, n as nat);
    }
    order
}

} // verus!
