//! Lexicographic order on character sequences, which is the order of `str`
//! (UTF-8 preserves the order of code points), and a verified sort by it.
use crate::text::chars_of;
use vstd::prelude::*;

verus! {

/// Strict lexicographic order on character sequences.
pub open spec fn seq_lt(a: Seq<char>, b: Seq<char>) -> bool
    decreases a.len(),
{
    if a.len() == 0 {
        b.len() > 0
    } else if b.len() == 0 {
        false
    } else if a[0] < b[0] {
        true
    } else if a[0] == b[0] {
        seq_lt(a.drop_first(), b.drop_first())
    } else {
        false
    }
}

/// Non-strict lexicographic order on character sequences.
pub open spec fn seq_le(a: Seq<char>, b: Seq<char>) -> bool {
    a == b || seq_lt(a, b)
}

/// No sequence is below itself.
pub proof fn lemma_lt_irreflexive(a: Seq<char>)
    ensures
        !seq_lt(a, a),
    decreases a.len(),
{
    if a.len() > 0 {
        lemma_lt_irreflexive(a.drop_first());
    }
}

/// The order is transitive.
pub proof fn lemma_lt_transitive(a: Seq<char>, b: Seq<char>, c: Seq<char>)
    requires
        seq_lt(a, b),
        seq_lt(b, c),
    ensures
        seq_lt(a, c),
    decreases a.len(),
{
    if a.len() > 0 && b.len() > 0 && c.len() > 0 && a[0] == b[0] && b[0] == c[0] {
        lemma_lt_transitive(a.drop_first(), b.drop_first(), c.drop_first());
    }
}

/// Of two different sequences, one is below the other.
pub proof fn lemma_lt_total(a: Seq<char>, b: Seq<char>)
    requires
        a != b,
    ensures
        seq_lt(a, b) || seq_lt(b, a),
    decreases a.len(),
{
    if a.len() == 0 && b.len() == 0 {
        assert(a =~= b);
    } else if a.len() > 0 && b.len() > 0 && a[0] == b[0] {
        if a.drop_first() == b.drop_first() {
            assert(a =~= seq![a[0]] + a.drop_first());
            assert(b =~= seq![b[0]] + b.drop_first());
        }
        lemma_lt_total(a.drop_first(), b.drop_first());
    }
}

/// Whether `a` comes strictly before `b` in the order of `str`.
pub fn str_less(a: &str, b: &str) -> (r: bool)
    ensures
        r == seq_lt(a@, b@),
{
    let av = chars_of(a);
    let bv = chars_of(b);
    let mut i: usize = 0;
    assert(a@.skip(0) =~= a@);
    assert(b@.skip(0) =~= b@);
    while i < av.len() && i < bv.len() && av[i] == bv[i]
        invariant
            i <= av.len(),
            i <= bv.len(),
            av@ == a@,
            bv@ == b@,
            seq_lt(a@, b@) == seq_lt(a@.skip(i as int), b@.skip(i as int)),
        decreases av.len() - i,
    {
        assert(a@.skip(i as int).drop_first() =~= a@.skip(i + 1));
        assert(b@.skip(i as int).drop_first() =~= b@.skip(i + 1));
        i = i + 1;
    }
    if i == av.len() {
        i < bv.len()
    } else if i == bv.len() {
        false
    } else {
        av[i] < bv[i]
    }
}

/// Whether `perm` lists each index below `n` exactly once.
pub open spec fn is_permutation(perm: Seq<usize>, n: nat) -> bool {
    &&& perm.len() == n
    &&& forall|i: int| 0 <= i < perm.len() ==> #[trigger] perm[i] < n
    &&& perm.no_duplicates()
}

/// Whether the keys, taken in the order that `perm` gives, never decrease.
pub open spec fn sorted_by(keys: Seq<Seq<char>>, perm: Seq<usize>) -> bool {
    forall|i: int, j: int|
        0 <= i < j < perm.len() ==> seq_le(keys[perm[i] as int], keys[perm[j] as int])
}

/// Whether indices with equal keys keep their relative order in `perm`.
pub open spec fn ties_in_order(keys: Seq<Seq<char>>, perm: Seq<usize>) -> bool {
    forall|i: int, j: int|
        0 <= i < j < perm.len() && keys[perm[i] as int] == keys[perm[j] as int] ==> perm[i] < perm[j]
}

/// An order of the indices of `keys` in which the keys never decrease; keys
/// that are equal keep their relative order.
pub fn sort_order(keys: &Vec<String>) -> (perm: Vec<usize>)
    ensures
        is_permutation(perm@, keys@.len()),
        forall|j: int| 0 <= j < keys@.len() ==> #[trigger] perm@.contains(j as usize),
        sorted_by(keys@.map_values(|k: String| k@), perm@),
        ties_in_order(keys@.map_values(|k: String| k@), perm@),
{
    let ghost ks = keys@.map_values(|k: String| k@);
    let mut perm: Vec<usize> = Vec::new();
    let mut i: usize = 0;
    while i < keys.len()
        invariant
            i <= keys.len(),
            ks == keys@.map_values(|k: String| k@),
            is_permutation(perm@, i as nat),
            forall|j: int| 0 <= j < i ==> #[trigger] perm@.contains(j as usize),
            sorted_by(ks, perm@),
            ties_in_order(ks, perm@),
        decreases keys.len() - i,
    {
        // Find the first position whose key is strictly above keys[i].
        let mut p: usize = 0;
        while p < perm.len() && !str_less(keys[i].as_str(), keys[perm[p]].as_str())
            invariant
                p <= perm.len(),
                i < keys.len(),
                ks == keys@.map_values(|k: String| k@),
                is_permutation(perm@, i as nat),
                forall|q: int| 0 <= q < p ==> seq_le(#[trigger] ks[perm@[q] as int], ks[i as int]),
            decreases perm.len() - p,
        {
            proof {
                let kp = ks[perm@[p as int] as int];
                if kp != ks[i as int] {
                    lemma_lt_total(kp, ks[i as int]);
                }
            }
            p = p + 1;
        }
        let ghost old_perm = perm@;
        perm.insert(p, i);
        proof {
            assert(perm@ == old_perm.insert(p as int, i));
            assert(perm@[p as int] == i);
            assert forall|j: int| 0 <= j < i + 1 implies #[trigger] perm@.contains(j as usize) by {
                if j < i {
                    assert(old_perm.contains(j as usize));
                    let t = choose|t: int| 0 <= t < old_perm.len() && old_perm[t] == j as usize;
                    if t < p {
                        assert(perm@[t] == j as usize);
                    } else {
                        assert(perm@[t + 1] == j as usize);
                    }
                }
            }
            assert forall|a: int| 0 <= a < perm@.len() implies #[trigger] perm@[a] < i + 1 by {
                if a < p {
                    assert(perm@[a] == old_perm[a]);
                } else if a > p {
                    assert(perm@[a] == old_perm[a - 1]);
                }
            }
            assert forall|a: int, b: int|
                0 <= a < perm@.len() && 0 <= b < perm@.len() && a != b implies perm@[a]
                != perm@[b] by {
                if a != p && b != p {
                    let oa = if a < p {
                        a
                    } else {
                        a - 1
                    };
                    let ob = if b < p {
                        b
                    } else {
                        b - 1
                    };
                    assert(perm@[a] == old_perm[oa]);
                    assert(perm@[b] == old_perm[ob]);
                } else if a == p {
                    let ob = if b < p {
                        b
                    } else {
                        b - 1
                    };
                    assert(perm@[b] == old_perm[ob]);
                } else {
                    let oa = if a < p {
                        a
                    } else {
                        a - 1
                    };
                    assert(perm@[a] == old_perm[oa]);
                }
            }
            assert forall|a: int, b: int| 0 <= a < b < perm@.len() implies seq_le(
                ks[perm@[a] as int],
                ks[perm@[b] as int],
            ) by {
                let x = ks[i as int];
                if a < p && b < p {
                    assert(perm@[a] == old_perm[a] && perm@[b] == old_perm[b]);
                } else if a < p && b == p {
                    assert(perm@[a] == old_perm[a]);
                } else if a < p && b > p {
                    assert(perm@[a] == old_perm[a] && perm@[b] == old_perm[b - 1]);
                } else if a == p {
                    // x is strictly below the key at old position p, which is at most
                    // the key at old position b - 1.
                    assert(perm@[b] == old_perm[b - 1]);
                    let kp = ks[old_perm[p as int] as int];
                    let kb = ks[old_perm[b - 1] as int];
                    assert(seq_lt(x, kp));
                    if b - 1 > p {
                        assert(seq_le(kp, kb));
                        if kp != kb {
                            lemma_lt_transitive(x, kp, kb);
                        }
                    }
                } else {
                    assert(perm@[a] == old_perm[a - 1] && perm@[b] == old_perm[b - 1]);
                }
            }
            assert forall|a: int, b: int|
                0 <= a < b < perm@.len() && ks[perm@[a] as int] == ks[perm@[b] as int] implies perm@[a]
                < perm@[b] by {
                let x = ks[i as int];
                if a < p && b < p {
                    assert(perm@[a] == old_perm[a] && perm@[b] == old_perm[b]);
                } else if a < p && b == p {
                    assert(perm@[a] == old_perm[a]);
                } else if a < p && b > p {
                    assert(perm@[a] == old_perm[a] && perm@[b] == old_perm[b - 1]);
                } else if a == p {
                    assert(perm@[b] == old_perm[b - 1]);
                    let kp = ks[old_perm[p as int] as int];
                    let kb = ks[old_perm[b - 1] as int];
                    assert(seq_lt(x, kp));
                    if b - 1 > p {
                        assert(seq_le(kp, kb));
                        if kp != kb {
                            lemma_lt_transitive(x, kp, kb);
                        }
                    }
                    lemma_lt_irreflexive(x);
                } else {
                    assert(perm@[a] == old_perm[a - 1] && perm@[b] == old_perm[b - 1]);
                }
            }
        }
        i = i + 1;
    }
    perm
}

/// Two orders of the same keys that both sort them and keep ties in order
/// are the same order.
pub proof fn lemma_stable_order_unique(keys: Seq<Seq<char>>, p1: Seq<usize>, p2: Seq<usize>)
    requires
        is_permutation(p1, keys.len()),
        is_permutation(p2, keys.len()),
        forall|j: int| 0 <= j < keys.len() ==> #[trigger] p1.contains(j as usize),
        forall|j: int| 0 <= j < keys.len() ==> #[trigger] p2.contains(j as usize),
        sorted_by(keys, p1),
        sorted_by(keys, p2),
        ties_in_order(keys, p1),
        ties_in_order(keys, p2),
    ensures
        p1 == p2,
{
    lemma_stable_prefix_agrees(keys, p1, p2, p1.len() as int);
    assert(p1 =~= p2);
}

/// The first `k` places of two stable sorting orders agree.
proof fn lemma_stable_prefix_agrees(keys: Seq<Seq<char>>, p1: Seq<usize>, p2: Seq<usize>, k: int)
    requires
        0 <= k <= p1.len(),
        is_permutation(p1, keys.len()),
        is_permutation(p2, keys.len()),
        forall|j: int| 0 <= j < keys.len() ==> #[trigger] p1.contains(j as usize),
        forall|j: int| 0 <= j < keys.len() ==> #[trigger] p2.contains(j as usize),
        sorted_by(keys, p1),
        sorted_by(keys, p2),
        ties_in_order(keys, p1),
        ties_in_order(keys, p2),
    ensures
        forall|m: int| 0 <= m < k ==> p1[m] == p2[m],
    decreases k,
{
    if k > 0 {
        lemma_stable_prefix_agrees(keys, p1, p2, k - 1);
        let c = k - 1;
        let x = p1[c];
        let y = p2[c];
        if x != y {
            let xi = x as int;
            let yi = y as int;
            assert(0 <= xi < keys.len() && 0 <= yi < keys.len());
            assert(p2.contains(xi as usize));
            let m2 = choose|m: int| 0 <= m < p2.len() && p2[m] == x;
            assert(p1.contains(yi as usize));
            let m1 = choose|m: int| 0 <= m < p1.len() && p1[m] == y;
            if m2 < c {
                assert(p1[m2] == x);
            }
            if m1 < c {
                assert(p2[m1] == y);
            }
            assert(m2 > c && m1 > c);
            assert(seq_le(keys[y as int], keys[x as int]));
            assert(seq_le(keys[x as int], keys[y as int]));
            if keys[x as int] != keys[y as int] {
                lemma_lt_transitive(keys[x as int], keys[y as int], keys[x as int]);
                lemma_lt_irreflexive(keys[x as int]);
            }
        }
    }
}

/// Whether the sizes, taken in the order that `perm` gives, never increase.
pub open spec fn sizes_descending(sizes: Seq<u64>, perm: Seq<usize>) -> bool {
    forall|i: int, j: int| 0 <= i < j < perm.len() ==> sizes[perm[j] as int] <= sizes[perm[i] as int]
}

/// An order of the indices of `sizes` from largest to smallest size; equal
/// sizes keep their relative order.
pub fn order_by_size_descending(sizes: &Vec<u64>) -> (perm: Vec<usize>)
    ensures
        is_permutation(perm@, sizes@.len()),
        forall|j: int| 0 <= j < sizes@.len() ==> #[trigger] perm@.contains(j as usize),
        sizes_descending(sizes@, perm@),
{
    let mut perm: Vec<usize> = Vec::new();
    let mut i: usize = 0;
    while i < sizes.len()
        invariant
            i <= sizes.len(),
            is_permutation(perm@, i as nat),
            forall|j: int| 0 <= j < i ==> #[trigger] perm@.contains(j as usize),
            sizes_descending(sizes@, perm@),
        decreases sizes.len() - i,
    {
        // Find the first position whose size is strictly below sizes[i].
        let mut p: usize = 0;
        while p < perm.len() && sizes[perm[p]] >= sizes[i]
            invariant
                p <= perm.len(),
                i < sizes.len(),
                is_permutation(perm@, i as nat),
                forall|q: int| 0 <= q < p ==> sizes@[i as int] <= #[trigger] sizes@[perm@[q] as int],
            decreases perm.len() - p,
        {
            p = p + 1;
        }
        let ghost old_perm = perm@;
        perm.insert(p, i);
        proof {
            assert(perm@ == old_perm.insert(p as int, i));
            assert(perm@[p as int] == i);
            assert forall|j: int| 0 <= j < i + 1 implies #[trigger] perm@.contains(j as usize) by {
                if j < i {
                    assert(old_perm.contains(j as usize));
                    let t = choose|t: int| 0 <= t < old_perm.len() && old_perm[t] == j as usize;
                    if t < p {
                        assert(perm@[t] == j as usize);
                    } else {
                        assert(perm@[t + 1] == j as usize);
                    }
                }
            }
            assert forall|a: int| 0 <= a < perm@.len() implies #[trigger] perm@[a] < i + 1 by {
                if a < p {
                    assert(perm@[a] == old_perm[a]);
                } else if a > p {
                    assert(perm@[a] == old_perm[a - 1]);
                }
            }
            assert forall|a: int, b: int|
                0 <= a < perm@.len() && 0 <= b < perm@.len() && a != b implies perm@[a]
                != perm@[b] by {
                if a != p && b != p {
                    let oa = if a < p {
                        a
                    } else {
                        a - 1
                    };
                    let ob = if b < p {
                        b
                    } else {
                        b - 1
                    };
                    assert(perm@[a] == old_perm[oa]);
                    assert(perm@[b] == old_perm[ob]);
                } else if a == p {
                    let ob = if b < p {
                        b
                    } else {
                        b - 1
                    };
                    assert(perm@[b] == old_perm[ob]);
                } else {
                    let oa = if a < p {
                        a
                    } else {
                        a - 1
                    };
                    assert(perm@[a] == old_perm[oa]);
                }
            }
            assert forall|a: int, b: int| 0 <= a < b < perm@.len() implies sizes@[perm@[b] as int]
                <= sizes@[perm@[a] as int] by {
                if a < p && b < p {
                    assert(perm@[a] == old_perm[a] && perm@[b] == old_perm[b]);
                } else if a < p && b == p {
                    assert(perm@[a] == old_perm[a]);
                } else if a < p && b > p {
                    assert(perm@[a] == old_perm[a] && perm@[b] == old_perm[b - 1]);
                } else if a == p {
                    assert(perm@[b] == old_perm[b - 1]);
                    if b - 1 > p {
                        assert(sizes@[old_perm[b - 1] as int] <= sizes@[old_perm[p as int] as int]);
                    }
                } else {
                    assert(perm@[a] == old_perm[a - 1] && perm@[b] == old_perm[b - 1]);
                }
            }
        }
        i = i + 1;
    }
    perm
}

} // verus!
