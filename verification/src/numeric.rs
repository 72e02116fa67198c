use vstd::prelude::*;
use vstd::seq_lib::{commutative_foldl, lemma_fold_left_permutation};

verus! {

broadcast use vstd::seq_lib::group_to_multiset_ensures;

/// Element types a [`crate::DataSet`] can hold: any copyable, ordered,
/// thread-safe value.
pub trait Numeric: Copy + PartialOrd + core::fmt::Debug + Send + Sync + 'static {

}

impl<T> Numeric for T where T: Copy + PartialOrd + core::fmt::Debug + Send + Sync + 'static {

}

// ---------------------------------------------------------------------------
// Ranks
// ---------------------------------------------------------------------------

/// Number of keys in `s` strictly below `x`.
pub open spec fn count_below(s: Seq<i64>, x: i64) -> nat
    decreases s.len(),
{
    if s.len() == 0 {
        0
    } else {
        count_below(s.drop_last(), x) + if s.last() < x {
            1nat
        } else {
            0nat
        }
    }
}

/// Number of keys in `s` equal to `x`.
pub open spec fn count_equal(s: Seq<i64>, x: i64) -> nat
    decreases s.len(),
{
    if s.len() == 0 {
        0
    } else {
        count_equal(s.drop_last(), x) + if s.last() == x {
            1nat
        } else {
            0nat
        }
    }
}

/// Twice the average 1-based rank of `s[i]` among the keys of `s`: the keys
/// below it take the first ranks, and the keys equal to it share the ranks
/// that follow, each getting their mean.
pub open spec fn doubled_rank(s: Seq<i64>, i: int) -> nat {
    2 * count_below(s, s[i]) + count_equal(s, s[i]) + 1
}

/// Keys sorted in nondecreasing order.
pub open spec fn sorted_by_key(s: Seq<(i64, usize)>) -> bool {
    forall|a: int, b: int| 0 <= a < b < s.len() ==> s[a].0 <= s[b].0
}

/// Merges two key-sorted runs of `(key, index)` pairs into one; on equal
/// keys the pair of `a` comes first.
fn merge(a: &Vec<(i64, usize)>, b: &Vec<(i64, usize)>) -> (r: Vec<(i64, usize)>)
    requires
        sorted_by_key(a@),
        sorted_by_key(b@),
    ensures
        r@.len() == a@.len() + b@.len(),
        r@.to_multiset() == a@.to_multiset().add(b@.to_multiset()),
        sorted_by_key(r@),
{
    let mut r: Vec<(i64, usize)> = Vec::new();
    let mut i: usize = 0;
    let mut j: usize = 0;
    while i < a.len() || j < b.len()
        invariant
            i <= a@.len(),
            j <= b@.len(),
            sorted_by_key(a@),
            sorted_by_key(b@),
            r@.len() == i + j,
            r@.to_multiset() == a@.subrange(0, i as int).to_multiset().add(
                b@.subrange(0, j as int).to_multiset(),
            ),
            sorted_by_key(r@),
            r@.len() > 0 && i < a@.len() ==> r@.last().0 <= a@[i as int].0,
            r@.len() > 0 && j < b@.len() ==> r@.last().0 <= b@[j as int].0,
        decreases a@.len() + b@.len() - i - j,
    {
        let ghost before = r@;
        let take_a = j >= b.len() || (i < a.len() && a[i].0 <= b[j].0);
        if take_a {
            let x = a[i];
            r.push(x);
            proof {
                assert(a@.subrange(0, i + 1) == a@.subrange(0, i as int).push(x));
                assert(r@.to_multiset() =~= a@.subrange(0, i + 1).to_multiset().add(
                    b@.subrange(0, j as int).to_multiset(),
                ));
                assert forall|p: int, q: int| 0 <= p < q < r@.len() implies r@[p].0 <= r@[q].0 by {
                    if q == r@.len() - 1 && p < before.len() - 1 {
                        assert(before[p].0 <= before.last().0);
                    }
                }
            }
            i = i + 1;
        } else {
            let x = b[j];
            r.push(x);
            proof {
                assert(b@.subrange(0, j + 1) == b@.subrange(0, j as int).push(x));
                assert(r@.to_multiset() =~= a@.subrange(0, i as int).to_multiset().add(
                    b@.subrange(0, j + 1).to_multiset(),
                ));
                assert forall|p: int, q: int| 0 <= p < q < r@.len() implies r@[p].0 <= r@[q].0 by {
                    if q == r@.len() - 1 && p < before.len() - 1 {
                        assert(before[p].0 <= before.last().0);
                    }
                }
            }
            j = j + 1;
        }
    }
    proof {
        assert(a@.subrange(0, a@.len() as int) == a@);
        assert(b@.subrange(0, b@.len() as int) == b@);
    }
    r
}

/// Sorts `(key, index)` pairs by key, by top-down merge sort.
fn sort_by_key(v: &Vec<(i64, usize)>) -> (r: Vec<(i64, usize)>)
    ensures
        r@.len() == v@.len(),
        r@.to_multiset() == v@.to_multiset(),
        sorted_by_key(r@),
    decreases v@.len(),
{
    let n = v.len();
    if n <= 1 {
        let mut r: Vec<(i64, usize)> = Vec::new();
        if n == 1 {
            r.push(v[0]);
            assert(r@ == v@);
        } else {
            assert(r@ == v@);
        }
        return r;
    }
    let mid = n / 2;
    let mut left: Vec<(i64, usize)> = Vec::new();
    let mut right: Vec<(i64, usize)> = Vec::new();
    for k in 0..mid
        invariant
            mid <= n == v@.len(),
            left@ == v@.subrange(0, k as int),
    {
        left.push(v[k]);
        assert(left@ == v@.subrange(0, k + 1));
    }
    for k in mid..n
        invariant
            mid <= n == v@.len(),
            right@ == v@.subrange(mid as int, k as int),
    {
        right.push(v[k]);
        assert(right@ == v@.subrange(mid as int, k + 1));
    }
    let sl = sort_by_key(&left);
    let sr = sort_by_key(&right);
    let r = merge(&sl, &sr);
    proof {
        assert(v@ == left@ + right@);
        vstd::seq_lib::lemma_multiset_commutative(left@, right@);
    }
    r
}

/// The keys of `(key, index)` pairs, in order.
spec fn keys_of(s: Seq<(i64, usize)>) -> Seq<i64> {
    s.map_values(|q: (i64, usize)| q.0)
}

/// Fold step counting pairs whose key is below `x`.
spec fn below_step(x: i64) -> spec_fn(nat, (i64, usize)) -> nat {
    |acc: nat, q: (i64, usize)| if q.0 < x { acc + 1 } else { acc }
}

/// Fold step counting pairs whose key equals `x`.
spec fn equal_step(x: i64) -> spec_fn(nat, (i64, usize)) -> nat {
    |acc: nat, q: (i64, usize)| if q.0 == x { acc + 1 } else { acc }
}

/// Counting by folding over pairs agrees with counting their keys.
proof fn lemma_fold_counts(s: Seq<(i64, usize)>, x: i64)
    ensures
        s.fold_left(0nat, below_step(x)) == count_below(keys_of(s), x),
        s.fold_left(0nat, equal_step(x)) == count_equal(keys_of(s), x),
    decreases s.len(),
{
    if s.len() > 0 {
        lemma_fold_counts(s.drop_last(), x);
        assert(keys_of(s).drop_last() == keys_of(s.drop_last()));
    }
}

/// Counts are the same in any order of the pairs.
proof fn lemma_counts_permutation(s: Seq<(i64, usize)>, t: Seq<(i64, usize)>, x: i64)
    requires
        s.to_multiset() == t.to_multiset(),
    ensures
        count_below(keys_of(s), x) == count_below(keys_of(t), x),
        count_equal(keys_of(s), x) == count_equal(keys_of(t), x),
{
    let fb = below_step(x);
    let fe = equal_step(x);
    assert(commutative_foldl(fb)) by {
        assert forall|a: (i64, usize), b: (i64, usize), v: nat| #[trigger] fb(fb(v, a), b) == fb(fb(v, b), a) by {}
    }
    assert(commutative_foldl(fe)) by {
        assert forall|a: (i64, usize), b: (i64, usize), v: nat| #[trigger] fe(fe(v, a), b) == fe(fe(v, b), a) by {}
    }
    lemma_fold_left_permutation(s, t, fb, 0nat);
    lemma_fold_left_permutation(s, t, fe, 0nat);
    lemma_fold_counts(s, x);
    lemma_fold_counts(t, x);
}

/// If exactly the first `i` keys are below `x`, `i` keys are below `x`.
proof fn lemma_count_below_prefix(t: Seq<i64>, x: i64, i: int)
    requires
        0 <= i <= t.len(),
        forall|k: int| 0 <= k < i ==> t[k] < x,
        forall|k: int| i <= k < t.len() ==> t[k] >= x,
    ensures
        count_below(t, x) == i,
    decreases t.len(),
{
    if t.len() > 0 {
        if i == t.len() {
            lemma_count_below_prefix(t.drop_last(), x, i - 1);
        } else {
            lemma_count_below_prefix(t.drop_last(), x, i);
        }
    }
}

/// If exactly the keys at positions `lo..hi` equal `x`, `hi − lo` keys equal `x`.
proof fn lemma_count_equal_band(t: Seq<i64>, x: i64, lo: int, hi: int)
    requires
        0 <= lo <= hi <= t.len(),
        forall|k: int| 0 <= k < t.len() ==> (t[k] == x <==> lo <= k < hi),
    ensures
        count_equal(t, x) == hi - lo,
    decreases t.len(),
{
    if t.len() > 0 {
        if hi == t.len() && lo < hi {
            lemma_count_equal_band(t.drop_last(), x, lo, hi - 1);
        } else if hi == t.len() {
            lemma_count_equal_band(t.drop_last(), x, lo - 1, hi - 1);
        } else {
            lemma_count_equal_band(t.drop_last(), x, lo, hi);
        }
    }
}

/// Average ranks (1-based, ties sharing the mean of their ranks) of the
/// given order keys, each doubled so that it stays an integer: a key that is
/// the only one of its value at sorted position `p` gets `2·(p + 1)`.
///
/// The pairs `(key, index)` are sorted by key; each group of equal keys at
/// sorted positions `i..j` gets the doubled mean rank `i + 1 + j`.
pub fn ranks(keys: &[i64]) -> (r: Vec<usize>)
    requires
        keys@.len() <= usize::MAX / 2,
    ensures
        r@.len() == keys@.len(),
        forall|m: int| 0 <= m < keys@.len() ==> #[trigger] r@[m] == doubled_rank(keys@, m),
{
    let n = keys.len();
    let mut indexed: Vec<(i64, usize)> = Vec::new();
    for i in 0..n
        invariant
            n == keys@.len(),
            indexed@ == Seq::new(i as nat, |k: int| (keys@[k], k as usize)),
    {
        indexed.push((keys[i], i));
    }
    let ghost original = indexed@;
    let indexed = sort_by_key(&indexed);
    let ghost s = indexed@;
    proof {
        assert(keys_of(original) =~= keys@);
        assert forall|k: int| 0 <= k < n implies (#[trigger] s[k]).1 < n && s[k].0 == keys@[s[k].1 as int] by {
            assert(s.to_multiset().count(s[k]) > 0);
            assert(original.contains(s[k]));
            let t = choose|t: int| 0 <= t < original.len() && original[t] == s[k];
            assert(s[k] == (keys@[t], t as usize));
        }
        assert forall|x: i64| count_below(keys_of(s), x) == #[trigger] count_below(keys@, x) by {
            lemma_counts_permutation(s, original, x);
        }
        assert forall|x: i64| count_equal(keys_of(s), x) == #[trigger] count_equal(keys@, x) by {
            lemma_counts_permutation(s, original, x);
        }
    }
    let mut rank_vec: Vec<usize> = Vec::new();
    for k in 0..n
        invariant
            rank_vec@.len() == k,
    {
        rank_vec.push(0);
    }
    let mut i: usize = 0;
    while i < n
        invariant
            i <= n,
            n == keys@.len(),
            n <= usize::MAX / 2,
            indexed@ == s,
            s.len() == n,
            sorted_by_key(s),
            rank_vec@.len() == n,
            forall|k: int| 0 <= k < n ==> (#[trigger] s[k]).1 < n && s[k].0 == keys@[s[k].1 as int],
            forall|x: i64| count_below(keys_of(s), x) == #[trigger] count_below(keys@, x),
            forall|x: i64| count_equal(keys_of(s), x) == #[trigger] count_equal(keys@, x),
            i < n && i > 0 ==> s[i - 1].0 != s[i as int].0,
            forall|k: int| 0 <= k < i ==> #[trigger] rank_vec@[s[k].1 as int] == doubled_rank(keys@, s[k].1 as int),
        decreases n - i,
    {
        let mut j: usize = i + 1;
        while j < n && indexed[j].0 == indexed[i].0
            invariant
                i < j <= n,
                n == keys@.len(),
                indexed@ == s,
                s.len() == n,
                forall|k: int| i <= k < j ==> s[k].0 == s[i as int].0,
            decreases n - j,
        {
            j = j + 1;
        }
        let avg = i + 1 + j;
        let ghost v = s[i as int].0;
        proof {
            let ks = keys_of(s);
            assert forall|k: int| 0 <= k < i implies ks[k] < v by {
                assert(s[k].0 <= s[i - 1].0);
            }
            assert forall|k: int| i <= k < n implies ks[k] >= v by {}
            lemma_count_below_prefix(ks, v, i as int);
            assert forall|k: int| 0 <= k < n implies (ks[k] == v <==> i <= k < j) by {
                if k >= j {
                    assert(s[j as int].0 <= s[k].0);
                }
            }
            lemma_count_equal_band(ks, v, i as int, j as int);
        }
        for k in i..j
            invariant
                i < j <= n,
                n == keys@.len(),
                indexed@ == s,
                s.len() == n,
                rank_vec@.len() == n,
                avg == i + 1 + j,
                v == s[i as int].0,
                forall|k: int| i <= k < j ==> s[k].0 == v,
                count_below(keys@, v) == i,
                count_equal(keys@, v) == j - i,
                forall|k: int| 0 <= k < n ==> (#[trigger] s[k]).1 < n && s[k].0 == keys@[s[k].1 as int],
                forall|q: int| 0 <= q < k ==> #[trigger] rank_vec@[s[q].1 as int] == doubled_rank(keys@, s[q].1 as int),
        {
            let t = indexed[k].1;
            proof {
                assert(keys@[t as int] == v);
            }
            rank_vec.set(t, avg);
            proof {
                assert forall|q: int| 0 <= q <= k implies #[trigger] rank_vec@[s[q].1 as int] == doubled_rank(keys@, s[q].1 as int) by {
                    if s[q].1 == t {
                        assert(keys@[s[q].1 as int] == v);
                    }
                }
            }
        }
        i = j;
    }
    proof {
        assert forall|m: int| 0 <= m < n implies #[trigger] rank_vec@[m] == doubled_rank(keys@, m) by {
            assert(original[m] == (keys@[m], m as usize));
            assert(original.to_multiset().count(original[m]) > 0);
            assert(s.contains(original[m]));
            let k = choose|k: int| 0 <= k < s.len() && s[k] == original[m];
            assert(rank_vec@[s[k].1 as int] == doubled_rank(keys@, s[k].1 as int));
        }
    }
    rank_vec
}

// ---------------------------------------------------------------------------
// Laws of ranks
// ---------------------------------------------------------------------------

/// Number of keys in `s` strictly above `x`.
pub open spec fn count_above(s: Seq<i64>, x: i64) -> nat
    decreases s.len(),
{
    if s.len() == 0 {
        0
    } else {
        count_above(s.drop_last(), x) + if s.last() > x {
            1nat
        } else {
            0nat
        }
    }
}

/// `f(0) + f(1) + ... + f(k − 1)`.
pub open spec fn sum_to(k: nat, f: spec_fn(int) -> int) -> int
    decreases k,
{
    if k == 0 {
        0
    } else {
        sum_to((k - 1) as nat, f) + f(k - 1)
    }
}

/// The sum of all doubled ranks of `s`.
pub open spec fn doubled_rank_total(s: Seq<i64>) -> int {
    sum_to(s.len(), |i: int| doubled_rank(s, i) as int)
}

proof fn lemma_sum_ext(k: nat, f: spec_fn(int) -> int, g: spec_fn(int) -> int)
    requires
        forall|i: int| 0 <= i < k ==> #[trigger] f(i) == g(i),
    ensures
        sum_to(k, f) == sum_to(k, g),
    decreases k,
{
    if k > 0 {
        lemma_sum_ext((k - 1) as nat, f, g);
    }
}

proof fn lemma_sum_add(k: nat, f: spec_fn(int) -> int, g: spec_fn(int) -> int, h: spec_fn(int) -> int)
    requires
        forall|i: int| 0 <= i < k ==> #[trigger] h(i) == f(i) + g(i),
    ensures
        sum_to(k, h) == sum_to(k, f) + sum_to(k, g),
    decreases k,
{
    if k > 0 {
        lemma_sum_add((k - 1) as nat, f, g, h);
    }
}

/// Every key of `s` is below, equal to, or above `x`.
proof fn lemma_counts_partition(s: Seq<i64>, x: i64)
    ensures
        count_below(s, x) + count_equal(s, x) + count_above(s, x) == s.len(),
    decreases s.len(),
{
    if s.len() > 0 {
        lemma_counts_partition(s.drop_last(), x);
    }
}

/// Summing, over the positions of `s`, twice "`z` is below" plus "`z` is
/// equal" counts the keys above `z` twice and the keys equal to `z` once.
proof fn lemma_sum_of_comparisons(s: Seq<i64>, z: i64)
    ensures
        sum_to(s.len(), |i: int| (if z < s[i] { 2int } else { 0int }) + (if z == s[i] { 1int } else { 0int }))
            == 2 * count_above(s, z) + count_equal(s, z),
    decreases s.len(),
{
    let f = |i: int| (if z < s[i] { 2int } else { 0int }) + (if z == s[i] { 1int } else { 0int });
    if s.len() > 0 {
        let t = s.drop_last();
        let g = |i: int| (if z < t[i] { 2int } else { 0int }) + (if z == t[i] { 1int } else { 0int });
        lemma_sum_of_comparisons(t, z);
        lemma_sum_ext(t.len(), f, g);
    }
}

/// The doubled ranks of `n` keys always add up to `n·(n + 1)`: the ranks
/// `1..n` are handed out once each, ties sharing them evenly.
pub proof fn lemma_ranks_total(s: Seq<i64>)
    ensures
        doubled_rank_total(s) == s.len() * (s.len() + 1),
    decreases s.len(),
{
    if s.len() > 0 {
        let t = s.drop_last();
        let z = s.last();
        let n = t.len();
        lemma_ranks_total(t);
        let f = |i: int| doubled_rank(s, i) as int;
        let old_f = |i: int| doubled_rank(t, i) as int;
        let against_z = |i: int| (if z < t[i] { 2int } else { 0int }) + (if z == t[i] { 1int } else { 0int });
        assert forall|i: int| 0 <= i < n implies #[trigger] f(i) == old_f(i) + against_z(i) by {
            assert(s[i] == t[i]);
        }
        lemma_sum_add(n, old_f, against_z, f);
        lemma_sum_of_comparisons(t, z);
        lemma_counts_partition(t, z);
        assert(f(n as int) == 2 * count_below(t, z) + count_equal(t, z) + 2);
        assert(doubled_rank_total(s) == sum_to(n, f) + f(n as int));
        assert(doubled_rank_total(s) == n * (n + 1) + 2 * n + 2) by (nonlinear_arith)
            requires
                doubled_rank_total(s) == sum_to(n, f) + f(n as int),
                sum_to(n, f) == sum_to(n, old_f) + sum_to(n, against_z),
                sum_to(n, old_f) == n * (n + 1),
                sum_to(n, against_z) == 2 * count_above(t, z) + count_equal(t, z),
                f(n as int) == 2 * count_below(t, z) + count_equal(t, z) + 2,
                count_below(t, z) + count_equal(t, z) + count_above(t, z) == n,
        ;
        assert((n + 1) * (n + 2) == n * (n + 1) + 2 * n + 2) by (nonlinear_arith);
        assert(s.len() == n + 1);
    } else {
        assert(s.len() * (s.len() + 1) == 0) by (nonlinear_arith)
            requires
                s.len() == 0,
        ;
    }
}

/// Below `y`, there are all the keys below `x` and all the keys equal to `x`
/// when `x < y`.
proof fn lemma_count_below_monotone(s: Seq<i64>, x: i64, y: i64)
    requires
        x < y,
    ensures
        count_below(s, y) >= count_below(s, x) + count_equal(s, x),
    decreases s.len(),
{
    if s.len() > 0 {
        lemma_count_below_monotone(s.drop_last(), x, y);
    }
}

/// Every key counts itself among the keys equal to it.
proof fn lemma_count_equal_member(s: Seq<i64>, i: int)
    requires
        0 <= i < s.len(),
    ensures
        count_equal(s, s[i]) >= 1,
    decreases s.len(),
{
    if i < s.len() - 1 {
        lemma_count_equal_member(s.drop_last(), i);
        assert(s.drop_last()[i] == s[i]);
    }
}

/// Ranks follow the order of the keys: equal keys share a rank, and a
/// smaller key gets a strictly smaller rank.
pub proof fn lemma_ranks_follow_order(s: Seq<i64>, a: int, b: int)
    requires
        0 <= a < s.len(),
        0 <= b < s.len(),
    ensures
        s[a] == s[b] ==> doubled_rank(s, a) == doubled_rank(s, b),
        s[a] < s[b] ==> doubled_rank(s, a) < doubled_rank(s, b),
{
    if s[a] < s[b] {
        lemma_count_below_monotone(s, s[a], s[b]);
        lemma_count_equal_member(s, a);
        lemma_count_equal_member(s, b);
    }
}

} // verus!
