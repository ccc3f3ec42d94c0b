use vstd::prelude::*;

verus! {

/// Expert `i` ranks before expert `j` by routing key: a larger key first, and of
/// equal keys the lower index first.
pub open spec fn ranks_before(keys: Seq<i32>, i: int, j: int) -> bool {
    keys[i] > keys[j] || (keys[i] == keys[j] && i < j)
}

/// `r` lists the `min(k, n)` best-ranked experts, best first.
pub open spec fn is_top_k(keys: Seq<i32>, k: nat, r: Seq<usize>) -> bool {
    &&& r.len() == if k <= keys.len() { k } else { keys.len() }
    &&& forall|a: int| 0 <= a < r.len() ==> #[trigger] r[a] < keys.len()
    &&& forall|a: int, b: int| 0 <= a < b < r.len() ==> ranks_before(keys, #[trigger] r[a] as int, #[trigger] r[b] as int)
    &&& forall|a: int, j: int| 0 <= a < r.len() && 0 <= j < keys.len() && !r.contains(j as usize) ==>
        #[trigger] ranks_before(keys, r[a] as int, j)
}

/// Picks, for one token, the `k` experts with the largest routing keys (ties go to
/// the lower expert index), in rank order. A key is the routing weight's position
/// in the total order of its floating-point type, so the order of keys is the
/// order of weights.
pub fn top_k_experts(keys: &Vec<i32>, k: usize) -> (r: Vec<usize>)
    ensures
        is_top_k(keys@, k as nat, r@),
{
    let n = keys.len();
    let want = if k <= n { k } else { n };
    let mut r: Vec<usize> = Vec::with_capacity(want);
    let mut taken: Vec<bool> = vec![false; n];
    while r.len() < want
        invariant
            want <= n,
            n == keys@.len(),
            taken@.len() == n,
            r@.len() <= want,
            forall|j: int| 0 <= j < n ==> (#[trigger] taken@[j] <==> r@.contains(j as usize)),
            forall|a: int| 0 <= a < r@.len() ==> #[trigger] r@[a] < n,
            forall|a: int, b: int| 0 <= a < b < r@.len() ==> ranks_before(keys@, #[trigger] r@[a] as int, #[trigger] r@[b] as int),
            forall|a: int, j: int| 0 <= a < r@.len() && 0 <= j < n && !r@.contains(j as usize) ==>
                #[trigger] ranks_before(keys@, r@[a] as int, j),
        decreases want - r@.len(),
    {
        let mut best: usize = n;
        let mut j: usize = 0;
        while j < n
            invariant
                j <= n,
                n == keys@.len(),
                taken@.len() == n,
                best == n || (best < j && !taken@[best as int]),
                best == n ==> forall|t: int| 0 <= t < j ==> #[trigger] taken@[t],
                best < n ==> forall|t: int| 0 <= t < j && !taken@[t] && t != best ==> ranks_before(keys@, best as int, t),
            decreases n - j,
        {
            if !taken[j] {
                if best == n || keys[j] > keys[best] {
                    best = j;
                }
            }
            j += 1;
        }
        proof {
            if best == n {
                assert(r@.len() < n);
                assert forall|t: usize| (t as int) < n implies #[trigger] r@.contains(t) by {
                    assert(taken@[t as int]);
                }
                lemma_all_contained_len(r@, n as nat);
            }
        }
        let ghost old_r = r@;
        r.push(best);
        taken.set(best, true);
        proof {
            assert forall|j: int| 0 <= j < n implies (#[trigger] taken@[j] <==> r@.contains(j as usize)) by {
                if j == best as int {
                    assert(r@[old_r.len() as int] == best);
                } else {
                    if old_r.contains(j as usize) {
                        let a = choose|a: int| 0 <= a < old_r.len() && old_r[a] == j as usize;
                        assert(r@[a] == j as usize);
                    }
                    if r@.contains(j as usize) {
                        let a = choose|a: int| 0 <= a < r@.len() && r@[a] == j as usize;
                        assert(a < old_r.len());
                        assert(old_r[a] == j as usize);
                    }
                }
            }
            assert forall|a: int, b: int| 0 <= a < b < r@.len() implies ranks_before(keys@, #[trigger] r@[a] as int, #[trigger] r@[b] as int) by {
                if b == old_r.len() as int {
                    assert(!old_r.contains(best));
                }
            }
            assert forall|a: int, j: int| 0 <= a < r@.len() && 0 <= j < n && !r@.contains(j as usize) implies
                #[trigger] ranks_before(keys@, r@[a] as int, j) by {
                assert(!old_r.contains(j as usize)) by {
                    if old_r.contains(j as usize) {
                        let c = choose|c: int| 0 <= c < old_r.len() && old_r[c] == j as usize;
                        assert(r@[c] == j as usize);
                    }
                }
                assert(j != best as int) by {
                    assert(r@[old_r.len() as int] == best);
                }
                assert(!taken@[j]);
            }
        }
    }
    r
}

/// A sequence of indices below `n` that holds every one of them is at least `n` long.
proof fn lemma_all_contained_len(r: Seq<usize>, n: nat)
    requires
        n <= usize::MAX,
        forall|t: usize| (t as int) < n ==> #[trigger] r.contains(t),
    ensures
        r.len() >= n,
{
    let s = Set::new(|t: usize| (t as int) < n);
    let rs = r.to_set();
    assert(s.subset_of(rs));
    lemma_range_set_len(n);
    r.lemma_cardinality_of_set();
    vstd::set_lib::lemma_len_subset(s, rs);
}

/// The set of indices below `n` has `n` elements.
proof fn lemma_range_set_len(n: nat)
    requires
        n <= usize::MAX,
    ensures
        Set::new(|t: usize| (t as int) < n).len() == n,
        Set::new(|t: usize| (t as int) < n).finite(),
    decreases n,
{
    if n == 0 {
        assert(Set::new(|t: usize| (t as int) < n) =~= Set::<usize>::empty());
    } else {
        lemma_range_set_len((n - 1) as nat);
        assert(Set::new(|t: usize| (t as int) < n) =~= Set::new(|t: usize| (t as int) < n - 1).insert((n - 1) as usize));
    }
}

/// The rows among the first `n` whose chosen experts include `e`, in row order.
pub open spec fn rows_choosing(choices: Seq<Seq<usize>>, e: usize, n: nat) -> Seq<usize>
    decreases n,
{
    if n == 0 {
        seq![]
    } else {
        let before = rows_choosing(choices, e, (n - 1) as nat);
        if choices[n - 1].contains(e) { before.push((n - 1) as usize) } else { before }
    }
}

/// The chosen experts of every row, as sequences.
pub open spec fn choices_view(c: Seq<Vec<usize>>) -> Seq<Seq<usize>> {
    Seq::new(c.len(), |r: int| c[r]@)
}

/// Whether `v` holds `x`.
fn holds(v: &Vec<usize>, x: usize) -> (r: bool)
    ensures
        r == v@.contains(x),
{
    let mut i: usize = 0;
    while i < v.len()
        invariant
            i <= v@.len(),
            forall|t: int| 0 <= t < i ==> v@[t] != x,
        decreases v@.len() - i,
    {
        if v[i] == x {
            assert(v@[i as int] == x);
            return true;
        }
        i += 1;
    }
    false
}

/// Sorts token rows into one bucket per expert: bucket `e` lists, in row order, the
/// rows whose chosen experts include `e`. An expert that no row chose gets an empty
/// bucket, and its feed-forward is then skipped.
pub fn route_rows(choices: &Vec<Vec<usize>>, num_experts: usize) -> (r: Vec<Vec<usize>>)
    requires
        choices@.len() <= usize::MAX,
    ensures
        r@.len() == num_experts,
        forall|e: int| 0 <= e < num_experts ==>
            (#[trigger] r@[e])@ == rows_choosing(choices_view(choices@), e as usize, choices@.len()),
{
    let ghost cv = choices_view(choices@);
    let mut buckets: Vec<Vec<usize>> = Vec::with_capacity(num_experts);
    let mut e: usize = 0;
    while e < num_experts
        invariant
            e <= num_experts,
            cv == choices_view(choices@),
            buckets@.len() == e,
            forall|t: int| 0 <= t < e ==> (#[trigger] buckets@[t])@ == rows_choosing(cv, t as usize, choices@.len()),
        decreases num_experts - e,
    {
        let mut bucket: Vec<usize> = Vec::new();
        let mut row: usize = 0;
        while row < choices.len()
            invariant
                row <= choices@.len(),
                cv == choices_view(choices@),
                bucket@ == rows_choosing(cv, e, row as nat),
            decreases choices@.len() - row,
        {
            assert(cv[row as int] == choices@[row as int]@);
            if holds(&choices[row], e) {
                bucket.push(row);
            }
            row += 1;
        }
        buckets.push(bucket);
        e += 1;
    }
    buckets
}

/// An expert receives no row exactly when no row chose it.
pub proof fn lemma_unrouted_expert_is_skipped(choices: Seq<Seq<usize>>, e: usize, n: nat)
    requires
        n <= choices.len(),
    ensures
        rows_choosing(choices, e, n).len() == 0 <==> forall|r: int| 0 <= r < n ==> !(#[trigger] choices[r]).contains(e),
    decreases n,
{
    if n > 0 {
        lemma_unrouted_expert_is_skipped(choices, e, (n - 1) as nat);
    }
}

/// Every row of a routing bucket is a row that chose its expert, and rows appear in
/// increasing order.
pub proof fn lemma_bucket_rows(choices: Seq<Seq<usize>>, e: usize, n: nat)
    requires
        n <= choices.len(),
        n <= usize::MAX + 1,
    ensures
        forall|a: int| 0 <= a < rows_choosing(choices, e, n).len() ==> {
            &&& (#[trigger] rows_choosing(choices, e, n)[a]) < n
            &&& choices[rows_choosing(choices, e, n)[a] as int].contains(e)
        },
        forall|a: int, b: int| 0 <= a < b < rows_choosing(choices, e, n).len() ==>
            #[trigger] rows_choosing(choices, e, n)[a] < #[trigger] rows_choosing(choices, e, n)[b],
    decreases n,
{
    if n > 0 {
        lemma_bucket_rows(choices, e, (n - 1) as nat);
        let before = rows_choosing(choices, e, (n - 1) as nat);
        let cur = rows_choosing(choices, e, n);
        assert forall|a: int| 0 <= a < cur.len() implies {
            &&& (#[trigger] cur[a]) < n
            &&& choices[cur[a] as int].contains(e)
        } by {
            if a < before.len() {
                assert(cur[a] == before[a]);
            }
        }
        assert forall|a: int, b: int| 0 <= a < b < cur.len() implies #[trigger] cur[a] < #[trigger] cur[b] by {
            assert(cur[a] == before[a]);
            if b < before.len() {
                assert(cur[b] == before[b]);
            }
        }
    }
}

/// The routing of one mixture-of-experts layer: each token row's routing keys (one
/// per expert) select its `k` best experts, and the rows are bucketed per expert.
/// Returns the chosen experts of every row and the bucket of every expert.
pub fn routing_plan(keys: &Vec<Vec<i32>>, k: usize, num_experts: usize) -> (r: (Vec<Vec<usize>>, Vec<Vec<usize>>))
    requires
        forall|t: int| 0 <= t < keys@.len() ==> (#[trigger] keys@[t])@.len() == num_experts,
    ensures
        r.0@.len() == keys@.len(),
        forall|t: int| 0 <= t < keys@.len() ==> is_top_k(keys@[t]@, k as nat, #[trigger] r.0@[t]@),
        r.1@.len() == num_experts,
        forall|e: int| 0 <= e < num_experts ==>
            (#[trigger] r.1@[e])@ == rows_choosing(choices_view(r.0@), e as usize, keys@.len()),
{
    let mut choices: Vec<Vec<usize>> = Vec::with_capacity(keys.len());
    let mut t: usize = 0;
    while t < keys.len()
        invariant
            t <= keys@.len(),
            choices@.len() == t,
            forall|s: int| 0 <= s < t ==> is_top_k(keys@[s]@, k as nat, #[trigger] choices@[s]@),
        decreases keys@.len() - t,
    {
        choices.push(top_k_experts(&keys[t], k));
        t += 1;
    }
    let buckets = route_rows(&choices, num_experts);
    (choices, buckets)
}

} // verus!
