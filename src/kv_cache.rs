use vstd::prelude::*;

verus! {

/// How a layer bounds the number of cached key/value rows.
#[derive(Debug, Clone, Copy, PartialEq, Eq, Structural)]
pub enum EvictionPolicy {
    /// Rows are never evicted.
    Unbounded,
    /// Sliding window `w`: before new rows are appended, a cache holding `w` or more
    /// rows is cut down to its most recent `w - 1`.
    Window(usize),
    /// Doubled window `w`: once the cache (new rows included) exceeds `2 * w` rows,
    /// only the most recent `w` are kept.
    DoubleWindow(usize),
}

impl EvictionPolicy {
    /// The window of a policy is at least one row.
    pub open spec fn valid(self) -> bool {
        match self {
            EvictionPolicy::Unbounded => true,
            EvictionPolicy::Window(w) => w >= 1,
            EvictionPolicy::DoubleWindow(w) => w >= 1,
        }
    }
}

/// The rows that a slot holds once `new` has been appended to `prev` under `policy`.
pub open spec fn appended(prev: Seq<u64>, new: Seq<u64>, policy: EvictionPolicy) -> Seq<u64> {
    match policy {
        EvictionPolicy::Unbounded => prev + new,
        EvictionPolicy::Window(w) => if prev.len() >= w {
            prev.subrange(prev.len() - (w - 1), prev.len() as int) + new
        } else {
            prev + new
        },
        EvictionPolicy::DoubleWindow(w) => {
            let all = prev + new;
            if all.len() > 2 * w {
                all.subrange(all.len() - w, all.len() as int)
            } else {
                all
            }
        },
    }
}

/// The number of rows held after appending `q` rows to `prev` rows.
pub open spec fn appended_len(prev: nat, q: nat, policy: EvictionPolicy) -> nat {
    match policy {
        EvictionPolicy::Unbounded => prev + q,
        EvictionPolicy::Window(w) => if prev >= w {
            ((w - 1) + q) as nat
        } else {
            prev + q
        },
        EvictionPolicy::DoubleWindow(w) => if prev + q > 2 * w {
            w as nat
        } else {
            prev + q
        },
    }
}

/// The rows of a slot after `new` is written to it: an empty slot takes the new rows
/// as they are, a filled one appends them under `policy`.
pub open spec fn slot_after(prev: Option<Seq<u64>>, new: Seq<u64>, policy: EvictionPolicy) -> Seq<u64> {
    match prev {
        None => new,
        Some(p) => appended(p, new, policy),
    }
}

/// Rows held by a slot after a prefill of `n` tokens into an empty slot followed by
/// `m` single-token decode steps.
pub open spec fn decode_len(n: nat, m: nat, policy: EvictionPolicy) -> nat
    decreases m,
{
    if m == 0 {
        n
    } else {
        appended_len(decode_len(n, (m - 1) as nat, policy), 1, policy)
    }
}

/// The number of rows that `appended` leaves is `appended_len` of the two lengths.
pub proof fn lemma_appended_len(prev: Seq<u64>, new: Seq<u64>, policy: EvictionPolicy)
    requires
        policy.valid(),
    ensures
        appended(prev, new, policy).len() == appended_len(prev.len(), new.len(), policy),
{
}

/// The length of a slot after a write: the new rows alone for an empty slot, else
/// `appended_len` of the two lengths. With `decode_len`, this is the length of a slot
/// filled by a prefill and then decoded step by step.
pub proof fn lemma_slot_after_len(prev: Option<Seq<u64>>, new: Seq<u64>, policy: EvictionPolicy)
    requires
        policy.valid(),
    ensures
        slot_after(prev, new, policy).len() == match prev {
            None => new.len(),
            Some(p) => appended_len(p.len(), new.len(), policy),
        },
{
}

/// The rows of a slot after a prefill of `prefill` into an empty slot and then one
/// decode step per entry of `steps`, each writing that single row.
pub open spec fn decoded_slot(prefill: Seq<u64>, steps: Seq<u64>, policy: EvictionPolicy) -> Seq<u64>
    decreases steps.len(),
{
    if steps.len() == 0 {
        slot_after(None, prefill, policy)
    } else {
        let before = decoded_slot(prefill, steps.drop_last(), policy);
        slot_after(Some(before), seq![steps.last()], policy)
    }
}

/// A slot decoded step by step holds `decode_len` rows.
pub proof fn lemma_decoded_slot_len(prefill: Seq<u64>, steps: Seq<u64>, policy: EvictionPolicy)
    requires
        policy.valid(),
    ensures
        decoded_slot(prefill, steps, policy).len() == decode_len(prefill.len(), steps.len(), policy),
    decreases steps.len(),
{
    if steps.len() > 0 {
        lemma_decoded_slot_len(prefill, steps.drop_last(), policy);
    }
}

/// Under a sliding window `w`, a slot that was filled by a prefill of `n` tokens and
/// then decoded for `m` steps holds `min(n + m, w)` rows, provided that the prefill
/// itself fit the window or at least one decode step has run.
pub proof fn lemma_window_slot_length(n: nat, m: nat, w: usize)
    requires
        w >= 1,
        n <= w || m >= 1,
    ensures
        decode_len(n, m, EvictionPolicy::Window(w)) == if n + m <= w { n + m } else { w as nat },
    decreases m,
{
    let p = EvictionPolicy::Window(w);
    if m > 0 {
        if n <= w || m >= 2 {
            lemma_window_slot_length(n, (m - 1) as nat, w);
        } else {
            assert(decode_len(n, 0, p) == n);
        }
        assert(decode_len(n, m, p) == appended_len(decode_len(n, (m - 1) as nat, p), 1, p));
    }
}

/// Under a doubled window `w`, a slot holds every token that it was given as long
/// as their number stays within `2 * w`.
pub proof fn lemma_double_window_slot_length(n: nat, m: nat, w: usize)
    requires
        w >= 1,
        n + m <= 2 * w,
    ensures
        decode_len(n, m, EvictionPolicy::DoubleWindow(w)) == n + m,
    decreases m,
{
    if m > 0 {
        lemma_double_window_slot_length(n, (m - 1) as nat, w);
    }
}

/// Which part of the rows already cached survives an append: the rows
/// `start .. start + keep` of the previous cache are kept, then the new rows follow,
/// and finally the first `drop_after` rows of the concatenation are discarded.
#[derive(Debug, Clone, Copy, PartialEq, Eq, Structural)]
pub struct TrimPlan {
    pub start: usize,
    pub keep: usize,
    pub drop_after: usize,
}

/// Computes how a cache of `prev_len` rows is cut when `q_len` rows are appended.
pub fn trim_plan(prev_len: usize, q_len: usize, policy: EvictionPolicy) -> (r: TrimPlan)
    requires
        policy.valid(),
        prev_len + q_len <= usize::MAX,
    ensures
        r.start + r.keep == prev_len,
        r.drop_after <= r.keep + q_len,
        (r.keep + q_len - r.drop_after) as nat == appended_len(prev_len as nat, q_len as nat, policy),
        forall|prev: Seq<u64>, new: Seq<u64>|
            prev.len() == prev_len && new.len() == q_len ==> {
                let all = prev.subrange(r.start as int, prev_len as int) + new;
                #[trigger] appended(prev, new, policy) == all.subrange(r.drop_after as int, all.len() as int)
            },
{
    let r = match policy {
        EvictionPolicy::Unbounded => TrimPlan { start: 0, keep: prev_len, drop_after: 0 },
        EvictionPolicy::Window(w) => if prev_len >= w {
            TrimPlan { start: prev_len - (w - 1), keep: w - 1, drop_after: 0 }
        } else {
            TrimPlan { start: 0, keep: prev_len, drop_after: 0 }
        },
        EvictionPolicy::DoubleWindow(w) => if prev_len + q_len > w && prev_len + q_len - w > w {
            TrimPlan { start: 0, keep: prev_len, drop_after: prev_len + q_len - w }
        } else {
            TrimPlan { start: 0, keep: prev_len, drop_after: 0 }
        },
    };
    assert forall|prev: Seq<u64>, new: Seq<u64>|
        prev.len() == prev_len && new.len() == q_len implies {
            let all = prev.subrange(r.start as int, prev_len as int) + new;
            #[trigger] appended(prev, new, policy) == all.subrange(r.drop_after as int, all.len() as int)
        } by {
        let all = prev.subrange(r.start as int, prev_len as int) + new;
        assert(prev.subrange(0, prev_len as int) =~= prev);
        assert(all.subrange(0, all.len() as int) =~= all);
    }
    r
}

/// One layer's cached keys and values for one sequence. Each row is identified by
/// the absolute position of the token whose key and value it holds.
#[derive(Debug)]
pub struct KvSlot {
    pub rows: Vec<u64>,
}

impl View for KvSlot {
    type V = Seq<u64>;

    open spec fn view(&self) -> Seq<u64> {
        self.rows@
    }
}

impl KvSlot {
    /// A slot holding exactly `rows`.
    pub fn new(rows: Vec<u64>) -> (r: KvSlot)
        ensures
            r@ == rows@,
    {
        KvSlot { rows }
    }

    /// Number of cached rows.
    pub fn len(&self) -> (r: usize)
        ensures
            r == self@.len(),
    {
        self.rows.len()
    }

    /// An exact copy of the slot.
    pub fn duplicate(&self) -> (r: KvSlot)
        ensures
            r@ == self@,
    {
        let mut rows: Vec<u64> = Vec::with_capacity(self.rows.len());
        let mut i: usize = 0;
        while i < self.rows.len()
            invariant
                i <= self.rows.len(),
                rows@ == self.rows@.subrange(0, i as int),
            decreases self.rows.len() - i,
        {
            rows.push(self.rows[i]);
            i += 1;
        }
        assert(rows@ =~= self.rows@);
        KvSlot { rows }
    }

    /// Appends the rows of `new` and evicts under `policy`.
    pub fn append(&mut self, new: &Vec<u64>, policy: EvictionPolicy)
        requires
            policy.valid(),
            old(self)@.len() + new@.len() <= usize::MAX,
        ensures
            final(self)@ == appended(old(self)@, new@, policy),
    {
        let prev_len = self.rows.len();
        let plan = trim_plan(prev_len, new.len(), policy);
        let mut all: Vec<u64> = Vec::with_capacity(plan.keep + new.len());
        let mut i: usize = plan.start;
        while i < prev_len
            invariant
                plan.start <= i <= prev_len,
                prev_len == self.rows@.len(),
                all@ == self.rows@.subrange(plan.start as int, i as int),
            decreases prev_len - i,
        {
            all.push(self.rows[i]);
            i += 1;
        }
        let mut j: usize = 0;
        while j < new.len()
            invariant
                j <= new.len(),
                all@ == self.rows@.subrange(plan.start as int, prev_len as int) + new@.subrange(0, j as int),
            decreases new.len() - j,
        {
            all.push(new[j]);
            j += 1;
        }
        assert(new@.subrange(0, new@.len() as int) =~= new@);
        let ghost full = all@;
        let mut kept: Vec<u64> = Vec::with_capacity(all.len() - plan.drop_after);
        let mut k: usize = plan.drop_after;
        while k < all.len()
            invariant
                plan.drop_after <= k <= all.len(),
                all@ == full,
                kept@ == full.subrange(plan.drop_after as int, k as int),
            decreases all.len() - k,
        {
            kept.push(all[k]);
            k += 1;
        }
        self.rows = kept;
    }
}

/// Under a doubled window `w`, a slot never holds more than `2 * w` rows once a
/// decode step has run, nor before if the prefill fit within `2 * w`.
pub proof fn lemma_double_window_bound(n: nat, m: nat, w: usize)
    requires
        w >= 1,
        n <= 2 * w || m >= 1,
    ensures
        decode_len(n, m, EvictionPolicy::DoubleWindow(w)) <= 2 * w,
    decreases m,
{
    let p = EvictionPolicy::DoubleWindow(w);
    if m > 0 {
        assert(decode_len(n, m, p) == appended_len(decode_len(n, (m - 1) as nat, p), 1, p));
    }
}

/// For every slot that a prefill and then decode steps filled: under a sliding window
/// `w` it holds `min(tokens, w)` rows once a decode step has run (or when the
/// prefill fit the window); under a doubled window `w` it holds every token while
/// their number stays within `2 * w`, and never more than `2 * w` rows once a decode
/// step has run (or when the prefill fit). A prefill into an empty slot is kept
/// whole, so a longer prefill alone may exceed these bounds.
pub proof fn lemma_slot_length_law(prefill: Seq<u64>, steps: Seq<u64>, w: usize)
    requires
        w >= 1,
    ensures
        prefill.len() <= w || steps.len() >= 1 ==> decoded_slot(prefill, steps, EvictionPolicy::Window(w)).len() ==
            if prefill.len() + steps.len() <= w { prefill.len() + steps.len() } else { w as nat },
        prefill.len() + steps.len() <= 2 * w ==> decoded_slot(prefill, steps, EvictionPolicy::DoubleWindow(w)).len() ==
            prefill.len() + steps.len(),
        prefill.len() <= 2 * w || steps.len() >= 1 ==> decoded_slot(prefill, steps, EvictionPolicy::DoubleWindow(w)).len() <= 2 * w,
{
    lemma_decoded_slot_len(prefill, steps, EvictionPolicy::Window(w));
    lemma_decoded_slot_len(prefill, steps, EvictionPolicy::DoubleWindow(w));
    if prefill.len() <= w || steps.len() >= 1 {
        lemma_window_slot_length(prefill.len(), steps.len(), w);
    }
    if prefill.len() + steps.len() <= 2 * w {
        lemma_double_window_slot_length(prefill.len(), steps.len(), w);
    }
    if prefill.len() <= 2 * w || steps.len() >= 1 {
        lemma_double_window_bound(prefill.len(), steps.len(), w);
    }
}

} // verus!
