use vstd::prelude::*;

verus! {

/// Whether query row `i` may not attend to key column `j` when `past` rows are
/// already cached: keys after the query's own position are hidden, and under a
/// sliding window `w` so are keys `w` or more positions behind it.
pub open spec fn is_blocked(i: int, j: int, past: int, window: Option<usize>) -> bool {
    j > i + past || match window {
        Some(w) => i + past - j >= w,
        None => false,
    }
}

/// The mask of a step with `q_len` query rows over `past + q_len` key columns.
pub open spec fn mask_matches(m: Seq<Seq<bool>>, q_len: nat, past: nat, window: Option<usize>) -> bool {
    &&& m.len() == q_len
    &&& forall|i: int| 0 <= i < q_len ==> #[trigger] m[i].len() == past + q_len
    &&& forall|i: int, j: int|
        0 <= i < q_len && 0 <= j < past + q_len ==> #[trigger] m[i][j] == is_blocked(i, j, past as int, window)
}

/// The view of a mask: its rows of flags, `true` where attention is forbidden.
pub open spec fn mask_view(m: Vec<Vec<bool>>) -> Seq<Seq<bool>> {
    Seq::new(m@.len(), |i: int| m@[i]@)
}

/// Builds one mask row.
fn mask_row(i: usize, past: usize, k_len: usize, window: Option<usize>) -> (r: Vec<bool>)
    requires
        past + i < k_len,
    ensures
        r@.len() == k_len,
        forall|j: int| 0 <= j < k_len ==> #[trigger] r@[j] == is_blocked(i as int, j, past as int, window),
{
    let mut row: Vec<bool> = Vec::with_capacity(k_len);
    let pos = past + i;
    let mut j: usize = 0;
    while j < k_len
        invariant
            j <= k_len,
            pos == past + i,
            pos < k_len,
            row@.len() == j,
            forall|t: int| 0 <= t < j ==> #[trigger] row@[t] == is_blocked(i as int, t, past as int, window),
        decreases k_len - j,
    {
        let blocked = if j > pos {
            true
        } else {
            match window {
                Some(w) => pos - j >= w,
                None => false,
            }
        };
        row.push(blocked);
        j += 1;
    }
    row
}

/// The causal attention mask of one step: `q_len` new tokens after `past` cached
/// ones, with an optional sliding window. There is no mask when a single token is
/// fed to an empty cache, since it may attend to everything there is.
pub fn make_causal_mask(q_len: usize, past: usize, window: Option<usize>) -> (r: Option<Vec<Vec<bool>>>)
    requires
        past + q_len <= usize::MAX,
    ensures
        r is None <==> (q_len == 1 && past == 0),
        r matches Some(m) ==> mask_matches(mask_view(m), q_len as nat, past as nat, window),
{
    if q_len == 1 && past == 0 {
        return None;
    }
    let k_len = past + q_len;
    let mut rows: Vec<Vec<bool>> = Vec::with_capacity(q_len);
    let mut i: usize = 0;
    while i < q_len
        invariant
            i <= q_len,
            k_len == past + q_len,
            rows@.len() == i,
            forall|t: int| 0 <= t < i ==> #[trigger] rows@[t]@.len() == k_len,
            forall|t: int, j: int|
                0 <= t < i && 0 <= j < k_len ==> #[trigger] rows@[t]@[j] == is_blocked(t, j, past as int, window),
        decreases q_len - i,
    {
        let row = mask_row(i, past, k_len, window);
        rows.push(row);
        i += 1;
    }
    let ghost v = mask_view(rows);
    assert(forall|t: int| 0 <= t < q_len ==> #[trigger] v[t] == rows@[t]@);
    Some(rows)
}

/// Cuts a mask to the columns that remain after a sliding-window cache trim: each
/// row keeps its last `w - 1` columns and gains one allowed column for the new key.
pub fn trim_mask_for_window(mask: &Vec<Vec<bool>>, w: usize) -> (r: Vec<Vec<bool>>)
    requires
        w >= 1,
        forall|i: int| 0 <= i < mask@.len() ==> #[trigger] mask@[i]@.len() >= w - 1,
    ensures
        r@.len() == mask@.len(),
        forall|i: int| 0 <= i < mask@.len() ==> #[trigger] r@[i]@ == {
            let row = mask@[i]@;
            row.subrange(row.len() - (w - 1), row.len() as int).push(false)
        },
{
    let mut out: Vec<Vec<bool>> = Vec::with_capacity(mask.len());
    let mut i: usize = 0;
    while i < mask.len()
        invariant
            i <= mask@.len(),
            w >= 1,
            forall|t: int| 0 <= t < mask@.len() ==> #[trigger] mask@[t]@.len() >= w - 1,
            out@.len() == i,
            forall|t: int| 0 <= t < i ==> #[trigger] out@[t]@ == {
                let row = mask@[t]@;
                row.subrange(row.len() - (w - 1), row.len() as int).push(false)
            },
        decreases mask@.len() - i,
    {
        let row = &mask[i];
        let start = row.len() - (w - 1);
        let mut kept: Vec<bool> = Vec::with_capacity(w);
        let mut j: usize = start;
        while j < row.len()
            invariant
                start <= j <= row@.len(),
                kept@ == row@.subrange(start as int, j as int),
            decreases row@.len() - j,
        {
            kept.push(row[j]);
            j += 1;
        }
        kept.push(false);
        out.push(kept);
        i += 1;
    }
    out
}

/// A mask built for a step blocks exactly the keys after a query's own position and,
/// under a sliding window `w`, the keys more than `w - 1` positions behind it; all
/// other keys stay visible.
pub proof fn lemma_mask_blocks_exactly(m: Seq<Seq<bool>>, q_len: nat, past: nat, window: Option<usize>, i: int, j: int)
    requires
        mask_matches(m, q_len, past, window),
        0 <= i < q_len,
        0 <= j < past + q_len,
    ensures
        m[i][j] <==> (j > i + past || match window {
            Some(w) => j < i + past - (w - 1),
            None => false,
        }),
{
    assert(m[i][j] == is_blocked(i, j, past as int, window));
}

} // verus!
