use vstd::prelude::*;
use crate::error::ModelError;

verus! {

/// The rows of a batch of logit matrices, as sequences of sequences.
pub open spec fn batch_view<T>(v: Seq<Vec<Vec<T>>>) -> Seq<Seq<Seq<T>>> {
    Seq::new(v.len(), |b: int| rows_view(v[b]))
}

/// The rows of one logit matrix, as sequences.
pub open spec fn rows_view<T>(m: Vec<Vec<T>>) -> Seq<Seq<T>> {
    Seq::new(m@.len(), |q: int| m@[q]@)
}

/// The number of batch entries that `extract_logits` pairs up.
pub open spec fn paired_len<T>(logits: Seq<Seq<Seq<T>>>, lens: Seq<(usize, usize)>) -> nat {
    if logits.len() <= lens.len() { logits.len() } else { lens.len() }
}

/// Every (start, length) window lies inside its row of logits.
pub open spec fn windows_fit<T>(logits: Seq<Seq<Seq<T>>>, lens: Seq<(usize, usize)>) -> bool {
    forall|b: int| 0 <= b < paired_len(logits, lens) ==> #[trigger] lens_ok(logits, lens, b)
}

/// The selected logit rows: for each batch entry `b`, the rows
/// `start .. start + len` of `logits[b]`.
pub open spec fn extracted<T>(logits: Seq<Seq<Seq<T>>>, lens: Seq<(usize, usize)>) -> Seq<Seq<Seq<T>>> {
    Seq::new(paired_len(logits, lens), |b: int| logits[b].subrange(lens[b].0 as int, lens[b].0 + lens[b].1))
}

/// Copies one logit row.
fn copy_row<T: Copy>(row: &Vec<T>) -> (r: Vec<T>)
    ensures
        r@ == row@,
{
    let mut out: Vec<T> = Vec::with_capacity(row.len());
    let mut i: usize = 0;
    while i < row.len()
        invariant
            i <= row@.len(),
            out@ == row@.subrange(0, i as int),
        decreases row@.len() - i,
    {
        out.push(row[i]);
        i += 1;
    }
    assert(out@ =~= row@);
    out
}

/// Keeps, for each sequence of the batch, the logit rows named by its
/// (start, length) pair. Fails with a shape error when a window leaves its row.
pub fn extract_logits<T: Copy>(logits: &Vec<Vec<Vec<T>>>, context_lens: &Vec<(usize, usize)>) -> (r: Result<Vec<Vec<Vec<T>>>, ModelError>)
    ensures
        r is Ok <==> windows_fit(batch_view(logits@), context_lens@),
        r matches Ok(v) ==> batch_view(v@) == extracted(batch_view(logits@), context_lens@),
        r matches Err(e) ==> e == ModelError::Shape,
{
    let ghost lv = batch_view(logits@);
    let n = if logits.len() <= context_lens.len() { logits.len() } else { context_lens.len() };
    let mut out: Vec<Vec<Vec<T>>> = Vec::with_capacity(n);
    let mut b: usize = 0;
    while b < n
        invariant
            b <= n,
            n == paired_len(lv, context_lens@),
            n <= logits@.len(),
            n <= context_lens@.len(),
            lv == batch_view(logits@),
            out@.len() == b,
            forall|t: int| 0 <= t < b ==> #[trigger] lens_ok(lv, context_lens@, t),
            forall|t: int| 0 <= t < b ==> rows_view(#[trigger] out@[t]) == extracted(lv, context_lens@)[t],
        decreases n - b,
    {
        let (start, len) = context_lens[b];
        let rows = &logits[b];
        assert(lv[b as int].len() == rows@.len());
        if start > rows.len() || len > rows.len() - start {
            assert(!lens_ok(lv, context_lens@, b as int));
            return Err(ModelError::Shape);
        }
        let end = start + len;
        let mut picked: Vec<Vec<T>> = Vec::with_capacity(len);
        let mut k: usize = start;
        while k < end
            invariant
                start <= k <= end,
                end == start + len,
                end <= rows@.len(),
                picked@.len() == k - start,
                forall|t: int| 0 <= t < k - start ==> (#[trigger] picked@[t])@ == rows@[start + t]@,
            decreases end - k,
        {
            picked.push(copy_row(&rows[k]));
            k += 1;
        }
        assert(lens_ok(lv, context_lens@, b as int));
        assert(rows_view(picked) =~= lv[b as int].subrange(start as int, start + len));
        out.push(picked);
        b += 1;
    }
    assert(batch_view(out@) =~= extracted(lv, context_lens@));
    Ok(out)
}

/// Window `b` lies inside its row.
pub open spec fn lens_ok<T>(logits: Seq<Seq<Seq<T>>>, lens: Seq<(usize, usize)>, b: int) -> bool {
    lens[b].0 + lens[b].1 <= logits[b].len()
}

/// After a prefill of `len` tokens, whose marshalled windows are `(len - 1, 1)`,
/// extraction keeps exactly the last logit row of every sequence.
pub proof fn lemma_prefill_keeps_last_row<T>(logits: Seq<Seq<Seq<T>>>, lens: Seq<(usize, usize)>, len: nat)
    requires
        1 <= len <= usize::MAX,
        lens.len() == logits.len(),
        forall|b: int| 0 <= b < logits.len() ==> #[trigger] logits[b].len() == len,
        forall|b: int| 0 <= b < lens.len() ==> #[trigger] lens[b] == ((len - 1) as usize, 1usize),
    ensures
        windows_fit(logits, lens),
        extracted(logits, lens).len() == logits.len(),
        forall|b: int| 0 <= b < logits.len() ==> #[trigger] extracted(logits, lens)[b] == seq![logits[b][len - 1]],
{
    assert forall|b: int| 0 <= b < logits.len() implies #[trigger] lens_ok(logits, lens, b) by {
        assert(lens[b] == ((len - 1) as usize, 1usize));
    }
    assert forall|b: int| 0 <= b < logits.len() implies #[trigger] extracted(logits, lens)[b] == seq![logits[b][len - 1]] by {
        assert(lens[b] == ((len - 1) as usize, 1usize));
        assert(logits[b].subrange(len - 1, len as int) =~= seq![logits[b][len - 1]]);
    }
}

} // verus!
