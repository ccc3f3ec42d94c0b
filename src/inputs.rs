use vstd::prelude::*;
use crate::sequence::Sequence;

verus! {

/// The token id that pads shorter prompts of a batch.
pub const PADDING_TOKEN: u32 = 0;

/// The token lists of a batch of sequences.
pub open spec fn batch_tokens(seqs: Seq<Sequence>) -> Seq<Seq<u32>> {
    Seq::new(seqs.len(), |b: int| seqs[b].tokens@)
}

/// `m` is the length of the longest token list.
pub open spec fn is_max_len(toks: Seq<Seq<u32>>, m: nat) -> bool {
    &&& forall|b: int| 0 <= b < toks.len() ==> #[trigger] toks[b].len() <= m
    &&& exists|b: int| 0 <= b < toks.len() && #[trigger] toks[b].len() == m
}

/// A token list padded with the padding token up to `m` entries.
pub open spec fn padded(t: Seq<u32>, m: nat) -> Seq<u32> {
    t + Seq::new((m - t.len()) as nat, |k: int| PADDING_TOKEN)
}

/// The positions `off, off + 1, ..., off + n - 1`.
pub open spec fn position_run(off: nat, n: nat) -> Seq<usize> {
    Seq::new(n, |k: int| (off + k) as usize)
}

/// What the model is fed for one step, as plain values: one row of token ids per
/// sequence, each sequence's position offset, the per-row position ids, which part
/// of each row's logits to keep (start, length), and each sequence's length.
pub struct InputMetadata {
    pub input: Vec<Vec<u32>>,
    pub positions: Vec<usize>,
    pub positions_kernel: Vec<Vec<usize>>,
    pub context_lens: Vec<(usize, usize)>,
    pub position_ids: Vec<usize>,
}

/// The rows of a nested vector, as sequences.
pub open spec fn rows_u32(v: Seq<Vec<u32>>) -> Seq<Seq<u32>> {
    Seq::new(v.len(), |b: int| v[b]@)
}

/// The rows of a nested vector of positions, as sequences.
pub open spec fn rows_usize(v: Seq<Vec<usize>>) -> Seq<Seq<usize>> {
    Seq::new(v.len(), |b: int| v[b]@)
}

/// The batch that feeds whole prompts: every token list padded to the longest one,
/// offsets taken from `last_n` (or 0), and only the last `last_n.0` (or 1) logits of
/// each sequence kept.
pub open spec fn is_prompt_input(r: InputMetadata, toks: Seq<Seq<u32>>, last_n: Option<(usize, usize)>) -> bool {
    let keep: nat = match last_n { Some(p) => p.0 as nat, None => 1 };
    let off: nat = match last_n { Some(p) => p.1 as nat, None => 0 };
    exists|m: nat| {
        &&& is_max_len(toks, m)
        &&& #[trigger] rows_u32(r.input@) == Seq::new(toks.len(), |b: int| padded(toks[b], m))
        &&& rows_usize(r.positions_kernel@) == Seq::new(toks.len(), |b: int| position_run(off, m))
        &&& r.positions@ == Seq::new(toks.len(), |b: int| off as usize)
        &&& r.context_lens@ == Seq::new(toks.len(), |b: int| ((toks[b].len() - keep) as usize, keep as usize))
        &&& r.position_ids@ == Seq::new(toks.len(), |b: int| toks[b].len() as usize)
    }
}

/// The batch that feeds only the last token of each sequence, at offset `len - 1`,
/// and keeps its one logit row.
pub open spec fn is_decode_input(r: InputMetadata, toks: Seq<Seq<u32>>) -> bool {
    &&& rows_u32(r.input@) == Seq::new(toks.len(), |b: int| toks[b].subrange(toks[b].len() - 1, toks[b].len() as int))
    &&& rows_usize(r.positions_kernel@) == Seq::new(toks.len(), |b: int| seq![(toks[b].len() - 1) as usize])
    &&& r.positions@ == Seq::new(toks.len(), |b: int| (toks[b].len() - 1) as usize)
    &&& r.context_lens@ == Seq::new(toks.len(), |b: int| (0usize, 1usize))
    &&& r.position_ids@ == Seq::new(toks.len(), |b: int| toks[b].len() as usize)
}

/// What the marshaller may be given: a non-empty batch of non-empty sequences, each
/// at least as long as the number of logits to keep, whose positions fit a `usize`.
pub open spec fn inputs_admissible(toks: Seq<Seq<u32>>, last_n: Option<(usize, usize)>) -> bool {
    &&& toks.len() >= 1
    &&& forall|b: int| 0 <= b < toks.len() ==> (#[trigger] toks[b]).len() >= 1
    &&& forall|b: int| 0 <= b < toks.len() ==> match last_n {
        Some(p) => p.0 <= (#[trigger] toks[b]).len() && p.1 + toks[b].len() <= usize::MAX,
        None => true,
    }
}

/// The longest token list of a non-empty batch.
fn max_token_len(seqs: &Vec<Sequence>) -> (m: usize)
    requires
        seqs@.len() >= 1,
    ensures
        is_max_len(batch_tokens(seqs@), m as nat),
{
    let ghost toks = batch_tokens(seqs@);
    let mut m: usize = seqs[0].tokens.len();
    assert(toks[0].len() == m);
    let mut i: usize = 1;
    while i < seqs.len()
        invariant
            1 <= i <= seqs@.len(),
            toks == batch_tokens(seqs@),
            forall|b: int| 0 <= b < i ==> #[trigger] toks[b].len() <= m,
            exists|b: int| 0 <= b < i && #[trigger] toks[b].len() == m,
        decreases seqs@.len() - i,
    {
        if seqs[i].tokens.len() > m {
            m = seqs[i].tokens.len();
            assert(toks[i as int].len() == m);
        }
        i += 1;
    }
    m
}

/// Packs sequences that start (or restart) from their whole prompt.
pub fn get_prompt_input(seqs: &Vec<Sequence>, last_n: Option<(usize, usize)>) -> (r: InputMetadata)
    requires
        inputs_admissible(batch_tokens(seqs@), last_n),
    ensures
        is_prompt_input(r, batch_tokens(seqs@), last_n),
{
    let ghost toks = batch_tokens(seqs@);
    let max_len = max_token_len(seqs);
    let keep: usize = match last_n {
        Some(p) => p.0,
        None => 1,
    };
    let off: usize = match last_n {
        Some(p) => p.1,
        None => 0,
    };
    let mut input: Vec<Vec<u32>> = Vec::new();
    let mut positions: Vec<usize> = Vec::new();
    let mut positions_kernel: Vec<Vec<usize>> = Vec::new();
    let mut context_lens: Vec<(usize, usize)> = Vec::new();
    let mut position_ids: Vec<usize> = Vec::new();
    let mut b: usize = 0;
    while b < seqs.len()
        invariant
            b <= seqs@.len(),
            toks == batch_tokens(seqs@),
            inputs_admissible(toks, last_n),
            is_max_len(toks, max_len as nat),
            keep == (match last_n { Some(p) => p.0 as nat, None => 1 }),
            off == (match last_n { Some(p) => p.1 as nat, None => 0 }),
            input@.len() == b,
            positions@.len() == b,
            positions_kernel@.len() == b,
            context_lens@.len() == b,
            position_ids@.len() == b,
            forall|t: int| 0 <= t < b ==> (#[trigger] input@[t])@ == padded(toks[t], max_len as nat),
            forall|t: int| 0 <= t < b ==> (#[trigger] positions_kernel@[t])@ == position_run(off as nat, max_len as nat),
            forall|t: int| 0 <= t < b ==> #[trigger] positions@[t] == off,
            forall|t: int| 0 <= t < b ==> #[trigger] context_lens@[t] == ((toks[t].len() - keep) as usize, keep),
            forall|t: int| 0 <= t < b ==> #[trigger] position_ids@[t] == toks[t].len() as usize,
        decreases seqs@.len() - b,
    {
        let toks_b = &seqs[b].tokens;
        assert(toks_b@ == toks[b as int]);
        assert(toks[b as int].len() <= max_len);
        if let Some(p) = last_n {
            assert(p.1 + toks[b as int].len() <= usize::MAX);
        }
        let mut row: Vec<u32> = Vec::with_capacity(max_len);
        let mut k: usize = 0;
        while k < max_len
            invariant
                k <= max_len,
                toks_b@.len() <= max_len,
                row@.len() == k,
                forall|t: int| 0 <= t < k ==> #[trigger] row@[t] == padded(toks_b@, max_len as nat)[t],
            decreases max_len - k,
        {
            if k < toks_b.len() {
                row.push(toks_b[k]);
            } else {
                row.push(PADDING_TOKEN);
            }
            k += 1;
        }
        assert(row@ =~= padded(toks_b@, max_len as nat));
        let mut run: Vec<usize> = Vec::with_capacity(max_len);
        let mut k2: usize = 0;
        while k2 < max_len
            invariant
                k2 <= max_len,
                off == (match last_n { Some(p) => p.1 as nat, None => 0 }),
                off + max_len <= usize::MAX,
                run@ =~= position_run(off as nat, k2 as nat),
            decreases max_len - k2,
        {
            run.push(off + k2);
            k2 += 1;
        }
        input.push(row);
        positions.push(off);
        positions_kernel.push(run);
        context_lens.push((toks_b.len() - keep, keep));
        position_ids.push(toks_b.len());
        b += 1;
    }
    let r = InputMetadata { input, positions, positions_kernel, context_lens, position_ids };
    assert(rows_u32(r.input@) =~= Seq::new(toks.len(), |b: int| padded(toks[b], max_len as nat)));
    assert(rows_usize(r.positions_kernel@) =~= Seq::new(toks.len(), |b: int| position_run(off as nat, max_len as nat)));
    assert(r.positions@ =~= Seq::new(toks.len(), |b: int| off));
    assert(r.context_lens@ =~= Seq::new(toks.len(), |b: int| ((toks[b].len() - keep) as usize, keep)));
    assert(r.position_ids@ =~= Seq::new(toks.len(), |b: int| toks[b].len() as usize));
    r
}

/// Packs sequences that already have a cache: each contributes its last token.
/// Without a cache the whole prompt is fed again instead.
pub fn get_completion_input(seqs: &Vec<Sequence>, no_kv_cache: bool, last_n: Option<(usize, usize)>) -> (r: InputMetadata)
    requires
        inputs_admissible(batch_tokens(seqs@), last_n),
    ensures
        no_kv_cache ==> is_prompt_input(r, batch_tokens(seqs@), last_n),
        !no_kv_cache ==> is_decode_input(r, batch_tokens(seqs@)),
{
    if no_kv_cache {
        return get_prompt_input(seqs, last_n);
    }
    let ghost toks = batch_tokens(seqs@);
    let mut input: Vec<Vec<u32>> = Vec::new();
    let mut positions: Vec<usize> = Vec::new();
    let mut positions_kernel: Vec<Vec<usize>> = Vec::new();
    let mut context_lens: Vec<(usize, usize)> = Vec::new();
    let mut position_ids: Vec<usize> = Vec::new();
    let mut b: usize = 0;
    while b < seqs.len()
        invariant
            b <= seqs@.len(),
            toks == batch_tokens(seqs@),
            inputs_admissible(toks, last_n),
            input@.len() == b,
            positions@.len() == b,
            positions_kernel@.len() == b,
            context_lens@.len() == b,
            position_ids@.len() == b,
            forall|t: int| 0 <= t < b ==> (#[trigger] input@[t])@ == toks[t].subrange(toks[t].len() - 1, toks[t].len() as int),
            forall|t: int| 0 <= t < b ==> (#[trigger] positions_kernel@[t])@ == seq![(toks[t].len() - 1) as usize],
            forall|t: int| 0 <= t < b ==> #[trigger] positions@[t] == (toks[t].len() - 1) as usize,
            forall|t: int| 0 <= t < b ==> #[trigger] context_lens@[t] == (0usize, 1usize),
            forall|t: int| 0 <= t < b ==> #[trigger] position_ids@[t] == toks[t].len() as usize,
        decreases seqs@.len() - b,
    {
        let toks_b = &seqs[b].tokens;
        assert(toks_b@ == toks[b as int]);
        let start = toks_b.len() - 1;
        let row: Vec<u32> = vec![toks_b[start]];
        assert(row@ =~= toks_b@.subrange(start as int, toks_b@.len() as int));
        let run: Vec<usize> = vec![start];
        assert(run@ =~= seq![start]);
        input.push(row);
        positions.push(start);
        positions_kernel.push(run);
        context_lens.push((0, 1));
        position_ids.push(toks_b.len());
        b += 1;
    }
    let r = InputMetadata { input, positions, positions_kernel, context_lens, position_ids };
    assert(rows_u32(r.input@) =~= Seq::new(toks.len(), |b: int| toks[b].subrange(toks[b].len() - 1, toks[b].len() as int)));
    assert(rows_usize(r.positions_kernel@) =~= Seq::new(toks.len(), |b: int| seq![(toks[b].len() - 1) as usize]));
    assert(r.positions@ =~= Seq::new(toks.len(), |b: int| (toks[b].len() - 1) as usize));
    assert(r.context_lens@ =~= Seq::new(toks.len(), |b: int| (0usize, 1usize)));
    assert(r.position_ids@ =~= Seq::new(toks.len(), |b: int| toks[b].len() as usize));
    r
}

/// Everything one forward pass takes. For the two-pass adapter scheme the `_full`
/// fields carry the whole-prompt batch that the scaling pass runs on.
pub struct ModelInputs {
    pub input_ids: Vec<Vec<u32>>,
    pub input_ids_full: Option<Vec<Vec<u32>>>,
    pub seqlen_offsets: Vec<usize>,
    pub seqlen_offsets_full: Option<Vec<usize>>,
    pub seqlen_offsets_kernel: Vec<Vec<usize>>,
    pub seqlen_offsets_kernel_full: Option<Vec<Vec<usize>>>,
    pub context_lens: Vec<(usize, usize)>,
    pub position_ids: Vec<usize>,
}

/// `r` carries the token rows, offsets and position ids of `meta`.
pub open spec fn carries(
    ids: Vec<Vec<u32>>,
    offsets: Vec<usize>,
    kernel: Vec<Vec<usize>>,
    meta: InputMetadata,
) -> bool {
    &&& rows_u32(ids@) == rows_u32(meta.input@)
    &&& offsets@ == meta.positions@
    &&& rows_usize(kernel@) == rows_usize(meta.positions_kernel@)
}

/// The full-prompt fields of `r` are present and carry `meta`.
pub open spec fn carries_full(r: ModelInputs, meta: InputMetadata) -> bool {
    &&& r.input_ids_full is Some
    &&& r.seqlen_offsets_full is Some
    &&& r.seqlen_offsets_kernel_full is Some
    &&& carries(r.input_ids_full->0, r.seqlen_offsets_full->0, r.seqlen_offsets_kernel_full->0, meta)
}

/// A copy of a batch of token rows.
fn copy_rows_u32(v: &Vec<Vec<u32>>) -> (r: Vec<Vec<u32>>)
    ensures
        rows_u32(r@) == rows_u32(v@),
{
    let mut out: Vec<Vec<u32>> = Vec::with_capacity(v.len());
    let mut i: usize = 0;
    while i < v.len()
        invariant
            i <= v@.len(),
            out@.len() == i,
            forall|t: int| 0 <= t < i ==> (#[trigger] out@[t])@ == v@[t]@,
        decreases v@.len() - i,
    {
        let row = v[i].clone();
        assert(row@ =~= v@[i as int]@);
        out.push(row);
        i += 1;
    }
    assert(rows_u32(out@) =~= rows_u32(v@));
    out
}

/// A copy of a batch of position rows.
fn copy_rows_usize(v: &Vec<Vec<usize>>) -> (r: Vec<Vec<usize>>)
    ensures
        rows_usize(r@) == rows_usize(v@),
{
    let mut out: Vec<Vec<usize>> = Vec::with_capacity(v.len());
    let mut i: usize = 0;
    while i < v.len()
        invariant
            i <= v@.len(),
            out@.len() == i,
            forall|t: int| 0 <= t < i ==> (#[trigger] out@[t])@ == v@[t]@,
        decreases v@.len() - i,
    {
        let row = v[i].clone();
        assert(row@ =~= v@[i as int]@);
        out.push(row);
        i += 1;
    }
    assert(rows_usize(out@) =~= rows_usize(v@));
    out
}

/// `r` is what one step feeds the model: whole prompts for a prompt step (or any
/// step without a cache), last tokens otherwise; with the two-pass adapter scheme
/// the whole-prompt batch rides along, and a decode step takes its position ids
/// from it.
pub open spec fn inputs_for(
    r: ModelInputs,
    seqs: Seq<Sequence>,
    is_prompt: bool,
    is_xlora: bool,
    no_kv_cache: bool,
    last_n: Option<(usize, usize)>,
) -> bool {
    &&& is_xlora ==> exists|full: InputMetadata| is_prompt_input(full, batch_tokens(seqs), last_n) && #[trigger] carries_full(r, full)
    &&& !is_xlora ==> r.input_ids_full is None && r.seqlen_offsets_full is None && r.seqlen_offsets_kernel_full is None
    &&& exists|meta: InputMetadata| {
        &&& #[trigger] carries(r.input_ids, r.seqlen_offsets, r.seqlen_offsets_kernel, meta)
        &&& r.context_lens@ == meta.context_lens@
        &&& (is_prompt || no_kv_cache ==> is_prompt_input(meta, batch_tokens(seqs), last_n))
        &&& (!is_prompt && !no_kv_cache ==> is_decode_input(meta, batch_tokens(seqs)))
        &&& (is_xlora && !is_prompt ==> r.position_ids@ == Seq::new(seqs.len(), |b: int| seqs[b].tokens@.len() as usize))
        &&& (!(is_xlora && !is_prompt) ==> r.position_ids@ == meta.position_ids@)
    }
}

/// Builds the inputs of one step.
pub fn calculate_inputs(
    seqs: &Vec<Sequence>,
    is_prompt: bool,
    is_xlora: bool,
    no_kv_cache: bool,
    last_n: Option<(usize, usize)>,
) -> (r: ModelInputs)
    requires
        inputs_admissible(batch_tokens(seqs@), last_n),
    ensures
        inputs_for(r, seqs@, is_prompt, is_xlora, no_kv_cache, last_n),
{
    if is_xlora && !is_prompt {
        let full = get_prompt_input(seqs, last_n);
        let part = get_completion_input(seqs, no_kv_cache, last_n);
        let r = ModelInputs {
            input_ids: part.input,
            input_ids_full: Some(full.input),
            seqlen_offsets: part.positions,
            seqlen_offsets_full: Some(full.positions),
            seqlen_offsets_kernel: part.positions_kernel,
            seqlen_offsets_kernel_full: Some(full.positions_kernel),
            context_lens: part.context_lens,
            position_ids: full.position_ids,
        };
        assert(carries_full(r, full));
        assert(carries(r.input_ids, r.seqlen_offsets, r.seqlen_offsets_kernel, part));
        assert(r.position_ids@ == full.position_ids@);
        assert(full.position_ids@ =~= Seq::new(seqs@.len(), |b: int| seqs@[b].tokens@.len() as usize));
        r
    } else if is_xlora && is_prompt {
        let full = get_prompt_input(seqs, last_n);
        let ids = copy_rows_u32(&full.input);
        let offsets = full.positions.clone();
        let kernel = copy_rows_usize(&full.positions_kernel);
        assert(offsets@ =~= full.positions@);
        let ghost meta = full;
        let r = ModelInputs {
            input_ids: ids,
            input_ids_full: Some(full.input),
            seqlen_offsets: offsets,
            seqlen_offsets_full: Some(full.positions),
            seqlen_offsets_kernel: kernel,
            seqlen_offsets_kernel_full: Some(full.positions_kernel),
            context_lens: full.context_lens,
            position_ids: full.position_ids,
        };
        assert(carries_full(r, meta));
        assert(carries(r.input_ids, r.seqlen_offsets, r.seqlen_offsets_kernel, meta));
        r
    } else {
        let meta = if is_prompt {
            get_prompt_input(seqs, last_n)
        } else {
            get_completion_input(seqs, no_kv_cache, last_n)
        };
        let ghost g = meta;
        let r = ModelInputs {
            input_ids: meta.input,
            input_ids_full: None,
            seqlen_offsets: meta.positions,
            seqlen_offsets_full: None,
            seqlen_offsets_kernel: meta.positions_kernel,
            seqlen_offsets_kernel_full: None,
            context_lens: meta.context_lens,
            position_ids: meta.position_ids,
        };
        assert(carries(r.input_ids, r.seqlen_offsets, r.seqlen_offsets_kernel, g));
        r
    }
}

/// The absolute positions of the tokens that one step feeds: batch entry `b`
/// feeds `input[b].len()` tokens starting at position `offsets[b]`. These are the
/// rows that the step appends to each cache slot.
pub fn step_rows(offsets: &Vec<usize>, input: &Vec<Vec<u32>>) -> (r: Vec<Vec<u64>>)
    requires
        offsets@.len() == input@.len(),
        forall|b: int| 0 <= b < input@.len() ==> offsets@[b] + (#[trigger] input@[b])@.len() <= u64::MAX,
    ensures
        r@.len() == input@.len(),
        forall|b: int| 0 <= b < input@.len() ==> (#[trigger] r@[b])@ ==
            Seq::new(input@[b]@.len(), |t: int| (offsets@[b] + t) as u64),
{
    let mut out: Vec<Vec<u64>> = Vec::with_capacity(input.len());
    let mut b: usize = 0;
    while b < input.len()
        invariant
            b <= input@.len(),
            offsets@.len() == input@.len(),
            forall|t: int| 0 <= t < input@.len() ==> offsets@[t] + (#[trigger] input@[t])@.len() <= u64::MAX,
            out@.len() == b,
            forall|t: int| 0 <= t < b ==> (#[trigger] out@[t])@ == Seq::new(input@[t]@.len(), |k: int| (offsets@[t] + k) as u64),
        decreases input@.len() - b,
    {
        let off = offsets[b];
        let q = input[b].len();
        assert(off + q <= u64::MAX);
        let mut row: Vec<u64> = Vec::with_capacity(q);
        let mut k: usize = 0;
        while k < q
            invariant
                k <= q,
                off + q <= u64::MAX,
                row@ =~= Seq::new(k as nat, |j: int| (off + j) as u64),
            decreases q - k,
        {
            row.push(off as u64 + k as u64);
            k += 1;
        }
        out.push(row);
        b += 1;
    }
    out
}

/// A prefill followed by one decode step feeds the model the same tokens at the
/// same positions as a single prefill of the longer sequence: the prefill of `t`
/// and the decode step after `x` is appended together cover exactly what the
/// prefill of `t + [x]` covers.
pub proof fn lemma_prefill_then_decode(t: Seq<u32>, x: u32, pre: InputMetadata, dec: InputMetadata, whole: InputMetadata)
    requires
        t.len() >= 1,
        is_prompt_input(pre, seq![t], None),
        is_decode_input(dec, seq![t.push(x)]),
        is_prompt_input(whole, seq![t.push(x)], None),
    ensures
        rows_u32(pre.input@)[0] + rows_u32(dec.input@)[0] == rows_u32(whole.input@)[0],
        rows_usize(pre.positions_kernel@)[0] + rows_usize(dec.positions_kernel@)[0] == rows_usize(whole.positions_kernel@)[0],
{
    let m1 = choose|m: nat| {
        &&& is_max_len(seq![t], m)
        &&& #[trigger] rows_u32(pre.input@) == Seq::new(1, |b: int| padded(seq![t][b], m))
        &&& rows_usize(pre.positions_kernel@) == Seq::new(1, |b: int| position_run(0, m))
        &&& pre.positions@ == Seq::new(1, |b: int| 0usize)
        &&& pre.context_lens@ == Seq::new(1, |b: int| ((seq![t][b].len() - 1) as usize, 1usize))
        &&& pre.position_ids@ == Seq::new(1, |b: int| seq![t][b].len() as usize)
    };
    let u = t.push(x);
    let m3 = choose|m: nat| {
        &&& is_max_len(seq![u], m)
        &&& #[trigger] rows_u32(whole.input@) == Seq::new(1, |b: int| padded(seq![u][b], m))
        &&& rows_usize(whole.positions_kernel@) == Seq::new(1, |b: int| position_run(0, m))
        &&& whole.positions@ == Seq::new(1, |b: int| 0usize)
        &&& whole.context_lens@ == Seq::new(1, |b: int| ((seq![u][b].len() - 1) as usize, 1usize))
        &&& whole.position_ids@ == Seq::new(1, |b: int| seq![u][b].len() as usize)
    };
    assert(seq![t][0] == t);
    assert(seq![u][0] == u);
    assert(m1 == t.len());
    assert(m3 == u.len());
    assert(padded(t, m1) =~= t);
    assert(padded(u, m3) =~= u);
    assert(rows_u32(pre.input@)[0] == t);
    assert(rows_u32(whole.input@)[0] == u);
    assert(rows_u32(dec.input@)[0] == u.subrange(u.len() - 1, u.len() as int));
    assert(t + u.subrange(u.len() - 1, u.len() as int) =~= u);
    assert(rows_usize(dec.positions_kernel@)[0] == seq![(u.len() - 1) as usize]);
    assert(position_run(0, m1) + seq![(u.len() - 1) as usize] =~= position_run(0, m3));
}

} // verus!
