use mistralrs_core::cache_store::CacheStore;
use mistralrs_core::error::ModelError;
use mistralrs_core::inputs::{calculate_inputs, get_completion_input, get_prompt_input, step_rows};
use mistralrs_core::kv_cache::EvictionPolicy;
use mistralrs_core::logits::extract_logits;
use mistralrs_core::mask::make_causal_mask;
use mistralrs_core::sequence::Sequence;

fn seqs(lists: Vec<Vec<u32>>) -> Vec<Sequence> {
    let mut out = Vec::new();
    for (i, t) in lists.into_iter().enumerate() {
        out.push(Sequence::new(i, t, 2));
    }
    out
}

#[test]
fn prompt_input_pads_to_longest() {
    let s = seqs(vec![vec![5, 6, 7], vec![8]]);
    let m = get_prompt_input(&s, None);
    assert_eq!(m.input, vec![vec![5, 6, 7], vec![8, 0, 0]]);
    assert_eq!(m.positions, vec![0, 0]);
    assert_eq!(m.positions_kernel, vec![vec![0, 1, 2], vec![0, 1, 2]]);
    assert_eq!(m.context_lens, vec![(2, 1), (0, 1)]);
    assert_eq!(m.position_ids, vec![3, 1]);
}

#[test]
fn prompt_input_with_last_n_context() {
    let s = seqs(vec![vec![1, 2, 3, 4]]);
    let m = get_prompt_input(&s, Some((2, 10)));
    assert_eq!(m.positions, vec![10]);
    assert_eq!(m.positions_kernel, vec![vec![10, 11, 12, 13]]);
    assert_eq!(m.context_lens, vec![(2, 2)]);
}

#[test]
fn completion_input_feeds_last_token() {
    let s = seqs(vec![vec![5, 6, 7], vec![8, 9]]);
    let m = get_completion_input(&s, false, None);
    assert_eq!(m.input, vec![vec![7], vec![9]]);
    assert_eq!(m.positions, vec![2, 1]);
    assert_eq!(m.positions_kernel, vec![vec![2], vec![1]]);
    assert_eq!(m.context_lens, vec![(0, 1), (0, 1)]);
    assert_eq!(m.position_ids, vec![3, 2]);
}

#[test]
fn completion_without_cache_refeeds_prompt() {
    let s = seqs(vec![vec![5, 6, 7]]);
    let m = get_completion_input(&s, true, None);
    assert_eq!(m.input, vec![vec![5, 6, 7]]);
    assert_eq!(m.context_lens, vec![(2, 1)]);
}

#[test]
fn xlora_decode_carries_full_prompt() {
    let s = seqs(vec![vec![5, 6, 7]]);
    let r = calculate_inputs(&s, false, true, false, None);
    assert_eq!(r.input_ids, vec![vec![7]]);
    assert_eq!(r.input_ids_full, Some(vec![vec![5, 6, 7]]));
    assert_eq!(r.seqlen_offsets, vec![2]);
    assert_eq!(r.seqlen_offsets_full, Some(vec![0]));
    assert_eq!(r.seqlen_offsets_kernel_full, Some(vec![vec![0, 1, 2]]));
    assert_eq!(r.context_lens, vec![(0, 1)]);
    assert_eq!(r.position_ids, vec![3]);
    let p = calculate_inputs(&s, true, false, false, None);
    assert_eq!(p.input_ids, vec![vec![5, 6, 7]]);
    assert!(p.input_ids_full.is_none());
    let x = calculate_inputs(&s, true, true, false, None);
    assert_eq!(x.input_ids_full, Some(vec![vec![5, 6, 7]]));
}

#[test]
fn extract_logits_after_prefill_keeps_last_row() {
    let logits = vec![
        vec![vec![1.0f32, 2.0], vec![3.0, 4.0], vec![5.0, 6.0]],
        vec![vec![7.0f32, 8.0], vec![9.0, 10.0], vec![11.0, 12.0]],
    ];
    let r = extract_logits(&logits, &vec![(2, 1), (2, 1)]).unwrap();
    assert_eq!(r, vec![vec![vec![5.0, 6.0]], vec![vec![11.0, 12.0]]]);
}

#[test]
fn extract_logits_window_out_of_range_is_shape_error() {
    let logits = vec![vec![vec![1u32], vec![2]]];
    assert_eq!(extract_logits(&logits, &vec![(1, 2)]), Err(ModelError::Shape));
}

#[test]
fn prefill_then_decode_cache_positions() {
    // a prompt of 5 tokens, then one decode step: the cache holds positions 0..=5,
    // as it would after a single prefill of all 6 tokens
    let mut s = seqs(vec![vec![1, 2, 3, 4, 5]]);
    let mut store = CacheStore::new(2);
    let pre = calculate_inputs(&s, true, false, false, None);
    let rows = step_rows(&pre.seqlen_offsets, &pre.input_ids);
    store.append_all_layers(&rows, EvictionPolicy::Unbounded, false);
    s[0].tokens.push(6);
    let dec = calculate_inputs(&s, false, false, false, None);
    assert_eq!(dec.seqlen_offsets, vec![5]);
    let rows = step_rows(&dec.seqlen_offsets, &dec.input_ids);
    store.append_all_layers(&rows, EvictionPolicy::Unbounded, false);
    assert_eq!(store.primary[1][0].as_ref().unwrap().rows, vec![0, 1, 2, 3, 4, 5]);

    let mut whole = seqs(vec![vec![1, 2, 3, 4, 5, 6]]);
    let mut store2 = CacheStore::new(2);
    let all = calculate_inputs(&whole, true, false, false, None);
    let rows = step_rows(&all.seqlen_offsets, &all.input_ids);
    store2.append_all_layers(&rows, EvictionPolicy::Unbounded, false);
    assert_eq!(store2.primary[1][0].as_ref().unwrap().rows, vec![0, 1, 2, 3, 4, 5]);
    whole[0].id = 1;
    // the decode step's single query sees all six keys
    let m = make_causal_mask(1, 5, None).unwrap();
    assert_eq!(m, vec![vec![false; 6]]);
}

#[test]
fn sequence_at_max_positions_rolls_window() {
    // max positions 4 with a window of 4: one step more rolls the window
    let mut store = CacheStore::new(1);
    store.append_all_layers(&vec![vec![0, 1, 2, 3]], EvictionPolicy::Window(4), false);
    assert_eq!(store.past_len(), 4);
    store.append_all_layers(&vec![vec![4]], EvictionPolicy::Window(4), false);
    assert_eq!(store.primary[0][0].as_ref().unwrap().rows, vec![1, 2, 3, 4]);
    let mut store = CacheStore::new(1);
    store.append_all_layers(&vec![vec![0, 1, 2, 3, 4, 5, 6, 7]], EvictionPolicy::DoubleWindow(4), false);
    store.append_all_layers(&vec![vec![8]], EvictionPolicy::DoubleWindow(4), false);
    assert_eq!(store.primary[0][0].as_ref().unwrap().rows, vec![5, 6, 7, 8]);
}
