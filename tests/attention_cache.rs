use mistralrs_core::cache_store::CacheStore;
use mistralrs_core::kv_cache::{trim_plan, EvictionPolicy, KvSlot};
use mistralrs_core::mask::{make_causal_mask, trim_mask_for_window};
use mistralrs_core::sequence::Sequence;
use mistralrs_core::step::{apply_post_op, apply_pre_op, begin_step, CacheInstruction};
use mistralrs_core::error::ModelError;

#[test]
fn causal_mask_len_three_offset_zero() {
    let m = make_causal_mask(3, 0, None).expect("a mask");
    let expected = vec![
        vec![false, true, true],
        vec![false, false, true],
        vec![false, false, false],
    ];
    assert_eq!(m, expected);
}

#[test]
fn causal_mask_absent_for_single_token_on_empty_cache() {
    assert!(make_causal_mask(1, 0, None).is_none());
    assert!(make_causal_mask(1, 0, Some(4)).is_none());
}

#[test]
fn causal_mask_single_token_with_cache_allows_all() {
    let m = make_causal_mask(1, 3, None).expect("a mask");
    assert_eq!(m, vec![vec![false, false, false, false]]);
}

#[test]
fn causal_mask_with_past_and_window() {
    // two new tokens after four cached ones, window 3
    let m = make_causal_mask(2, 4, Some(3)).expect("a mask");
    // row 0 is position 4: keys 2..=4 allowed
    assert_eq!(m[0], vec![true, true, false, false, false, true]);
    // row 1 is position 5: keys 3..=5 allowed
    assert_eq!(m[1], vec![true, true, true, false, false, false]);
}

#[test]
fn sliding_window_trim_keeps_last_three_and_new() {
    let mut slot = KvSlot::new(vec![0, 1, 2, 3, 4]);
    slot.append(&vec![5], EvictionPolicy::Window(4));
    assert_eq!(slot.len(), 4);
    assert_eq!(slot.rows, vec![2, 3, 4, 5]);
}

#[test]
fn sliding_window_grows_until_full() {
    let mut slot = KvSlot::new(vec![0, 1]);
    slot.append(&vec![2], EvictionPolicy::Window(4));
    assert_eq!(slot.rows, vec![0, 1, 2]);
    slot.append(&vec![3], EvictionPolicy::Window(4));
    assert_eq!(slot.rows, vec![0, 1, 2, 3]);
    slot.append(&vec![4], EvictionPolicy::Window(4));
    assert_eq!(slot.rows, vec![1, 2, 3, 4]);
}

#[test]
fn double_window_evicts_only_past_twice_the_window() {
    let mut slot = KvSlot::new(vec![0, 1, 2, 3, 4, 5, 6, 7]);
    slot.append(&vec![8], EvictionPolicy::DoubleWindow(4));
    assert_eq!(slot.rows, vec![5, 6, 7, 8]);
    let mut slot = KvSlot::new(vec![0, 1, 2, 3, 4, 5, 6]);
    slot.append(&vec![7], EvictionPolicy::DoubleWindow(4));
    assert_eq!(slot.len(), 8);
}

#[test]
fn unbounded_slot_keeps_everything() {
    let mut slot = KvSlot::new(vec![0, 1, 2]);
    slot.append(&vec![3, 4], EvictionPolicy::Unbounded);
    assert_eq!(slot.rows, vec![0, 1, 2, 3, 4]);
}

#[test]
fn trim_plan_values() {
    let p = trim_plan(5, 1, EvictionPolicy::Window(4));
    assert_eq!((p.start, p.keep, p.drop_after), (2, 3, 0));
    let p = trim_plan(8, 1, EvictionPolicy::DoubleWindow(4));
    assert_eq!((p.start, p.keep, p.drop_after), (0, 8, 5));
    let p = trim_plan(2, 1, EvictionPolicy::Window(4));
    assert_eq!((p.start, p.keep, p.drop_after), (0, 2, 0));
}

#[test]
fn window_slot_length_after_decode_steps() {
    // a prefill of 6 tokens into an empty slot, then decode steps, window 4
    let mut slot = KvSlot::new(vec![0, 1, 2, 3, 4, 5]);
    for pos in 6..10u64 {
        slot.append(&vec![pos], EvictionPolicy::Window(4));
        assert_eq!(slot.len(), 4);
    }
    assert_eq!(slot.rows, vec![6, 7, 8, 9]);
}

#[test]
fn mask_trim_for_window() {
    let mask = vec![vec![true, false, false, false, false]];
    let t = trim_mask_for_window(&mask, 4);
    assert_eq!(t, vec![vec![false, false, false, false]]);
}

#[test]
fn clone_in_then_out_is_identity() {
    let mut a = Sequence::new(7, vec![1, 2, 3], 2);
    a.cache[0] = Some(KvSlot::new(vec![0, 1, 2]));
    a.cache[1] = Some(KvSlot::new(vec![0, 1, 2]));
    let mut b = Sequence::new(8, vec![4, 5], 2);
    b.cache[0] = Some(KvSlot::new(vec![0, 1]));
    let mut seqs = vec![a, b];
    let mut store = CacheStore::new(2);
    assert_eq!(apply_pre_op(&mut store, &seqs, CacheInstruction::In), Ok(()));
    assert_eq!(apply_post_op(&mut store, &mut seqs, CacheInstruction::Out), Ok(()));
    assert_eq!(seqs[0].cache[0].as_ref().unwrap().rows, vec![0, 1, 2]);
    assert_eq!(seqs[0].cache[1].as_ref().unwrap().rows, vec![0, 1, 2]);
    assert_eq!(seqs[1].cache[0].as_ref().unwrap().rows, vec![0, 1]);
    assert!(seqs[1].cache[1].is_none());
    assert_eq!(seqs[1].tokens, vec![4, 5]);
}

#[test]
fn illegal_cache_ops_are_state_errors() {
    let mut seqs = vec![Sequence::new(0, vec![1], 1)];
    let mut store = CacheStore::new(1);
    assert_eq!(apply_pre_op(&mut store, &seqs, CacheInstruction::Out), Err(ModelError::State));
    assert_eq!(apply_post_op(&mut store, &mut seqs, CacheInstruction::In), Err(ModelError::State));
    // the store holds no slot per sequence yet
    assert_eq!(apply_post_op(&mut store, &mut seqs, CacheInstruction::Out), Err(ModelError::State));
    let wrong = vec![Sequence::new(0, vec![1], 3)];
    assert_eq!(apply_pre_op(&mut store, &wrong, CacheInstruction::In), Err(ModelError::State));
}

#[test]
fn reset_clears_slots() {
    let mut store = CacheStore::new(2);
    store.append_all_layers(&vec![vec![0, 1, 2]], EvictionPolicy::Unbounded, false);
    assert_eq!(store.past_len(), 3);
    let seqs: Vec<Sequence> = Vec::new();
    assert_eq!(apply_pre_op(&mut store, &seqs, CacheInstruction::Reset { reset_non_granular: false }), Ok(()));
    assert_eq!(store.past_len(), 0);
}

#[test]
fn store_append_follows_policy() {
    let mut store = CacheStore::new(1);
    store.append_layer(0, &vec![vec![0, 1, 2, 3, 4]], EvictionPolicy::Window(4), false);
    assert_eq!(store.past_len(), 5);
    store.append_layer(0, &vec![vec![5]], EvictionPolicy::Window(4), false);
    assert_eq!(store.primary[0][0].as_ref().unwrap().rows, vec![2, 3, 4, 5]);
    // the scaling-pass list is untouched
    assert!(store.snapshot[0].is_empty());
}

#[test]
fn begin_step_marshals_then_clones_in() {
    let mut a = Sequence::new(0, vec![3, 4, 5], 1);
    a.cache[0] = Some(KvSlot::new(vec![0, 1]));
    let seqs = vec![a];
    let mut store = CacheStore::new(1);
    let inputs = begin_step(&mut store, &seqs, false, false, false, CacheInstruction::In).unwrap();
    assert_eq!(inputs.input_ids, vec![vec![5]]);
    assert_eq!(inputs.seqlen_offsets, vec![2]);
    assert_eq!(store.past_len(), 2);
    assert!(matches!(
        begin_step(&mut store, &seqs, false, false, false, CacheInstruction::Out),
        Err(ModelError::State)
    ));
}
