use vstd::prelude::*;
use crate::cache_store::{CacheStore, seqs_fit, batch_layers, seq_slots};
use crate::error::ModelError;
use crate::sequence::Sequence;
use crate::inputs::{ModelInputs, calculate_inputs, inputs_admissible, inputs_for, batch_tokens};

verus! {

/// What to do with the caches around a forward pass.
#[derive(Debug, Clone, Copy, PartialEq, Eq, Structural)]
pub enum CacheInstruction {
    /// Copy the sequences' slots into the store (before the pass).
    In,
    /// Copy the store's slots back into the sequences (after the pass).
    Out,
    /// Clear the main slots, and the scaling-pass slots too when asked.
    Reset { reset_non_granular: bool },
    /// Leave the caches alone.
    Nonthing,
}

/// Whether every sequence has one slot of each kind per layer of `store`.
pub fn check_seqs_fit(store: &CacheStore, seqs: &Vec<Sequence>) -> (r: bool)
    ensures
        r == seqs_fit(seqs@, store.num_layers()),
{
    let n = store.primary.len();
    let mut b: usize = 0;
    while b < seqs.len()
        invariant
            b <= seqs@.len(),
            n == store.num_layers(),
            forall|t: int| 0 <= t < b ==> (#[trigger] seqs@[t]).cache@.len() == n && seqs@[t].xlora_cache@.len() == n,
        decreases seqs@.len() - b,
    {
        if seqs[b].cache.len() != n || seqs[b].xlora_cache.len() != n {
            return false;
        }
        b += 1;
    }
    true
}

/// Whether every layer of the main list holds exactly one slot per sequence.
pub fn check_store_batch(store: &CacheStore, nb: usize) -> (r: bool)
    ensures
        r == forall|l: int| 0 <= l < store.num_layers() ==> (#[trigger] store.list(false)[l]).len() == nb,
{
    let mut l: usize = 0;
    while l < store.primary.len()
        invariant
            l <= store.primary@.len(),
            forall|t: int| 0 <= t < l ==> (#[trigger] store.list(false)[t]).len() == nb,
        decreases store.primary@.len() - l,
    {
        assert(store.list(false)[l as int].len() == store.primary@[l as int]@.len());
        if store.primary[l].len() != nb {
            return false;
        }
        l += 1;
    }
    true
}

/// Runs the cache instruction that precedes a forward pass. Copying out is no
/// instruction to run before a pass; sequences whose slots do not match the store's
/// layers cannot be copied in.
pub fn apply_pre_op(store: &mut CacheStore, seqs: &Vec<Sequence>, op: CacheInstruction) -> (r: Result<(), ModelError>)
    requires
        old(store).wf(),
    ensures
        final(store).wf(),
        final(store).num_layers() == old(store).num_layers(),
        r is Err <==> (op == CacheInstruction::Out || (op == CacheInstruction::In && !seqs_fit(seqs@, old(store).num_layers()))),
        r matches Err(e) ==> e == ModelError::State && *final(store) == *old(store),
        r is Ok ==> match op {
            CacheInstruction::In => final(store).list(false) == batch_layers(seqs@, old(store).num_layers(), false)
                && final(store).list(true) == old(store).list(true),
            CacheInstruction::Reset { reset_non_granular } => {
                &&& forall|l: int| 0 <= l < old(store).num_layers() ==> (#[trigger] final(store).list(false)[l]).len() == 0
                &&& reset_non_granular ==> forall|l: int| 0 <= l < old(store).num_layers() ==> (#[trigger] final(store).list(true)[l]).len() == 0
                &&& !reset_non_granular ==> final(store).list(true) == old(store).list(true)
            },
            _ => *final(store) == *old(store),
        },
{
    match op {
        CacheInstruction::In => {
            if !check_seqs_fit(store, seqs) {
                return Err(ModelError::State);
            }
            store.clone_in(seqs, false);
            Ok(())
        },
        CacheInstruction::Reset { reset_non_granular } => {
            store.reset(false);
            if reset_non_granular {
                store.reset(true);
            }
            Ok(())
        },
        CacheInstruction::Nonthing => Ok(()),
        CacheInstruction::Out => Err(ModelError::State),
    }
}

/// Runs the cache instruction that follows a forward pass. Copying in is no
/// instruction to run after a pass; copying out needs every layer of the store to
/// hold one slot per sequence and every sequence to have a slot per layer.
pub fn apply_post_op(store: &mut CacheStore, seqs: &mut Vec<Sequence>, op: CacheInstruction) -> (r: Result<(), ModelError>)
    requires
        old(store).wf(),
    ensures
        final(store).wf(),
        final(store).num_layers() == old(store).num_layers(),
        r is Err <==> (op == CacheInstruction::In || (op == CacheInstruction::Out && !(
            seqs_fit(old(seqs)@, old(store).num_layers())
            && forall|l: int| 0 <= l < old(store).num_layers() ==> (#[trigger] old(store).list(false)[l]).len() == old(seqs)@.len()))),
        r matches Err(e) ==> e == ModelError::State,
        r is Err || op != CacheInstruction::Out ==> *final(seqs) == *old(seqs),
        op == CacheInstruction::Out ==> *final(store) == *old(store),
        r is Ok && op == CacheInstruction::Out ==> {
            &&& final(seqs)@.len() == old(seqs)@.len()
            &&& forall|b: int| 0 <= b < old(seqs)@.len() ==> {
                &&& (#[trigger] final(seqs)@[b]).tokens@ == old(seqs)@[b].tokens@
                &&& final(seqs)@[b].id == old(seqs)@[b].id
                &&& seq_slots(final(seqs)@[b], false) == Seq::new(old(store).num_layers(), |l: int| old(store).list(false)[l][b])
                &&& seq_slots(final(seqs)@[b], true) == seq_slots(old(seqs)@[b], true)
            }
        },
        match op {
            CacheInstruction::Reset { reset_non_granular } => {
                &&& forall|l: int| 0 <= l < old(store).num_layers() ==> (#[trigger] final(store).list(false)[l]).len() == 0
                &&& reset_non_granular ==> forall|l: int| 0 <= l < old(store).num_layers() ==> (#[trigger] final(store).list(true)[l]).len() == 0
                &&& !reset_non_granular ==> final(store).list(true) == old(store).list(true)
            },
            CacheInstruction::Out => true,
            _ => *final(store) == *old(store),
        },
{
    match op {
        CacheInstruction::Out => {
            if !check_seqs_fit(store, seqs) || !check_store_batch(store, seqs.len()) {
                return Err(ModelError::State);
            }
            store.clone_out(seqs, false);
            Ok(())
        },
        CacheInstruction::Reset { reset_non_granular } => {
            store.reset(false);
            if reset_non_granular {
                store.reset(true);
            }
            Ok(())
        },
        CacheInstruction::Nonthing => Ok(()),
        CacheInstruction::In => Err(ModelError::State),
    }
}

/// How the two-pass adapter scheme runs one forward: whether a scaling pass comes
/// first, whether the main pass is fed the whole prompt rather than the last tokens,
/// whether the main slots are cleared before it, and which slot list each pass reads
/// and writes (`true` for the scaling-pass list, `false` for the main list).
#[derive(Debug, Clone, Copy, PartialEq, Eq, Structural)]
pub struct XLoraForwardPlan {
    pub scaling_pass: bool,
    pub scaling_pass_snapshot: bool,
    pub main_on_full_input: bool,
    pub clear_main_cache: bool,
    pub main_pass_snapshot: bool,
}

/// Decides the passes of one forward. With a scaling classifier, a scaling pass
/// comes first and works on the scaling-pass slots, so the main slots stay
/// undisturbed; without a key/value cache the main pass then sees the whole prompt
/// on cleared slots. The main pass always works on the main slots. Without a
/// classifier there is one plain pass.
pub fn xlora_forward_plan(has_classifier: bool, no_kv_cache: bool) -> (r: XLoraForwardPlan)
    ensures
        r.scaling_pass == has_classifier,
        r.scaling_pass_snapshot,
        r.main_on_full_input == (has_classifier && no_kv_cache),
        r.clear_main_cache == (has_classifier && no_kv_cache),
        !r.main_pass_snapshot,
{
    XLoraForwardPlan {
        scaling_pass: has_classifier,
        scaling_pass_snapshot: true,
        main_on_full_input: has_classifier && no_kv_cache,
        clear_main_cache: has_classifier && no_kv_cache,
        main_pass_snapshot: false,
    }
}

/// The first half of a pipeline step: marshal the batch, then run the cache
/// instruction that precedes the forward pass. The forward pass itself, and the
/// instruction that follows it (`apply_post_op`), come after.
pub fn begin_step(
    store: &mut CacheStore,
    seqs: &Vec<Sequence>,
    is_prompt: bool,
    is_xlora: bool,
    no_kv_cache: bool,
    pre_op: CacheInstruction,
) -> (r: Result<ModelInputs, ModelError>)
    requires
        old(store).wf(),
        inputs_admissible(batch_tokens(seqs@), None),
    ensures
        final(store).wf(),
        final(store).num_layers() == old(store).num_layers(),
        r is Err <==> (pre_op == CacheInstruction::Out || (pre_op == CacheInstruction::In && !seqs_fit(seqs@, old(store).num_layers()))),
        r matches Err(e) ==> e == ModelError::State && *final(store) == *old(store),
        r matches Ok(inputs) ==> inputs_for(inputs, seqs@, is_prompt, is_xlora, no_kv_cache, None),
        r is Ok ==> match pre_op {
            CacheInstruction::In => final(store).list(false) == batch_layers(seqs@, old(store).num_layers(), false)
                && final(store).list(true) == old(store).list(true),
            CacheInstruction::Reset { reset_non_granular } => {
                &&& forall|l: int| 0 <= l < old(store).num_layers() ==> (#[trigger] final(store).list(false)[l]).len() == 0
                &&& reset_non_granular ==> forall|l: int| 0 <= l < old(store).num_layers() ==> (#[trigger] final(store).list(true)[l]).len() == 0
                &&& !reset_non_granular ==> final(store).list(true) == old(store).list(true)
            },
            _ => *final(store) == *old(store),
        },
{
    let inputs = calculate_inputs(seqs, is_prompt, is_xlora, no_kv_cache, None);
    match apply_pre_op(store, seqs, pre_op) {
        Ok(()) => Ok(inputs),
        Err(e) => Err(e),
    }
}

} // verus!
