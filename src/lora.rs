use vstd::prelude::*;
use crate::error::ModelError;

verus! {

/// The adapter state of one adapter-wrapped projection: the names of its adapters in
/// order, and whether they have been folded into the base weight.
pub struct AdapterLayer {
    pub adapters: Vec<String>,
    pub merged: bool,
}

/// The adapter state (merged flag, adapter names) after a merge of `(merged, adapters)`:
/// merged, with no adapter left.
pub open spec fn after_merge(state: (bool, Seq<String>)) -> (bool, Seq<String>) {
    (true, if state.0 { state.1 } else { Seq::empty() })
}

impl AdapterLayer {
    /// The merged flag and adapter names.
    pub open spec fn state(&self) -> (bool, Seq<String>) {
        (self.merged, self.adapters@)
    }

    /// A merged projection keeps no adapters.
    pub open spec fn wf(&self) -> bool {
        self.merged ==> self.adapters@.len() == 0
    }

    /// A projection with the given adapters, not merged.
    pub fn new(adapters: Vec<String>) -> (r: AdapterLayer)
        ensures
            r.wf(),
            !r.merged,
            r.adapters@ == adapters@,
    {
        AdapterLayer { adapters, merged: false }
    }

    /// Folds the adapters into the base weight: the list empties and the projection
    /// is marked merged. Returns how many adapters were folded. Merging again is a
    /// state error and changes nothing.
    pub fn merge(&mut self) -> (r: Result<usize, ModelError>)
        requires
            old(self).wf(),
        ensures
            final(self).wf(),
            final(self).state() == after_merge(old(self).state()),
            old(self).merged ==> r == Err::<usize, ModelError>(ModelError::State),
            !old(self).merged ==> r == Ok::<usize, ModelError>(old(self).adapters@.len() as usize),
    {
        if self.merged {
            return Err(ModelError::State);
        }
        let n = self.adapters.len();
        self.adapters = Vec::new();
        self.merged = true;
        assert(self.adapters@ =~= Seq::<String>::empty());
        Ok(n)
    }

    /// Whether a forward pass adds the adapters' contributions: only with scalings
    /// given and adapters left (a merged projection is a plain linear map).
    pub fn uses_adapters(&self, has_scalings: bool) -> (r: bool)
        ensures
            r == (has_scalings && self.adapters@.len() > 0),
    {
        has_scalings && self.adapters.len() > 0
    }
}

/// Merging is idempotent: for every well-formed adapter state, the state after two
/// merges is the state after one, and it holds no adapter.
pub proof fn lemma_merge_idempotent(state: (bool, Seq<String>))
    requires
        state.0 ==> state.1.len() == 0,
    ensures
        after_merge(after_merge(state)) == after_merge(state),
        after_merge(state).1.len() == 0,
{
}

/// The column of the scalings tensor (laid out as layers times adapters) that holds
/// the weight of adapter `adapter` in layer `layer`.
pub fn scaling_column(layer: usize, adapter: usize, num_adapters: usize, num_layers: usize) -> (r: usize)
    requires
        layer < num_layers,
        adapter < num_adapters,
        num_layers * num_adapters <= usize::MAX,
    ensures
        r == layer * num_adapters + adapter,
        r < num_layers * num_adapters,
{
    proof {
        assert(layer * num_adapters + adapter < num_layers * num_adapters) by (nonlinear_arith)
            requires layer < num_layers, adapter < num_adapters;
    }
    layer * num_adapters + adapter
}

} // verus!
