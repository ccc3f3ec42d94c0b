use vstd::prelude::*;
use crate::kv_cache::KvSlot;

verus! {

/// The per-layer cache slots that a sequence or a store keeps, viewed as rows.
pub open spec fn slots_view(slots: Seq<Option<KvSlot>>) -> Seq<Option<Seq<u64>>> {
    Seq::new(slots.len(), |l: int| opt_view(slots[l]))
}

/// The rows of an optional slot.
pub open spec fn opt_view(o: Option<KvSlot>) -> Option<Seq<u64>> {
    match o {
        Some(s) => Some(s@),
        None => None,
    }
}

/// One generation request in flight: its tokens so far and its own copies of the
/// per-layer cache slots (the main ones, and those of the scaling pass).
pub struct Sequence {
    pub id: usize,
    pub tokens: Vec<u32>,
    pub cache: Vec<Option<KvSlot>>,
    pub xlora_cache: Vec<Option<KvSlot>>,
}

impl Sequence {
    /// A new sequence with `num_layers` empty slots of each kind.
    pub fn new(id: usize, tokens: Vec<u32>, num_layers: usize) -> (r: Sequence)
        ensures
            r.id == id,
            r.tokens@ == tokens@,
            r.cache@.len() == num_layers,
            r.xlora_cache@.len() == num_layers,
            forall|l: int| 0 <= l < num_layers ==> (#[trigger] r.cache@[l]) is None,
            forall|l: int| 0 <= l < num_layers ==> (#[trigger] r.xlora_cache@[l]) is None,
    {
        let mut cache: Vec<Option<KvSlot>> = Vec::with_capacity(num_layers);
        let mut xlora_cache: Vec<Option<KvSlot>> = Vec::with_capacity(num_layers);
        let mut i: usize = 0;
        while i < num_layers
            invariant
                i <= num_layers,
                cache@.len() == i,
                xlora_cache@.len() == i,
                forall|l: int| 0 <= l < i ==> (#[trigger] cache@[l]) is None,
                forall|l: int| 0 <= l < i ==> (#[trigger] xlora_cache@[l]) is None,
            decreases num_layers - i,
        {
            cache.push(None);
            xlora_cache.push(None);
            i += 1;
        }
        Sequence { id, tokens, cache, xlora_cache }
    }

    /// Number of tokens of the sequence.
    pub fn len(&self) -> (r: usize)
        ensures
            r == self.tokens@.len(),
    {
        self.tokens.len()
    }
}

} // verus!
