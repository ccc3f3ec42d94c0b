use vstd::prelude::*;
use crate::kv_cache::{EvictionPolicy, KvSlot, slot_after};
use crate::sequence::{Sequence, opt_view, slots_view};

verus! {

/// The view of one layer of a store: one optional slot per batch entry.
pub open spec fn layer_view(layer: Vec<Option<KvSlot>>) -> Seq<Option<Seq<u64>>> {
    slots_view(layer@)
}

/// The view of a whole list of layers.
pub open spec fn layers_view(layers: Seq<Vec<Option<KvSlot>>>) -> Seq<Seq<Option<Seq<u64>>>> {
    Seq::new(layers.len(), |l: int| layer_view(layers[l]))
}

/// The slots of one sequence, viewed per layer; `snapshot` picks the slots of the
/// scaling pass.
pub open spec fn seq_slots(s: Sequence, snapshot: bool) -> Seq<Option<Seq<u64>>> {
    if snapshot { slots_view(s.xlora_cache@) } else { slots_view(s.cache@) }
}

/// The layers of a store after the batch `seqs` was copied in: layer `l` holds, at
/// batch index `b`, the slot of layer `l` of `seqs[b]`.
pub open spec fn batch_layers(seqs: Seq<Sequence>, num_layers: nat, snapshot: bool) -> Seq<Seq<Option<Seq<u64>>>> {
    Seq::new(num_layers, |l: int| Seq::new(seqs.len(), |b: int| seq_slots(seqs[b], snapshot)[l]))
}

/// Every sequence of the batch has one slot of each kind per layer.
pub open spec fn seqs_fit(seqs: Seq<Sequence>, num_layers: nat) -> bool {
    forall|b: int| 0 <= b < seqs.len() ==> (#[trigger] seqs[b]).cache@.len() == num_layers
        && seqs[b].xlora_cache@.len() == num_layers
}

/// The slot of a layer at batch index `b`, or none where the layer is shorter.
pub open spec fn slot_at(layer: Seq<Option<Seq<u64>>>, b: int) -> Option<Seq<u64>> {
    if 0 <= b < layer.len() { layer[b] } else { None }
}

/// The per-layer, per-batch-entry key/value slots of a model: the main list, and a
/// second list that the scaling pass of the two-pass adapter scheme writes to.
pub struct CacheStore {
    pub primary: Vec<Vec<Option<KvSlot>>>,
    pub snapshot: Vec<Vec<Option<KvSlot>>>,
}

impl CacheStore {
    /// Both lists have one entry per layer.
    pub open spec fn wf(&self) -> bool {
        self.primary@.len() == self.snapshot@.len()
    }

    /// Number of layers.
    pub open spec fn num_layers(&self) -> nat {
        self.primary@.len()
    }

    /// The list that `snapshot` selects, viewed.
    pub open spec fn list(&self, snapshot: bool) -> Seq<Seq<Option<Seq<u64>>>> {
        if snapshot { layers_view(self.snapshot@) } else { layers_view(self.primary@) }
    }

    /// A store for `num_layers` layers with no slots.
    pub fn new(num_layers: usize) -> (r: CacheStore)
        ensures
            r.wf(),
            r.num_layers() == num_layers,
            forall|l: int| 0 <= l < num_layers ==> (#[trigger] r.list(false)[l]).len() == 0,
            forall|l: int| 0 <= l < num_layers ==> (#[trigger] r.list(true)[l]).len() == 0,
    {
        let primary = empty_layers(num_layers);
        let snapshot = empty_layers(num_layers);
        CacheStore { primary, snapshot }
    }

    /// Clears every slot of the selected list.
    pub fn reset(&mut self, snapshot: bool)
        requires
            old(self).wf(),
        ensures
            final(self).wf(),
            final(self).num_layers() == old(self).num_layers(),
            forall|l: int| 0 <= l < old(self).num_layers() ==> (#[trigger] final(self).list(snapshot)[l]).len() == 0,
            final(self).list(!snapshot) == old(self).list(!snapshot),
    {
        let n = self.primary.len();
        if snapshot {
            self.snapshot = empty_layers(n);
        } else {
            self.primary = empty_layers(n);
        }
    }

    /// Copies each sequence's own slots into the selected list, at the sequence's
    /// index in the batch.
    pub fn clone_in(&mut self, seqs: &Vec<Sequence>, snapshot: bool)
        requires
            old(self).wf(),
            seqs_fit(seqs@, old(self).num_layers()),
        ensures
            final(self).wf(),
            final(self).num_layers() == old(self).num_layers(),
            final(self).list(snapshot) == batch_layers(seqs@, old(self).num_layers(), snapshot),
            final(self).list(!snapshot) == old(self).list(!snapshot),
    {
        let n = self.primary.len();
        let mut layers: Vec<Vec<Option<KvSlot>>> = Vec::with_capacity(n);
        let mut l: usize = 0;
        while l < n
            invariant
                l <= n,
                seqs_fit(seqs@, n as nat),
                layers@.len() == l,
                forall|t: int| 0 <= t < l ==> #[trigger] layer_view(layers@[t]) == batch_layers(seqs@, n as nat, snapshot)[t],
            decreases n - l,
        {
            let mut layer: Vec<Option<KvSlot>> = Vec::with_capacity(seqs.len());
            let mut b: usize = 0;
            while b < seqs.len()
                invariant
                    b <= seqs@.len(),
                    l < n,
                    seqs_fit(seqs@, n as nat),
                    layer@.len() == b,
                    forall|t: int| 0 <= t < b ==> opt_view(#[trigger] layer@[t]) == seq_slots(seqs@[t], snapshot)[l as int],
                decreases seqs@.len() - b,
            {
                let s = &seqs[b];
                assert(s.cache@.len() == n && s.xlora_cache@.len() == n);
                let own = if snapshot { &s.xlora_cache[l] } else { &s.cache[l] };
                let copy = copy_slot(own);
                layer.push(copy);
                b += 1;
            }
            assert(layer_view(layer) =~= batch_layers(seqs@, n as nat, snapshot)[l as int]);
            layers.push(layer);
            l += 1;
        }
        assert(layers_view(layers@) =~= batch_layers(seqs@, n as nat, snapshot));
        if snapshot {
            self.snapshot = layers;
        } else {
            self.primary = layers;
        }
    }

    /// Copies the selected list back into the sequences: sequence `b` takes, for
    /// every layer, the slot at batch index `b`.
    pub fn clone_out(&self, seqs: &mut Vec<Sequence>, snapshot: bool)
        requires
            self.wf(),
            seqs_fit(old(seqs)@, self.num_layers()),
            forall|l: int| 0 <= l < self.num_layers() ==> (#[trigger] self.list(snapshot)[l]).len() == old(seqs)@.len(),
        ensures
            final(seqs)@.len() == old(seqs)@.len(),
            seqs_fit(final(seqs)@, self.num_layers()),
            forall|b: int| 0 <= b < old(seqs)@.len() ==> {
                &&& (#[trigger] final(seqs)@[b]).id == old(seqs)@[b].id
                &&& final(seqs)@[b].tokens@ == old(seqs)@[b].tokens@
                &&& seq_slots(final(seqs)@[b], snapshot) == Seq::new(self.num_layers(), |l: int| self.list(snapshot)[l][b])
                &&& seq_slots(final(seqs)@[b], !snapshot) == seq_slots(old(seqs)@[b], !snapshot)
            },
    {
        let n = self.primary.len();
        let nb = seqs.len();
        let mut b: usize = 0;
        while b < nb
            invariant
                b <= nb,
                n == self.num_layers(),
                self.wf(),
                nb == seqs@.len(),
                old(seqs)@.len() == nb,
                forall|l: int| 0 <= l < n ==> (#[trigger] self.list(snapshot)[l]).len() == nb,
                seqs_fit(seqs@, n as nat),
                forall|t: int| b <= t < nb ==> #[trigger] seqs@[t] == old(seqs)@[t],
                forall|t: int| 0 <= t < b ==> {
                    &&& (#[trigger] seqs@[t]).id == old(seqs)@[t].id
                    &&& seqs@[t].tokens@ == old(seqs)@[t].tokens@
                    &&& seq_slots(seqs@[t], snapshot) == Seq::new(n as nat, |l: int| self.list(snapshot)[l][t])
                    &&& seq_slots(seqs@[t], !snapshot) == seq_slots(old(seqs)@[t], !snapshot)
                },
            decreases nb - b,
        {
            let mut slots: Vec<Option<KvSlot>> = Vec::with_capacity(n);
            let mut l: usize = 0;
            while l < n
                invariant
                    l <= n,
                    b < nb,
                    n == self.num_layers(),
                    self.wf(),
                    forall|t: int| 0 <= t < n ==> (#[trigger] self.list(snapshot)[t]).len() == nb,
                    slots@.len() == l,
                    forall|t: int| 0 <= t < l ==> opt_view(#[trigger] slots@[t]) == self.list(snapshot)[t][b as int],
                decreases n - l,
            {
                let layer = if snapshot { &self.snapshot[l] } else { &self.primary[l] };
                assert(self.list(snapshot)[l as int] == layer_view(*layer));
                assert(layer@.len() == nb);
                let copy = copy_slot(&layer[b]);
                slots.push(copy);
                l += 1;
            }
            assert(slots_view(slots@) =~= Seq::new(n as nat, |t: int| self.list(snapshot)[t][b as int]));
            if snapshot {
                seqs[b].xlora_cache = slots;
            } else {
                seqs[b].cache = slots;
            }
            b += 1;
        }
    }

    /// Writes one forward step's new rows into a layer of the selected list: batch
    /// entry `b` appends `new_rows[b]` to its slot under `policy` (an empty slot takes
    /// the rows as they are).
    pub fn append_layer(&mut self, layer: usize, new_rows: &Vec<Vec<u64>>, policy: EvictionPolicy, snapshot: bool)
        requires
            old(self).wf(),
            layer < old(self).num_layers(),
            policy.valid(),
            forall|b: int| 0 <= b < new_rows@.len() ==> match #[trigger] slot_at(old(self).list(snapshot)[layer as int], b) {
                Some(p) => p.len() + new_rows@[b]@.len() <= usize::MAX,
                None => true,
            },
        ensures
            final(self).wf(),
            final(self).num_layers() == old(self).num_layers(),
            final(self).list(snapshot) == old(self).list(snapshot).update(layer as int,
                Seq::new(new_rows@.len(), |b: int| Some(slot_after(slot_at(old(self).list(snapshot)[layer as int], b), new_rows@[b]@, policy)))),
            final(self).list(!snapshot) == old(self).list(!snapshot),
    {
        let ghost prev = self.list(snapshot)[layer as int];
        let mut out: Vec<Option<KvSlot>> = Vec::with_capacity(new_rows.len());
        let mut b: usize = 0;
        while b < new_rows.len()
            invariant
                b <= new_rows@.len(),
                layer < self.num_layers(),
                self.wf(),
                prev == self.list(snapshot)[layer as int],
                policy.valid(),
                forall|t: int| 0 <= t < new_rows@.len() ==> match #[trigger] slot_at(prev, t) {
                    Some(p) => p.len() + new_rows@[t]@.len() <= usize::MAX,
                    None => true,
                },
                out@.len() == b,
                forall|t: int| 0 <= t < b ==> opt_view(#[trigger] out@[t]) == Some(slot_after(slot_at(prev, t), new_rows@[t]@, policy)),
            decreases new_rows@.len() - b,
        {
            let cur = if snapshot { &self.snapshot[layer] } else { &self.primary[layer] };
            assert(layer_view(*cur) == prev);
            let existing = if b < cur.len() { copy_slot(&cur[b]) } else { None };
            assert(opt_view(existing) == slot_at(prev, b as int));
            let rows = copy_rows(&new_rows[b]);
            let slot = match existing {
                Some(mut s) => {
                    s.append(&rows, policy);
                    s
                },
                None => KvSlot::new(rows),
            };
            out.push(Some(slot));
            b += 1;
        }
        assert(layer_view(out) =~= Seq::new(new_rows@.len(), |t: int| Some(slot_after(slot_at(prev, t), new_rows@[t]@, policy))));
        if snapshot {
            self.snapshot[layer] = out;
            assert(layers_view(self.snapshot@) =~= old(self).list(snapshot).update(layer as int, layer_view(out)));
        } else {
            self.primary[layer] = out;
            assert(layers_view(self.primary@) =~= old(self).list(snapshot).update(layer as int, layer_view(out)));
        }
    }

    /// Writes one forward step's new rows into every layer of the selected list, as
    /// `append_layer` does for one.
    pub fn append_all_layers(&mut self, new_rows: &Vec<Vec<u64>>, policy: EvictionPolicy, snapshot: bool)
        requires
            old(self).wf(),
            policy.valid(),
            forall|l: int, b: int| 0 <= l < old(self).num_layers() && 0 <= b < new_rows@.len() ==>
                match #[trigger] slot_at(old(self).list(snapshot)[l], b) {
                    Some(p) => p.len() + new_rows@[b]@.len() <= usize::MAX,
                    None => true,
                },
        ensures
            final(self).wf(),
            final(self).num_layers() == old(self).num_layers(),
            final(self).list(snapshot) == Seq::new(old(self).num_layers(), |l: int|
                Seq::new(new_rows@.len(), |b: int| Some(slot_after(slot_at(old(self).list(snapshot)[l], b), new_rows@[b]@, policy)))),
            final(self).list(!snapshot) == old(self).list(!snapshot),
    {
        let ghost orig = self.list(snapshot);
        let n = self.primary.len();
        let mut l: usize = 0;
        while l < n
            invariant
                l <= n,
                n == self.num_layers(),
                self.wf(),
                policy.valid(),
                orig.len() == n,
                self.list(!snapshot) == old(self).list(!snapshot),
                self.list(snapshot).len() == n,
                forall|t: int| l <= t < n ==> #[trigger] self.list(snapshot)[t] == orig[t],
                forall|t: int| 0 <= t < l ==> #[trigger] self.list(snapshot)[t] ==
                    Seq::new(new_rows@.len(), |b: int| Some(slot_after(slot_at(orig[t], b), new_rows@[b]@, policy))),
                forall|t: int, b: int| 0 <= t < n && 0 <= b < new_rows@.len() ==>
                    match #[trigger] slot_at(orig[t], b) {
                        Some(p) => p.len() + new_rows@[b]@.len() <= usize::MAX,
                        None => true,
                    },
            decreases n - l,
        {
            assert forall|b: int| 0 <= b < new_rows@.len() implies match #[trigger] slot_at(self.list(snapshot)[l as int], b) {
                Some(p) => p.len() + new_rows@[b]@.len() <= usize::MAX,
                None => true,
            } by {
                assert(slot_at(orig[l as int], b) == slot_at(self.list(snapshot)[l as int], b));
            }
            self.append_layer(l, new_rows, policy, snapshot);
            l += 1;
        }
        assert(self.list(snapshot) =~= Seq::new(n as nat, |l: int|
            Seq::new(new_rows@.len(), |b: int| Some(slot_after(slot_at(orig[l], b), new_rows@[b]@, policy)))));
    }

    /// Rows cached in layer 0 for the first batch entry of the main list: how many
    /// positions a step's mask must look back on.
    pub fn past_len(&self) -> (r: usize)
        ensures
            r == match slot_at(if self.primary@.len() > 0 { layers_view(self.primary@)[0] } else { seq![] }, 0) {
                Some(s) => s.len(),
                None => 0,
            },
    {
        if self.primary.len() == 0 {
            return 0;
        }
        let layer = &self.primary[0];
        assert(layers_view(self.primary@)[0] == layer_view(*layer));
        if layer.len() == 0 {
            return 0;
        }
        match &layer[0] {
            Some(s) => s.len(),
            None => 0,
        }
    }
}

/// `n` layers that hold no slots.
fn empty_layers(n: usize) -> (r: Vec<Vec<Option<KvSlot>>>)
    ensures
        r@.len() == n,
        forall|l: int| 0 <= l < n ==> (#[trigger] layers_view(r@)[l]).len() == 0,
{
    let mut r: Vec<Vec<Option<KvSlot>>> = Vec::with_capacity(n);
    let mut i: usize = 0;
    while i < n
        invariant
            i <= n,
            r@.len() == i,
            forall|l: int| 0 <= l < i ==> (#[trigger] r@[l])@.len() == 0,
        decreases n - i,
    {
        r.push(Vec::new());
        i += 1;
    }
    r
}

/// An exact copy of an optional slot.
fn copy_slot(s: &Option<KvSlot>) -> (r: Option<KvSlot>)
    ensures
        opt_view(r) == opt_view(*s),
{
    match s {
        Some(slot) => Some(slot.duplicate()),
        None => None,
    }
}

/// An exact copy of a row list.
fn copy_rows(v: &Vec<u64>) -> (r: Vec<u64>)
    ensures
        r@ == v@,
{
    let mut out: Vec<u64> = Vec::with_capacity(v.len());
    let mut i: usize = 0;
    while i < v.len()
        invariant
            i <= v@.len(),
            out@ == v@.subrange(0, i as int),
        decreases v@.len() - i,
    {
        out.push(v[i]);
        i += 1;
    }
    assert(out@ =~= v@);
    out
}

/// Copying a batch into the store and straight back out changes no sequence's
/// slots: the list that `clone_in` leaves has one entry per sequence in every layer,
/// and what `clone_out` hands sequence `b` from it is exactly what `b` had.
pub proof fn lemma_clone_in_out_identity(seqs: Seq<Sequence>, num_layers: nat, snapshot: bool)
    requires
        seqs_fit(seqs, num_layers),
    ensures
        forall|l: int| 0 <= l < num_layers ==> (#[trigger] batch_layers(seqs, num_layers, snapshot)[l]).len() == seqs.len(),
        forall|b: int| 0 <= b < seqs.len() ==>
            Seq::new(num_layers, |l: int| batch_layers(seqs, num_layers, snapshot)[l][b]) == #[trigger] seq_slots(seqs[b], snapshot),
{
    assert forall|b: int| 0 <= b < seqs.len() implies
        Seq::new(num_layers, |l: int| batch_layers(seqs, num_layers, snapshot)[l][b]) == #[trigger] seq_slots(seqs[b], snapshot) by {
        assert(seqs[b].cache@.len() == num_layers && seqs[b].xlora_cache@.len() == num_layers);
        assert(Seq::new(num_layers, |l: int| batch_layers(seqs, num_layers, snapshot)[l][b]) =~= seq_slots(seqs[b], snapshot));
    }
}

} // verus!
