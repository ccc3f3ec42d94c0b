use vstd::prelude::*;
use crate::device_map::{DeviceMap, LayerRange, assigned};

verus! {

/// The block-quantized (or plain) data types that a projection may be stored in.
#[allow(non_camel_case_types)]
#[derive(Debug, Clone, Copy, PartialEq, Eq, Structural)]
pub enum QuantDType {
    F32,
    F16,
    Q4_0,
    Q4_1,
    Q5_0,
    Q5_1,
    Q8_0,
    Q8_1,
    Q2K,
    Q3K,
    Q4K,
    Q5K,
    Q6K,
    Q8K,
}

/// How a projection's weight is held.
#[derive(Debug, Clone, Copy, PartialEq, Eq, Structural)]
pub enum WeightFormat {
    /// A full-precision tensor.
    Dense,
    /// A block-quantized tensor.
    Quantized(QuantDType),
}

/// One linear projection of a model, with the layer it belongs to (none for the
/// language-model head).
#[derive(Debug, Clone, Copy, PartialEq, Eq, Structural)]
pub struct Projection {
    pub layer: Option<usize>,
    pub format: WeightFormat,
}

/// One projection to quantize, and the device it is quantized on.
#[derive(Debug, Clone, Copy, PartialEq, Eq, Structural)]
pub struct QuantizeJob {
    pub index: usize,
    pub device: usize,
}

/// A projection after in-situ quantization to `d`: a dense weight becomes
/// quantized, a quantized one is left as it is.
pub open spec fn quantized(p: Projection, d: QuantDType) -> Projection {
    match p.format {
        WeightFormat::Dense => Projection { layer: p.layer, format: WeightFormat::Quantized(d) },
        WeightFormat::Quantized(_) => p,
    }
}

/// All projections after in-situ quantization to `d`.
pub open spec fn quantized_all(s: Seq<Projection>, d: QuantDType) -> Seq<Projection> {
    Seq::new(s.len(), |i: int| quantized(s[i], d))
}

/// The indices of the dense projections among the first `n`, in order.
pub open spec fn dense_indices(s: Seq<Projection>, n: nat) -> Seq<usize>
    decreases n,
{
    if n == 0 {
        seq![]
    } else {
        let before = dense_indices(s, (n - 1) as nat);
        if s[n - 1].format == WeightFormat::Dense { before.push((n - 1) as usize) } else { before }
    }
}

/// The device that `map` gives projection `p`, `main` standing in where none applies.
pub open spec fn device_of(p: Projection, map_ranges: Seq<LayerRange>, main: usize) -> usize {
    match p.layer {
        Some(l) => match assigned(map_ranges, l as nat) {
            Some(d) => d,
            None => main,
        },
        None => main,
    }
}

/// The work of an in-situ quantization pass: every projection that is still dense,
/// in order, with the device of its layer.
pub fn plan_in_situ(projs: &Vec<Projection>, map: &DeviceMap, main: usize) -> (r: Vec<QuantizeJob>)
    requires
        projs@.len() <= usize::MAX,
    ensures
        r@.len() == dense_indices(projs@, projs@.len()).len(),
        forall|j: int| 0 <= j < r@.len() ==> {
            &&& (#[trigger] r@[j]).index == dense_indices(projs@, projs@.len())[j]
            &&& r@[j].device == device_of(projs@[r@[j].index as int], map.ranges@, main)
        },
{
    let mut jobs: Vec<QuantizeJob> = Vec::new();
    let mut i: usize = 0;
    while i < projs.len()
        invariant
            i <= projs@.len(),
            jobs@.len() == dense_indices(projs@, i as nat).len(),
            forall|j: int| 0 <= j < jobs@.len() ==> {
                &&& (#[trigger] jobs@[j]).index == dense_indices(projs@, i as nat)[j]
                &&& jobs@[j].device == device_of(projs@[jobs@[j].index as int], map.ranges@, main)
            },
        decreases projs@.len() - i,
    {
        let p = projs[i];
        if p.format == WeightFormat::Dense {
            let device = match p.layer {
                Some(l) => map.device_or(l, main),
                None => main,
            };
            jobs.push(QuantizeJob { index: i, device });
        }
        i += 1;
    }
    jobs
}

/// Quantizes in place, to `d`, every projection that is still dense, and returns
/// how many it quantized.
pub fn apply_in_situ(projs: &mut Vec<Projection>, d: QuantDType) -> (n: usize)
    requires
        old(projs)@.len() <= usize::MAX,
    ensures
        final(projs)@ == quantized_all(old(projs)@, d),
        n == dense_indices(old(projs)@, old(projs)@.len()).len(),
{
    let ghost orig = projs@;
    let mut count: usize = 0;
    let mut i: usize = 0;
    while i < projs.len()
        invariant
            i <= projs@.len(),
            projs@.len() == orig.len(),
            orig.len() <= usize::MAX,
            count == dense_indices(orig, i as nat).len(),
            count <= i,
            forall|t: int| 0 <= t < i ==> #[trigger] projs@[t] == quantized(orig[t], d),
            forall|t: int| i <= t < orig.len() ==> #[trigger] projs@[t] == orig[t],
        decreases orig.len() - i,
    {
        let p = projs[i];
        if p.format == WeightFormat::Dense {
            projs.set(i, Projection { layer: p.layer, format: WeightFormat::Quantized(d) });
            count += 1;
        }
        i += 1;
    }
    assert(projs@ =~= quantized_all(orig, d));
    count
}

/// In-situ quantization is idempotent: a second pass to the same type changes no
/// projection and finds nothing left to quantize.
pub proof fn lemma_in_situ_idempotent(s: Seq<Projection>, d: QuantDType)
    ensures
        quantized_all(quantized_all(s, d), d) == quantized_all(s, d),
        dense_indices(quantized_all(s, d), s.len()).len() == 0,
{
    assert(quantized_all(quantized_all(s, d), d) =~= quantized_all(s, d));
    lemma_no_dense_left(s, d, s.len());
}

/// After a pass, no projection among the first `n` is dense.
proof fn lemma_no_dense_left(s: Seq<Projection>, d: QuantDType, n: nat)
    requires
        n <= s.len(),
    ensures
        dense_indices(quantized_all(s, d), n).len() == 0,
    decreases n,
{
    if n > 0 {
        lemma_no_dense_left(s, d, (n - 1) as nat);
    }
}

} // verus!
