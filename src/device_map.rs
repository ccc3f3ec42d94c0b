use vstd::prelude::*;
use crate::error::ModelError;

verus! {

/// One device's share of the decoder layers: `first ..= last` run on `device`.
#[derive(Debug, Clone, Copy, PartialEq, Eq, Structural)]
pub struct LayerRange {
    pub device: usize,
    pub first: usize,
    pub last: usize,
}

/// Which device each decoder layer runs on. Layers that no range covers run on the
/// model's main device.
pub struct DeviceMap {
    pub num_layers: usize,
    pub ranges: Vec<LayerRange>,
}

/// The ranges are non-empty, lie within the layers, and come in increasing order
/// without overlap.
pub open spec fn ranges_ok(ranges: Seq<LayerRange>, num_layers: nat) -> bool {
    &&& forall|i: int| 0 <= i < ranges.len() ==> (#[trigger] ranges[i]).first <= ranges[i].last && ranges[i].last < num_layers
    &&& forall|i: int| 0 < i < ranges.len() ==> ranges[i - 1].last < (#[trigger] ranges[i]).first
}

/// The device that `ranges` assign to `layer`, if any.
pub open spec fn assigned(ranges: Seq<LayerRange>, layer: nat) -> Option<usize>
    decreases ranges.len(),
{
    if ranges.len() == 0 {
        None
    } else if ranges[0].first <= layer <= ranges[0].last {
        Some(ranges[0].device)
    } else {
        assigned(ranges.drop_first(), layer)
    }
}

impl DeviceMap {
    pub open spec fn wf(&self) -> bool {
        ranges_ok(self.ranges@, self.num_layers as nat)
    }

    /// Checks a layer assignment: a range that is empty, leaves the layers or
    /// overlaps or precedes the one before it is a configuration error.
    pub fn new(num_layers: usize, ranges: Vec<LayerRange>) -> (r: Result<DeviceMap, ModelError>)
        ensures
            r is Ok <==> ranges_ok(ranges@, num_layers as nat),
            r matches Ok(m) ==> m.wf() && m.num_layers == num_layers && m.ranges@ == ranges@,
            r matches Err(e) ==> e == ModelError::Config,
    {
        let mut i: usize = 0;
        while i < ranges.len()
            invariant
                i <= ranges@.len(),
                forall|t: int| 0 <= t < i ==> (#[trigger] ranges@[t]).first <= ranges@[t].last && ranges@[t].last < num_layers,
                forall|t: int| 0 < t < i ==> ranges@[t - 1].last < (#[trigger] ranges@[t]).first,
            decreases ranges@.len() - i,
        {
            let g = ranges[i];
            if g.first > g.last || g.last >= num_layers {
                return Err(ModelError::Config);
            }
            if i > 0 && ranges[i - 1].last >= g.first {
                return Err(ModelError::Config);
            }
            i += 1;
        }
        Ok(DeviceMap { num_layers, ranges })
    }

    /// The device of `layer`, or `None` where it stays on the main device.
    pub fn device_for(&self, layer: usize) -> (r: Option<usize>)
        ensures
            r == assigned(self.ranges@, layer as nat),
    {
        let mut i: usize = 0;
        assert(self.ranges@.subrange(0, self.ranges@.len() as int) =~= self.ranges@);
        while i < self.ranges.len()
            invariant
                i <= self.ranges@.len(),
                assigned(self.ranges@, layer as nat) == assigned(self.ranges@.subrange(i as int, self.ranges@.len() as int), layer as nat),
            decreases self.ranges@.len() - i,
        {
            let g = self.ranges[i];
            let ghost rest = self.ranges@.subrange(i as int, self.ranges@.len() as int);
            assert(rest[0] == g);
            assert(rest.drop_first() =~= self.ranges@.subrange(i + 1, self.ranges@.len() as int));
            if g.first <= layer && layer <= g.last {
                return Some(g.device);
            }
            i += 1;
        }
        assert(self.ranges@.subrange(i as int, self.ranges@.len() as int).len() == 0);
        None
    }

    /// The device of `layer`, the main device `main` standing in where no range
    /// covers it.
    pub fn device_or(&self, layer: usize, main: usize) -> (r: usize)
        ensures
            r == match assigned(self.ranges@, layer as nat) {
                Some(d) => d,
                None => main,
            },
    {
        match self.device_for(layer) {
            Some(d) => d,
            None => main,
        }
    }

    /// For each layer, whether the activations must move to another device before it
    /// runs: layer 0 compares with the main device `main`, every later layer with the
    /// layer before it. Each layer thus sees at most one transfer.
    pub fn transfers(&self, main: usize) -> (r: Vec<bool>)
        ensures
            r@.len() == self.num_layers,
            forall|i: int| 0 <= i < self.num_layers ==> #[trigger] r@[i] == (device_of_layer(self.ranges@, i as nat, main)
                != if i == 0 { main } else { device_of_layer(self.ranges@, (i - 1) as nat, main) }),
    {
        let mut out: Vec<bool> = Vec::with_capacity(self.num_layers);
        let mut prev = main;
        let mut i: usize = 0;
        while i < self.num_layers
            invariant
                i <= self.num_layers,
                out@.len() == i,
                prev == if i == 0 { main } else { device_of_layer(self.ranges@, (i - 1) as nat, main) },
                forall|t: int| 0 <= t < i ==> #[trigger] out@[t] == (device_of_layer(self.ranges@, t as nat, main)
                    != if t == 0 { main } else { device_of_layer(self.ranges@, (t - 1) as nat, main) }),
            decreases self.num_layers - i,
        {
            let d = self.device_or(i, main);
            out.push(d != prev);
            prev = d;
            i += 1;
        }
        out
    }
}

/// The device of `layer`, `main` where no range covers it.
pub open spec fn device_of_layer(ranges: Seq<LayerRange>, layer: nat, main: usize) -> usize {
    match assigned(ranges, layer) {
        Some(d) => d,
        None => main,
    }
}

} // verus!
