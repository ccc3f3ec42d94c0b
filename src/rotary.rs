use vstd::prelude::*;
use crate::error::ModelError;

verus! {

/// The rows of the cosine/sine tables that each sequence's new tokens use: for an
/// offset `o` and `q_len` new tokens, rows `o .. o + q_len`.
pub open spec fn windows_in_table(offsets: Seq<usize>, q_len: nat, table_len: nat) -> bool {
    forall|b: int| 0 <= b < offsets.len() ==> #[trigger] offsets[b] + q_len <= table_len
}

/// Picks the rotary table rows of a step: sequence `b` takes `q_len` rows starting
/// at its offset. A position past the end of the tables (whose length is the model's
/// maximum number of positions) is a shape error.
pub fn rope_windows(offsets: &Vec<usize>, q_len: usize, table_len: usize) -> (r: Result<Vec<(usize, usize)>, ModelError>)
    ensures
        r is Ok <==> windows_in_table(offsets@, q_len as nat, table_len as nat),
        r matches Ok(w) ==> w@ == Seq::new(offsets@.len(), |b: int| (offsets@[b], q_len)),
        r matches Err(e) ==> e == ModelError::Shape,
{
    let mut out: Vec<(usize, usize)> = Vec::with_capacity(offsets.len());
    let mut b: usize = 0;
    while b < offsets.len()
        invariant
            b <= offsets@.len(),
            out@ == Seq::new(b as nat, |t: int| (offsets@[t], q_len)),
            forall|t: int| 0 <= t < b ==> #[trigger] offsets@[t] + q_len <= table_len,
        decreases offsets@.len() - b,
    {
        let o = offsets[b];
        if o > table_len || q_len > table_len - o {
            return Err(ModelError::Shape);
        }
        out.push((o, q_len));
        assert(out@ =~= Seq::new((b + 1) as nat, |t: int| (offsets@[t], q_len)));
        b += 1;
    }
    Ok(out)
}

/// The number of leading channels of a head that are rotated, for a partial-rotary
/// fraction `num / den` of the head width (the rest pass through unrotated).
pub fn rotary_dim(head_dim: usize, num: usize, den: usize) -> (r: usize)
    requires
        den > 0,
        num <= den,
    ensures
        r == (head_dim as int * num as int) / (den as int),
        r <= head_dim,
{
    proof {
        let a = head_dim as int;
        let b = num as int;
        assert(a * b <= u128::MAX) by (nonlinear_arith)
            requires 0 <= a <= u64::MAX, 0 <= b <= u64::MAX;
    }
    let wide: u128 = (head_dim as u128) * (num as u128);
    proof {
        let hn = head_dim as int * num as int;
        let hd = head_dim as int * den as int;
        assert(hn <= hd) by (nonlinear_arith)
            requires num <= den, hn == head_dim as int * num as int, hd == head_dim as int * den as int;
        vstd::arithmetic::div_mod::lemma_div_is_ordered(hn, hd, den as int);
        vstd::arithmetic::div_mod::lemma_div_by_multiple(head_dim as int, den as int);
        assert(hd == head_dim as int * den as int);
        assert(wide as int == hn) by (nonlinear_arith)
            requires wide as int == head_dim as int * num as int, hn == head_dim as int * num as int;
    }
    (wide / (den as u128)) as usize
}

} // verus!
