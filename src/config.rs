use vstd::prelude::*;
use crate::error::ModelError;
use crate::token_source::str_eq;

verus! {

/// Default repetition-penalty window of a model selection.
pub fn default_repeat_last_n() -> (r: usize)
    ensures
        r == 64,
{
    64
}

/// Default of a count that a selection may leave out (the grouped-query factor).
pub fn default_one() -> (r: usize)
    ensures
        r == 1,
{
    1
}

/// Context length assumed where a checkpoint does not state one.
pub fn default_max_position_embeddings() -> (r: usize)
    ensures
        r == 4096,
{
    4096
}

/// How the attention heads of a layer are laid out.
#[derive(Debug, Clone, Copy, PartialEq, Eq, Structural)]
pub struct HeadLayout {
    pub hidden_size: usize,
    pub num_heads: usize,
    pub num_kv_heads: usize,
    pub head_dim: usize,
    /// Query heads served by each key/value head.
    pub num_kv_groups: usize,
    /// Output width of the query projection.
    pub q_dim: usize,
    /// Output width of the key projection, and of the value projection.
    pub kv_dim: usize,
}

/// The head width that a configuration yields: the explicit one, or the hidden
/// size shared out over the query heads.
pub open spec fn resolved_head_dim(hidden_size: nat, num_heads: nat, head_dim: Option<usize>) -> nat {
    match head_dim {
        Some(d) => d as nat,
        None => if num_heads == 0 { 0 } else { hidden_size / num_heads },
    }
}

/// The key/value head count of a configuration: the query head count where none is
/// given.
pub open spec fn resolved_kv_heads(num_heads: nat, num_kv_heads: Option<usize>) -> nat {
    match num_kv_heads {
        Some(k) => k as nat,
        None => num_heads,
    }
}

/// When the head counts of a configuration are consistent.
pub open spec fn layout_ok(hidden_size: nat, num_heads: nat, num_kv_heads: Option<usize>, head_dim: Option<usize>) -> bool {
    let kv = resolved_kv_heads(num_heads, num_kv_heads);
    let d = resolved_head_dim(hidden_size, num_heads, head_dim);
    &&& num_heads > 0
    &&& kv > 0
    &&& num_heads % kv == 0
    &&& (head_dim is None ==> hidden_size % num_heads == 0)
    &&& num_heads * d + 2 * (kv * d) <= usize::MAX
}

impl HeadLayout {
    /// What every layout satisfies: the key/value heads divide the query heads, and
    /// the projection widths are the head counts times the head width.
    pub open spec fn wf(&self) -> bool {
        &&& self.num_heads > 0
        &&& self.num_kv_heads > 0
        &&& self.num_heads % self.num_kv_heads == 0
        &&& self.num_kv_groups * self.num_kv_heads == self.num_heads
        &&& self.q_dim == self.num_heads * self.head_dim
        &&& self.kv_dim == self.num_kv_heads * self.head_dim
        &&& self.q_dim + 2 * self.kv_dim <= usize::MAX
    }

    /// Checks and completes a head configuration. `num_kv_heads` defaults to
    /// `num_heads`, and `head_dim` to `hidden_size / num_heads`.
    pub fn new(hidden_size: usize, num_heads: usize, num_kv_heads: Option<usize>, head_dim: Option<usize>) -> (r: Result<HeadLayout, ModelError>)
        ensures
            r is Ok <==> layout_ok(hidden_size as nat, num_heads as nat, num_kv_heads, head_dim),
            r matches Err(e) ==> e == ModelError::Shape,
            r matches Ok(l) ==> {
                &&& l.wf()
                &&& l.hidden_size == hidden_size
                &&& l.num_heads == num_heads
                &&& l.num_kv_heads == resolved_kv_heads(num_heads as nat, num_kv_heads)
                &&& l.head_dim == resolved_head_dim(hidden_size as nat, num_heads as nat, head_dim)
            },
    {
        let kv = match num_kv_heads {
            Some(k) => k,
            None => num_heads,
        };
        if num_heads == 0 || kv == 0 || num_heads % kv != 0 {
            return Err(ModelError::Shape);
        }
        let d = match head_dim {
            Some(d) => d,
            None => {
                if hidden_size % num_heads != 0 {
                    return Err(ModelError::Shape);
                }
                hidden_size / num_heads
            },
        };
        let q_dim = match num_heads.checked_mul(d) {
            Some(v) => v,
            None => return Err(ModelError::Shape),
        };
        let kv_dim = match kv.checked_mul(d) {
            Some(v) => v,
            None => {
                proof {
                    lemma_divisor_le(num_heads as nat, kv as nat);
                    lemma_mul_mono(kv as nat, num_heads as nat, d as nat);
                }
                return Err(ModelError::Shape);
            },
        };
        if kv_dim > usize::MAX / 2 || q_dim > usize::MAX - 2 * kv_dim {
            return Err(ModelError::Shape);
        }
        let groups = num_heads / kv;
        proof {
            vstd::arithmetic::div_mod::lemma_fundamental_div_mod(num_heads as int, kv as int);
            assert(groups * kv == num_heads) by (nonlinear_arith)
                requires num_heads == kv * (num_heads / kv) + num_heads % kv, num_heads % kv == 0, groups == num_heads / kv;
        }
        Ok(HeadLayout { hidden_size, num_heads, num_kv_heads: kv, head_dim: d, num_kv_groups: groups, q_dim, kv_dim })
    }

    /// The key/value head that query head `h` reads after the key/value heads are
    /// repeated `num_kv_groups` times each.
    pub fn kv_head_of(&self, h: usize) -> (r: usize)
        requires
            self.wf(),
            h < self.num_heads,
        ensures
            r == h / self.num_kv_groups,
            r < self.num_kv_heads,
    {
        proof {
            assert(self.num_kv_groups > 0) by (nonlinear_arith)
                requires self.num_kv_groups * self.num_kv_heads == self.num_heads, self.num_heads > 0;
            vstd::arithmetic::div_mod::lemma_div_is_ordered(h as int, self.num_heads as int, self.num_kv_groups as int);
            assert((self.num_heads as int) / (self.num_kv_groups as int) == self.num_kv_heads) by (nonlinear_arith)
                requires self.num_kv_groups * self.num_kv_heads == self.num_heads, self.num_kv_groups > 0;
            assert((h as int) / (self.num_kv_groups as int) < self.num_kv_heads) by (nonlinear_arith)
                requires self.num_kv_groups * self.num_kv_heads == self.num_heads, self.num_kv_groups > 0, h < self.num_heads;
        }
        h / self.num_kv_groups
    }

    /// Where a fused query/key/value projection output splits: queries occupy
    /// `0 .. q_dim`, keys `q_dim .. q_dim + kv_dim`, values the `kv_dim` after that.
    pub fn qkv_split(&self) -> (r: (usize, usize, usize))
        requires
            self.wf(),
        ensures
            r.0 == self.q_dim,
            r.1 == self.q_dim + self.kv_dim,
            r.2 == self.q_dim + 2 * self.kv_dim,
    {
        (self.q_dim, self.q_dim + self.kv_dim, self.q_dim + 2 * self.kv_dim)
    }
}

/// A positive number is at least as large as each of its divisors.
proof fn lemma_divisor_le(n: nat, k: nat)
    requires
        n > 0,
        k > 0,
        n % k == 0,
    ensures
        k <= n,
{
    vstd::arithmetic::div_mod::lemma_fundamental_div_mod(n as int, k as int);
    assert(k <= n) by (nonlinear_arith)
        requires n == k * (n / k) + n % k, n % k == 0, n > 0, k > 0;
}

/// With `a <= b`, `a * c <= b * c`.
proof fn lemma_mul_mono(a: nat, b: nat, c: nat)
    requires
        a <= b,
    ensures
        a * c <= b * c,
{
    assert(a * c <= b * c) by (nonlinear_arith)
        requires a <= b;
}

/// For every model, the key/value heads divide the query heads, each key/value head
/// serves the same number of query heads, and the projections are as wide as their
/// head count times the head width.
pub proof fn lemma_head_layout_divides(l: HeadLayout)
    requires
        l.wf(),
    ensures
        l.num_heads % l.num_kv_heads == 0,
        l.num_heads == l.num_kv_groups * l.num_kv_heads,
        l.q_dim == l.num_heads * l.head_dim,
        l.kv_dim == l.num_kv_heads * l.head_dim,
        l.q_dim == l.num_kv_groups * l.kv_dim,
{
    assert(l.num_kv_groups * (l.num_kv_heads * l.head_dim) == (l.num_kv_groups * l.num_kv_heads) * l.head_dim) by (nonlinear_arith);
}

/// The integer metadata of a GGUF llama-family checkpoint, as read from the file;
/// `None` where a key is absent.
pub struct GgufMetadata {
    pub architecture: Option<String>,
    pub expert_count: Option<u32>,
    pub expert_used_count: Option<u32>,
    pub head_count: Option<u32>,
    pub head_count_kv: Option<u32>,
    pub block_count: Option<u32>,
    pub embedding_length: Option<u32>,
    pub rope_dimension_count: Option<u32>,
    pub context_length: Option<u64>,
    /// Whether the RMS-norm epsilon key is present with a floating-point value (the
    /// value itself is read alongside the tensors).
    pub has_rms_norm_eps: bool,
}

/// The hyperparameters of a llama-family checkpoint.
#[derive(Debug, Clone, Copy, PartialEq, Eq, Structural)]
pub struct LlamaHyperParams {
    pub n_expert: u32,
    pub n_expert_used: u32,
    pub head_count: u32,
    pub head_count_kv: u32,
    pub block_count: u32,
    pub embedding_length: u32,
    pub rope_dim: u32,
    pub max_seq_len: u64,
    pub head_dim: u32,
}

impl LlamaHyperParams {
    /// Whether the feed-forward of each layer is a mixture of experts.
    pub open spec fn spec_is_moe(&self) -> bool {
        self.n_expert > 1
    }

    /// Whether the feed-forward of each layer is a mixture of experts.
    pub fn is_moe(&self) -> (r: bool)
        ensures
            r == self.spec_is_moe(),
    {
        self.n_expert > 1
    }
}

/// Whether the metadata names architecture `arch` and holds every required key.
pub open spec fn gguf_complete(md: GgufMetadata, arch: Seq<char>) -> bool {
    &&& md.architecture matches Some(a) && a@ == arch
    &&& md.head_count is Some
    &&& md.head_count_kv is Some
    &&& md.block_count is Some
    &&& md.embedding_length is Some
    &&& md.rope_dimension_count is Some
    &&& md.has_rms_norm_eps
}

/// Whether complete metadata describes a consistent head layout: positive head
/// counts, key/value heads that divide the query heads, and an embedding width
/// that the query heads share evenly.
pub open spec fn gguf_shape_ok(md: GgufMetadata) -> bool {
    let h = md.head_count->0 as nat;
    let kv = md.head_count_kv->0 as nat;
    let d = md.embedding_length->0 as nat;
    &&& h > 0
    &&& kv > 0
    &&& h % kv == 0
    &&& d % h == 0
}

/// Reads the hyperparameters of a llama-family GGUF checkpoint of architecture
/// `arch`. A wrong architecture or a missing required key is a configuration
/// error; head counts that are zero or do not divide (key/value heads into query
/// heads, query heads into the embedding width) are a shape error. Otherwise the
/// parameters are returned, the expert counts defaulting to 0 and the context
/// length to 4096.
pub fn resolve_gguf_params(md: &GgufMetadata, arch: &str) -> (r: Result<LlamaHyperParams, ModelError>)
    ensures
        !gguf_complete(*md, arch@) ==> r == Err::<LlamaHyperParams, ModelError>(ModelError::Config),
        gguf_complete(*md, arch@) && !gguf_shape_ok(*md) ==> r == Err::<LlamaHyperParams, ModelError>(ModelError::Shape),
        r is Ok <==> gguf_complete(*md, arch@) && gguf_shape_ok(*md),
        r matches Ok(p) ==> {
            &&& p.n_expert == match md.expert_count { Some(v) => v, None => 0 }
            &&& p.n_expert_used == match md.expert_used_count { Some(v) => v, None => 0 }
            &&& p.head_count == md.head_count->0
            &&& p.head_count_kv == md.head_count_kv->0
            &&& p.block_count == md.block_count->0
            &&& p.embedding_length == md.embedding_length->0
            &&& p.rope_dim == md.rope_dimension_count->0
            &&& p.max_seq_len == match md.context_length { Some(v) => v, None => 4096 }
            &&& p.head_count > 0 && p.head_count_kv > 0
            &&& p.head_count % p.head_count_kv == 0
            &&& p.head_dim == p.embedding_length / p.head_count
            &&& p.head_count * p.head_dim == p.embedding_length
        },
{
    let arch_ok = match &md.architecture {
        Some(a) => str_eq(a.as_str(), arch),
        None => false,
    };
    if !arch_ok {
        return Err(ModelError::Config);
    }
    let head_count = match md.head_count { Some(v) => v, None => return Err(ModelError::Config) };
    let head_count_kv = match md.head_count_kv { Some(v) => v, None => return Err(ModelError::Config) };
    let block_count = match md.block_count { Some(v) => v, None => return Err(ModelError::Config) };
    let embedding_length = match md.embedding_length { Some(v) => v, None => return Err(ModelError::Config) };
    let rope_dim = match md.rope_dimension_count { Some(v) => v, None => return Err(ModelError::Config) };
    if !md.has_rms_norm_eps {
        return Err(ModelError::Config);
    }
    if head_count == 0 || head_count_kv == 0 || head_count % head_count_kv != 0 || embedding_length % head_count != 0 {
        return Err(ModelError::Shape);
    }
    let head_dim = embedding_length / head_count;
    proof {
        vstd::arithmetic::div_mod::lemma_fundamental_div_mod(embedding_length as int, head_count as int);
        assert(head_count * head_dim == embedding_length) by (nonlinear_arith)
            requires
                embedding_length as int == head_count as int * (embedding_length as int / head_count as int) + embedding_length as int % head_count as int,
                embedding_length as int % head_count as int == 0,
                head_dim as int == embedding_length as int / head_count as int;
    }
    Ok(LlamaHyperParams {
        n_expert: match md.expert_count { Some(v) => v, None => 0 },
        n_expert_used: match md.expert_used_count { Some(v) => v, None => 0 },
        head_count,
        head_count_kv,
        block_count,
        embedding_length,
        rope_dim,
        max_seq_len: match md.context_length { Some(v) => v, None => 4096 },
        head_dim,
    })
}

/// The head geometry of a GGML checkpoint: the head width `n_embd / n_head` and
/// the key/value head count `n_head / gqa`. A head count or grouping factor of
/// zero, or a grouping factor that does not divide the head count, is a shape
/// error.
pub fn ggml_head_geometry(n_embd: u32, n_head: u32, gqa: usize) -> (r: Result<(usize, usize), ModelError>)
    ensures
        r is Ok <==> (n_head > 0 && gqa > 0 && n_head as nat % gqa as nat == 0),
        r matches Ok(g) ==> g.0 == n_embd / n_head && g.1 == n_head as nat / gqa as nat,
        r matches Err(e) ==> e == ModelError::Shape,
{
    if n_head == 0 || gqa == 0 {
        return Err(ModelError::Shape);
    }
    let heads = n_head as usize;
    if heads % gqa != 0 {
        return Err(ModelError::Shape);
    }
    Ok(((n_embd / n_head) as usize, heads / gqa))
}

} // verus!
