use vstd::prelude::*;
use vstd::string::*;
use crate::error::ModelError;
use crate::token_source::str_eq;

verus! {

/// The kind of model that a loader builds.
#[derive(Debug)]
pub enum ModelKind {
    Normal,
    XLoraNormal,
    XLoraGGUF,
    XLoraGGML,
    QuantizedGGUF,
    QuantizedGGML,
    LoraGGUF,
    LoraGGML,
    LoraNormal,
    Speculative { target: Box<ModelKind>, draft: Box<ModelKind> },
}

/// The description of a model kind.
pub open spec fn kind_text(k: ModelKind) -> Seq<char>
    decreases k,
{
    match k {
        ModelKind::Normal => "normal (no quant, no adapters)"@,
        ModelKind::QuantizedGGML => "quantized from ggml (no adapters)"@,
        ModelKind::QuantizedGGUF => "quantized from gguf (no adapters)"@,
        ModelKind::XLoraNormal => "x-lora (no quant)"@,
        ModelKind::XLoraGGML => "x-lora, quantized from ggml"@,
        ModelKind::XLoraGGUF => "x-lora, quantized from gguf"@,
        ModelKind::LoraGGUF => "lora, quantized from gguf"@,
        ModelKind::LoraGGML => "lora, quantized from ggml"@,
        ModelKind::LoraNormal => "lora (no quant)"@,
        ModelKind::Speculative { target, draft } =>
            "speculative: target: `"@ + kind_text(*target) + "`, draft: `"@ + kind_text(*draft) + "`"@,
    }
}

impl ModelKind {
    /// The kind that a model starts out as.
    pub fn default() -> (r: ModelKind)
        ensures
            r is Normal,
    {
        ModelKind::Normal
    }

    /// Describes the kind: its quantization and adapters, and for speculative
    /// decoding the kinds of both models.
    pub fn to_string(&self) -> (r: String)
        ensures
            r@ == kind_text(*self),
        decreases self,
    {
        match self {
            ModelKind::Normal => String::from_str("normal (no quant, no adapters)"),
            ModelKind::QuantizedGGML => String::from_str("quantized from ggml (no adapters)"),
            ModelKind::QuantizedGGUF => String::from_str("quantized from gguf (no adapters)"),
            ModelKind::XLoraNormal => String::from_str("x-lora (no quant)"),
            ModelKind::XLoraGGML => String::from_str("x-lora, quantized from ggml"),
            ModelKind::XLoraGGUF => String::from_str("x-lora, quantized from gguf"),
            ModelKind::LoraGGUF => String::from_str("lora, quantized from gguf"),
            ModelKind::LoraGGML => String::from_str("lora, quantized from ggml"),
            ModelKind::LoraNormal => String::from_str("lora (no quant)"),
            ModelKind::Speculative { target, draft } => {
                let t = target.to_string();
                let d = draft.to_string();
                let mut r = String::from_str("speculative: target: `");
                r.append(t.as_str());
                r.append("`, draft: `");
                r.append(d.as_str());
                r.append("`");
                r
            },
        }
    }
}

/// Facts about a loaded model that the scheduler and sampler need.
pub struct GeneralMetadata {
    pub max_seq_len: usize,
    pub repeat_last_n: usize,
    pub has_no_kv_cache: bool,
    pub is_xlora: bool,
    pub num_hidden_layers: usize,
    pub eos_tok: Vec<u32>,
}

impl GeneralMetadata {
    /// Whether `tok` ends a generation.
    pub fn is_eos(&self, tok: u32) -> (r: bool)
        ensures
            r == self.eos_tok@.contains(tok),
    {
        let mut i: usize = 0;
        while i < self.eos_tok.len()
            invariant
                i <= self.eos_tok@.len(),
                forall|j: int| 0 <= j < i ==> self.eos_tok@[j] != tok,
            decreases self.eos_tok@.len() - i,
        {
            if self.eos_tok[i] == tok {
                assert(self.eos_tok@[i as int] == tok);
                return true;
            }
            i += 1;
        }
        false
    }
}

/// Checks that an adapter ordering, the scaling classifier's configuration and the
/// base model agree on the base model id. The ordering may be absent.
pub fn check_adapter_base_ids(ordering_base: &Option<String>, config_base: &String, base_model_id: &String) -> (r: Result<(), ModelError>)
    ensures
        r is Ok <==> (config_base@ == base_model_id@ && match ordering_base {
            Some(o) => o@ == config_base@,
            None => true,
        }),
        r matches Err(e) ==> e == ModelError::Config,
{
    let ordering_ok = match ordering_base {
        Some(o) => str_eq(o.as_str(), config_base.as_str()),
        None => true,
    };
    if !ordering_ok || !str_eq(config_base.as_str(), base_model_id.as_str()) {
        return Err(ModelError::Config);
    }
    Ok(())
}

} // verus!
