use vstd::prelude::*;
use crate::pipeline::ModelKind;

verus! {

/// The architecture of a full-precision model.
#[derive(Debug, Clone, Copy, PartialEq, Eq, Structural)]
pub enum NormalLoaderType {
    Mistral,
    Gemma,
    Mixtral,
    Llama,
    Phi2,
    Phi3,
    Qwen2,
}

/// The model that a selection file picks.
pub enum TomlModelSelected {
    /// A plain model, without quantization or adapters.
    Plain { model_id: String, arch: NormalLoaderType },
    /// A model with X-LoRA adapters.
    XLora {
        model_id: Option<String>,
        xlora_model_id: String,
        order: String,
        tgt_non_granular_index: Option<usize>,
        arch: NormalLoaderType,
    },
    /// A model with LoRA adapters.
    Lora { model_id: Option<String>, adapters_model_id: String, order: String, arch: NormalLoaderType },
    /// A GGUF checkpoint.
    GGUF { tok_model_id: String, quantized_model_id: String, quantized_filename: String },
    /// A GGUF checkpoint with X-LoRA adapters.
    XLoraGGUF {
        tok_model_id: Option<String>,
        quantized_model_id: String,
        quantized_filename: String,
        xlora_model_id: String,
        order: String,
        tgt_non_granular_index: Option<usize>,
    },
    /// A GGUF checkpoint with LoRA adapters.
    LoraGGUF {
        tok_model_id: Option<String>,
        quantized_model_id: String,
        quantized_filename: String,
        adapters_model_id: String,
        order: String,
    },
    /// A GGML checkpoint.
    GGML { tok_model_id: String, quantized_model_id: String, quantized_filename: String, gqa: usize },
    /// A GGML checkpoint with X-LoRA adapters.
    XLoraGGML {
        tok_model_id: Option<String>,
        quantized_model_id: String,
        quantized_filename: String,
        xlora_model_id: String,
        order: String,
        tgt_non_granular_index: Option<usize>,
        gqa: usize,
    },
    /// A GGML checkpoint with LoRA adapters.
    LoraGGML {
        tok_model_id: Option<String>,
        quantized_model_id: String,
        quantized_filename: String,
        adapters_model_id: String,
        order: String,
        gqa: usize,
    },
}

/// A parsed model selection file.
pub struct TomlSelector {
    pub tokenizer_json: Option<String>,
    pub repeat_last_n: usize,
    pub model: TomlModelSelected,
}

/// The options of a selection that come from the command line.
pub struct TomlLoaderArgs {
    pub use_flash_attn: bool,
    pub chat_template: Option<String>,
    pub no_kv_cache: bool,
}

/// Which adapters a loader attaches.
pub enum AdapterChoice {
    NoAdapters,
    /// X-LoRA adapters from a repository, in the order of an ordering file.
    XLora { xlora_model_id: String, order: String, no_kv_cache: bool, tgt_non_granular_index: Option<usize> },
    /// LoRA adapters from a repository, in the order of an ordering file.
    Lora { adapters_model_id: String, order: String },
}

/// Where a loader's weights come from.
pub enum WeightSource {
    /// Full-precision weights of a known architecture.
    Normal { model_id: Option<String>, arch: NormalLoaderType, use_flash_attn: bool },
    /// A GGUF file.
    Gguf { tok_model_id: Option<String>, quantized_model_id: String, quantized_filename: String },
    /// A GGML file, with its grouped-query factor.
    Ggml { tok_model_id: Option<String>, quantized_model_id: String, quantized_filename: String, gqa: usize },
}

/// Everything needed to build the loader that a selection describes.
pub struct LoaderPlan {
    pub kind: ModelKind,
    pub weights: WeightSource,
    pub adapters: AdapterChoice,
    pub chat_template: Option<String>,
    pub tokenizer_json: Option<String>,
    pub repeat_last_n: usize,
}

/// The model kind that a selection builds.
pub open spec fn selected_kind(m: TomlModelSelected) -> ModelKind {
    match m {
        TomlModelSelected::Plain { .. } => ModelKind::Normal,
        TomlModelSelected::XLora { .. } => ModelKind::XLoraNormal,
        TomlModelSelected::Lora { .. } => ModelKind::LoraNormal,
        TomlModelSelected::GGUF { .. } => ModelKind::QuantizedGGUF,
        TomlModelSelected::XLoraGGUF { .. } => ModelKind::XLoraGGUF,
        TomlModelSelected::LoraGGUF { .. } => ModelKind::LoraGGUF,
        TomlModelSelected::GGML { .. } => ModelKind::QuantizedGGML,
        TomlModelSelected::XLoraGGML { .. } => ModelKind::XLoraGGML,
        TomlModelSelected::LoraGGML { .. } => ModelKind::LoraGGML,
    }
}

/// The weight source of a selection.
pub open spec fn selected_weights(m: TomlModelSelected, use_flash_attn: bool) -> WeightSource {
    match m {
        TomlModelSelected::Plain { model_id, arch } => WeightSource::Normal { model_id: Some(model_id), arch, use_flash_attn },
        TomlModelSelected::XLora { model_id, arch, .. } => WeightSource::Normal { model_id, arch, use_flash_attn },
        TomlModelSelected::Lora { model_id, arch, .. } => WeightSource::Normal { model_id, arch, use_flash_attn },
        TomlModelSelected::GGUF { tok_model_id, quantized_model_id, quantized_filename } =>
            WeightSource::Gguf { tok_model_id: Some(tok_model_id), quantized_model_id, quantized_filename },
        TomlModelSelected::XLoraGGUF { tok_model_id, quantized_model_id, quantized_filename, .. } =>
            WeightSource::Gguf { tok_model_id, quantized_model_id, quantized_filename },
        TomlModelSelected::LoraGGUF { tok_model_id, quantized_model_id, quantized_filename, .. } =>
            WeightSource::Gguf { tok_model_id, quantized_model_id, quantized_filename },
        TomlModelSelected::GGML { tok_model_id, quantized_model_id, quantized_filename, gqa } =>
            WeightSource::Ggml { tok_model_id: Some(tok_model_id), quantized_model_id, quantized_filename, gqa },
        TomlModelSelected::XLoraGGML { tok_model_id, quantized_model_id, quantized_filename, gqa, .. } =>
            WeightSource::Ggml { tok_model_id, quantized_model_id, quantized_filename, gqa },
        TomlModelSelected::LoraGGML { tok_model_id, quantized_model_id, quantized_filename, gqa, .. } =>
            WeightSource::Ggml { tok_model_id, quantized_model_id, quantized_filename, gqa },
    }
}

/// The adapters of a selection.
pub open spec fn selected_adapters(m: TomlModelSelected, no_kv_cache: bool) -> AdapterChoice {
    match m {
        TomlModelSelected::XLora { xlora_model_id, order, tgt_non_granular_index, .. } =>
            AdapterChoice::XLora { xlora_model_id, order, no_kv_cache, tgt_non_granular_index },
        TomlModelSelected::XLoraGGUF { xlora_model_id, order, tgt_non_granular_index, .. } =>
            AdapterChoice::XLora { xlora_model_id, order, no_kv_cache, tgt_non_granular_index },
        TomlModelSelected::XLoraGGML { xlora_model_id, order, tgt_non_granular_index, .. } =>
            AdapterChoice::XLora { xlora_model_id, order, no_kv_cache, tgt_non_granular_index },
        TomlModelSelected::Lora { adapters_model_id, order, .. } => AdapterChoice::Lora { adapters_model_id, order },
        TomlModelSelected::LoraGGUF { adapters_model_id, order, .. } => AdapterChoice::Lora { adapters_model_id, order },
        TomlModelSelected::LoraGGML { adapters_model_id, order, .. } => AdapterChoice::Lora { adapters_model_id, order },
        _ => AdapterChoice::NoAdapters,
    }
}

impl TomlSelector {
    /// Turns a selection and the command-line options into a loader plan: the model
    /// kind, where the weights come from, which adapters attach, and the shared
    /// options (the selection's tokenizer file and repetition window, the command
    /// line's chat template, flash-attention and cache switches).
    pub fn loader_plan(self, args: TomlLoaderArgs) -> (r: LoaderPlan)
        ensures
            r.kind == selected_kind(self.model),
            r.weights == selected_weights(self.model, args.use_flash_attn),
            r.adapters == selected_adapters(self.model, args.no_kv_cache),
            r.chat_template == args.chat_template,
            r.tokenizer_json == self.tokenizer_json,
            r.repeat_last_n == self.repeat_last_n,
    {
        let flash = args.use_flash_attn;
        let no_kv = args.no_kv_cache;
        let (kind, weights, adapters) = match self.model {
            TomlModelSelected::Plain { model_id, arch } => (
                ModelKind::Normal,
                WeightSource::Normal { model_id: Some(model_id), arch, use_flash_attn: flash },
                AdapterChoice::NoAdapters,
            ),
            TomlModelSelected::XLora { model_id, xlora_model_id, order, tgt_non_granular_index, arch } => (
                ModelKind::XLoraNormal,
                WeightSource::Normal { model_id, arch, use_flash_attn: flash },
                AdapterChoice::XLora { xlora_model_id, order, no_kv_cache: no_kv, tgt_non_granular_index },
            ),
            TomlModelSelected::Lora { model_id, adapters_model_id, order, arch } => (
                ModelKind::LoraNormal,
                WeightSource::Normal { model_id, arch, use_flash_attn: flash },
                AdapterChoice::Lora { adapters_model_id, order },
            ),
            TomlModelSelected::GGUF { tok_model_id, quantized_model_id, quantized_filename } => (
                ModelKind::QuantizedGGUF,
                WeightSource::Gguf { tok_model_id: Some(tok_model_id), quantized_model_id, quantized_filename },
                AdapterChoice::NoAdapters,
            ),
            TomlModelSelected::XLoraGGUF {
                tok_model_id,
                quantized_model_id,
                quantized_filename,
                xlora_model_id,
                order,
                tgt_non_granular_index,
            } => (
                ModelKind::XLoraGGUF,
                WeightSource::Gguf { tok_model_id, quantized_model_id, quantized_filename },
                AdapterChoice::XLora { xlora_model_id, order, no_kv_cache: no_kv, tgt_non_granular_index },
            ),
            TomlModelSelected::LoraGGUF { tok_model_id, quantized_model_id, quantized_filename, adapters_model_id, order } => (
                ModelKind::LoraGGUF,
                WeightSource::Gguf { tok_model_id, quantized_model_id, quantized_filename },
                AdapterChoice::Lora { adapters_model_id, order },
            ),
            TomlModelSelected::GGML { tok_model_id, quantized_model_id, quantized_filename, gqa } => (
                ModelKind::QuantizedGGML,
                WeightSource::Ggml { tok_model_id: Some(tok_model_id), quantized_model_id, quantized_filename, gqa },
                AdapterChoice::NoAdapters,
            ),
            TomlModelSelected::XLoraGGML {
                tok_model_id,
                quantized_model_id,
                quantized_filename,
                xlora_model_id,
                order,
                tgt_non_granular_index,
                gqa,
            } => (
                ModelKind::XLoraGGML,
                WeightSource::Ggml { tok_model_id, quantized_model_id, quantized_filename, gqa },
                AdapterChoice::XLora { xlora_model_id, order, no_kv_cache: no_kv, tgt_non_granular_index },
            ),
            TomlModelSelected::LoraGGML { tok_model_id, quantized_model_id, quantized_filename, adapters_model_id, order, gqa } => (
                ModelKind::LoraGGML,
                WeightSource::Ggml { tok_model_id, quantized_model_id, quantized_filename, gqa },
                AdapterChoice::Lora { adapters_model_id, order },
            ),
        };
        LoaderPlan {
            kind,
            weights,
            adapters,
            chat_template: args.chat_template,
            tokenizer_json: self.tokenizer_json,
            repeat_last_n: self.repeat_last_n,
        }
    }
}

} // verus!
