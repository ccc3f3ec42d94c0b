use mistralrs_core::rotary::{rope_windows, rotary_dim};
use mistralrs_core::lora::{scaling_column, AdapterLayer};
use mistralrs_core::adapters::{is_weights_file, match_adapter_files, str_contains, AdapterFile};
use mistralrs_core::config::{
    default_max_position_embeddings, default_one, default_repeat_last_n, ggml_head_geometry,
    resolve_gguf_params, GgufMetadata, HeadLayout,
};
use mistralrs_core::device_map::{DeviceMap, LayerRange};
use mistralrs_core::error::ModelError;
use mistralrs_core::moe::{route_rows, routing_plan, top_k_experts};
use mistralrs_core::pipeline::{check_adapter_base_ids, GeneralMetadata, ModelKind};
use mistralrs_core::quantize::{apply_in_situ, plan_in_situ, Projection, QuantDType, WeightFormat};
use mistralrs_core::step::xlora_forward_plan;
use mistralrs_core::token_source::TokenSource;
use mistralrs_core::toml_selector::{
    AdapterChoice, NormalLoaderType, TomlLoaderArgs, TomlModelSelected, TomlSelector, WeightSource,
};

/// The position of an `f32` in its total order, as an integer whose order is the same.
fn total_order_key(x: f32) -> i32 {
    let mut k = x.to_bits() as i32;
    k ^= (((k >> 31) as u32) >> 1) as i32;
    k
}

fn softmax(xs: &[f32]) -> Vec<f32> {
    let m = xs.iter().cloned().fold(f32::NEG_INFINITY, f32::max);
    let e: Vec<f32> = xs.iter().map(|x| (x - m).exp()).collect();
    let s: f32 = e.iter().sum();
    e.iter().map(|x| x / s).collect()
}

#[test]
fn defaults() {
    assert_eq!(default_repeat_last_n(), 64);
    assert_eq!(default_one(), 1);
    assert_eq!(default_max_position_embeddings(), 4096);
}

#[test]
fn head_layout_grouped_query() {
    let l = HeadLayout::new(4096, 32, Some(8), None).unwrap();
    assert_eq!(l.head_dim, 128);
    assert_eq!(l.num_kv_groups, 4);
    assert_eq!(l.q_dim, 4096);
    assert_eq!(l.kv_dim, 1024);
    assert_eq!(l.qkv_split(), (4096, 5120, 6144));
    let m = HeadLayout::new(2048, 16, None, None).unwrap();
    assert_eq!(m.num_kv_heads, 16);
    assert_eq!(m.num_kv_groups, 1);
    let g = HeadLayout::new(3072, 16, Some(16), Some(256)).unwrap();
    assert_eq!(g.q_dim, 4096);
}

#[test]
fn head_layout_rejects_bad_counts() {
    assert_eq!(HeadLayout::new(4096, 32, Some(5), None), Err(ModelError::Shape));
    assert_eq!(HeadLayout::new(4096, 0, None, None), Err(ModelError::Shape));
    assert_eq!(HeadLayout::new(4096, 32, Some(0), None), Err(ModelError::Shape));
    assert_eq!(HeadLayout::new(100, 32, None, None), Err(ModelError::Shape));
}

#[test]
fn top_two_routing() {
    let probs = softmax(&[2.0, 1.0, 0.1, -1.0]);
    assert!(probs[0] > probs[1] && probs[1] > probs[2] && probs[2] > probs[3]);
    let keys: Vec<i32> = probs.iter().map(|p| total_order_key(*p)).collect();
    let top = top_k_experts(&keys, 2);
    assert_eq!(top, vec![0, 1]);
    let sum = probs[0] + probs[1];
    assert!((probs[0] / sum - 0.731).abs() < 1e-3);
    assert!((probs[1] / sum - 0.269).abs() < 1e-3);
    let (choices, buckets) = routing_plan(&vec![keys], 2, 4);
    assert_eq!(choices, vec![vec![0, 1]]);
    assert_eq!(buckets, vec![vec![0], vec![0], vec![], vec![]]);
}

#[test]
fn top_k_ties_and_short_rows() {
    assert_eq!(top_k_experts(&vec![3, 7, 7, 1], 3), vec![1, 2, 0]);
    assert_eq!(top_k_experts(&vec![5], 2), vec![0]);
    assert_eq!(top_k_experts(&vec![-4, -2, -9], 2), vec![1, 0]);
}

#[test]
fn unrouted_expert_gets_empty_bucket() {
    let buckets = route_rows(&vec![vec![0, 2], vec![2, 0], vec![0, 1]], 4);
    assert_eq!(buckets, vec![vec![0, 1, 2], vec![2], vec![0, 1], vec![]]);
}

#[test]
fn in_situ_quantization_is_idempotent() {
    let mut projs = vec![
        Projection { layer: None, format: WeightFormat::Dense },
        Projection { layer: Some(0), format: WeightFormat::Dense },
        Projection { layer: Some(1), format: WeightFormat::Quantized(QuantDType::Q8_0) },
        Projection { layer: Some(1), format: WeightFormat::Dense },
    ];
    let map = DeviceMap::new(2, vec![LayerRange { device: 3, first: 1, last: 1 }]).unwrap();
    let jobs = plan_in_situ(&projs, &map, 0);
    let got: Vec<(usize, usize)> = jobs.iter().map(|j| (j.index, j.device)).collect();
    assert_eq!(got, vec![(0, 0), (1, 0), (3, 3)]);
    assert_eq!(apply_in_situ(&mut projs, QuantDType::Q4K), 3);
    let once = projs.clone();
    assert_eq!(apply_in_situ(&mut projs, QuantDType::Q4K), 0);
    assert_eq!(projs, once);
    assert_eq!(projs[2].format, WeightFormat::Quantized(QuantDType::Q8_0));
    assert!(plan_in_situ(&projs, &map, 0).is_empty());
}

#[test]
fn device_map_lookup_and_errors() {
    let map = DeviceMap::new(6, vec![
        LayerRange { device: 1, first: 0, last: 2 },
        LayerRange { device: 2, first: 3, last: 4 },
    ]).unwrap();
    assert_eq!(map.device_for(0), Some(1));
    assert_eq!(map.device_for(4), Some(2));
    assert_eq!(map.device_for(5), None);
    assert_eq!(map.device_or(5, 9), 9);
    assert!(DeviceMap::new(3, vec![LayerRange { device: 1, first: 0, last: 3 }]).is_err());
    assert!(DeviceMap::new(6, vec![
        LayerRange { device: 1, first: 0, last: 2 },
        LayerRange { device: 2, first: 2, last: 4 },
    ]).is_err());
}

fn md(arch: &str) -> GgufMetadata {
    GgufMetadata {
        architecture: Some(arch.to_string()),
        expert_count: Some(8),
        expert_used_count: Some(2),
        head_count: Some(32),
        head_count_kv: Some(8),
        block_count: Some(32),
        embedding_length: Some(4096),
        rope_dimension_count: Some(128),
        context_length: None,
        has_rms_norm_eps: true,
    }
}

#[test]
fn gguf_params_resolve() {
    let p = resolve_gguf_params(&md("llama"), "llama").unwrap();
    assert_eq!(p.head_dim, 128);
    assert_eq!(p.max_seq_len, 4096);
    assert!(p.is_moe());
    assert_eq!(resolve_gguf_params(&md("phi3"), "llama"), Err(ModelError::Config));
    let mut missing = md("llama");
    missing.block_count = None;
    assert_eq!(resolve_gguf_params(&missing, "llama"), Err(ModelError::Config));
    let mut zero = md("llama");
    zero.head_count = Some(0);
    assert_eq!(resolve_gguf_params(&zero, "llama"), Err(ModelError::Shape));
    let mut no_eps = md("llama");
    no_eps.has_rms_norm_eps = false;
    assert_eq!(resolve_gguf_params(&no_eps, "llama"), Err(ModelError::Config));
    let mut kv_zero = md("llama");
    kv_zero.head_count_kv = Some(0);
    assert_eq!(resolve_gguf_params(&kv_zero, "llama"), Err(ModelError::Shape));
    let mut kv_odd = md("llama");
    kv_odd.head_count_kv = Some(5);
    assert_eq!(resolve_gguf_params(&kv_odd, "llama"), Err(ModelError::Shape));
    let mut width = md("llama");
    width.embedding_length = Some(4100);
    assert_eq!(resolve_gguf_params(&width, "llama"), Err(ModelError::Shape));
}

#[test]
fn gguf_optional_keys_default() {
    let mut m = md("llama");
    m.expert_count = None;
    m.expert_used_count = None;
    m.context_length = None;
    let p = resolve_gguf_params(&m, "llama").unwrap();
    assert_eq!((p.n_expert, p.n_expert_used, p.max_seq_len), (0, 0, 4096));
    assert!(!p.is_moe());
    assert_eq!((p.head_count, p.head_count_kv, p.block_count, p.rope_dim), (32, 8, 32, 128));
    m.context_length = Some(32768);
    assert_eq!(resolve_gguf_params(&m, "llama").unwrap().max_seq_len, 32768);
}

#[test]
fn ggml_geometry() {
    assert_eq!(ggml_head_geometry(8192, 64, 8), Ok((128, 8)));
    assert_eq!(ggml_head_geometry(8192, 64, 0), Err(ModelError::Shape));
    assert_eq!(ggml_head_geometry(8192, 64, 7), Err(ModelError::Shape));
}

#[test]
fn token_source_parsing() {
    assert!(matches!(TokenSource::parse("literal:abc:def"), Ok(TokenSource::Literal(v)) if v == "abc:def"));
    assert!(matches!(TokenSource::parse("env"), Ok(TokenSource::EnvVar(v)) if v == "HUGGING_FACE_HUB_TOKEN"));
    assert!(matches!(TokenSource::parse("env:MY_TOKEN"), Ok(TokenSource::EnvVar(v)) if v == "MY_TOKEN"));
    assert!(matches!(TokenSource::parse("path:/tmp/tok"), Ok(TokenSource::Path(v)) if v == "/tmp/tok"));
    assert!(matches!(TokenSource::parse("cache"), Ok(TokenSource::CacheToken)));
    assert!(matches!(TokenSource::parse("none"), Ok(TokenSource::NoToken)));
    assert_eq!(TokenSource::parse("literal").unwrap_err(), "Expected a value for 'literal'");
    assert_eq!(TokenSource::parse("path").unwrap_err(), "Expected a value for 'path'");
    assert_eq!(TokenSource::parse("bogus").unwrap_err(), "Invalid token source format");
}

#[test]
fn token_source_text() {
    assert_eq!(TokenSource::Literal("x".to_string()).to_string(), "literal:x");
    assert_eq!(TokenSource::EnvVar("V".to_string()).to_string(), "env:V");
    assert_eq!(TokenSource::Path("p".to_string()).to_string(), "path:p");
    assert_eq!(TokenSource::CacheToken.to_string(), "cache");
    assert_eq!(TokenSource::NoToken.to_string(), "none");
}

#[test]
fn model_kind_text() {
    assert_eq!(ModelKind::default().to_string(), "normal (no quant, no adapters)");
    let k = ModelKind::Speculative {
        target: Box::new(ModelKind::XLoraGGUF),
        draft: Box::new(ModelKind::QuantizedGGML),
    };
    assert_eq!(
        k.to_string(),
        "speculative: target: `x-lora, quantized from gguf`, draft: `quantized from ggml (no adapters)`"
    );
}

#[test]
fn eos_lookup() {
    let m = GeneralMetadata {
        max_seq_len: 4096,
        repeat_last_n: 64,
        has_no_kv_cache: false,
        is_xlora: false,
        num_hidden_layers: 2,
        eos_tok: vec![2, 32000],
    };
    assert!(m.is_eos(32000));
    assert!(!m.is_eos(3));
}

#[test]
fn adapter_base_ids_must_agree() {
    let a = "base".to_string();
    let b = "other".to_string();
    assert_eq!(check_adapter_base_ids(&Some(a.clone()), &a, &a), Ok(()));
    assert_eq!(check_adapter_base_ids(&None, &a, &a), Ok(()));
    assert_eq!(check_adapter_base_ids(&Some(b.clone()), &a, &a), Err(ModelError::Config));
    assert_eq!(check_adapter_base_ids(&None, &a, &b), Err(ModelError::Config));
}

#[test]
fn adapter_files_sorted_by_ordering() {
    let listing: Vec<String> = vec![
        "README.md", "math/adapter_config.json", "code/adapter_model.safetensors",
        "math/adapter_model.safetensors", "code/adapter_config.json",
    ].into_iter().map(|s| s.to_string()).collect();
    let adapters: Vec<String> = vec!["math".to_string(), "code".to_string()];
    let plan = match_adapter_files(&listing, &adapters).unwrap();
    assert_eq!(plan, vec![
        AdapterFile { adapter: 0, file: 1, is_weights: false },
        AdapterFile { adapter: 0, file: 3, is_weights: true },
        AdapterFile { adapter: 1, file: 2, is_weights: true },
        AdapterFile { adapter: 1, file: 4, is_weights: false },
    ]);
    let missing = vec!["math".to_string(), "bio".to_string()];
    assert_eq!(match_adapter_files(&listing, &missing), Err(ModelError::Config));
    assert_eq!(match_adapter_files(&listing, &Vec::new()), Err(ModelError::Config));
}

#[test]
fn string_helpers() {
    assert!(str_contains("abcdef", "cde"));
    assert!(!str_contains("abc", "abcd"));
    assert!(str_contains("abc", ""));
    assert!(is_weights_file("x.safetensors"));
    assert!(!is_weights_file("x.json"));
}

#[test]
fn xlora_plan() {
    let p = xlora_forward_plan(true, true);
    assert!(p.scaling_pass && p.main_on_full_input && p.clear_main_cache);
    assert!(p.scaling_pass_snapshot && !p.main_pass_snapshot);
    let q = xlora_forward_plan(false, true);
    assert!(!q.scaling_pass && !q.main_on_full_input);
}

#[test]
fn toml_selection_to_plan() {
    let sel = TomlSelector {
        tokenizer_json: None,
        repeat_last_n: 64,
        model: TomlModelSelected::XLoraGGML {
            tok_model_id: Some("tok".to_string()),
            quantized_model_id: "q".to_string(),
            quantized_filename: "f.bin".to_string(),
            xlora_model_id: "x".to_string(),
            order: "order.json".to_string(),
            tgt_non_granular_index: Some(1),
            gqa: 8,
        },
    };
    let args = TomlLoaderArgs { use_flash_attn: false, chat_template: None, no_kv_cache: true };
    let plan = sel.loader_plan(args);
    assert_eq!(plan.kind.to_string(), "x-lora, quantized from ggml");
    assert!(matches!(plan.weights, WeightSource::Ggml { gqa: 8, .. }));
    assert!(matches!(plan.adapters, AdapterChoice::XLora { no_kv_cache: true, tgt_non_granular_index: Some(1), .. }));
    let plain = TomlSelector {
        tokenizer_json: None,
        repeat_last_n: 32,
        model: TomlModelSelected::Plain { model_id: "m".to_string(), arch: NormalLoaderType::Mistral },
    };
    let p = plain.loader_plan(TomlLoaderArgs { use_flash_attn: true, chat_template: None, no_kv_cache: false });
    assert!(matches!(p.weights, WeightSource::Normal { use_flash_attn: true, arch: NormalLoaderType::Mistral, .. }));
    assert!(matches!(p.adapters, AdapterChoice::NoAdapters));
    assert_eq!(p.repeat_last_n, 32);
}

#[test]
fn grouped_query_head_mapping() {
    let l = HeadLayout::new(4096, 32, Some(8), None).unwrap();
    assert_eq!(l.kv_head_of(0), 0);
    assert_eq!(l.kv_head_of(3), 0);
    assert_eq!(l.kv_head_of(4), 1);
    assert_eq!(l.kv_head_of(31), 7);
}

#[test]
fn rotary_table_windows() {
    assert_eq!(rope_windows(&vec![0, 3], 2, 8), Ok(vec![(0, 2), (3, 2)]));
    // the last position of a sequence of exactly the maximum length still fits
    assert_eq!(rope_windows(&vec![7], 1, 8), Ok(vec![(7, 1)]));
    assert_eq!(rope_windows(&vec![8], 1, 8), Err(ModelError::Shape));
    assert_eq!(rotary_dim(128, 1, 2), 64);
    assert_eq!(rotary_dim(80, 4, 10), 32);
    assert_eq!(rotary_dim(96, 1, 1), 96);
}

#[test]
fn adapter_merge_state() {
    let mut a = AdapterLayer::new(vec!["math".to_string(), "code".to_string()]);
    assert!(a.uses_adapters(true));
    assert!(!a.uses_adapters(false));
    assert_eq!(a.merge(), Ok(2));
    assert!(a.merged);
    assert!(a.adapters.is_empty());
    assert!(!a.uses_adapters(true));
    assert_eq!(a.merge(), Err(ModelError::State));
    assert!(a.merged && a.adapters.is_empty());
    assert_eq!(scaling_column(2, 1, 3, 4), 7);
}

#[test]
fn activation_transfers_between_devices() {
    let map = DeviceMap::new(5, vec![
        LayerRange { device: 1, first: 1, last: 2 },
        LayerRange { device: 2, first: 3, last: 3 },
    ]).unwrap();
    assert_eq!(map.transfers(0), vec![false, true, false, true, true]);
}

#[test]
fn checkpoint_names() {
    assert_eq!(mistralrs_core::names::layer_tensor_name(0, "attn_q"), "blk.0.attn_q.weight");
    assert_eq!(mistralrs_core::names::layer_tensor_name(31, "ffn_gate_inp"), "blk.31.ffn_gate_inp.weight");
    assert_eq!(mistralrs_core::names::layer_tensor_name(1207, "attn_output"), "blk.1207.attn_output.weight");
    assert_eq!(mistralrs_core::names::metadata_key("llama", "attention.head_count"), "llama.attention.head_count");
}
