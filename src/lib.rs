pub mod error;
pub mod config;
pub mod kv_cache;
pub mod mask;
pub mod rotary;
pub mod sequence;
pub mod cache_store;
pub mod inputs;
pub mod logits;
pub mod moe;
pub mod device_map;
pub mod quantize;
pub mod lora;
pub mod step;
pub mod token_source;
pub mod pipeline;
pub mod adapters;
pub mod toml_selector;
pub mod names;
