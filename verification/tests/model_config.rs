use llm_tui::model_config::{ModelConfig, ModelSpec};

#[test]
fn default_stfuu_is_false() {
    let cfg = ModelConfig::default();
    assert!(!cfg.stfuu)
}

#[test]
fn api_model_name_matches() {
    let cfg = ModelConfig::default();
    assert_eq!(cfg.api_model_name(), "gemma-4-31b")
}

#[test]
fn default_spec_values() {
    let spec = ModelSpec::default();
    assert_eq!(spec.weights_file, "gemma-4-31B-it-Q4_K_M.gguf");
    assert_eq!(spec.quantization, "Q4_K_M");
    assert_eq!(spec.kv_cache_type, "q8_0");
    assert_eq!(spec.native_max_context, 262_144);
    assert_eq!(spec.gpu_layers, 99);
    assert_eq!(ModelConfig::default().context_window, 65536);
}

#[test]
fn remaining_tokens_saturates() {
    let cfg = ModelConfig::default();
    assert_eq!(cfg.remaining_tokens(1000), 64536);
    assert_eq!(cfg.remaining_tokens(65536), 0);
    assert_eq!(cfg.remaining_tokens(70000), 0);
}
