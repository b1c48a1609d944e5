//! The language model's configuration: its API name, context window and
//! hardware/quantization spec.

use vstd::prelude::*;

verus! {

/// The model's weights and how they run.
pub struct ModelSpec {
    /// The weights file.
    pub weights_file: String,
    /// The weight quantization, such as "Q4_K_M".
    pub quantization: String,
    /// The KV cache quantization, such as "q8_0".
    pub kv_cache_type: String,
    /// The largest context the model supports (not the one in use).
    pub native_max_context: usize,
    /// The number of layers offloaded to the GPU.
    pub gpu_layers: usize,
}

/// The model in use.
pub struct ModelConfig {
    /// The model name sent with API requests (the server's `--alias`).
    pub name: String,
    /// The context window in use, in tokens.
    pub context_window: usize,
    /// The model's hardware and quantization spec.
    pub spec: ModelSpec,
    /// Terse-answer mode; off unless configured.
    pub stfuu: bool,
}

impl Default for ModelSpec {
    fn default() -> (s: Self)
        ensures
            s.weights_file@ == "gemma-4-31B-it-Q4_K_M.gguf"@,
            s.quantization@ == "Q4_K_M"@,
            s.kv_cache_type@ == "q8_0"@,
            s.native_max_context == 262_144,
            s.gpu_layers == 99,
    {
        ModelSpec {
            weights_file: "gemma-4-31B-it-Q4_K_M.gguf".to_owned(),
            quantization: "Q4_K_M".to_owned(),
            kv_cache_type: "q8_0".to_owned(),
            native_max_context: 262_144,
            gpu_layers: 99,
        }
    }
}

impl Default for ModelConfig {
    fn default() -> (c: Self)
        ensures
            c.name@ == "gemma-4-31b"@,
            c.context_window == 65536,
            c.spec.weights_file@ == "gemma-4-31B-it-Q4_K_M.gguf"@,
            c.spec.quantization@ == "Q4_K_M"@,
            c.spec.kv_cache_type@ == "q8_0"@,
            c.spec.native_max_context == 262_144,
            c.spec.gpu_layers == 99,
            !c.stfuu,
    {
        ModelConfig {
            name: "gemma-4-31b".to_owned(),
            context_window: 65536,
            spec: ModelSpec::default(),
            stfuu: false,
        }
    }
}

/// The tokens of a `window`-token context that `used` tokens leave free.
pub open spec fn tokens_left(window: nat, used: nat) -> nat {
    if used <= window {
        (window - used) as nat
    } else {
        0
    }
}

impl ModelConfig {
    /// The model name to send with API requests.
    pub fn api_model_name(&self) -> (s: &str)
        ensures
            s@ == self.name@,
    {
        self.name.as_str()
    }

    /// The tokens left in the context window after `used` tokens, or zero
    /// when `used` fills it.
    pub fn remaining_tokens(&self, used: usize) -> (r: usize)
        ensures
            r == if used <= self.context_window {
                (self.context_window - used) as usize
            } else {
                0
            },
            r as nat == tokens_left(self.context_window as nat, used as nat),
    {
        self.context_window.saturating_sub(used)
    }
}

/// What is used and what is left make up the whole window until it is
/// full, after which nothing is left; using more never leaves more.
pub proof fn law_tokens_left(window: nat, used: nat, more: nat)
    ensures
        used <= window ==> tokens_left(window, used) + used == window,
        used >= window ==> tokens_left(window, used) == 0,
        tokens_left(window, used + more) <= tokens_left(window, used),
        tokens_left(window, 0) == window,
{
}

} // verus!
