//! The guardrail evaluation engine.
//!
//! - `provider`: the result model shared by all detectors.
//! - `patterns`: the local, rule-based detector.
//! - `llama_guard`, `llama_prompt_guard`, `gpt_oss_safeguard`: the detectors
//!   that adapt remote classifiers.
//! - `hybrid`: the combinator over several detectors, with its laws in
//!   `hybrid_laws`.
//! - `input`, `output`: the guardrails of the two phases.
//! - `config`: the declarative configuration and the factory.

pub mod config;
pub mod gpt_oss_safeguard;
pub mod hybrid;
pub mod hybrid_laws;
pub mod input;
pub mod llama_guard;
pub mod llama_prompt_guard;
pub mod output;
pub mod patterns;
pub mod provider;

pub use config::{create_guardrail_provider, GuardrailConfig, GuardrailProviderConfig};
pub use gpt_oss_safeguard::{GptOssSafeguardConfig, GptOssSafeguardProvider};
pub use hybrid::{AggregationMode, ExecutionMode, GuardrailProvider, HybridGuardrail};
pub use input::{Decision, InputGuardrail, InputGuardrailConfig};
pub use llama_guard::{LlamaGuardCategory, LlamaGuardConfig, LlamaGuardProvider};
pub use llama_prompt_guard::{
    LlamaPromptGuardConfig, LlamaPromptGuardProvider, LlamaPromptGuardResult,
};
pub use output::{OutputGuardrail, OutputGuardrailConfig};
pub use patterns::{MatchRule, PatternDetector, PatternRule};
pub use provider::{
    ErrorKind, GptOssSafeguardResult, GuardrailError, GuardrailResult, LlamaGuardResult,
    ProviderSpecificResult, Severity, Violation,
};
