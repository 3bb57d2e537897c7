//! Application constants and default values.
//!
//! Centralizes magic numbers and configuration defaults for maintainability.

pub mod http;
pub mod input_limits;
pub mod llm_defaults;
pub mod output_limits;
pub mod pdf_limits;
