//! Guardrails for text that flows into and out of a language-model call.
//!
//! The crate screens text against configurable safety policies. Detectors
//! turn a text, or the reply of a remote classifier, into a normalized
//! result; a combinator merges the results of several detectors; a
//! guardrail turns a result into a decision to allow or to block. The crate
//! does no input or output of its own: what a remote classifier answered is
//! handed to it as a value.
//!
//! Beside the engine stand the small parts of the command-line client that
//! need no input or output either: the model registry, the response
//! envelope, the error codes and the limits.

pub mod constants;
pub mod error;
pub mod guardrails;
pub mod model_registry;
pub mod models;
pub mod output;
pub mod text;
