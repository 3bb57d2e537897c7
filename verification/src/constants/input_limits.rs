//! Input validation limits.

use vstd::prelude::*;

verus! {

/// Maximum input size in bytes (1MB).
/// Protects against memory exhaustion from extremely large inputs.
pub const MAX_INPUT_BYTES: usize = 1_048_576;

/// Maximum estimated tokens for input validation (200K tokens).
/// Protects against context window overflow.
pub const MAX_TOKENS_ESTIMATED: usize = 200_000;

} // verus!
