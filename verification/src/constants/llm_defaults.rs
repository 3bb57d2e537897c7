//! LLM invocation defaults.

use vstd::prelude::*;

verus! {

/// Default maximum tokens for LLM response.
pub const DEFAULT_MAX_TOKENS: u32 = 4000;

/// Default timeout for LLM API calls in seconds.
pub const DEFAULT_TIMEOUT_SECS: u64 = 300;

} // verus!
