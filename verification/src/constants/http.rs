//! HTTP client configuration.

use vstd::prelude::*;

verus! {

/// Connection pool idle timeout in seconds.
pub const POOL_IDLE_TIMEOUT_SECS: u64 = 90;

/// Maximum number of redirects to follow.
pub const MAX_REDIRECTS: usize = 10;

} // verus!
