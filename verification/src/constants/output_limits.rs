//! Output validation limits.

use vstd::prelude::*;

verus! {

/// Maximum output size in bytes (500KB).
/// Protects against memory exhaustion from extremely large responses.
pub const MAX_OUTPUT_BYTES: usize = 512_000;

} // verus!
