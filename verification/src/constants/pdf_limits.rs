//! PDF processing limits.

use vstd::prelude::*;

verus! {

/// Maximum PDF file size in bytes (10MB).
/// Prevents denial of service by enormous PDF uploads.
pub const MAX_PDF_SIZE_BYTES: u64 = 10_485_760;

/// Maximum PDF extraction timeout in seconds (60s).
/// Prevents hanging on malformed or extremely complex PDFs.
pub const MAX_EXTRACTION_TIMEOUT_SECS: u64 = 60;

} // verus!
