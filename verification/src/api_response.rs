//! The payload of a successful response.

use vstd::prelude::*;

verus! {

/// What a handler answers on success; the caller wraps it in the envelope.
#[derive(Debug, Clone, PartialEq, Eq)]
pub struct ApiResponse<T>(pub T);

} // verus!
