//! The guard in front of the protected requests.

use vstd::prelude::*;
use crate::api_error::ApiError;
use crate::app_state::AppState;

verus! {

/// The witness that a request has passed the guard.
#[derive(Debug, Clone, Copy, PartialEq, Eq)]
pub struct Authentication;

/// The bytes of the configured token, if there is one.
pub open spec fn token_bytes(token: Option<String>) -> Option<Seq<u8>> {
    match token {
        Some(text) => Some(vstd::utf8::encode_utf8(text@)),
        None => None,
    }
}

/// Why a request with the value `header` of its `Authorization` header is
/// turned away where `token` is configured, or `None` where it passes.
///
/// Without a token every request passes. With one, a request without the
/// header carries no authentication; a header passes where its value equals
/// the token byte for byte, whatever the bytes are, and is insufficient
/// otherwise.
pub open spec fn refusal(token: Option<Seq<u8>>, header: Option<Seq<u8>>) -> Option<ApiError> {
    match token {
        None => None,
        Some(expected) => match header {
            None => Some(ApiError::NoAuthentication),
            Some(value) => if value == expected {
                None
            } else {
                Some(ApiError::BadAuthentication)
            },
        },
    }
}

/// Whether `left` and `right` hold the same bytes.
pub fn same_bytes(left: &[u8], right: &[u8]) -> (same: bool)
    ensures
        same == (left@ == right@),
{
    if left.len() != right.len() {
        return false;
    }
    let mut i: usize = 0;
    while i < left.len()
        invariant
            i <= left.len(),
            left.len() == right.len(),
            forall|j: int| 0 <= j < i ==> left@[j] == right@[j],
        decreases left.len() - i,
    {
        if left[i] != right[i] {
            return false;
        }
        i += 1;
    }
    assert(left@ =~= right@);
    true
}

impl Authentication {
    /// Passes or turns away a request by the value of its `Authorization`
    /// header, `None` where the request has no such header: see [`refusal`].
    pub fn from_request_parts(header: Option<&[u8]>, state: &AppState) -> (passed: Result<
        Authentication,
        ApiError,
    >)
        ensures
            passed == (match refusal(
                token_bytes(state.authentication),
                match header {
                    Some(value) => Some(value@),
                    None => None,
                },
            ) {
                Some(error) => Err::<Authentication, ApiError>(error),
                None => Ok(Authentication),
            }),
    {
        match &state.authentication {
            None => Ok(Authentication),
            Some(token) => match header {
                None => Err(ApiError::NoAuthentication),
                Some(value) => {
                    if same_bytes(value, token.as_str().as_bytes()) {
                        Ok(Authentication)
                    } else {
                        Err(ApiError::BadAuthentication)
                    }
                },
            },
        }
    }
}

/// With a token configured, a request that carries the header is never
/// answered as one without authentication: it passes exactly where the
/// header's bytes are the token's, and is insufficient otherwise.
pub proof fn lemma_header_is_compared_whole(token: Seq<u8>, header: Seq<u8>)
    ensures
        refusal(Some(token), Some(header)) == (if header == token {
            None::<ApiError>
        } else {
            Some(ApiError::BadAuthentication)
        }),
        refusal(Some(token), None) == Some(ApiError::NoAuthentication),
        refusal(None, Some(header)) is None,
        refusal(None, None) is None,
{
}

} // verus!
