//! The errors that a request can end in, with their status and message.

use vstd::prelude::*;

verus! {

/// The status that stands for an unexpected failure.
pub const INTERNAL_SERVER_ERROR: u16 = 500;

/// The status of a request for something that is not there.
pub const NOT_FOUND: u16 = 404;

/// The status of a request that cannot be served as it stands.
pub const BAD_REQUEST: u16 = 400;

/// The status of a request that lacks valid credentials.
pub const UNAUTHORIZED: u16 = 401;

/// Why a request failed.
#[derive(Debug, Clone, PartialEq, Eq)]
pub enum ApiError {
    /// An unexpected failure.
    ServerError,
    /// No session has the identifier asked for.
    SocketNotFound,
    /// The session's driver has ended and nothing is left to read.
    SocketNotAlive,
    /// The session's driver no longer takes commands.
    SocketChannelSendError,
    /// The credentials presented do not match.
    BadAuthentication,
    /// No credentials were presented.
    NoAuthentication,
    /// The upstream connection could not be established.
    ConnectionError,
    /// A status and message handed through as they are.
    Raw(u16, String),
}

/// The error of `tokio_tungstenite::tungstenite`, which a failed attempt to
/// connect upstream ends in. Nothing is read from it.
#[verifier::external_type_specification]
#[verifier::external_body]
pub struct ExConnectError(tokio_tungstenite::tungstenite::Error);

/// The error of `tokio::sync::mpsc::Sender::send`: the queue is closed, and
/// the value comes back.
#[verifier::external_type_specification]
#[verifier::external_body]
#[verifier::reject_recursive_types(T)]
pub struct ExSendError<T>(tokio::sync::mpsc::error::SendError<T>);

impl From<tokio_tungstenite::tungstenite::Error> for ApiError {
    fn from(value: tokio_tungstenite::tungstenite::Error) -> (error: ApiError) {
        ApiError::ConnectionError
    }
}

impl vstd::std_specs::convert::FromSpecImpl<tokio_tungstenite::tungstenite::Error> for ApiError {
    open spec fn obeys_from_spec() -> bool {
        true
    }

    open spec fn from_spec(value: tokio_tungstenite::tungstenite::Error) -> ApiError {
        ApiError::ConnectionError
    }
}

impl<T> From<tokio::sync::mpsc::error::SendError<T>> for ApiError {
    fn from(value: tokio::sync::mpsc::error::SendError<T>) -> (error: ApiError) {
        ApiError::SocketChannelSendError
    }
}

impl<T> vstd::std_specs::convert::FromSpecImpl<tokio::sync::mpsc::error::SendError<T>> for ApiError {
    open spec fn obeys_from_spec() -> bool {
        true
    }

    open spec fn from_spec(value: tokio::sync::mpsc::error::SendError<T>) -> ApiError {
        ApiError::SocketChannelSendError
    }
}

/// Whether `code` lies in the range that `http::StatusCode` accepts.
pub open spec fn is_status(code: u16) -> bool {
    100 <= code <= 999
}

/// The number of the `http::StatusCode` for `code`. `StatusCode::from_u16`
/// accepts exactly the numbers from 100 to 999, and `StatusCode::as_u16` gives
/// back the number that the status was made from.
#[verifier::external_body]
fn checked_status(code: u16) -> (status: Option<u16>)
    ensures
        status == (if is_status(code) { Some(code) } else { None }),
{
    axum::http::StatusCode::from_u16(code).ok().map(|status| status.as_u16())
}

impl ApiError {
    /// The status that the error is answered with.
    pub open spec fn status(self) -> u16 {
        match self {
            ApiError::ServerError | ApiError::SocketChannelSendError => INTERNAL_SERVER_ERROR,
            ApiError::SocketNotFound => NOT_FOUND,
            ApiError::SocketNotAlive | ApiError::ConnectionError => BAD_REQUEST,
            ApiError::BadAuthentication | ApiError::NoAuthentication => UNAUTHORIZED,
            ApiError::Raw(code, _) => if is_status(code) { code } else { INTERNAL_SERVER_ERROR },
        }
    }

    /// The text that the error is answered with.
    pub open spec fn text(self) -> Seq<char> {
        match self {
            ApiError::ServerError => "Internal Server Error"@,
            ApiError::SocketNotFound => "Socket not found"@,
            ApiError::SocketNotAlive => "Socket not alive"@,
            ApiError::SocketChannelSendError => "Socket channel send failed"@,
            ApiError::BadAuthentication => "Authentication provided is not sufficient"@,
            ApiError::NoAuthentication => "No authentication was provided"@,
            ApiError::Raw(_, message) => message@,
            ApiError::ConnectionError => "WebSocket connection error"@,
        }
    }

    /// The HTTP status of the error. A raw status outside the valid range is
    /// answered as an internal server error.
    pub fn status_code(&self) -> (code: u16)
        ensures
            code == self.status(),
            is_status(code),
    {
        match self {
            ApiError::ServerError | ApiError::SocketChannelSendError => INTERNAL_SERVER_ERROR,
            ApiError::SocketNotFound => NOT_FOUND,
            ApiError::SocketNotAlive | ApiError::ConnectionError => BAD_REQUEST,
            ApiError::BadAuthentication | ApiError::NoAuthentication => UNAUTHORIZED,
            ApiError::Raw(status_code, _) => {
                match checked_status(*status_code) {
                    Some(code) => code,
                    None => INTERNAL_SERVER_ERROR,
                }
            },
        }
    }

    /// The message of the error, as the `error` field of the envelope shows it.
    pub fn message(&self) -> (message: String)
        ensures
            message@ == self.text(),
    {
        match self {
            ApiError::ServerError => "Internal Server Error".to_string(),
            ApiError::SocketNotFound => "Socket not found".to_string(),
            ApiError::SocketNotAlive => "Socket not alive".to_string(),
            ApiError::SocketChannelSendError => "Socket channel send failed".to_string(),
            ApiError::BadAuthentication => "Authentication provided is not sufficient".to_string(),
            ApiError::NoAuthentication => "No authentication was provided".to_string(),
            ApiError::Raw(_, message) => message.clone(),
            ApiError::ConnectionError => "WebSocket connection error".to_string(),
        }
    }
}

} // verus!
