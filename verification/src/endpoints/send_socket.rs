//! Sending a text through a session.

use vstd::prelude::*;
use crate::api_error::ApiError;
use crate::api_response::ApiResponse;
use crate::app_state::{position_of, AppState, SocketPacket, SocketPacketView};

verus! {

/// The body of a request to send.
#[derive(Debug, Clone, PartialEq, Eq)]
pub struct SocketSendBody {
    /// The text to send upstream.
    pub data: String,
}

/// The command that sends `body` through session `socket_id`, for the caller
/// to put on the session's queue, where that session is registered. The
/// answer to the request is what [`enqueued`] makes of the queue's reply.
pub fn send_socket(state: &AppState, socket_id: u128, body: SocketSendBody) -> (packet: Result<
    SocketPacket,
    ApiError,
>)
    ensures
        match position_of(state@, socket_id) {
            Some(_) => packet is Ok && packet->Ok_0@ == SocketPacketView::Message(body.data@),
            None => packet == Err::<SocketPacket, ApiError>(ApiError::SocketNotFound),
        },
{
    match state.find_index(socket_id) {
        Some(_) => Ok(SocketPacket::Message(body.data)),
        None => Err(ApiError::SocketNotFound),
    }
}

/// The answer to a request whose command was handed to a session's queue:
/// success where the queue took it, the send error where the queue is closed
/// because the driver has ended.
pub fn enqueued<T>(sent: Result<(), tokio::sync::mpsc::error::SendError<T>>) -> (answer: Result<
    ApiResponse<()>,
    ApiError,
>)
    ensures
        answer == (if sent is Ok {
            Ok::<ApiResponse<()>, ApiError>(ApiResponse(()))
        } else {
            Err(ApiError::SocketChannelSendError)
        }),
{
    match sent {
        Ok(_) => Ok(ApiResponse(())),
        Err(error) => Err(ApiError::from(error)),
    }
}

} // verus!
