//! Closing a session.

use vstd::prelude::*;
use crate::api_error::ApiError;
use crate::app_state::{position_of, text_of, AppState, SocketPacket, SocketPacketView};

verus! {

/// The body of a request to close; both fields may be left out.
#[derive(Debug, Clone, PartialEq, Eq)]
pub struct SocketSendBody {
    /// The close code.
    pub code: Option<u16>,
    /// The close reason; the driver drops it where no code comes with it.
    pub reason: Option<String>,
}

/// The command that closes session `socket_id` as `body` asks, for the
/// caller to put on the session's queue, where that session is registered.
/// The answer to the request is what `enqueued` makes of the queue's reply.
pub fn close_socket(state: &AppState, socket_id: u128, body: SocketSendBody) -> (packet: Result<
    SocketPacket,
    ApiError,
>)
    ensures
        match position_of(state@, socket_id) {
            Some(_) => packet is Ok && packet->Ok_0@ == SocketPacketView::Close(
                body.code,
                text_of(body.reason),
            ),
            None => packet == Err::<SocketPacket, ApiError>(ApiError::SocketNotFound),
        },
{
    match state.find_index(socket_id) {
        Some(_) => Ok(SocketPacket::Close(body.code, body.reason)),
        None => Err(ApiError::SocketNotFound),
    }
}

} // verus!
