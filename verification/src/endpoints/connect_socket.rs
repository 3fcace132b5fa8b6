//! Opening a session.

use vstd::prelude::*;
use crate::api_error::ApiError;
use crate::api_response::ApiResponse;
use crate::app_state::{
    is_random_id, lemma_inserted_is_found, position_of, AppState, Socket, SocketView,
};
use crate::driver::Driver;

verus! {

/// The body of a request to connect.
#[derive(Debug, Clone, PartialEq, Eq)]
pub struct SocketConnectBody {
    /// The upstream address to connect to.
    pub url: String,
}

/// The result of a request to connect.
#[derive(Debug, Clone, Copy, PartialEq, Eq)]
pub struct ConnectSocketResponse {
    /// The identifier of the new session.
    pub socket_id: u128,
}

/// The session that a connection made at `now` starts as, under `socket_id`.
pub open spec fn opened(socket_id: u128, now: u64) -> SocketView {
    SocketView { id: socket_id, ready: false, alive: true, messages: Seq::empty(), last_poll: now }
}

/// Registers a session for an upstream connection that the caller tried to
/// open, and starts its driver.
///
/// Where the attempt failed nothing is registered and the connection error
/// comes back. Where it succeeded a live session with a fresh identifier and
/// an empty buffer stands behind the sessions already there, where a lookup
/// of its identifier finds a session at once (the new one, unless an older
/// session holds the same identifier), and the driver that comes back is
/// running for it.
pub fn create_socket(
    state: &mut AppState,
    connected: Result<(), tokio_tungstenite::tungstenite::Error>,
    now: u64,
) -> (driver: Result<Driver, ApiError>)
    ensures
        final(state).authentication == old(state).authentication,
        match connected {
            Err(_) => driver == Err::<Driver, ApiError>(ApiError::ConnectionError) && final(state)@
                == old(state)@,
            Ok(_) => {
                &&& driver is Ok
                &&& is_random_id(driver->Ok_0.socket_id)
                &&& driver->Ok_0 == Driver::started(driver->Ok_0.socket_id, now)
                &&& final(state)@ == old(state)@.push(opened(driver->Ok_0.socket_id, now))
                &&& position_of(final(state)@, driver->Ok_0.socket_id) is Some
                &&& position_of(old(state)@, driver->Ok_0.socket_id) is None ==> position_of(
                    final(state)@,
                    driver->Ok_0.socket_id,
                ) == Some(old(state)@.len() as int)
            },
        },
{
    match connected {
        Err(error) => Err(ApiError::from(error)),
        Ok(_) => {
            let socket = Socket::new(now);
            let driver = Driver::new(socket.id, now);
            proof {
                lemma_inserted_is_found(state@, socket@);
            }
            state.insert(socket);
            Ok(driver)
        },
    }
}

/// Answers a request to connect: as [`create_socket`], with the identifier of
/// the new session for the client beside its driver.
pub fn connect_socket(
    state: &mut AppState,
    connected: Result<(), tokio_tungstenite::tungstenite::Error>,
    now: u64,
) -> (answer: Result<(ApiResponse<ConnectSocketResponse>, Driver), ApiError>)
    ensures
        final(state).authentication == old(state).authentication,
        match connected {
            Err(_) => answer == Err::<(ApiResponse<ConnectSocketResponse>, Driver), ApiError>(
                ApiError::ConnectionError,
            ) && final(state)@ == old(state)@,
            Ok(_) => {
                &&& answer is Ok
                &&& is_random_id(answer->Ok_0.1.socket_id)
                &&& answer->Ok_0.0 == ApiResponse(
                    ConnectSocketResponse { socket_id: answer->Ok_0.1.socket_id },
                )
                &&& answer->Ok_0.1 == Driver::started(answer->Ok_0.1.socket_id, now)
                &&& final(state)@ == old(state)@.push(opened(answer->Ok_0.1.socket_id, now))
                &&& position_of(final(state)@, answer->Ok_0.1.socket_id) is Some
                &&& position_of(old(state)@, answer->Ok_0.1.socket_id) is None ==> position_of(
                    final(state)@,
                    answer->Ok_0.1.socket_id,
                ) == Some(old(state)@.len() as int)
            },
        },
{
    match create_socket(state, connected, now) {
        Err(error) => Err(error),
        Ok(driver) => Ok((ApiResponse(ConnectSocketResponse { socket_id: driver.socket_id }), driver)),
    }
}

} // verus!
