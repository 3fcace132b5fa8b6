use roblox_websocket_proxy::api_error::ApiError;
use roblox_websocket_proxy::api_response::ApiResponse;
use roblox_websocket_proxy::app_state::{AppState, Frame, Socket, SocketPacket};
use roblox_websocket_proxy::config::{
    CLOSED_CONNECTION_EXPIRY, CONNECTION_POLL_TIMEOUT, CONNECTION_TIMEOUT, KEEP_ALIVE,
    MAX_BATCH_DURATION,
};
use roblox_websocket_proxy::driver::{
    close_frame, drive, step, time_since, CloseFrame, Driver, DriverAction, DriverEvent,
    DriverPhase,
};
use roblox_websocket_proxy::endpoints::close_socket::{close_socket, SocketSendBody as CloseBody};
use roblox_websocket_proxy::endpoints::connect_socket::{
    connect_socket, create_socket, ConnectSocketResponse,
};
use roblox_websocket_proxy::endpoints::get_socket::{
    batch_delay, convert_all, convert_message, drain, get_socket, proceed, resume, ReadPlan,
    SocketMessage, SocketQuery,
};
use roblox_websocket_proxy::endpoints::send_socket::{enqueued, send_socket, SocketSendBody};
use tokio_tungstenite::tungstenite::Error as ConnectError;

const SHORT: SocketQuery = SocketQuery { long: false, batch_ms: None };
const LONG: SocketQuery = SocketQuery { long: true, batch_ms: None };

fn connected(state: &mut AppState, now: u64) -> Driver {
    create_socket(state, Ok(()), now).unwrap()
}

fn content(text: &str) -> SocketMessage {
    SocketMessage::Content { content: text.to_string() }
}

#[test]
fn connect_then_immediate_short_read_is_empty() {
    let mut state = AppState::new(None);
    let (response, driver) = connect_socket(&mut state, Ok(()), 100).unwrap();
    let id = response.0.socket_id;
    assert_eq!(driver.socket_id, id);
    assert_eq!(get_socket(&mut state, id, SHORT, 100), Ok(ReadPlan::Drain));
    assert_eq!(drain(&mut state, id), Ok(vec![]));
    assert!(state.find_socket(id).unwrap().alive);
}

#[test]
fn long_poll_with_arrival_yields_the_echo() {
    let mut state = AppState::new(None);
    let mut driver = connected(&mut state, 0);
    let id = driver.socket_id;
    let query = SocketQuery { long: true, batch_ms: Some(100) };
    assert_eq!(get_socket(&mut state, id, query, 10), Ok(ReadPlan::Wait(20_000)));

    let packet = send_socket(&state, id, SocketSendBody { data: "hi".to_string() }).unwrap();
    let action = drive(&mut state, &mut driver, DriverEvent::Packet(Some(packet)), 20);
    assert_eq!(action, DriverAction::Send("hi".to_string()));
    let echo = DriverEvent::Upstream(Some(Frame::Text("hi".to_string())));
    assert_eq!(drive(&mut state, &mut driver, echo, 30), DriverAction::Notify);

    assert_eq!(resume(query, true), ReadPlan::Dwell(100));
    assert_eq!(drain(&mut state, id), Ok(vec![content("hi")]));
    assert_eq!(drain(&mut state, id), Ok(vec![]));
}

#[test]
fn long_poll_timeout_is_empty_and_keeps_the_session() {
    let mut state = AppState::new(None);
    let driver = connected(&mut state, 0);
    let id = driver.socket_id;
    assert_eq!(get_socket(&mut state, id, LONG, 0), Ok(ReadPlan::Wait(KEEP_ALIVE)));
    assert_eq!(resume(LONG, false), ReadPlan::Empty);
    let socket = state.find_socket(id).unwrap();
    assert!(socket.alive);
    assert!(!socket.ready);
    assert_eq!(socket.last_poll, 0);
}

#[test]
fn graceful_close_with_code_and_reason() {
    let mut state = AppState::new(None);
    let mut driver = connected(&mut state, 0);
    let id = driver.socket_id;
    let body = CloseBody { code: Some(1000), reason: Some("bye".to_string()) };
    let packet = close_socket(&state, id, body).unwrap();
    assert_eq!(packet, SocketPacket::Close(Some(1000), Some("bye".to_string())));
    let action = drive(&mut state, &mut driver, DriverEvent::Packet(Some(packet)), 1_000);
    let payload = CloseFrame { code: 1000, reason: "bye".to_string() };
    assert_eq!(action, DriverAction::Close(Some(payload)));
    assert_eq!(driver.phase, DriverPhase::Running);

    let text = DriverEvent::Upstream(Some(Frame::Text("last".to_string())));
    assert_eq!(drive(&mut state, &mut driver, text, 1_100), DriverAction::Notify);
    let close = DriverEvent::Upstream(Some(Frame::Close(Some("bye".to_string()))));
    assert_eq!(drive(&mut state, &mut driver, close, 1_200), DriverAction::Notify);
    let ended = drive(&mut state, &mut driver, DriverEvent::Upstream(None), 1_300);
    assert_eq!(ended, DriverAction::Retire(15_000));
    assert_eq!(driver.phase, DriverPhase::Retained);
    assert_eq!(driver.closed_at, 1_300);
    assert!(!state.find_socket(id).unwrap().alive);

    assert_eq!(get_socket(&mut state, id, LONG, 2_000), Ok(ReadPlan::Drain));
    let read = drain(&mut state, id).unwrap();
    assert_eq!(
        read,
        vec![content("last"), SocketMessage::Close { reason: Some("bye".to_string()) }]
    );
    assert_eq!(get_socket(&mut state, id, LONG, 2_100), Err(ApiError::SocketNotAlive));

    let early = drive(&mut state, &mut driver, DriverEvent::Expired, 16_299);
    assert_eq!(early, DriverAction::Sleep(1));
    assert!(state.find_socket(id).is_some());
    let due = drive(&mut state, &mut driver, DriverEvent::Expired, 16_300);
    assert_eq!(due, DriverAction::Done);
    assert_eq!(driver.phase, DriverPhase::Removed);
    assert!(state.find_socket(id).is_none());
    assert_eq!(get_socket(&mut state, id, LONG, 16_400), Err(ApiError::SocketNotFound));
    assert_eq!(drain(&mut state, id), Err(ApiError::SocketNotFound));
}

#[test]
fn close_reason_without_code_is_dropped() {
    let mut state = AppState::new(None);
    let mut driver = connected(&mut state, 0);
    let id = driver.socket_id;
    let body = CloseBody { code: None, reason: Some("x".to_string()) };
    let packet = close_socket(&state, id, body).unwrap();
    let action = drive(&mut state, &mut driver, DriverEvent::Packet(Some(packet)), 5);
    assert_eq!(action, DriverAction::Close(None));

    let close = DriverEvent::Upstream(Some(Frame::Close(None)));
    assert_eq!(drive(&mut state, &mut driver, close, 6), DriverAction::Notify);
    assert_eq!(drain(&mut state, id), Ok(vec![SocketMessage::Close { reason: None }]));
}

#[test]
fn close_payload_takes_the_reason_only_with_a_code() {
    assert_eq!(close_frame(None, None), None);
    assert_eq!(close_frame(None, Some("x".to_string())), None);
    assert_eq!(
        close_frame(Some(1001), None),
        Some(CloseFrame { code: 1001, reason: String::new() })
    );
    assert_eq!(
        close_frame(Some(4000), Some("gone".to_string())),
        Some(CloseFrame { code: 4000, reason: "gone".to_string() })
    );
}

#[test]
fn closing_twice_never_fails_but_by_the_send_error() {
    let mut state = AppState::new(None);
    let mut driver = connected(&mut state, 0);
    let id = driver.socket_id;
    let first = close_socket(&state, id, CloseBody { code: None, reason: None }).unwrap();
    assert_eq!(enqueued::<SocketPacket>(Ok(())), Ok(ApiResponse(())));
    assert_eq!(
        drive(&mut state, &mut driver, DriverEvent::Packet(Some(first)), 1),
        DriverAction::Close(None)
    );
    drive(&mut state, &mut driver, DriverEvent::Upstream(None), 2);

    let second = close_socket(&state, id, CloseBody { code: None, reason: None }).unwrap();
    assert_eq!(second, SocketPacket::Close(None, None));
    let refused = tokio::sync::mpsc::error::SendError(second);
    assert_eq!(enqueued(Err(refused)), Err(ApiError::SocketChannelSendError));
}

#[test]
fn send_and_close_need_a_registered_session() {
    let state = AppState::new(None);
    let body = SocketSendBody { data: "hi".to_string() };
    assert_eq!(send_socket(&state, 7, body), Err(ApiError::SocketNotFound));
    let body = CloseBody { code: Some(1000), reason: None };
    assert_eq!(close_socket(&state, 7, body), Err(ApiError::SocketNotFound));
}

#[test]
fn failed_connection_registers_nothing() {
    let mut state = AppState::new(None);
    let answer = connect_socket(&mut state, Err(ConnectError::ConnectionClosed), 0);
    assert_eq!(answer, Err(ApiError::ConnectionError));
    assert!(state.sockets.is_empty());
    let driver = create_socket(&mut state, Err(ConnectError::AlreadyClosed), 0);
    assert_eq!(driver, Err(ApiError::ConnectionError));
    assert!(state.sockets.is_empty());
}

#[test]
fn connection_registers_a_live_session_behind_the_others() {
    let mut state = AppState::new(Some("tok".to_string()));
    let first = connected(&mut state, 5);
    let (response, second) = connect_socket(&mut state, Ok(()), 9).unwrap();
    assert_eq!(response, ApiResponse(ConnectSocketResponse { socket_id: second.socket_id }));
    assert_ne!(first.socket_id, second.socket_id);
    assert_eq!(state.sockets.len(), 2);
    assert_eq!(state.sockets[0].id, first.socket_id);
    assert_eq!(state.sockets[1].id, second.socket_id);
    let socket = &state.sockets[1];
    assert!(socket.alive);
    assert!(!socket.ready);
    assert!(socket.messages.is_empty());
    assert_eq!(socket.last_poll, 9);
    assert_eq!(second.phase, DriverPhase::Running);
    assert_eq!(second.last_ping, 9);
    assert_eq!(state.authentication, Some("tok".to_string()));
}

#[test]
fn fresh_identifiers_are_random_version_four() {
    let a = Socket::new(0);
    let b = Socket::new(0);
    assert_ne!(a.id, b.id);
    for id in [a.id, b.id] {
        assert_eq!((id >> 76) & 0xF, 4);
        assert_eq!((id >> 62) & 0x3, 2);
        assert_eq!(uuid::Uuid::from_u128(id).get_version_num(), 4);
    }
}

#[test]
fn registry_finds_the_first_and_removes_all() {
    let mut state = AppState::new(None);
    for (id, at) in [(1u128, 10u64), (2, 20), (1, 30), (3, 40)] {
        let mut socket = Socket::new(at);
        socket.id = id;
        state.insert(socket);
    }
    assert_eq!(state.find_index(1), Some(0));
    assert_eq!(state.find_index(3), Some(3));
    assert_eq!(state.find_index(4), None);
    assert_eq!(state.find_socket(1).unwrap().last_poll, 10);
    assert!(state.find_socket(9).is_none());

    state.remove(9);
    assert_eq!(state.sockets.len(), 4);
    state.remove(1);
    let left: Vec<(u128, u64)> = state.sockets.iter().map(|s| (s.id, s.last_poll)).collect();
    assert_eq!(left, vec![(2, 20), (3, 40)]);
    state.remove(1);
    assert_eq!(state.sockets.len(), 2);
}

#[test]
fn batch_delay_is_capped() {
    assert_eq!(batch_delay(0), 0);
    assert_eq!(batch_delay(100), 100);
    assert_eq!(batch_delay(4_999), 4_999);
    assert_eq!(batch_delay(5_000), 5_000);
    assert_eq!(batch_delay(5_001), 5_000);
    assert_eq!(batch_delay(u32::MAX), MAX_BATCH_DURATION);
}

#[test]
fn read_plans() {
    let mut state = AppState::new(None);
    let mut driver = connected(&mut state, 0);
    let id = driver.socket_id;
    let batched = SocketQuery { long: true, batch_ms: Some(9_000) };
    let short_batched = SocketQuery { long: false, batch_ms: Some(9_000) };

    assert_eq!(get_socket(&mut state, id, short_batched, 1), Ok(ReadPlan::Drain));
    assert_eq!(get_socket(&mut state, id, batched, 2), Ok(ReadPlan::Wait(20_000)));
    assert_eq!(state.find_socket(id).unwrap().last_poll, 2);
    assert_eq!(resume(batched, true), ReadPlan::Dwell(5_000));
    assert_eq!(resume(batched, false), ReadPlan::Empty);
    assert_eq!(resume(LONG, true), ReadPlan::Drain);

    let frame = DriverEvent::Upstream(Some(Frame::Other));
    assert_eq!(drive(&mut state, &mut driver, frame, 3), DriverAction::Notify);
    assert!(state.find_socket(id).unwrap().ready);
    assert_eq!(get_socket(&mut state, id, batched, 4), Ok(ReadPlan::Dwell(5_000)));
    assert_eq!(get_socket(&mut state, id, LONG, 5), Ok(ReadPlan::Drain));
    assert_eq!(get_socket(&mut state, id, SHORT, 6), Ok(ReadPlan::Drain));
    assert_eq!(get_socket(&mut state, id + 1, SHORT, 7), Err(ApiError::SocketNotFound));
    assert_eq!(state.find_socket(id).unwrap().last_poll, 6);
}

#[test]
fn read_of_a_dead_session() {
    let mut state = AppState::new(None);
    let mut driver = connected(&mut state, 0);
    let id = driver.socket_id;
    let frame = DriverEvent::Upstream(Some(Frame::Text("a".to_string())));
    drive(&mut state, &mut driver, frame, 1);
    drive(&mut state, &mut driver, DriverEvent::Upstream(None), 2);

    assert_eq!(get_socket(&mut state, id, SHORT, 3), Ok(ReadPlan::Drain));
    assert_eq!(drain(&mut state, id), Ok(vec![content("a")]));
    assert_eq!(get_socket(&mut state, id, SHORT, 4), Err(ApiError::SocketNotAlive));
    assert_eq!(state.find_socket(id).unwrap().last_poll, 3);
}

#[test]
fn drain_shows_text_and_close_in_order_and_clears_the_flag() {
    let mut state = AppState::new(None);
    let mut driver = connected(&mut state, 0);
    let id = driver.socket_id;
    let frames = vec![
        Frame::Text("one".to_string()),
        Frame::Other,
        Frame::Text("two".to_string()),
        Frame::Close(Some(String::new())),
        Frame::Other,
        Frame::Text("three".to_string()),
    ];
    for (i, frame) in frames.iter().enumerate() {
        let event = DriverEvent::Upstream(Some(frame.clone()));
        assert_eq!(drive(&mut state, &mut driver, event, i as u64), DriverAction::Notify);
    }
    assert_eq!(state.find_socket(id).unwrap().messages, frames);
    assert_eq!(driver.last_ping, 5);

    let shown = vec![
        content("one"),
        content("two"),
        SocketMessage::Close { reason: Some(String::new()) },
        content("three"),
    ];
    assert_eq!(convert_all(frames), shown);
    assert_eq!(drain(&mut state, id), Ok(shown));
    let socket = state.find_socket(id).unwrap();
    assert!(!socket.ready);
    assert!(socket.messages.is_empty());
    assert_eq!(drain(&mut state, id), Ok(vec![]));
    assert_eq!(drain(&mut state, id), Ok(vec![]));
}

#[test]
fn frames_are_shown_by_kind() {
    assert_eq!(convert_message(Frame::Text("t".to_string())), Some(content("t")));
    assert_eq!(
        convert_message(Frame::Close(Some("r".to_string()))),
        Some(SocketMessage::Close { reason: Some("r".to_string()) })
    );
    assert_eq!(convert_message(Frame::Close(None)), Some(SocketMessage::Close { reason: None }));
    assert_eq!(convert_message(Frame::Other), None);
    assert_eq!(convert_all(vec![]), vec![]);
}

#[test]
fn heartbeat_closes_an_unread_session() {
    let mut state = AppState::new(None);
    let mut driver = connected(&mut state, 1_000);
    let id = driver.socket_id;
    let frame = DriverEvent::Upstream(Some(Frame::Other));
    drive(&mut state, &mut driver, frame, 30_000);

    let at_limit = 1_000 + CONNECTION_POLL_TIMEOUT;
    assert_eq!(
        drive(&mut state, &mut driver, DriverEvent::Heartbeat, at_limit),
        DriverAction::Continue
    );
    assert_eq!(
        drive(&mut state, &mut driver, DriverEvent::Heartbeat, at_limit + 1),
        DriverAction::Close(None)
    );
    assert_eq!(driver.phase, DriverPhase::Running);
    assert!(state.find_socket(id).unwrap().alive);

    assert_eq!(get_socket(&mut state, id, SHORT, at_limit + 2), Ok(ReadPlan::Drain));
    assert_eq!(
        drive(&mut state, &mut driver, DriverEvent::Heartbeat, at_limit + 3),
        DriverAction::Continue
    );
}

#[test]
fn heartbeat_closes_a_silent_upstream() {
    let mut socket = Socket::new(0);
    let mut driver = Driver::new(socket.id, 0);
    socket.last_poll = 50_000;
    assert_eq!(
        step(&mut socket, &mut driver, DriverEvent::Heartbeat, CONNECTION_TIMEOUT),
        DriverAction::Continue
    );
    assert_eq!(
        step(&mut socket, &mut driver, DriverEvent::Heartbeat, CONNECTION_TIMEOUT + 1),
        DriverAction::Close(None)
    );
    let frame = DriverEvent::Upstream(Some(Frame::Other));
    assert_eq!(step(&mut socket, &mut driver, frame, 55_002), DriverAction::Notify);
    assert_eq!(driver.last_ping, 55_002);
    assert_eq!(
        step(&mut socket, &mut driver, DriverEvent::Heartbeat, 55_003),
        DriverAction::Continue
    );
}

#[test]
fn elapsed_time_is_zero_for_a_clock_behind() {
    assert_eq!(time_since(10, 4), 6);
    assert_eq!(time_since(4, 4), 0);
    assert_eq!(time_since(4, 10), 0);
    assert_eq!(time_since(u64::MAX, 0), u64::MAX);
}

#[test]
fn running_driver_ignores_a_closed_queue_and_a_stray_expiry() {
    let mut socket = Socket::new(0);
    let mut driver = Driver::new(socket.id, 0);
    assert_eq!(
        step(&mut socket, &mut driver, DriverEvent::Packet(None), 1),
        DriverAction::Continue
    );
    assert_eq!(step(&mut socket, &mut driver, DriverEvent::Expired, 1), DriverAction::Continue);
    assert_eq!(driver, Driver::new(socket.id, 0));
    assert!(socket.alive);
    assert!(socket.messages.is_empty());
}

#[test]
fn session_retires_once_and_is_removed_once() {
    let mut state = AppState::new(None);
    let mut driver = connected(&mut state, 0);
    let other = connected(&mut state, 0);
    let id = driver.socket_id;

    assert_eq!(
        drive(&mut state, &mut driver, DriverEvent::Upstream(None), 100),
        DriverAction::Retire(CLOSED_CONNECTION_EXPIRY)
    );
    // A retired driver answers nothing but the end of its sleep.
    for event in [
        DriverEvent::Heartbeat,
        DriverEvent::Upstream(None),
        DriverEvent::Upstream(Some(Frame::Text("late".to_string()))),
        DriverEvent::Packet(Some(SocketPacket::Message("late".to_string()))),
    ] {
        assert_eq!(drive(&mut state, &mut driver, event, 50_000), DriverAction::Continue);
    }
    assert_eq!(driver.phase, DriverPhase::Retained);
    assert_eq!(driver.closed_at, 100);
    assert!(state.find_socket(id).unwrap().messages.is_empty());

    assert_eq!(
        drive(&mut state, &mut driver, DriverEvent::Expired, 5_100),
        DriverAction::Sleep(10_000)
    );
    assert_eq!(drive(&mut state, &mut driver, DriverEvent::Expired, 15_100), DriverAction::Done);
    assert_eq!(state.sockets.len(), 1);
    assert_eq!(state.sockets[0].id, other.socket_id);

    // A driver that is done stays done and touches nothing.
    for event in [DriverEvent::Expired, DriverEvent::Heartbeat, DriverEvent::Upstream(None)] {
        assert_eq!(drive(&mut state, &mut driver, event, 90_000), DriverAction::Done);
    }
    assert_eq!(driver.phase, DriverPhase::Removed);
    assert_eq!(state.sockets.len(), 1);
    assert!(state.sockets[0].alive);
}

#[test]
fn driver_without_its_session_is_done() {
    let mut state = AppState::new(None);
    let mut driver = Driver::new(77, 0);
    assert_eq!(drive(&mut state, &mut driver, DriverEvent::Heartbeat, 1), DriverAction::Done);
    assert_eq!(driver.phase, DriverPhase::Removed);
}

#[test]
fn read_goes_on_to_the_drain() {
    let batched = SocketQuery { long: true, batch_ms: Some(250) };
    assert_eq!(proceed(ReadPlan::Wait(20_000), batched, true), ReadPlan::Dwell(250));
    assert_eq!(proceed(ReadPlan::Wait(20_000), batched, false), ReadPlan::Empty);
    assert_eq!(proceed(ReadPlan::Wait(20_000), LONG, true), ReadPlan::Drain);
    assert_eq!(proceed(ReadPlan::Dwell(250), batched, false), ReadPlan::Drain);
    assert_eq!(proceed(ReadPlan::Dwell(250), batched, true), ReadPlan::Drain);
    assert_eq!(proceed(ReadPlan::Drain, batched, true), ReadPlan::Drain);
    assert_eq!(proceed(ReadPlan::Empty, batched, true), ReadPlan::Empty);
}
