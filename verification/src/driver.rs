//! The driver of one session: what it does on each event that reaches it.
//!
//! A driver waits for three things at once: a command from a request handler,
//! a frame from upstream, and its heartbeat. The caller does the waiting and
//! the upstream traffic; it hands each event to [`drive`] with the time, and
//! carries out the action that comes back. When upstream ends the driver
//! retires: the session is marked dead, stays registered for the retention
//! time, and is then removed.

use vstd::prelude::*;
use crate::app_state::{
    lemma_position_of, lemma_removed_is_absent, lemma_update_keeps_positions, position_of,
    text_of, without_id, AppState, Frame, FrameView, Socket, SocketPacket, SocketPacketView,
    SocketView,
};
use crate::config::{CLOSED_CONNECTION_EXPIRY, CONNECTION_POLL_TIMEOUT, CONNECTION_TIMEOUT};

verus! {

/// The payload of a close frame sent upstream.
#[derive(Debug, Clone, PartialEq, Eq)]
pub struct CloseFrame {
    pub code: u16,
    pub reason: String,
}

/// The model of a [`CloseFrame`].
pub struct CloseFrameView {
    pub code: u16,
    pub reason: Seq<char>,
}

impl View for CloseFrame {
    type V = CloseFrameView;

    open spec fn view(&self) -> CloseFrameView {
        CloseFrameView { code: self.code, reason: self.reason@ }
    }
}

/// The model of an optional close payload.
pub open spec fn payload_of(frame: Option<CloseFrame>) -> Option<CloseFrameView> {
    match frame {
        Some(f) => Some(f@),
        None => None,
    }
}

/// The payload of a close asked for with `code` and `reason`. Without a code
/// there is no payload and the reason is dropped; with a code and no reason
/// the reason is empty.
pub open spec fn close_payload(code: Option<u16>, reason: Option<Seq<char>>) -> Option<
    CloseFrameView,
> {
    match code {
        Some(code) => Some(
            CloseFrameView {
                code,
                reason: match reason {
                    Some(text) => text,
                    None => Seq::empty(),
                },
            },
        ),
        None => None,
    }
}

/// Builds the payload of a close: see [`close_payload`].
pub fn close_frame(code: Option<u16>, reason: Option<String>) -> (frame: Option<CloseFrame>)
    ensures
        payload_of(frame) == close_payload(code, text_of(reason)),
{
    match code {
        Some(code) => {
            let reason = match reason {
                Some(text) => text,
                None => String::new(),
            };
            Some(CloseFrame { code, reason })
        },
        None => None,
    }
}

/// The time from `since` to `now`, zero where the clock shows none.
pub open spec fn elapsed(now: u64, since: u64) -> u64 {
    if now >= since {
        (now - since) as u64
    } else {
        0
    }
}

/// Computes [`elapsed`].
pub fn time_since(now: u64, since: u64) -> (time: u64)
    ensures
        time == elapsed(now, since),
{
    if now >= since {
        now - since
    } else {
        0
    }
}

/// Where a driver stands in the life of its session.
#[derive(Debug, Clone, Copy, PartialEq, Eq)]
pub enum DriverPhase {
    /// Upstream is open; the session is alive.
    Running,
    /// Upstream has ended; the session is dead and still registered.
    Retained,
    /// The session is gone from the registry; the driver has nothing left to do.
    Removed,
}

impl DriverPhase {
    /// The order in which the phases follow each other.
    pub open spec fn rank(self) -> nat {
        match self {
            DriverPhase::Running => 0,
            DriverPhase::Retained => 1,
            DriverPhase::Removed => 2,
        }
    }
}

/// What a driver keeps for itself.
#[derive(Debug, Clone, Copy, PartialEq, Eq)]
pub struct Driver {
    /// The session that the driver serves.
    pub socket_id: u128,
    /// The driver's phase.
    pub phase: DriverPhase,
    /// When upstream last delivered a frame.
    pub last_ping: u64,
    /// When upstream ended; read in phase `Retained` only.
    pub closed_at: u64,
}

impl Driver {
    /// A driver that starts running for session `socket_id` at `now`.
    pub open spec fn started(socket_id: u128, now: u64) -> Driver {
        Driver { socket_id, phase: DriverPhase::Running, last_ping: now, closed_at: now }
    }

    /// The driver of session `socket_id`, started at `now`.
    pub fn new(socket_id: u128, now: u64) -> (driver: Driver)
        ensures
            driver == Driver::started(socket_id, now),
    {
        Driver { socket_id, phase: DriverPhase::Running, last_ping: now, closed_at: now }
    }
}

/// What reaches a driver.
#[derive(Debug, Clone, PartialEq, Eq)]
pub enum DriverEvent {
    /// The command queue yielded a command, or `None` once it is closed.
    Packet(Option<SocketPacket>),
    /// Upstream yielded a frame, or `None` where it failed or ended.
    Upstream(Option<Frame>),
    /// The heartbeat ticked.
    Heartbeat,
    /// A sleep that the driver asked for is over.
    Expired,
}

/// The model of a [`DriverEvent`].
pub enum DriverEventView {
    Packet(Option<SocketPacketView>),
    Upstream(Option<FrameView>),
    Heartbeat,
    Expired,
}

impl View for DriverEvent {
    type V = DriverEventView;

    open spec fn view(&self) -> DriverEventView {
        match *self {
            DriverEvent::Packet(Some(packet)) => DriverEventView::Packet(Some(packet@)),
            DriverEvent::Packet(None) => DriverEventView::Packet(None),
            DriverEvent::Upstream(Some(frame)) => DriverEventView::Upstream(Some(frame@)),
            DriverEvent::Upstream(None) => DriverEventView::Upstream(None),
            DriverEvent::Heartbeat => DriverEventView::Heartbeat,
            DriverEvent::Expired => DriverEventView::Expired,
        }
    }
}

/// What the caller does for a driver after an event.
#[derive(Debug, Clone, PartialEq, Eq)]
pub enum DriverAction {
    /// Start closing upstream with this payload, then go on waiting.
    Close(Option<CloseFrame>),
    /// Send this text upstream, then go on waiting. A failure to send is
    /// ignored: upstream will report it as its end.
    Send(String),
    /// Wake every waiting reader, then go on waiting.
    Notify,
    /// Go on waiting.
    Continue,
    /// Stop taking commands, wake every waiting reader, sleep for this long,
    /// then report `Expired`.
    Retire(u64),
    /// Sleep for this long, then report `Expired`.
    Sleep(u64),
    /// Stop: the session is no longer registered.
    Done,
}

/// The model of a [`DriverAction`].
pub enum DriverActionView {
    Close(Option<CloseFrameView>),
    Send(Seq<char>),
    Notify,
    Continue,
    Retire(u64),
    Sleep(u64),
    Done,
}

impl View for DriverAction {
    type V = DriverActionView;

    open spec fn view(&self) -> DriverActionView {
        match *self {
            DriverAction::Close(frame) => DriverActionView::Close(payload_of(frame)),
            DriverAction::Send(text) => DriverActionView::Send(text@),
            DriverAction::Notify => DriverActionView::Notify,
            DriverAction::Continue => DriverActionView::Continue,
            DriverAction::Retire(time) => DriverActionView::Retire(time),
            DriverAction::Sleep(time) => DriverActionView::Sleep(time),
            DriverAction::Done => DriverActionView::Done,
        }
    }
}

/// Whether at `now` the session has gone unread, or upstream silent, for
/// longer than allowed.
pub open spec fn is_stale(socket: SocketView, driver: Driver, now: u64) -> bool {
    ||| elapsed(now, socket.last_poll) > CONNECTION_POLL_TIMEOUT
    ||| elapsed(now, driver.last_ping) > CONNECTION_TIMEOUT
}

/// What one event does to a live session and its running driver, and the
/// action that follows.
pub open spec fn run_step(socket: SocketView, driver: Driver, event: DriverEventView, now: u64) -> (
    SocketView,
    Driver,
    DriverActionView,
) {
    match event {
        DriverEventView::Packet(Some(SocketPacketView::Close(code, reason))) => (
            socket,
            driver,
            DriverActionView::Close(close_payload(code, reason)),
        ),
        DriverEventView::Packet(Some(SocketPacketView::Message(text))) => (
            socket,
            driver,
            DriverActionView::Send(text),
        ),
        DriverEventView::Packet(None) => (socket, driver, DriverActionView::Continue),
        DriverEventView::Upstream(Some(frame)) => (
            SocketView { ready: true, messages: socket.messages.push(frame), ..socket },
            Driver { last_ping: now, ..driver },
            DriverActionView::Notify,
        ),
        DriverEventView::Upstream(None) => (
            SocketView { alive: false, ..socket },
            Driver { phase: DriverPhase::Retained, closed_at: now, ..driver },
            DriverActionView::Retire(CLOSED_CONNECTION_EXPIRY),
        ),
        DriverEventView::Heartbeat => (
            socket,
            driver,
            if is_stale(socket, driver, now) {
                DriverActionView::Close(None)
            } else {
                DriverActionView::Continue
            },
        ),
        DriverEventView::Expired => (socket, driver, DriverActionView::Continue),
    }
}

/// Applies one event to a live session and its running driver: see
/// [`run_step`].
pub fn step(socket: &mut Socket, driver: &mut Driver, event: DriverEvent, now: u64) -> (action:
    DriverAction)
    ensures
        (final(socket)@, *final(driver), action@) == run_step(
            old(socket)@,
            *old(driver),
            event@,
            now,
        ),
{
    match event {
        DriverEvent::Packet(Some(SocketPacket::Close(code, reason))) => DriverAction::Close(
            close_frame(code, reason),
        ),
        DriverEvent::Packet(Some(SocketPacket::Message(text))) => DriverAction::Send(text),
        DriverEvent::Packet(None) => DriverAction::Continue,
        DriverEvent::Upstream(Some(frame)) => {
            socket.messages.push(frame);
            socket.ready = true;
            driver.last_ping = now;
            assert(socket@.messages =~= old(socket)@.messages.push(frame@));
            DriverAction::Notify
        },
        DriverEvent::Upstream(None) => {
            socket.alive = false;
            driver.phase = DriverPhase::Retained;
            driver.closed_at = now;
            DriverAction::Retire(CLOSED_CONNECTION_EXPIRY)
        },
        DriverEvent::Heartbeat => {
            let unread = time_since(now, socket.last_poll);
            let silent = time_since(now, driver.last_ping);
            if unread > CONNECTION_POLL_TIMEOUT || silent > CONNECTION_TIMEOUT {
                DriverAction::Close(None)
            } else {
                DriverAction::Continue
            }
        },
        DriverEvent::Expired => DriverAction::Continue,
    }
}

/// What one event does to the registry and to a driver in any phase, and the
/// action that follows.
///
/// A driver whose session is not registered is done. A running driver takes
/// the event as [`run_step`] says, on the first session with its identifier. A
/// retired driver answers `Expired` alone: once the retention time has passed
/// since upstream ended it removes its session, before that it asks for the
/// sleep that is still owed.
pub open spec fn drive_spec(
    sockets: Seq<SocketView>,
    driver: Driver,
    event: DriverEventView,
    now: u64,
) -> (Seq<SocketView>, Driver, DriverActionView) {
    match position_of(sockets, driver.socket_id) {
        None => (sockets, Driver { phase: DriverPhase::Removed, ..driver }, DriverActionView::Done),
        Some(i) => match driver.phase {
            DriverPhase::Removed => (sockets, driver, DriverActionView::Done),
            DriverPhase::Retained => if !(event is Expired) {
                (sockets, driver, DriverActionView::Continue)
            } else if elapsed(now, driver.closed_at) >= CLOSED_CONNECTION_EXPIRY {
                (
                    without_id(sockets, driver.socket_id),
                    Driver { phase: DriverPhase::Removed, ..driver },
                    DriverActionView::Done,
                )
            } else {
                (
                    sockets,
                    driver,
                    DriverActionView::Sleep(
                        (CLOSED_CONNECTION_EXPIRY - elapsed(now, driver.closed_at)) as u64,
                    ),
                )
            },
            DriverPhase::Running => {
                let (socket, next, action) = run_step(sockets[i], driver, event, now);
                (sockets.update(i, socket), next, action)
            },
        },
    }
}

/// Applies one event to the registry and a driver: see [`drive_spec`].
pub fn drive(state: &mut AppState, driver: &mut Driver, event: DriverEvent, now: u64) -> (action:
    DriverAction)
    ensures
        (final(state)@, *final(driver), action@) == drive_spec(
            old(state)@,
            *old(driver),
            event@,
            now,
        ),
        final(state).authentication == old(state).authentication,
{
    let found = state.find_index(driver.socket_id);
    proof {
        lemma_position_of(state@, driver.socket_id);
    }
    match found {
        None => {
            driver.phase = DriverPhase::Removed;
            DriverAction::Done
        },
        Some(i) => match driver.phase {
            DriverPhase::Removed => DriverAction::Done,
            DriverPhase::Retained => {
                match event {
                    DriverEvent::Expired => {
                        let waited = time_since(now, driver.closed_at);
                        if waited >= CLOSED_CONNECTION_EXPIRY {
                            state.remove(driver.socket_id);
                            driver.phase = DriverPhase::Removed;
                            DriverAction::Done
                        } else {
                            DriverAction::Sleep(CLOSED_CONNECTION_EXPIRY - waited)
                        }
                    },
                    _ => DriverAction::Continue,
                }
            },
            DriverPhase::Running => {
                let action = step(&mut state.sockets[i], driver, event, now);
                assert(state@ =~= old(state)@.update(i as int, state.sockets@[i as int]@));
                action
            },
        },
    }
}

/// The life of a session under its driver, for every registry, driver, event
/// and time:
/// - the driver's phase never goes back, and a driver that is done stays done;
/// - a driver whose session is not registered is done, and changes nothing;
/// - a running driver leaves the session's `alive` flag as it is, except that
///   it clears the flag at the one step that retires it, and it notes the time
///   of that step;
/// - the registry loses sessions at one step only: where a retired driver
///   learns that its sleep is over and the retention time has passed since it
///   retired. At every other step the registry keeps its length.
pub proof fn lemma_session_lifecycle(
    sockets: Seq<SocketView>,
    driver: Driver,
    event: DriverEventView,
    now: u64,
)
    ensures
        ({
            let (after, next, action) = drive_spec(sockets, driver, event, now);
            let at = position_of(sockets, driver.socket_id);
            &&& next.socket_id == driver.socket_id
            &&& next.phase.rank() >= driver.phase.rank()
            &&& at is None ==> after == sockets && next.phase is Removed
            &&& driver.phase is Running && at is Some ==> {
                &&& after.len() == sockets.len()
                &&& after[at->0].alive ==> sockets[at->0].alive
                &&& next.phase is Retained <==> event == DriverEventView::Upstream(None)
                &&& next.phase is Retained ==> !after[at->0].alive && next.closed_at == now
                &&& next.phase is Running ==> after[at->0].alive == sockets[at->0].alive
                &&& !(next.phase is Removed)
            }
            &&& driver.phase is Retained ==> next.closed_at == driver.closed_at
            &&& after != sockets && !(driver.phase is Running) ==> {
                &&& driver.phase is Retained
                &&& next.phase is Removed
                &&& event is Expired
                &&& now - driver.closed_at >= CLOSED_CONNECTION_EXPIRY
                &&& after == without_id(sockets, driver.socket_id)
            }
        }),
{
    lemma_position_of(sockets, driver.socket_id);
}

/// At a heartbeat later than `CONNECTION_POLL_TIMEOUT` after the last read,
/// a running driver starts closing upstream, without a payload, whatever
/// upstream has delivered.
pub proof fn lemma_unread_session_is_closed(socket: SocketView, driver: Driver, now: u64)
    requires
        now - socket.last_poll > CONNECTION_POLL_TIMEOUT,
    ensures
        run_step(socket, driver, DriverEventView::Heartbeat, now) == (
            socket,
            driver,
            DriverActionView::Close(None),
        ),
{
}

/// At a heartbeat later than `CONNECTION_TIMEOUT` after the last frame from
/// upstream, a running driver starts closing upstream, without a payload,
/// however lately the session was read.
pub proof fn lemma_silent_upstream_is_closed(socket: SocketView, driver: Driver, now: u64)
    requires
        now - driver.last_ping > CONNECTION_TIMEOUT,
    ensures
        run_step(socket, driver, DriverEventView::Heartbeat, now) == (
            socket,
            driver,
            DriverActionView::Close(None),
        ),
{
}

/// At a heartbeat within both time limits a running driver does nothing.
pub proof fn lemma_fresh_session_is_kept(socket: SocketView, driver: Driver, now: u64)
    requires
        now - socket.last_poll <= CONNECTION_POLL_TIMEOUT,
        now - driver.last_ping <= CONNECTION_TIMEOUT,
    ensures
        run_step(socket, driver, DriverEventView::Heartbeat, now) == (
            socket,
            driver,
            DriverActionView::Continue,
        ),
{
}

/// A running driver changes the `ready` flag of its session at one event
/// only: a frame from upstream, which sets the flag and leaves `alive` as it
/// is. It never changes the session's identifier or the time of its last read.
pub proof fn lemma_driver_flags_on_frames_only(
    socket: SocketView,
    driver: Driver,
    event: DriverEventView,
    now: u64,
)
    ensures
        ({
            let after = run_step(socket, driver, event, now).0;
            &&& after.id == socket.id
            &&& after.last_poll == socket.last_poll
            &&& after.ready != socket.ready ==> event is Upstream && event->Upstream_0 is Some
                && after.ready && after.alive == socket.alive
        }),
{
}

/// A running driver serves its own session and no other: an event does to
/// the first session with the driver's identifier what [`run_step`] says,
/// leaves every other session as it is, and moves none.
pub proof fn lemma_running_driver_serves_its_session(
    sockets: Seq<SocketView>,
    driver: Driver,
    event: DriverEventView,
    now: u64,
)
    requires
        driver.phase is Running,
        position_of(sockets, driver.socket_id) is Some,
    ensures
        ({
            let at = position_of(sockets, driver.socket_id)->0;
            let own = run_step(sockets[at], driver, event, now);
            let (after, next, action) = drive_spec(sockets, driver, event, now);
            &&& 0 <= at < sockets.len()
            &&& after.len() == sockets.len()
            &&& after[at] == own.0
            &&& next == own.1
            &&& action == own.2
            &&& forall|j: int| 0 <= j < sockets.len() && j != at ==> after[j] == sockets[j]
            &&& position_of(after, driver.socket_id) == Some(at)
        }),
{
    let at = position_of(sockets, driver.socket_id)->0;
    lemma_position_of(sockets, driver.socket_id);
    let own = run_step(sockets[at], driver, event, now);
    lemma_update_keeps_positions(sockets, at, own.0, driver.socket_id);
}

/// A driver that has retired or is done changes no session: it leaves the
/// registry as it is, or takes its own sessions out of it.
pub proof fn lemma_retired_driver_changes_no_session(
    sockets: Seq<SocketView>,
    driver: Driver,
    event: DriverEventView,
    now: u64,
)
    requires
        !(driver.phase is Running),
    ensures
        ({
            let after = drive_spec(sockets, driver, event, now).0;
            after == sockets || after == without_id(sockets, driver.socket_id)
        }),
{
}

/// Whether the session of `driver`, where it is registered, is alive
/// exactly if the driver is running.
pub open spec fn alive_while_running(sockets: Seq<SocketView>, driver: Driver) -> bool {
    match position_of(sockets, driver.socket_id) {
        Some(i) => sockets[i].alive == (driver.phase is Running),
        None => true,
    }
}

/// A session is alive exactly while its driver runs: a new session and its
/// driver start so, and every event keeps it so.
pub proof fn lemma_alive_while_running(
    sockets: Seq<SocketView>,
    driver: Driver,
    event: DriverEventView,
    now: u64,
)
    requires
        alive_while_running(sockets, driver),
    ensures
        alive_while_running(
            drive_spec(sockets, driver, event, now).0,
            drive_spec(sockets, driver, event, now).1,
        ),
{
    let id = driver.socket_id;
    lemma_position_of(sockets, id);
    match position_of(sockets, id) {
        None => {},
        Some(i) => match driver.phase {
            DriverPhase::Removed => {},
            DriverPhase::Retained => {
                lemma_removed_is_absent(sockets, id);
            },
            DriverPhase::Running => {
                let socket = run_step(sockets[i], driver, event, now).0;
                lemma_update_keeps_positions(sockets, i, socket, id);
            },
        },
    }
}

} // verus!
