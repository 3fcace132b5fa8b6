//! Reading a session: wait for a frame, let more arrive, drain the buffer.
//!
//! A read runs in steps, with the caller's waiting between them.
//! [`get_socket`] looks the session up and says how the read starts. On a
//! `Wait` the caller awaits the session's notifier for that long, on a
//! `Dwell` it sleeps that long, and [`proceed`] says how the read goes on
//! after either. On `Drain` the caller calls [`drain`], whose result is the
//! answer; on `Empty` the answer is an empty list and nothing is drained.

use vstd::prelude::*;
use crate::api_error::ApiError;
use crate::app_state::{
    frames_view, lemma_position_of, position_of, text_of, AppState, Frame, FrameView, SocketView,
};
use crate::config::{KEEP_ALIVE, MAX_BATCH_DURATION};
use crate::driver::{run_step, Driver, DriverActionView, DriverEventView};
use crate::app_state::SocketPacketView;

verus! {

/// The parameters of a read.
#[derive(Debug, Clone, Copy, PartialEq, Eq)]
pub struct SocketQuery {
    /// Whether to wait for a frame where none is buffered.
    pub long: bool,
    /// How many milliseconds to let further frames arrive before draining.
    /// Read only where `long` is set.
    pub batch_ms: Option<u32>,
}

/// A frame as a reader is shown it.
#[derive(Debug, Clone, PartialEq, Eq)]
pub enum SocketMessage {
    /// A text frame.
    Content { content: String },
    /// A close frame, with its reason if it had a payload.
    Close { reason: Option<String> },
}

/// The model of a [`SocketMessage`].
pub enum SocketMessageView {
    Content(Seq<char>),
    Close(Option<Seq<char>>),
}

impl View for SocketMessage {
    type V = SocketMessageView;

    open spec fn view(&self) -> SocketMessageView {
        match *self {
            SocketMessage::Content { content } => SocketMessageView::Content(content@),
            SocketMessage::Close { reason } => SocketMessageView::Close(text_of(reason)),
        }
    }
}

/// The model of an optional message.
pub open spec fn message_of(message: Option<SocketMessage>) -> Option<SocketMessageView> {
    match message {
        Some(m) => Some(m@),
        None => None,
    }
}

/// The models of a sequence of messages, in order.
pub open spec fn messages_view(messages: Seq<SocketMessage>) -> Seq<SocketMessageView> {
    messages.map_values(|m: SocketMessage| m@)
}

/// How a frame is shown: text and close frames as messages, any other frame
/// not at all.
pub open spec fn shown(frame: FrameView) -> Option<SocketMessageView> {
    match frame {
        FrameView::Text(content) => Some(SocketMessageView::Content(content)),
        FrameView::Close(reason) => Some(SocketMessageView::Close(reason)),
        FrameView::Other => None,
    }
}

/// The messages that show `frames`, in the order of the frames.
pub open spec fn shown_all(frames: Seq<FrameView>) -> Seq<SocketMessageView>
    decreases frames.len(),
{
    if frames.len() == 0 {
        Seq::empty()
    } else {
        let before = shown_all(frames.drop_last());
        match shown(frames.last()) {
            Some(message) => before.push(message),
            None => before,
        }
    }
}

/// Shows one frame: see [`shown`].
pub fn convert_message(message: Frame) -> (shown_as: Option<SocketMessage>)
    ensures
        message_of(shown_as) == shown(message@),
{
    match message {
        Frame::Text(content) => Some(SocketMessage::Content { content }),
        Frame::Close(reason) => Some(SocketMessage::Close { reason }),
        Frame::Other => None,
    }
}

/// The added wait that `batch_ms` asks for: itself, capped at
/// `MAX_BATCH_DURATION`.
pub open spec fn batch_delay_of(batch_ms: u32) -> u64 {
    if batch_ms <= MAX_BATCH_DURATION {
        batch_ms as u64
    } else {
        MAX_BATCH_DURATION
    }
}

/// Computes [`batch_delay_of`].
pub fn batch_delay(batch_ms: u32) -> (delay: u64)
    ensures
        delay == batch_delay_of(batch_ms),
        delay <= MAX_BATCH_DURATION,
        delay <= batch_ms,
{
    let asked: u64 = batch_ms as u64;
    if asked <= MAX_BATCH_DURATION {
        asked
    } else {
        MAX_BATCH_DURATION
    }
}

/// How a read goes on.
#[derive(Debug, Clone, Copy, PartialEq, Eq)]
pub enum ReadPlan {
    /// Await the notifier for at most this long, then ask [`resume`].
    Wait(u64),
    /// Sleep for this long, then drain.
    Dwell(u64),
    /// Drain now.
    Drain,
    /// Answer with an empty list, without draining.
    Empty,
}

/// How a long read goes on once a frame is known to be buffered, or the
/// notifier has fired.
pub open spec fn plan_on_arrival(query: SocketQuery) -> ReadPlan {
    match query.batch_ms {
        Some(batch_ms) => ReadPlan::Dwell(batch_delay_of(batch_ms)),
        None => ReadPlan::Drain,
    }
}

/// How a read of `socket` starts: it fails on a dead session with nothing
/// buffered since the last drain; a short read drains at once; a long read
/// waits for a first frame where none is flagged, for `KEEP_ALIVE` at most.
pub open spec fn plan_for(socket: SocketView, query: SocketQuery) -> Result<ReadPlan, ApiError> {
    if !socket.ready && !socket.alive {
        Err(ApiError::SocketNotAlive)
    } else if !query.long {
        Ok(ReadPlan::Drain)
    } else if !socket.ready {
        Ok(ReadPlan::Wait(KEEP_ALIVE))
    } else {
        Ok(plan_on_arrival(query))
    }
}

/// What the start of a read at `now` does to the registry, and how the read
/// goes on: a read that does not fail notes its time in the session.
pub open spec fn get_socket_spec(
    sockets: Seq<SocketView>,
    socket_id: u128,
    query: SocketQuery,
    now: u64,
) -> (Seq<SocketView>, Result<ReadPlan, ApiError>) {
    match position_of(sockets, socket_id) {
        None => (sockets, Err(ApiError::SocketNotFound)),
        Some(i) => match plan_for(sockets[i], query) {
            Err(error) => (sockets, Err(error)),
            Ok(plan) => (sockets.update(i, SocketView { last_poll: now, ..sockets[i] }), Ok(plan)),
        },
    }
}

/// Starts a read of session `socket_id` at `now`: see [`get_socket_spec`].
pub fn get_socket(state: &mut AppState, socket_id: u128, query: SocketQuery, now: u64) -> (plan:
    Result<ReadPlan, ApiError>)
    ensures
        (final(state)@, plan) == get_socket_spec(old(state)@, socket_id, query, now),
        final(state).authentication == old(state).authentication,
{
    let found = state.find_index(socket_id);
    proof {
        lemma_position_of(state@, socket_id);
    }
    match found {
        None => Err(ApiError::SocketNotFound),
        Some(i) => {
            let is_ready = state.sockets[i].ready;
            if !is_ready && !state.sockets[i].alive {
                return Err(ApiError::SocketNotAlive);
            }
            state.sockets[i].last_poll = now;
            assert(state@ =~= old(state)@.update(
                i as int,
                SocketView { last_poll: now, ..old(state)@[i as int] },
            ));
            if !query.long {
                Ok(ReadPlan::Drain)
            } else if !is_ready {
                Ok(ReadPlan::Wait(KEEP_ALIVE))
            } else {
                Ok(resume(query, true))
            }
        },
    }
}

/// How a long read goes on after its wait: with nothing to answer where the
/// wait ran out, else as [`plan_on_arrival`] says.
pub fn resume(query: SocketQuery, notified: bool) -> (plan: ReadPlan)
    ensures
        plan == (if notified { plan_on_arrival(query) } else { ReadPlan::Empty }),
{
    if !notified {
        ReadPlan::Empty
    } else {
        match query.batch_ms {
            Some(batch_ms) => ReadPlan::Dwell(batch_delay(batch_ms)),
            None => ReadPlan::Drain,
        }
    }
}

/// How a read goes on from `plan`: after a wait as [`resume`] says, after a
/// dwell with the drain. `Drain` and `Empty` end the read and stay as they
/// are.
pub fn proceed(plan: ReadPlan, query: SocketQuery, notified: bool) -> (next: ReadPlan)
    ensures
        next == (match plan {
            ReadPlan::Wait(_) => if notified {
                plan_on_arrival(query)
            } else {
                ReadPlan::Empty
            },
            ReadPlan::Dwell(_) => ReadPlan::Drain,
            ReadPlan::Drain => ReadPlan::Drain,
            ReadPlan::Empty => ReadPlan::Empty,
        }),
{
    match plan {
        ReadPlan::Wait(_) => resume(query, notified),
        ReadPlan::Dwell(_) => ReadPlan::Drain,
        ReadPlan::Drain => ReadPlan::Drain,
        ReadPlan::Empty => ReadPlan::Empty,
    }
}

/// A session after a drain: not flagged, with an empty buffer.
pub open spec fn drained(socket: SocketView) -> SocketView {
    SocketView { ready: false, messages: Seq::empty(), ..socket }
}

/// Showing the frames up to and including `frame` is showing those before it,
/// then `frame` where it is shown at all.
pub proof fn lemma_shown_push(frames: Seq<FrameView>, frame: FrameView)
    ensures
        shown_all(frames.push(frame)) == (match shown(frame) {
            Some(message) => shown_all(frames).push(message),
            None => shown_all(frames),
        }),
{
    assert(frames.push(frame).drop_last() =~= frames);
}

/// Drains session `socket_id`: clears its flag, empties its buffer and shows
/// the frames that were in it, oldest first. Without such a session
/// nothing changes.
pub fn drain(state: &mut AppState, socket_id: u128) -> (messages: Result<
    Vec<SocketMessage>,
    ApiError,
>)
    ensures
        final(state).authentication == old(state).authentication,
        match position_of(old(state)@, socket_id) {
            None => messages == Err::<Vec<SocketMessage>, ApiError>(ApiError::SocketNotFound)
                && final(state)@ == old(state)@,
            Some(i) => {
                &&& messages is Ok
                &&& messages_view(messages->Ok_0@) == shown_all(old(state)@[i].messages)
                &&& final(state)@ == old(state)@.update(i, drained(old(state)@[i]))
            },
        },
{
    let found = state.find_index(socket_id);
    proof {
        lemma_position_of(state@, socket_id);
    }
    match found {
        None => Err(ApiError::SocketNotFound),
        Some(i) => {
            state.sockets[i].ready = false;
            let mut frames: Vec<Frame> = Vec::new();
            std::mem::swap(&mut state.sockets[i].messages, &mut frames);
            assert(state@ =~= old(state)@.update(i as int, drained(old(state)@[i as int]))) by {
                assert(frames_view(state.sockets@[i as int].messages@) =~= Seq::empty());
            }
            assert(frames_view(frames@) == old(state)@[i as int].messages);
            Ok(convert_all(frames))
        },
    }
}

/// Shows `frames` in order: see [`shown_all`].
pub fn convert_all(frames: Vec<Frame>) -> (messages: Vec<SocketMessage>)
    ensures
        messages_view(messages@) == shown_all(frames_view(frames@)),
{
    let ghost all = frames_view(frames@);
    let mut frames = frames;
    let mut messages: Vec<SocketMessage> = Vec::new();
    let mut i: usize = 0;
    while i < frames.len()
        invariant
            i <= frames.len(),
            frames.len() == all.len(),
            forall|j: int| i <= j < frames.len() ==> (#[trigger] frames@[j])@ == all[j],
            messages_view(messages@) == shown_all(all.take(i as int)),
        decreases frames.len() - i,
    {
        // Take the frame out of its place, leaving one that is never shown.
        let mut frame = Frame::Other;
        std::mem::swap(&mut frames[i], &mut frame);
        let ghost before = messages_view(messages@);
        proof {
            assert(frame@ == all[i as int]);
            assert(all.take(i + 1) =~= all.take(i as int).push(all[i as int]));
            lemma_shown_push(all.take(i as int), all[i as int]);
        }
        match convert_message(frame) {
            Some(message) => {
                messages.push(message);
                assert(messages_view(messages@) =~= before.push(message@));
            },
            None => {},
        }
        i += 1;
    }
    assert(all.take(i as int) =~= all);
    messages
}

/// What `reads` drains in a row from a session that nothing else touches
/// yield, one after the other.
pub open spec fn drains(socket: SocketView, reads: nat) -> Seq<SocketMessageView>
    decreases reads,
{
    if reads == 0 {
        Seq::empty()
    } else {
        shown_all(socket.messages) + drains(drained(socket), (reads - 1) as nat)
    }
}

/// Any number of drains of a session, with no frame arriving between them,
/// yield together what was buffered at the first, each frame once: the first
/// drain yields all of it and the others nothing.
pub proof fn lemma_drains_yield_buffer_once(socket: SocketView, reads: nat)
    requires
        reads >= 1,
    ensures
        drains(socket, reads) == shown_all(socket.messages),
        drains(drained(socket), (reads - 1) as nat) == Seq::<SocketMessageView>::empty(),
    decreases reads,
{
    let rest = drains(drained(socket), (reads - 1) as nat);
    if reads > 1 {
        lemma_drains_yield_buffer_once(drained(socket), (reads - 1) as nat);
    }
    assert(drained(socket).messages.len() == 0);
    assert(rest =~= Seq::empty());
    assert(shown_all(socket.messages) + rest =~= shown_all(socket.messages));
}

/// The time that a plan has the caller wait.
pub open spec fn wait_of(plan: ReadPlan) -> u64 {
    match plan {
        ReadPlan::Wait(time) => time,
        ReadPlan::Dwell(time) => time,
        ReadPlan::Drain => 0,
        ReadPlan::Empty => 0,
    }
}

/// The time that a read waits in all, where it starts with `first` and the
/// notifier fires during a wait if `notified` says so.
pub open spec fn total_wait(first: ReadPlan, query: SocketQuery, notified: bool) -> int {
    match first {
        ReadPlan::Wait(time) => time + (if notified {
            wait_of(plan_on_arrival(query)) as int
        } else {
            0
        }),
        _ => wait_of(first) as int,
    }
}

/// A read waits for at most `KEEP_ALIVE` and then for the batch time asked
/// for, capped at `MAX_BATCH_DURATION`; a short read does not wait at all.
pub proof fn lemma_read_wait_is_bounded(socket: SocketView, query: SocketQuery, notified: bool)
    requires
        plan_for(socket, query) is Ok,
    ensures
        ({
            let wait = total_wait(plan_for(socket, query)->Ok_0, query, notified);
            &&& 0 <= wait
            &&& !query.long ==> wait == 0
            &&& query.batch_ms is None ==> wait <= KEEP_ALIVE
            &&& query.batch_ms is Some ==> wait <= KEEP_ALIVE + batch_delay_of(query.batch_ms->0)
            &&& wait <= KEEP_ALIVE + MAX_BATCH_DURATION
        }),
{
}

/// A frame of any kind that the driver takes from upstream lies behind the
/// frames already buffered and flags the session, so that the next drain
/// yields what was buffered before and then this frame, shown as [`shown`]
/// says. The driver notes the time as that of upstream's last frame and has
/// the waiting readers woken; nothing else of the session changes.
pub proof fn lemma_received_frame_is_drained(
    socket: SocketView,
    driver: Driver,
    frame: FrameView,
    now: u64,
)
    ensures
        ({
            let step = run_step(socket, driver, DriverEventView::Upstream(Some(frame)), now);
            let after = step.0;
            &&& after == SocketView { ready: true, messages: socket.messages.push(frame), ..socket }
            &&& step.1 == Driver { last_ping: now, ..driver }
            &&& step.2 == DriverActionView::Notify
            &&& after.ready
            &&& after.messages == socket.messages.push(frame)
            &&& shown_all(after.messages) == (match shown(frame) {
                Some(message) => shown_all(socket.messages).push(message),
                None => shown_all(socket.messages),
            })
        }),
{
    lemma_shown_push(socket.messages, frame);
}

/// No event takes a frame out of the buffer of a live session: the driver
/// only ever adds behind what is there.
pub proof fn lemma_driver_keeps_buffer(
    socket: SocketView,
    driver: Driver,
    event: DriverEventView,
    now: u64,
)
    ensures
        socket.messages.is_prefix_of(run_step(socket, driver, event, now).0.messages),
{
}

/// A text sent to a drained session whose upstream echoes it: the driver
/// sends that very text and changes nothing on the way, and the drain after
/// the echo yields one message, whose content is the text.
pub proof fn lemma_echo_round_trip(socket: SocketView, driver: Driver, text: Seq<char>, now: u64)
    requires
        socket.messages.len() == 0,
    ensures
        ({
            let sent = run_step(
                socket,
                driver,
                DriverEventView::Packet(Some(SocketPacketView::Message(text))),
                now,
            );
            let echoed = run_step(
                sent.0,
                sent.1,
                DriverEventView::Upstream(Some(FrameView::Text(text))),
                now,
            );
            &&& sent.2 == DriverActionView::Send(text)
            &&& sent.0 == socket
            &&& sent.1 == driver
            &&& shown_all(echoed.0.messages) == seq![SocketMessageView::Content(text)]
        }),
{
    lemma_shown_push(socket.messages, FrameView::Text(text));
    assert(shown_all(socket.messages) =~= Seq::empty());
    assert(Seq::<SocketMessageView>::empty().push(SocketMessageView::Content(text))
        =~= seq![SocketMessageView::Content(text)]);
}

/// A read changes neither which sessions are registered nor whether one is
/// alive: its start notes the time in the session read and keeps the buffer,
/// and a drain takes the buffer and the flag of that session alone.
pub proof fn lemma_reads_keep_sessions(
    sockets: Seq<SocketView>,
    socket_id: u128,
    query: SocketQuery,
    now: u64,
    j: int,
)
    requires
        0 <= j < sockets.len(),
    ensures
        ({
            let started = get_socket_spec(sockets, socket_id, query, now).0;
            &&& started.len() == sockets.len()
            &&& started[j] == sockets[j] || (position_of(sockets, socket_id) == Some(j)
                && started[j] == SocketView { last_poll: now, ..sockets[j] })
        }),
        drained(sockets[j]).alive == sockets[j].alive,
        drained(sockets[j]).id == sockets[j].id,
        drained(sockets[j]).last_poll == sockets[j].last_poll,
{
    lemma_position_of(sockets, socket_id);
}

} // verus!
