//! Sessions and the registry that holds them.

use vstd::prelude::*;

verus! {

/// The text of an optional string, as a sequence of characters.
pub open spec fn text_of(s: Option<String>) -> Option<Seq<char>> {
    match s {
        Some(t) => Some(t@),
        None => None,
    }
}

/// One frame received from upstream, reduced to what a reader is shown.
#[derive(Debug, Clone, PartialEq, Eq)]
pub enum Frame {
    /// A text frame and its content.
    Text(String),
    /// A close frame, with the reason of its payload if it carried one.
    Close(Option<String>),
    /// A binary or control frame: buffered, never shown.
    Other,
}

/// The model of a [`Frame`].
pub enum FrameView {
    Text(Seq<char>),
    Close(Option<Seq<char>>),
    Other,
}

impl View for Frame {
    type V = FrameView;

    open spec fn view(&self) -> FrameView {
        match *self {
            Frame::Text(s) => FrameView::Text(s@),
            Frame::Close(r) => FrameView::Close(text_of(r)),
            Frame::Other => FrameView::Other,
        }
    }
}

/// The models of a sequence of frames, in order.
pub open spec fn frames_view(frames: Seq<Frame>) -> Seq<FrameView> {
    frames.map_values(|f: Frame| f@)
}

/// A command queued for a session's driver.
#[derive(Debug, Clone, PartialEq, Eq)]
pub enum SocketPacket {
    /// Close the upstream connection, with an optional code and reason.
    Close(Option<u16>, Option<String>),
    /// Send a text frame upstream.
    Message(String),
}

/// The model of a [`SocketPacket`].
pub enum SocketPacketView {
    Close(Option<u16>, Option<Seq<char>>),
    Message(Seq<char>),
}

impl View for SocketPacket {
    type V = SocketPacketView;

    open spec fn view(&self) -> SocketPacketView {
        match *self {
            SocketPacket::Close(code, reason) => SocketPacketView::Close(code, text_of(reason)),
            SocketPacket::Message(text) => SocketPacketView::Message(text@),
        }
    }
}

/// The state of one proxied connection that request handlers and the driver
/// share.
#[derive(Debug)]
pub struct Socket {
    /// The session's identifier.
    pub id: u128,
    /// Set when a frame was buffered since the last drain.
    pub ready: bool,
    /// Set while the driver runs.
    pub alive: bool,
    /// The frames received and not yet drained, oldest first.
    pub messages: Vec<Frame>,
    /// When the session was last read.
    pub last_poll: u64,
}

/// The model of a [`Socket`].
pub struct SocketView {
    pub id: u128,
    pub ready: bool,
    pub alive: bool,
    pub messages: Seq<FrameView>,
    pub last_poll: u64,
}

impl View for Socket {
    type V = SocketView;

    open spec fn view(&self) -> SocketView {
        SocketView {
            id: self.id,
            ready: self.ready,
            alive: self.alive,
            messages: frames_view(self.messages@),
            last_poll: self.last_poll,
        }
    }
}

/// Whether `id` is the identifier of a random (version 4) UUID in the
/// standard variant.
pub open spec fn is_random_id(id: u128) -> bool {
    &&& (id >> 76) & 0xF == 4
    &&& (id >> 62) & 0x3 == 2
}

/// A fresh random identifier, from `uuid::Uuid::new_v4` and
/// `uuid::Uuid::as_u128`. The value is random, so the contract holds only what
/// the generator fixes: the version and variant bits.
#[verifier::external_body]
fn fresh_id() -> (id: u128)
    ensures
        is_random_id(id),
{
    uuid::Uuid::new_v4().as_u128()
}

impl Socket {
    /// A live session with an empty buffer, created at `now`.
    pub fn new(now: u64) -> (socket: Socket)
        ensures
            is_random_id(socket.id),
            socket@ == (SocketView {
                id: socket.id,
                ready: false,
                alive: true,
                messages: Seq::empty(),
                last_poll: now,
            }),
    {
        let socket = Socket {
            id: fresh_id(),
            ready: false,
            alive: true,
            messages: Vec::new(),
            last_poll: now,
        };
        assert(socket@.messages =~= Seq::empty());
        socket
    }
}

/// The models of a sequence of sessions, in order.
pub open spec fn sockets_view(sockets: Seq<Socket>) -> Seq<SocketView> {
    sockets.map_values(|s: Socket| s@)
}

/// The position of the first session with identifier `id`, if there is one.
pub open spec fn position_of(sockets: Seq<SocketView>, id: u128) -> Option<int>
    decreases sockets.len(),
{
    if sockets.len() == 0 {
        None
    } else if sockets[0].id == id {
        Some(0int)
    } else {
        match position_of(sockets.drop_first(), id) {
            Some(i) => Some(i + 1),
            None => None,
        }
    }
}

/// The sessions of `sockets` whose identifier is not `id`, in order.
pub open spec fn without_id(sockets: Seq<SocketView>, id: u128) -> Seq<SocketView> {
    sockets.filter(|s: SocketView| s.id != id)
}

/// What `position_of` finds: the first position that holds `id`.
pub proof fn lemma_position_of(sockets: Seq<SocketView>, id: u128)
    ensures
        match position_of(sockets, id) {
            Some(i) => {
                &&& 0 <= i < sockets.len()
                &&& sockets[i].id == id
                &&& forall|j: int| 0 <= j < i ==> sockets[j].id != id
            },
            None => forall|j: int| 0 <= j < sockets.len() ==> sockets[j].id != id,
        },
    decreases sockets.len(),
{
    if sockets.len() == 0 {
    } else if sockets[0].id == id {
    } else {
        let rest = sockets.drop_first();
        lemma_position_of(rest, id);
        match position_of(rest, id) {
            Some(i) => {
                assert forall|j: int| 0 <= j < i + 1 implies sockets[j].id != id by {
                    if j > 0 {
                        assert(sockets[j] == rest[j - 1]);
                    }
                }
            },
            None => {
                assert forall|j: int| 0 <= j < sockets.len() implies sockets[j].id != id by {
                    if j > 0 {
                        assert(sockets[j] == rest[j - 1]);
                    }
                }
            },
        }
    }
}

/// A position that holds `id` and is preceded by none that does is the one
/// that `position_of` finds.
pub proof fn lemma_position_is(sockets: Seq<SocketView>, id: u128, i: int)
    requires
        0 <= i < sockets.len(),
        sockets[i].id == id,
        forall|j: int| 0 <= j < i ==> sockets[j].id != id,
    ensures
        position_of(sockets, id) == Some(i),
{
    lemma_position_of(sockets, id);
}

/// Dropping a session that holds `id` does not change what is left once
/// every session that holds `id` is dropped.
pub proof fn lemma_without_removed(sockets: Seq<SocketView>, id: u128, i: int)
    requires
        0 <= i < sockets.len(),
        sockets[i].id == id,
    ensures
        without_id(sockets.remove(i), id) == without_id(sockets, id),
    decreases sockets.len(),
{
    reveal(Seq::filter);
    if i == sockets.len() - 1 {
        assert(sockets.remove(i) =~= sockets.drop_last());
    } else {
        lemma_without_removed(sockets.drop_last(), id, i);
        assert(sockets.remove(i).drop_last() =~= sockets.drop_last().remove(i));
        assert(sockets.remove(i).last() == sockets.last());
    }
}

/// Where no session holds `id`, dropping those that do changes nothing.
pub proof fn lemma_without_absent(sockets: Seq<SocketView>, id: u128)
    requires
        forall|j: int| 0 <= j < sockets.len() ==> sockets[j].id != id,
    ensures
        without_id(sockets, id) == sockets,
    decreases sockets.len(),
{
    reveal(Seq::filter);
    if sockets.len() > 0 {
        lemma_without_absent(sockets.drop_last(), id);
        assert(sockets.drop_last().push(sockets.last()) =~= sockets);
    }
}

/// Removal leaves no session that holds `id`, so that a lookup of `id`
/// finds nothing afterwards and a second removal changes nothing.
pub proof fn lemma_removed_is_absent(sockets: Seq<SocketView>, id: u128)
    ensures
        forall|j: int|
            0 <= j < without_id(sockets, id).len() ==> (#[trigger] without_id(sockets, id)[j]).id
                != id,
        position_of(without_id(sockets, id), id) is None,
        without_id(without_id(sockets, id), id) == without_id(sockets, id),
    decreases sockets.len(),
{
    reveal(Seq::filter);
    if sockets.len() > 0 {
        lemma_removed_is_absent(sockets.drop_last(), id);
    }
    lemma_position_of(without_id(sockets, id), id);
    lemma_without_absent(without_id(sockets, id), id);
}

/// A session that was inserted is found under its identifier: at its own
/// position where no earlier session holds that identifier, else at the
/// position of the first that does.
pub proof fn lemma_inserted_is_found(sockets: Seq<SocketView>, socket: SocketView)
    ensures
        position_of(sockets.push(socket), socket.id) == (match position_of(sockets, socket.id) {
            Some(i) => Some(i),
            None => Some(sockets.len() as int),
        }),
{
    let all = sockets.push(socket);
    lemma_position_of(sockets, socket.id);
    match position_of(sockets, socket.id) {
        Some(i) => {
            assert forall|j: int| 0 <= j < i implies all[j].id != socket.id by {
                assert(all[j] == sockets[j]);
            }
            assert(all[i] == sockets[i]);
            lemma_position_is(all, socket.id, i);
        },
        None => {
            assert forall|j: int| 0 <= j < sockets.len() implies all[j].id != socket.id by {
                assert(all[j] == sockets[j]);
            }
            lemma_position_is(all, socket.id, sockets.len() as int);
        },
    }
}

/// Replacing a session by one with the same identifier moves no session:
/// every lookup finds what it found before.
pub proof fn lemma_update_keeps_positions(
    sockets: Seq<SocketView>,
    i: int,
    socket: SocketView,
    id: u128,
)
    requires
        0 <= i < sockets.len(),
        socket.id == sockets[i].id,
    ensures
        position_of(sockets.update(i, socket), id) == position_of(sockets, id),
{
    let after = sockets.update(i, socket);
    lemma_position_of(sockets, id);
    assert forall|j: int| 0 <= j < sockets.len() implies after[j].id == sockets[j].id by {}
    match position_of(sockets, id) {
        Some(at) => {
            lemma_position_is(after, id, at);
        },
        None => {
            lemma_position_of(after, id);
        },
    }
}

/// The process-wide state: the registry of sessions and the shared token.
#[derive(Debug)]
pub struct AppState {
    /// The sessions, live or awaiting removal, in order of insertion.
    pub sockets: Vec<Socket>,
    /// The token that guarded requests must present, if one is configured.
    pub authentication: Option<String>,
}

impl View for AppState {
    type V = Seq<SocketView>;

    open spec fn view(&self) -> Seq<SocketView> {
        sockets_view(self.sockets@)
    }
}

impl AppState {
    /// A state without sessions.
    pub fn new(authentication: Option<String>) -> (state: AppState)
        ensures
            state@ == Seq::<SocketView>::empty(),
            state.authentication == authentication,
    {
        let state = AppState { sockets: Vec::new(), authentication };
        assert(state@ =~= Seq::<SocketView>::empty());
        state
    }

    /// The position of the first session with identifier `socket_id`.
    pub fn find_index(&self, socket_id: u128) -> (found: Option<usize>)
        ensures
            match found {
                Some(i) => position_of(self@, socket_id) == Some(i as int) && i < self.sockets.len(),
                None => position_of(self@, socket_id) is None,
            },
    {
        let mut i: usize = 0;
        while i < self.sockets.len()
            invariant
                i <= self.sockets.len(),
                forall|j: int| 0 <= j < i ==> self@[j].id != socket_id,
            decreases self.sockets.len() - i,
        {
            if self.sockets[i].id == socket_id {
                proof {
                    lemma_position_is(self@, socket_id, i as int);
                }
                return Some(i);
            }
            i += 1;
        }
        proof {
            lemma_position_of(self@, socket_id);
        }
        None
    }

    /// The first session with identifier `socket_id`, if one is registered.
    pub fn find_socket(&self, socket_id: u128) -> (found: Option<&Socket>)
        ensures
            match found {
                Some(socket) => {
                    &&& position_of(self@, socket_id) is Some
                    &&& socket@ == self@[position_of(self@, socket_id)->0]
                    &&& socket.id == socket_id
                },
                None => position_of(self@, socket_id) is None,
            },
    {
        proof {
            lemma_position_of(self@, socket_id);
        }
        match self.find_index(socket_id) {
            Some(i) => Some(&self.sockets[i]),
            None => None,
        }
    }

    /// Registers `socket` behind the sessions already there.
    pub fn insert(&mut self, socket: Socket)
        ensures
            final(self)@ == old(self)@.push(socket@),
            final(self).authentication == old(self).authentication,
    {
        self.sockets.push(socket);
        assert(self@ =~= old(self)@.push(socket@));
    }

    /// Drops every session with identifier `socket_id`; the others keep their
    /// order. Without such a session nothing changes.
    pub fn remove(&mut self, socket_id: u128)
        ensures
            final(self)@ == without_id(old(self)@, socket_id),
            position_of(final(self)@, socket_id) is None,
            position_of(old(self)@, socket_id) is None ==> final(self)@ == old(self)@,
            final(self).authentication == old(self).authentication,
    {
        proof {
            lemma_removed_is_absent(self@, socket_id);
            lemma_position_of(self@, socket_id);
            if position_of(self@, socket_id) is None {
                lemma_without_absent(self@, socket_id);
            }
        }
        let mut i: usize = 0;
        while i < self.sockets.len()
            invariant
                i <= self.sockets.len(),
                self.authentication == old(self).authentication,
                without_id(self@, socket_id) == without_id(old(self)@, socket_id),
                forall|j: int| 0 <= j < i ==> self@[j].id != socket_id,
            decreases self.sockets.len() - i,
        {
            if self.sockets[i].id == socket_id {
                let ghost before = self@;
                self.sockets.remove(i);
                proof {
                    assert(self@ =~= before.remove(i as int));
                    lemma_without_removed(before, socket_id, i as int);
                }
            } else {
                i += 1;
            }
        }
        proof {
            lemma_without_absent(self@, socket_id);
        }
    }
}

} // verus!
