//! One client connection, from the opening request to its end.
//!
//! A [`Connection`] never performs an action itself. It hands out one
//! [`Action`] at a time and is told of the [`Event`] that answers it; the
//! transition is [`State::step`]. First comes the handshake: read the opening
//! request, find the target, connect, and either greet the client (tunnel) or
//! pass the request on (plain). Then both sockets are made non-blocking and
//! the two relay channels take turns, client to server first, until one of
//! them ends the connection.

use vstd::prelude::*;
use vstd::slice::slice_to_vec;
use vstd::string::StringSliceAdditionalSpecFns;
use crate::channel::{Channel, ChannelView, Status, StatusView};
use crate::event::{
    misfit_detail, misfit_text, short_write_detail, short_write_text, Ending, EndingView, Event,
    EventView, Side,
};
use crate::request::REQUEST_CAP;
use crate::target::{route, routed, Host, HostView, Route, RouteView, Target, TargetView};

verus! {

/// The size of each relay channel's buffer, in bytes.
pub const RELAY_CAPACITY: usize = 4096;

/// The bytes that tell the client that its tunnel stands: a status line and
/// an empty line.
pub open spec fn reply() -> Seq<u8> {
    "HTTP/1.1 200 OK\r\n\r\n".spec_bytes()
}

/// The reply, byte by byte.
pub proof fn reply_is_these_bytes()
    ensures
        reply() == seq![
            72u8, 84, 84, 80, 47, 49, 46, 49, 32, 50, 48, 48, 32, 79, 75, 13, 10, 13, 10,
        ],
{
    reveal_strlit("HTTP/1.1 200 OK\r\n\r\n");
    let text = "HTTP/1.1 200 OK\r\n\r\n";
    assert(text@.len() == 19);
    assert(vstd::string::is_ascii(text)) by {
        assert forall|i: int| 0 <= i < text@.len() implies (text@[i] as nat) < 128 by {}
    }
    vstd::string::is_ascii_spec_bytes(text);
    assert(reply() =~= seq![
        72u8, 84, 84, 80, 47, 49, 46, 49, 32, 50, 48, 48, 32, 79, 75, 13, 10, 13, 10,
    ]);
}

/// What a connection asks its caller to do.
#[derive(Clone, Debug, PartialEq, Eq)]
pub enum Action {
    /// Read at most `room` bytes from this socket.
    Read { from: Side, room: usize },
    /// Resolve this host, for this port.
    Resolve { host: Host, port: u16 },
    /// Open the server socket to this target.
    Connect(Target),
    /// Offer these bytes to this socket, in one write.
    Write { to: Side, bytes: Vec<u8> },
    /// Make this socket non-blocking.
    Unblock(Side),
    /// Release both sockets: the connection is over.
    Close(Ending),
}

/// The mathematical content of an [`Action`].
pub enum ActionView {
    Read { from: Side, room: nat },
    Resolve { host: HostView, port: u16 },
    Connect(TargetView),
    Write { to: Side, bytes: Seq<u8> },
    Unblock(Side),
    Close(EndingView),
}

impl View for Action {
    type V = ActionView;

    open spec fn view(&self) -> ActionView {
        match self {
            Action::Read { from, room } => ActionView::Read { from: *from, room: *room as nat },
            Action::Resolve { host, port } => ActionView::Resolve { host: host@, port: *port },
            Action::Connect(target) => ActionView::Connect(target@),
            Action::Write { to, bytes } => ActionView::Write { to: *to, bytes: bytes@ },
            Action::Unblock(side) => ActionView::Unblock(*side),
            Action::Close(ending) => ActionView::Close(ending@),
        }
    }
}

/// Where a connection stands: which answer it waits for.
#[derive(Clone, Copy, Debug, PartialEq, Eq, Structural)]
pub enum Phase {
    /// Waiting for the opening request.
    Opening,
    /// Waiting for the addresses of the target's host.
    Resolving,
    /// Waiting for the server socket; `tunnel` says what the client asked for.
    Dialing { tunnel: bool },
    /// Waiting for the write that ends the handshake; `tunnel` says what was
    /// offered: the reply, or the request.
    Greeting { tunnel: bool },
    /// Waiting for this socket to become non-blocking.
    Unblocking(Side),
    /// Relaying: waiting for a read from this socket.
    Receiving(Side),
    /// Relaying: waiting for a write to this socket.
    Sending(Side),
    /// Over.
    Closed,
}

/// The mathematical content of a [`Connection`].
pub struct State {
    pub phase: Phase,
    /// The opening request as it was received, kept for a plain exchange.
    pub request: Seq<u8>,
    /// The channel from the client to the server.
    pub upstream: ChannelView,
    /// The channel from the server to the client.
    pub downstream: ChannelView,
}

impl State {
    /// A connection that has just been accepted.
    pub open spec fn initial() -> State {
        State {
            phase: Phase::Opening,
            request: Seq::empty(),
            upstream: ChannelView::empty(RELAY_CAPACITY as nat),
            downstream: ChannelView::empty(RELAY_CAPACITY as nat),
        }
    }

    /// The action that a new connection starts with.
    pub open spec fn first_action() -> ActionView {
        ActionView::Read { from: Side::Client, room: REQUEST_CAP as nat }
    }

    /// The channel that reads from `source`.
    pub open spec fn channel_from(self, source: Side) -> ChannelView {
        match source {
            Side::Client => self.upstream,
            Side::Server => self.downstream,
        }
    }

    /// This state with `channel` as the channel that reads from `source`.
    pub open spec fn with_channel_from(self, source: Side, channel: ChannelView) -> State {
        match source {
            Side::Client => State { upstream: channel, ..self },
            Side::Server => State { downstream: channel, ..self },
        }
    }

    /// Whether the two channels are relaying.
    pub open spec fn relaying(self) -> bool {
        self.phase is Receiving || self.phase is Sending
    }

    /// What holds of the parts of every connection: both channels are sound
    /// and of the fixed capacity, and the request is within its cap.
    pub open spec fn sound(self) -> bool {
        &&& self.upstream.inv()
        &&& self.downstream.inv()
        &&& self.upstream.capacity == RELAY_CAPACITY
        &&& self.downstream.capacity == RELAY_CAPACITY
        &&& self.request.len() <= REQUEST_CAP
    }

    /// What holds of every connection: its parts are sound; a read is awaited
    /// only for an empty channel, a write only for one that holds bytes;
    /// before the relay both channels are empty.
    pub open spec fn inv(self) -> bool {
        &&& self.sound()
        &&& self.phase matches Phase::Receiving(source) ==> self.channel_from(source).pending() == 0
        &&& self.phase matches Phase::Sending(to) ==> self.channel_from(to.other()).pending() > 0
        &&& !self.relaying() && self.phase != Phase::Closed ==> self.upstream.pending() == 0
            && self.downstream.pending() == 0
    }

    /// The end of the connection.
    pub open spec fn close(self, ending: EndingView) -> (State, ActionView) {
        (State { phase: Phase::Closed, ..self }, ActionView::Close(ending))
    }

    /// The end of the connection upon an event that answers no action.
    pub open spec fn misfit(self) -> (State, ActionView) {
        self.close(EndingView::Io(misfit_text()))
    }

    /// The start of a turn of the channel that reads from `source`: a read if
    /// the channel is empty, else a write of all that it holds.
    pub open spec fn turn(self, source: Side) -> (State, ActionView) {
        let channel = self.channel_from(source);
        if channel.pending() == 0 {
            (
                State { phase: Phase::Receiving(source), ..self },
                ActionView::Read { from: source, room: channel.capacity },
            )
        } else {
            (
                State { phase: Phase::Sending(source.other()), ..self },
                ActionView::Write { to: source.other(), bytes: channel.held },
            )
        }
    }

    /// The step upon the opening request.
    ///
    /// A request that cannot be routed ends the connection. A tunnel connects
    /// to the authority as the client wrote it; a plain request has its host
    /// resolved first, and is kept.
    pub open spec fn opened(self, event: EventView) -> (State, ActionView) {
        match event {
            EventView::Data(bytes) => if bytes.len() <= REQUEST_CAP {
                match routed(bytes) {
                    Err(ending) => self.close(ending),
                    Ok(RouteView::Tunnel(authority)) => (
                        State { phase: Phase::Dialing { tunnel: true }, ..self },
                        ActionView::Connect(TargetView::Authority(authority)),
                    ),
                    Ok(RouteView::Forward { host, port }) => (
                        State { phase: Phase::Resolving, request: bytes, ..self },
                        ActionView::Resolve { host, port },
                    ),
                }
            } else {
                self.misfit()
            },
            EventView::WouldBlock(detail) => self.close(EndingView::Io(detail)),
            EventView::Failed(detail) => self.close(EndingView::Io(detail)),
            _ => self.misfit(),
        }
    }

    /// The step upon the addresses of the host: the first is connected to,
    /// and no other.
    pub open spec fn resolved(self, event: EventView) -> (State, ActionView) {
        match event {
            EventView::Resolved(found) => if found.len() == 0 {
                self.close(EndingView::Unreachable("Unable to parse url into socket address"@))
            } else {
                (
                    State { phase: Phase::Dialing { tunnel: false }, ..self },
                    ActionView::Connect(TargetView::Address(found[0])),
                )
            },
            EventView::WouldBlock(detail) => self.close(EndingView::Unreachable(detail)),
            EventView::Failed(detail) => self.close(EndingView::Unreachable(detail)),
            _ => self.misfit(),
        }
    }

    /// The bytes that the handshake's write offers: to the client of a
    /// tunnel, the reply; to the server of a plain request, the request as it
    /// was received.
    pub open spec fn greeting(self, tunnel: bool) -> Seq<u8> {
        if tunnel {
            reply()
        } else {
            self.request
        }
    }

    /// The step upon the server socket: a tunnel's client is sent the reply,
    /// a plain request is passed on to the server as it was received.
    pub open spec fn dialed(self, tunnel: bool, event: EventView) -> (State, ActionView) {
        match event {
            EventView::Done => (
                State { phase: Phase::Greeting { tunnel }, ..self },
                ActionView::Write {
                    to: if tunnel {
                        Side::Client
                    } else {
                        Side::Server
                    },
                    bytes: self.greeting(tunnel),
                },
            ),
            EventView::WouldBlock(detail) => self.close(EndingView::Unreachable(detail)),
            EventView::Failed(detail) => self.close(EndingView::Unreachable(detail)),
            _ => self.misfit(),
        }
    }

    /// The step upon the handshake's write. Only if it took all that was
    /// offered does the connection go on: the sockets are made non-blocking
    /// next, the client's first. A write that took less, or none, ends the
    /// connection.
    pub open spec fn greeted(self, tunnel: bool, event: EventView) -> (State, ActionView) {
        match event {
            EventView::Wrote(count) => if count == self.greeting(tunnel).len() {
                (
                    State { phase: Phase::Unblocking(Side::Client), ..self },
                    ActionView::Unblock(Side::Client),
                )
            } else {
                self.close(EndingView::Io(short_write_text()))
            },
            EventView::WouldBlock(detail) => self.close(EndingView::Io(detail)),
            EventView::Failed(detail) => self.close(EndingView::Io(detail)),
            _ => self.misfit(),
        }
    }

    /// The step upon a socket's switch to non-blocking mode: after the
    /// client's comes the server's, after that the relay's first turn.
    pub open spec fn unblocked(self, side: Side, event: EventView) -> (State, ActionView) {
        match event {
            EventView::Done => match side {
                Side::Client => (
                    State { phase: Phase::Unblocking(Side::Server), ..self },
                    ActionView::Unblock(Side::Server),
                ),
                Side::Server => self.turn(Side::Client),
            },
            EventView::WouldBlock(detail) => self.close(EndingView::Io(detail)),
            EventView::Failed(detail) => self.close(EndingView::Io(detail)),
            _ => self.misfit(),
        }
    }

    /// What a channel's status means for the connection, where `socket` is
    /// the socket that was read from or written to, and `next` the socket
    /// whose channel has the turn if the connection goes on. A closed peer is
    /// the peer of `socket`.
    pub open spec fn relayed(self, socket: Side, status: StatusView, next: Side) -> (
        State,
        ActionView,
    ) {
        match status {
            StatusView::Continue => self.turn(next),
            StatusView::PeerClosed => self.close(EndingView::closed_by(socket)),
            StatusView::Error(detail) => self.close(EndingView::Io(detail)),
        }
    }

    /// The step upon a read from `source`: bytes are offered to the other
    /// socket at once; without bytes the other channel has its turn. A read
    /// of no bytes means that `source` has closed.
    pub open spec fn received(self, source: Side, event: EventView) -> (State, ActionView) {
        let (channel, status) = self.channel_from(source).after_read(event);
        let next = if channel.pending() > 0 {
            source
        } else {
            source.other()
        };
        self.with_channel_from(source, channel).relayed(source, status, next)
    }

    /// The step upon a write to `to`: the channel that reads from `to` has
    /// its turn. A write of no bytes means that `to` has closed.
    pub open spec fn sent(self, to: Side, event: EventView) -> (State, ActionView) {
        let source = to.other();
        let (channel, status) = self.channel_from(source).after_write(event);
        self.with_channel_from(source, channel).relayed(to, status, to)
    }

    /// Every step keeps the invariant. Every read that a step asks for is a
    /// relay read for an empty channel, with room for all that is asked for.
    pub proof fn step_keeps_invariant(self, event: EventView)
        requires
            self.inv(),
        ensures
            self.step(event).0.inv(),
            self.step(event).1 matches ActionView::Read { from, room } ==> {
                &&& self.step(event).0.phase == Phase::Receiving(from)
                &&& self.step(event).0.channel_from(from).pending() == 0
                &&& self.step(event).0.channel_from(from).capacity == room
            },
    {
    }

    /// The transition: the state after `event`, and the action to perform.
    pub open spec fn step(self, event: EventView) -> (State, ActionView) {
        match self.phase {
            Phase::Opening => self.opened(event),
            Phase::Resolving => self.resolved(event),
            Phase::Dialing { tunnel } => self.dialed(tunnel, event),
            Phase::Greeting { tunnel } => self.greeted(tunnel, event),
            Phase::Unblocking(side) => self.unblocked(side, event),
            Phase::Receiving(source) => self.received(source, event),
            Phase::Sending(to) => self.sent(to, event),
            Phase::Closed => self.misfit(),
        }
    }
}

/// One client connection.
#[derive(Debug)]
pub struct Connection {
    phase: Phase,
    request: Vec<u8>,
    upstream: Channel,
    downstream: Channel,
}

impl View for Connection {
    type V = State;

    closed spec fn view(&self) -> State {
        State {
            phase: self.phase,
            request: self.request@,
            upstream: self.upstream@,
            downstream: self.downstream@,
        }
    }
}

/// The tunnel reply, as bytes.
fn reply_bytes() -> (bytes: &'static [u8])
    ensures
        bytes@ == reply(),
{
    "HTTP/1.1 200 OK\r\n\r\n".as_bytes()
}

impl Connection {
    /// A connection for a client that has just been accepted, and the action
    /// that it starts with: reading the opening request.
    pub fn open() -> (begun: (Connection, Action))
        ensures
            begun.0@ == State::initial(),
            begun.0@.inv(),
            begun.1@ == State::first_action(),
    {
        let connection = Connection {
            phase: Phase::Opening,
            request: Vec::new(),
            upstream: Channel::new(RELAY_CAPACITY),
            downstream: Channel::new(RELAY_CAPACITY),
        };
        (connection, Action::Read { from: Side::Client, room: REQUEST_CAP })
    }

    /// Where the connection stands.
    pub fn phase(&self) -> (phase: Phase)
        ensures
            phase == self@.phase,
    {
        self.phase
    }

    /// Whether the connection is over.
    pub fn is_closed(&self) -> (over: bool)
        ensures
            over == (self@.phase == Phase::Closed),
    {
        match self.phase {
            Phase::Closed => true,
            _ => false,
        }
    }

    /// The number of bytes that the channel reading from `source` holds.
    pub fn pending(&self, source: Side) -> (n: usize)
        ensures
            n == self@.channel_from(source).pending(),
    {
        match source {
            Side::Client => self.upstream.pending(),
            Side::Server => self.downstream.pending(),
        }
    }

    fn close(&mut self, ending: Ending) -> (action: Action)
        ensures
            (final(self)@, action@) == old(self)@.close(ending@),
    {
        self.phase = Phase::Closed;
        Action::Close(ending)
    }

    fn misfit(&mut self) -> (action: Action)
        ensures
            (final(self)@, action@) == old(self)@.misfit(),
    {
        self.close(Ending::Io(misfit_detail()))
    }

    fn turn(&mut self, source: Side) -> (action: Action)
        ensures
            (final(self)@, action@) == old(self)@.turn(source),
    {
        let channel = match source {
            Side::Client => &self.upstream,
            Side::Server => &self.downstream,
        };
        if channel.pending() == 0 {
            let room = channel.capacity();
            self.phase = Phase::Receiving(source);
            Action::Read { from: source, room }
        } else {
            let bytes = slice_to_vec(channel.held());
            self.phase = Phase::Sending(source.opposite());
            Action::Write { to: source.opposite(), bytes }
        }
    }

    fn opened(&mut self, event: Event) -> (action: Action)
        ensures
            (final(self)@, action@) == old(self)@.opened(event@),
    {
        match event {
            Event::Data(bytes) => if bytes.len() <= REQUEST_CAP {
                match route(bytes.as_slice()) {
                    Err(ending) => self.close(ending),
                    Ok(Route::Tunnel(authority)) => {
                        self.phase = Phase::Dialing { tunnel: true };
                        Action::Connect(Target::Authority(authority))
                    },
                    Ok(Route::Forward { host, port }) => {
                        self.phase = Phase::Resolving;
                        self.request = bytes;
                        Action::Resolve { host, port }
                    },
                }
            } else {
                self.misfit()
            },
            Event::WouldBlock(detail) => self.close(Ending::Io(detail)),
            Event::Failed(detail) => self.close(Ending::Io(detail)),
            _ => self.misfit(),
        }
    }

    fn resolved(&mut self, event: Event) -> (action: Action)
        ensures
            (final(self)@, action@) == old(self)@.resolved(event@),
    {
        match event {
            Event::Resolved(found) => if found.len() == 0 {
                self.close(
                    Ending::Unreachable(
                        String::from_str("Unable to parse url into socket address"),
                    ),
                )
            } else {
                self.phase = Phase::Dialing { tunnel: false };
                Action::Connect(Target::Address(found[0]))
            },
            Event::WouldBlock(detail) => self.close(Ending::Unreachable(detail)),
            Event::Failed(detail) => self.close(Ending::Unreachable(detail)),
            _ => self.misfit(),
        }
    }

    fn dialed(&mut self, tunnel: bool, event: Event) -> (action: Action)
        ensures
            (final(self)@, action@) == old(self)@.dialed(tunnel, event@),
    {
        match event {
            Event::Done => {
                self.phase = Phase::Greeting { tunnel };
                if tunnel {
                    Action::Write { to: Side::Client, bytes: slice_to_vec(reply_bytes()) }
                } else {
                    Action::Write { to: Side::Server, bytes: slice_to_vec(self.request.as_slice()) }
                }
            },
            Event::WouldBlock(detail) => self.close(Ending::Unreachable(detail)),
            Event::Failed(detail) => self.close(Ending::Unreachable(detail)),
            _ => self.misfit(),
        }
    }

    fn greeted(&mut self, tunnel: bool, event: Event) -> (action: Action)
        ensures
            (final(self)@, action@) == old(self)@.greeted(tunnel, event@),
    {
        match event {
            Event::Wrote(count) => {
                let offered = if tunnel {
                    reply_bytes().len()
                } else {
                    self.request.len()
                };
                if count == offered {
                    self.phase = Phase::Unblocking(Side::Client);
                    Action::Unblock(Side::Client)
                } else {
                    self.close(Ending::Io(short_write_detail()))
                }
            },
            Event::WouldBlock(detail) => self.close(Ending::Io(detail)),
            Event::Failed(detail) => self.close(Ending::Io(detail)),
            _ => self.misfit(),
        }
    }

    fn unblocked(&mut self, side: Side, event: Event) -> (action: Action)
        ensures
            (final(self)@, action@) == old(self)@.unblocked(side, event@),
    {
        match event {
            Event::Done => match side {
                Side::Client => {
                    self.phase = Phase::Unblocking(Side::Server);
                    Action::Unblock(Side::Server)
                },
                Side::Server => self.turn(Side::Client),
            },
            Event::WouldBlock(detail) => self.close(Ending::Io(detail)),
            Event::Failed(detail) => self.close(Ending::Io(detail)),
            _ => self.misfit(),
        }
    }

    fn relayed(&mut self, socket: Side, status: Status, next: Side) -> (action: Action)
        ensures
            (final(self)@, action@) == old(self)@.relayed(socket, status@, next),
    {
        match status {
            Status::Continue => self.turn(next),
            Status::PeerClosed => self.close(Ending::closed_by(socket)),
            Status::Error(detail) => self.close(Ending::Io(detail)),
        }
    }

    fn received(&mut self, source: Side, event: Event) -> (action: Action)
        ensures
            (final(self)@, action@) == old(self)@.received(source, event@),
    {
        let status = match source {
            Side::Client => self.upstream.read_done(event),
            Side::Server => self.downstream.read_done(event),
        };
        let next = if self.pending(source) > 0 {
            source
        } else {
            source.opposite()
        };
        self.relayed(source, status, next)
    }

    fn sent(&mut self, to: Side, event: Event) -> (action: Action)
        ensures
            (final(self)@, action@) == old(self)@.sent(to, event@),
    {
        let source = to.opposite();
        let status = match source {
            Side::Client => self.upstream.write_done(event),
            Side::Server => self.downstream.write_done(event),
        };
        self.relayed(to, status, to)
    }

    /// Takes the answer to the action asked for last, and says what to do
    /// next.
    pub fn advance(&mut self, event: Event) -> (action: Action)
        ensures
            (final(self)@, action@) == old(self)@.step(event@),
            old(self)@.inv() ==> final(self)@.inv(),
    {
        proof {
            if old(self)@.inv() {
                old(self)@.step_keeps_invariant(event@);
            }
        }
        match self.phase {
            Phase::Opening => self.opened(event),
            Phase::Resolving => self.resolved(event),
            Phase::Dialing { tunnel } => self.dialed(tunnel, event),
            Phase::Greeting { tunnel } => self.greeted(tunnel, event),
            Phase::Unblocking(side) => self.unblocked(side, event),
            Phase::Receiving(source) => self.received(source, event),
            Phase::Sending(to) => self.sent(to, event),
            Phase::Closed => self.misfit(),
        }
    }
}

} // verus!
