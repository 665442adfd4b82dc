//! What the caller reports to a connection, and how a connection can end.

use vstd::prelude::*;

verus! {

/// One of the two sockets of a connection.
#[derive(Clone, Copy, Debug, PartialEq, Eq, Structural)]
pub enum Side {
    /// The socket that the proxy accepted.
    Client,
    /// The socket that the proxy opened to the target.
    Server,
}

impl Side {
    /// The opposite socket.
    pub open spec fn other(self) -> Side {
        match self {
            Side::Client => Side::Server,
            Side::Server => Side::Client,
        }
    }

    /// The opposite socket.
    pub fn opposite(self) -> (r: Side)
        ensures
            r == self.other(),
    {
        match self {
            Side::Client => Side::Server,
            Side::Server => Side::Client,
        }
    }
}

/// An IPv4 socket address: the address as its 32 bits, and a port.
#[derive(Clone, Copy, Debug, PartialEq, Eq, Structural)]
pub struct AddressV4 {
    pub ip: u32,
    pub port: u16,
}

/// An IPv6 socket address: the address as its 128 bits, a port, and the flow
/// information and scope that go with it.
#[derive(Clone, Copy, Debug, PartialEq, Eq, Structural)]
pub struct AddressV6 {
    pub ip: u128,
    pub port: u16,
    pub flowinfo: u32,
    pub scope_id: u32,
}

/// A socket address that a host name resolved to.
#[derive(Clone, Copy, Debug, PartialEq, Eq, Structural)]
pub enum Address {
    V4(AddressV4),
    V6(AddressV6),
}

/// What came of the action that a connection asked for last.
#[derive(Clone, Debug, PartialEq, Eq)]
pub enum Event {
    /// A read returned these bytes; none means that the peer has closed.
    Data(Vec<u8>),
    /// A write accepted this many bytes; zero means that the peer has closed.
    Wrote(usize),
    /// The host name resolved to these addresses, in this order.
    Resolved(Vec<Address>),
    /// A connect, or a switch to non-blocking mode, succeeded.
    Done,
    /// A read or write found the socket not ready.
    WouldBlock(String),
    /// The action failed for any other reason.
    Failed(String),
}

/// The mathematical content of an [`Event`].
pub enum EventView {
    Data(Seq<u8>),
    Wrote(nat),
    Resolved(Seq<Address>),
    Done,
    WouldBlock(Seq<char>),
    Failed(Seq<char>),
}

impl View for Event {
    type V = EventView;

    open spec fn view(&self) -> EventView {
        match self {
            Event::Data(bytes) => EventView::Data(bytes@),
            Event::Wrote(count) => EventView::Wrote(*count as nat),
            Event::Resolved(found) => EventView::Resolved(found@),
            Event::Done => EventView::Done,
            Event::WouldBlock(detail) => EventView::WouldBlock(detail@),
            Event::Failed(detail) => EventView::Failed(detail@),
        }
    }
}

/// How a connection ended.
#[derive(Clone, Debug, PartialEq, Eq)]
pub enum Ending {
    /// The client has closed: a read from its socket brought no bytes, or a
    /// write to it took none.
    ClientClosed,
    /// The server has closed: a read from its socket brought no bytes, or a
    /// write to it took none.
    ServerClosed,
    /// The opening request, or the target that it names, could not be parsed.
    Protocol(String),
    /// The target could not be resolved or connected to.
    Unreachable(String),
    /// A read or a write failed; or a relay write took only a part of what
    /// was offered; or the handshake's write did not take all.
    Io(String),
}

/// The mathematical content of an [`Ending`].
pub enum EndingView {
    ClientClosed,
    ServerClosed,
    Protocol(Seq<char>),
    Unreachable(Seq<char>),
    Io(Seq<char>),
}

impl EndingView {
    /// The line that reports this ending.
    pub open spec fn text(self) -> Seq<char> {
        match self {
            EndingView::ClientClosed => "Client socket closed"@,
            EndingView::ServerClosed => "Server socket closed"@,
            EndingView::Protocol(detail) => detail,
            EndingView::Unreachable(detail) => detail,
            EndingView::Io(detail) => detail,
        }
    }

    /// The ending reported when the peer of `side` has closed.
    pub open spec fn closed_by(side: Side) -> EndingView {
        match side {
            Side::Client => EndingView::ClientClosed,
            Side::Server => EndingView::ServerClosed,
        }
    }
}

impl View for Ending {
    type V = EndingView;

    open spec fn view(&self) -> EndingView {
        match self {
            Ending::ClientClosed => EndingView::ClientClosed,
            Ending::ServerClosed => EndingView::ServerClosed,
            Ending::Protocol(detail) => EndingView::Protocol(detail@),
            Ending::Unreachable(detail) => EndingView::Unreachable(detail@),
            Ending::Io(detail) => EndingView::Io(detail@),
        }
    }
}

impl Ending {
    /// The line that reports this ending.
    pub fn message(&self) -> (line: String)
        ensures
            line@ == self@.text(),
    {
        match self {
            Ending::ClientClosed => String::from_str("Client socket closed"),
            Ending::ServerClosed => String::from_str("Server socket closed"),
            Ending::Protocol(detail) => detail.clone(),
            Ending::Unreachable(detail) => detail.clone(),
            Ending::Io(detail) => detail.clone(),
        }
    }

    /// The ending reported when the peer of `side` has closed.
    pub fn closed_by(side: Side) -> (ending: Ending)
        ensures
            ending@ == EndingView::closed_by(side),
    {
        match side {
            Side::Client => Ending::ClientClosed,
            Side::Server => Ending::ServerClosed,
        }
    }
}

/// The detail reported when an event does not answer the action asked for.
pub open spec fn misfit_text() -> Seq<char> {
    "Event does not answer the action"@
}

/// The detail reported when a write did not take all of the bytes offered.
pub open spec fn short_write_text() -> Seq<char> {
    "Unable to write all bytes to stream"@
}

/// The detail of [`misfit_text`], as a string.
pub(crate) fn misfit_detail() -> (detail: String)
    ensures
        detail@ == misfit_text(),
{
    String::from_str("Event does not answer the action")
}

/// The detail of [`short_write_text`], as a string.
pub(crate) fn short_write_detail() -> (detail: String)
    ensures
        detail@ == short_write_text(),
{
    String::from_str("Unable to write all bytes to stream")
}

} // verus!
