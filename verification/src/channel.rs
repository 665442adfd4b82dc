//! The relay channel: a one-directional byte pump with a bounded buffer.
//!
//! A channel holds the bytes that were read from its source and not yet
//! accepted by its destination. While it holds any, it reads nothing more.

use vstd::prelude::*;
use crate::event::{
    misfit_detail, misfit_text, short_write_detail, short_write_text, Event, EventView,
};

verus! {

/// What one step of a channel means for the connection.
#[derive(Clone, Debug, PartialEq, Eq)]
pub enum Status {
    /// The connection goes on.
    Continue,
    /// A socket was found closed: the connection is over.
    PeerClosed,
    /// The connection cannot go on.
    Error(String),
}

/// The mathematical content of a [`Status`].
pub enum StatusView {
    Continue,
    PeerClosed,
    Error(Seq<char>),
}

impl View for Status {
    type V = StatusView;

    open spec fn view(&self) -> StatusView {
        match self {
            Status::Continue => StatusView::Continue,
            Status::PeerClosed => StatusView::PeerClosed,
            Status::Error(detail) => StatusView::Error(detail@),
        }
    }
}

/// The mathematical content of a [`Channel`]: its capacity and the bytes that
/// it holds, oldest first.
pub struct ChannelView {
    pub capacity: nat,
    pub held: Seq<u8>,
}

impl ChannelView {
    /// An empty channel of the given capacity.
    pub open spec fn empty(capacity: nat) -> ChannelView {
        ChannelView { capacity, held: Seq::empty() }
    }

    /// The channel never holds more than its capacity.
    pub open spec fn inv(self) -> bool {
        self.held.len() <= self.capacity
    }

    /// The number of bytes read and not yet written.
    pub open spec fn pending(self) -> nat {
        self.held.len()
    }

    /// The channel after the answer to a read from its source.
    ///
    /// A read is due only while nothing is pending. Bytes become the pending
    /// ones; no bytes mean that the source has closed; a socket that is not
    /// ready changes nothing.
    pub open spec fn after_read(self, event: EventView) -> (ChannelView, StatusView) {
        if self.pending() > 0 {
            (self, StatusView::Error(misfit_text()))
        } else {
            match event {
                EventView::Data(bytes) => {
                    if bytes.len() == 0 {
                        (self, StatusView::PeerClosed)
                    } else if bytes.len() <= self.capacity {
                        (ChannelView { held: bytes, ..self }, StatusView::Continue)
                    } else {
                        (self, StatusView::Error(misfit_text()))
                    }
                },
                EventView::WouldBlock(_) => (self, StatusView::Continue),
                EventView::Failed(detail) => (self, StatusView::Error(detail)),
                _ => (self, StatusView::Error(misfit_text())),
            }
        }
    }

    /// The channel after the answer to a write of all pending bytes to its
    /// destination.
    ///
    /// A write is due only while bytes are pending. If all were accepted the
    /// channel is empty again; if none, the destination has closed; a part is
    /// an error; a socket that is not ready changes nothing.
    pub open spec fn after_write(self, event: EventView) -> (ChannelView, StatusView) {
        if self.pending() == 0 {
            (self, StatusView::Error(misfit_text()))
        } else {
            match event {
                EventView::Wrote(count) => {
                    if count == 0 {
                        (self, StatusView::PeerClosed)
                    } else if count == self.pending() {
                        (ChannelView { held: Seq::empty(), ..self }, StatusView::Continue)
                    } else {
                        (self, StatusView::Error(short_write_text()))
                    }
                },
                EventView::WouldBlock(_) => (self, StatusView::Continue),
                EventView::Failed(detail) => (self, StatusView::Error(detail)),
                _ => (self, StatusView::Error(misfit_text())),
            }
        }
    }
}

/// A relay channel.
#[derive(Debug)]
pub struct Channel {
    capacity: usize,
    held: Vec<u8>,
}

impl View for Channel {
    type V = ChannelView;

    closed spec fn view(&self) -> ChannelView {
        ChannelView { capacity: self.capacity as nat, held: self.held@ }
    }
}

impl Channel {
    /// No channel ever holds more than its buffer has room for.
    #[verifier::type_invariant]
    spec fn within_capacity(self) -> bool {
        self.held@.len() <= self.capacity
    }

    /// An empty channel whose buffer has room for `capacity` bytes.
    pub fn new(capacity: usize) -> (channel: Channel)
        ensures
            channel@ == ChannelView::empty(capacity as nat),
    {
        Channel { capacity, held: Vec::new() }
    }

    /// The size of the buffer.
    pub fn capacity(&self) -> (n: usize)
        ensures
            n == self@.capacity,
            self@.inv(),
    {
        proof {
            use_type_invariant(self);
        }
        self.capacity
    }

    /// The number of bytes read and not yet written: never more than the
    /// buffer has room for.
    pub fn pending(&self) -> (n: usize)
        ensures
            n == self@.pending(),
            n <= self@.capacity,
            self@.inv(),
    {
        proof {
            use_type_invariant(self);
        }
        self.held.len()
    }

    /// The pending bytes, oldest first: what the next write offers.
    pub fn held(&self) -> (bytes: &[u8])
        ensures
            bytes@ == self@.held,
            self@.inv(),
    {
        proof {
            use_type_invariant(self);
        }
        self.held.as_slice()
    }

    /// Takes the answer to a read from the source.
    pub fn read_done(&mut self, event: Event) -> (status: Status)
        ensures
            final(self)@.inv(),
            (final(self)@, status@) == old(self)@.after_read(event@),
    {
        proof {
            use_type_invariant(&*self);
        }
        if self.held.len() > 0 {
            return Status::Error(misfit_detail());
        }
        match event {
            Event::Data(bytes) => {
                if bytes.len() == 0 {
                    Status::PeerClosed
                } else if bytes.len() <= self.capacity {
                    self.held = bytes;
                    Status::Continue
                } else {
                    Status::Error(misfit_detail())
                }
            },
            Event::WouldBlock(_) => Status::Continue,
            Event::Failed(detail) => Status::Error(detail),
            _ => Status::Error(misfit_detail()),
        }
    }

    /// Takes the answer to a write of the pending bytes to the destination.
    pub fn write_done(&mut self, event: Event) -> (status: Status)
        ensures
            final(self)@.inv(),
            (final(self)@, status@) == old(self)@.after_write(event@),
    {
        proof {
            use_type_invariant(&*self);
        }
        if self.held.len() == 0 {
            return Status::Error(misfit_detail());
        }
        match event {
            Event::Wrote(count) => {
                if count == 0 {
                    Status::PeerClosed
                } else if count == self.held.len() {
                    self.held = Vec::new();
                    Status::Continue
                } else {
                    Status::Error(short_write_detail())
                }
            },
            Event::WouldBlock(_) => Status::Continue,
            Event::Failed(detail) => Status::Error(detail),
            _ => Status::Error(misfit_detail()),
        }
    }
}

} // verus!
