//! A sketch of an event-driven read as a hand-rolled future: the computation
//! finishes at once when data is available, and otherwise hands its wake
//! callback to the socket so that it is polled again when data arrives.

use vstd::prelude::*;

use crate::simple_future::Poll;
use crate::simple_future::SimpleFuture;

verus! {

/// A stand-in for an event source. This model socket never has data, so a
/// read parked on it stays pending until its callback is invoked.
pub struct Socket;

impl Socket {
    /// Whether a read would succeed right now. The model socket never has
    /// data.
    pub fn has_data_to_read(&self) -> (b: bool)
        ensures
            b == false,
    {
        false
    }

    /// The data a successful read returns: one fixed byte in this model.
    pub fn read_buf(&self) -> (buf: Vec<u8>)
        ensures
            buf@ == seq![1u8],
    {
        let mut buf = Vec::new();
        buf.push(1u8);
        proof {
            assert(buf@ =~= seq![1u8]);
        }
        buf
    }

    /// Registers a callback to be invoked once data arrives. The model
    /// socket invokes it immediately.
    pub fn set_readable_callback<W: Fn()>(&self, wake: W)
        requires
            wake.requires(()),
    {
        wake();
    }
}

/// A hand-rolled future that reads from a socket: ready with the buffered
/// bytes when data is available, otherwise pending with its wake callback
/// left at the socket.
pub struct SocketRead<'a> {
    pub socket: &'a Socket,
}

impl<'a> SimpleFuture for SocketRead<'a> {
    type Output = Vec<u8>;

    /// The model socket never has data, so this read always parks: it
    /// registers the callback and reports `Pending`.
    fn poll<W: Fn()>(&mut self, wake: W) -> (p: Poll<Vec<u8>>)
        ensures
            p is Pending,
    {
        if self.socket.has_data_to_read() {
            Poll::Ready(self.socket.read_buf())
        } else {
            self.socket.set_readable_callback(wake);
            Poll::Pending
        }
    }
}

} // verus!
