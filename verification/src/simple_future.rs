//! A hand-rolled future interface: a computation that is advanced by `poll`
//! and that registers a callback to be invoked when it can make progress.

use vstd::prelude::*;

verus! {

/// The outcome of advancing a suspendable computation one step: either it
/// finished with a value, or it is not ready yet and has arranged to be
/// woken when it can make progress.
pub enum Poll<T> {
    Ready(T),
    Pending,
}

impl<T> Poll<T> {
    /// True exactly when this outcome carries a final value.
    pub fn is_ready(&self) -> (b: bool)
        ensures
            b == (self is Ready),
    {
        match self {
            Poll::Ready(_) => true,
            Poll::Pending => false,
        }
    }
}

/// A suspendable computation advanced by hand. `poll` drives it as far as it
/// can go; a computation that returns `Pending` must hand the `wake` callback
/// to whoever will know when progress is possible, so that it gets polled
/// again.
pub trait SimpleFuture {
    type Output;

    fn poll<W: Fn()>(&mut self, wake: W) -> (p: Poll<Self::Output>)
        requires
            wake.requires(()),
    ;
}

} // verus!
