//! The two sides of delivery between a node and its parent.

use crate::context::IrqRegistrar;
use vstd::prelude::*;

verus! {

/// Implemented by a parent for each type of message that a child of it sends
/// upstream.
pub trait Handler<M> {
    /// Whether handling `message` may turn this handler into `after`. An
    /// implementation that says nothing of itself allows everything.
    open spec fn handles(&self, message: M, after: &Self) -> bool {
        true
    }

    /// Handles one message of a child, to completion, before it returns.
    fn on_message(&mut self, message: M)
        ensures
            old(self).handles(message, final(self)),
    ;
}

/// Implemented by a parent, below a tree of type `U`, for each type of
/// message of a child that it handles with the tree above it at hand: to
/// pass the event on, for one.
pub trait Forwarder<M, U: IrqRegistrar> {
    /// Whether handling `message` may turn this parent into `after` and the
    /// tree above it from `upstream` into `upstream_after`. An implementation
    /// that says nothing of itself allows everything.
    open spec fn forwards(&self, message: M, upstream: U, after: &Self, upstream_after: U) -> bool {
        true
    }

    /// Handles one message of a child, to completion, before it returns.
    /// What it sends on through `upstream` has been handled above by then. It
    /// registers nothing.
    fn on_message(&mut self, message: M, upstream: &mut U)
        ensures
            old(self).forwards(message, *old(upstream), final(self), *final(upstream)),
            final(upstream).lines() == old(upstream).lines(),
            final(upstream).wiring() == old(upstream).wiring(),
    ;
}

/// Accepts one message at a time, and is done with it on return.
pub trait Sink<M> {
    /// Whether this sink can be sent to. An implementation that says nothing
    /// of itself always can.
    open spec fn ready(&self) -> bool {
        true
    }

    /// Whether accepting `message` may turn this sink into `after`. An
    /// implementation that says nothing of itself allows everything.
    open spec fn accepts(&self, message: M, after: &Self) -> bool {
        true
    }

    /// Accepts `message`.
    fn send(&mut self, message: M)
        requires
            old(self).ready(),
        ensures
            old(self).accepts(message, final(self)),
    ;
}

} // verus!
