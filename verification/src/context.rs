//! What a node sees of the tree above it: the way to its parent and,
//! through it, to the root's registry.

use crate::kernel::IRQ_CAPACITY;
use vstd::prelude::*;

verus! {

/// The way from a node to the root's registry of interrupt lines.
pub trait IrqRegistrar: Sized {
    /// The lines registered with the root so far, first registered first.
    /// None can be seen once the tree has been started.
    spec fn lines(&self) -> Seq<u8>;

    /// Whether the root still takes registrations: it does while the tree is
    /// being started.
    spec fn wiring(&self) -> bool;

    /// Whether taking a registration of the line `irq` may turn this
    /// context into `after`. An implementation that says nothing of itself
    /// allows everything.
    open spec fn registers(&self, irq: u8, after: &Self) -> bool {
        true
    }

    /// Whether the root still takes registrations.
    fn is_wiring(&self) -> (wiring: bool)
        ensures
            wiring == self.wiring(),
    ;

    /// Binds a new handler to the line `irq` in the root's registry and
    /// returns its position there. Returns nothing, and changes nothing, when
    /// the registry is full or the tree has been started already.
    #[must_use]
    fn register_irq(&mut self, irq: u8) -> (handler: Option<usize>)
        ensures
            final(self).wiring() == old(self).wiring(),
            match handler {
                Some(position) => {
                    &&& old(self).wiring() && old(self).lines().len() < IRQ_CAPACITY
                    &&& position == old(self).lines().len()
                    &&& final(self).lines() == old(self).lines().push(irq)
                    &&& old(self).registers(irq, final(self))
                },
                None => {
                    &&& !(old(self).wiring() && old(self).lines().len() < IRQ_CAPACITY)
                    &&& *final(self) == *old(self)
                },
            },
    ;
}

/// The tree above a node whose messages to its parent have type `M`.
pub trait UpstreamContext<M>: IrqRegistrar {
    /// Whether delivering `message` may turn this context into `after`. An
    /// implementation that says nothing of itself allows everything.
    open spec fn delivers(&self, message: M, after: &Self) -> bool {
        true
    }

    /// Delivers `message` to the parent, whose handler has run to completion
    /// when this returns. No line is registered by it.
    fn send(&mut self, message: M)
        ensures
            old(self).delivers(message, final(self)),
            final(self).lines() == old(self).lines(),
            final(self).wiring() == old(self).wiring(),
    ;
}

/// Whether a registration made through `upstream` is taken: the tree is being
/// started and the registry has room.
pub open spec fn takes_registration<U: IrqRegistrar>(upstream: &U) -> bool {
    upstream.wiring() && upstream.lines().len() < IRQ_CAPACITY
}

} // verus!
