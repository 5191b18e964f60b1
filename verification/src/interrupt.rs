//! Leaves of the tree that answer an interrupt line.

use crate::context::{takes_registration, IrqRegistrar, UpstreamContext};
use core::marker::PhantomData;
use vstd::prelude::*;

verus! {

/// A leaf that answers one interrupt line. It receives no messages; what it
/// has to say goes to its parent.
pub trait Interrupt: Sized {
    /// The type of message sent to the parent.
    type OutboundMessage;

    /// The tree above the leaf.
    type Upstream: UpstreamContext<Self::OutboundMessage>;

    /// The line that this leaf answers: what `irq` returns.
    spec fn line(&self) -> u8;

    /// Whether the interrupt hook may turn this leaf into `after` and the
    /// tree above it from `upstream` into `upstream_after`. An implementation
    /// that says nothing of itself allows everything.
    open spec fn fires(
        &self,
        upstream: Self::Upstream,
        after: Self,
        upstream_after: Self::Upstream,
    ) -> bool {
        true
    }

    /// The number of the line that this leaf answers.
    fn irq(&self) -> (irq: u8)
        ensures
            irq == self.line(),
    ;

    /// What to do when the line fires. Runs to completion and hands the
    /// context back. The tree has been started, so the context takes no
    /// registrations, and the registry stays as it is.
    fn on_interrupt(&mut self, context: InterruptContext<Self, Self::Upstream>) -> (after:
        InterruptContext<Self, Self::Upstream>)
        requires
            !context.upstream.wiring(),
        ensures
            old(self).fires(context.upstream, *final(self), after.upstream),
            !after.upstream.wiring(),
            after.upstream.lines() == context.upstream.lines(),
    ;
}

/// What an interrupt leaf of type `I` is handed when its line fires: the way
/// upstream.
pub struct InterruptContext<I, U> {
    /// The tree above the leaf.
    pub upstream: U,
    /// The type of the leaf.
    pub interrupt: PhantomData<I>,
}

impl<I, U> InterruptContext<I, U> {
    /// The context of a leaf below `upstream`.
    pub fn new(upstream: U) -> (context: Self)
        ensures
            context.upstream == upstream,
    {
        InterruptContext { upstream, interrupt: PhantomData }
    }

    /// Sends `message` to the parent. The parent's handler has run to
    /// completion when this returns.
    pub fn send<M>(&mut self, message: M) where U: UpstreamContext<M>
        ensures
            old(self).upstream.delivers(message, &final(self).upstream),
            final(self).upstream.lines() == old(self).upstream.lines(),
            final(self).upstream.wiring() == old(self).upstream.wiring(),
    {
        self.upstream.send(message)
    }
}

/// A node that a fired line is routed into.
pub trait Interruptable {
    /// The tree above this node.
    type Upstream: IrqRegistrar;

    /// Whether this node has been started, so that a line can be routed into
    /// it. An implementation that says nothing of itself always has.
    open spec fn started(&self) -> bool {
        true
    }

    /// Invokes the leaf registered as `handler`, if this node holds it, with
    /// `upstream` as the tree above this node, and hands `upstream` back.
    /// This is for a node that has been started. The registry stays as it
    /// is.
    fn interrupt(&mut self, handler: usize, upstream: Self::Upstream) -> (after: Self::Upstream)
        requires
            old(self).started(),
        ensures
            after.wiring() == upstream.wiring(),
            after.lines() == upstream.lines(),
    ;
}

/// The wrapper that gives an interrupt leaf its place in the tree.
pub struct ConnectedInterrupt<I: Interrupt> {
    interrupt: I,
    context: Option<usize>,
}

impl<I: Interrupt> ConnectedInterrupt<I> {
    /// The leaf inside.
    pub closed spec fn node(&self) -> I {
        self.interrupt
    }

    /// The position of this leaf in the root's registry, once it has been
    /// started.
    pub closed spec fn spec_registration(&self) -> Option<usize> {
        self.context
    }

    /// The position of this leaf in the root's registry, once it has been
    /// started.
    #[verifier::when_used_as_spec(spec_registration)]
    pub fn registration(&self) -> (registration: Option<usize>)
        ensures
            registration == self.registration(),
    {
        self.context
    }

    /// Wraps a leaf. It is not started yet.
    pub fn new(interrupt: I) -> (connected: Self)
        ensures
            connected.node() == interrupt,
            connected.registration() is None,
    {
        ConnectedInterrupt { interrupt, context: None }
    }

    /// Lends the leaf.
    pub fn leaf(&mut self) -> (leaf: &mut I)
        ensures
            *leaf == old(self).node(),
            final(self).node() == *final(leaf),
            final(self).registration() == old(self).registration(),
    {
        &mut self.interrupt
    }

    /// Starts the leaf, once: reads its line and registers that line with
    /// the root's registry, through `upstream`. Returns whether the
    /// registration was taken; if it was not, the leaf is not started and
    /// nothing has changed.
    #[must_use]
    pub fn start(&mut self, upstream: &mut I::Upstream) -> (started: bool)
        requires
            old(self).registration() is None,
        ensures
            final(self).node() == old(self).node(),
            final(upstream).wiring() == old(upstream).wiring(),
            started == takes_registration(old(upstream)),
            started ==> {
                &&& final(self).registration() == Some(old(upstream).lines().len() as usize)
                &&& final(upstream).lines() == old(upstream).lines().push(old(self).node().line())
                &&& old(upstream).registers(old(self).node().line(), final(upstream))
            },
            !started ==> {
                &&& final(self).registration() is None
                &&& *final(upstream) == *old(upstream)
            },
    {
        let irq = self.interrupt.irq();
        match upstream.register_irq(irq) {
            Some(position) => {
                self.context = Some(position);
                true
            },
            None => false,
        }
    }
}

impl<I: Interrupt> Interruptable for ConnectedInterrupt<I> {
    type Upstream = I::Upstream;

    /// A leaf has been started once it holds its position in the registry.
    open spec fn started(&self) -> bool {
        self.registration() is Some
    }

    /// Runs the leaf's interrupt hook, with a context that holds `upstream`,
    /// if the leaf was registered as `handler` and the tree has been
    /// started; otherwise nothing is touched. Hands back the tree above as
    /// the hook left it. While the tree is being started, which the context
    /// shows by taking registrations, no hook is run.
    fn interrupt(&mut self, handler: usize, upstream: I::Upstream) -> (after: I::Upstream)
        ensures
            final(self).registration() == old(self).registration(),
            old(self).registration() == Some(handler) && !upstream.wiring() ==> old(
                self,
            ).node().fires(upstream, final(self).node(), after),
            old(self).registration() != Some(handler) || upstream.wiring() ==> {
                &&& *final(self) == *old(self)
                &&& after == upstream
            },
    {
        if self.context == Some(handler) && !upstream.is_wiring() {
            let context = InterruptContext::new(upstream);
            let context = self.interrupt.on_interrupt(context);
            context.upstream
        } else {
            upstream
        }
    }
}

} // verus!
