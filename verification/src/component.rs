//! Components: the nodes of the tree that take messages from their parent
//! through a queue and handle the messages of their children.

use crate::context::{IrqRegistrar, UpstreamContext};
use crate::fifo::{AsyncConsumer, AsyncFifo, AsyncProducer, FifoView};
use crate::handler::{Forwarder, Handler, Sink};
use crate::interrupt::{InterruptContext, Interruptable};
use core::task::Waker;
use vstd::prelude::*;

verus! {

/// How many inbound messages a component's queue holds.
pub const INBOX_CAPACITY: usize = 32;

/// A node below the root. It takes messages of type `InboundMessage` from its
/// parent and sends messages of type `OutboundMessage` to it. The children
/// that send to it are held beside it, as its children; a child that only
/// takes messages from it may as well be held inside it.
pub trait Component: Sized {
    /// The type of message expected from the parent.
    type InboundMessage;

    /// The type of message sent to the parent.
    type OutboundMessage;

    /// The tree above the component.
    type Upstream: UpstreamContext<Self::OutboundMessage>;

    /// The children that send to the component.
    type Children;

    /// Whether the start hook may turn this component into `after`, its
    /// children from `children` into `children_after` and the tree above it
    /// from `upstream` into `upstream_after`. An implementation that says
    /// nothing of itself allows everything.
    open spec fn starts(
        &self,
        children: Self::Children,
        upstream: Self::Upstream,
        after: Self,
        children_after: Self::Children,
        upstream_after: Self::Upstream,
    ) -> bool {
        true
    }

    /// Whether routing the leaf registered as `handler` may turn this
    /// component into `after`, its children from `children` into
    /// `children_after` and the tree above it from `upstream` into
    /// `upstream_after`. An implementation that says nothing of itself
    /// allows everything.
    open spec fn routes(
        &self,
        children: Self::Children,
        handler: usize,
        upstream: Self::Upstream,
        after: Self,
        children_after: Self::Children,
        upstream_after: Self::Upstream,
    ) -> bool {
        true
    }

    /// Starts this component, which is `context.component`, and its
    /// children, passing `context` down to them, and hands the context back.
    /// What was registered above stays registered.
    fn start(children: &mut Self::Children, context: ComponentContext<Self, Self::Upstream>) -> (after:
        ComponentContext<Self, Self::Upstream>)
        ensures
            context.component.starts(
                *old(children),
                context.upstream,
                after.component,
                *final(children),
                after.upstream,
            ),
            after.upstream.wiring() == context.upstream.wiring(),
            context.upstream.lines().is_prefix_of(after.upstream.lines()),
    ;

    /// Routes a fired line to the children: passes `handler` to each child
    /// that may hold the leaf registered under that position, and hands the
    /// context back. The tree has been started, and the registry stays as
    /// it is.
    fn interrupt(
        children: &mut Self::Children,
        handler: usize,
        context: ComponentContext<Self, Self::Upstream>,
    ) -> (after: ComponentContext<Self, Self::Upstream>)
        requires
            !context.upstream.wiring(),
        ensures
            context.component.routes(
                *old(children),
                handler,
                context.upstream,
                after.component,
                *final(children),
                after.upstream,
            ),
            !after.upstream.wiring(),
            after.upstream.lines() == context.upstream.lines(),
    ;
}

/// What a component is started with, and what its children see above them:
/// the component itself and the tree above it.
pub struct ComponentContext<C, U> {
    /// The component.
    pub component: C,
    /// The tree above the component.
    pub upstream: U,
}

impl<C, U> ComponentContext<C, U> {
    /// The context of `component` below `upstream`.
    pub fn new(component: C, upstream: U) -> (context: Self)
        ensures
            context.component == component,
            context.upstream == upstream,
    {
        ComponentContext { component, upstream }
    }

    /// Sends `message` to the parent of the component. The parent's handler
    /// has run to completion when this returns.
    pub fn send<N>(&mut self, message: N) where U: UpstreamContext<N>
        ensures
            old(self).upstream.delivers(message, &final(self).upstream),
            final(self).upstream.lines() == old(self).upstream.lines(),
            final(self).upstream.wiring() == old(self).upstream.wiring(),
            final(self).component == old(self).component,
    {
        self.upstream.send(message)
    }
}

impl<C, U: IrqRegistrar> IrqRegistrar for ComponentContext<C, U> {
    /// The lines that the tree above has registered.
    open spec fn lines(&self) -> Seq<u8> {
        self.upstream.lines()
    }

    /// Whether the tree above is being started.
    open spec fn wiring(&self) -> bool {
        self.upstream.wiring()
    }

    /// A registration is taken by the tree above; the component is not
    /// touched.
    open spec fn registers(&self, irq: u8, after: &Self) -> bool {
        &&& self.upstream.registers(irq, &after.upstream)
        &&& after.upstream.lines() == self.upstream.lines().push(irq)
        &&& after.upstream.wiring() == self.upstream.wiring()
        &&& after.component == self.component
    }

    /// Whether the tree above is being started.
    fn is_wiring(&self) -> (wiring: bool) {
        self.upstream.is_wiring()
    }

    /// Passes a child's registration on to the tree above.
    fn register_irq(&mut self, irq: u8) -> (handler: Option<usize>)
        ensures
            final(self).component == old(self).component,
    {
        self.upstream.register_irq(irq)
    }
}

impl<M, C: Handler<M>, U: IrqRegistrar> UpstreamContext<M> for ComponentContext<C, U> {
    /// A child's message is handled by the component; the tree above the
    /// component is not touched.
    open spec fn delivers(&self, message: M, after: &Self) -> bool {
        &&& self.component.handles(message, &after.component)
        &&& after.upstream == self.upstream
    }

    /// Hands a child's message to the component's handler. When this returns
    /// the handler has run to completion on the component, and nothing above
    /// the component has been touched.
    fn send(&mut self, message: M)
        ensures
            old(self).component.handles(message, &final(self).component),
            final(self).upstream == old(self).upstream,
    {
        self.component.on_message(message)
    }
}

impl<C: Component> Sink<C::OutboundMessage> for ComponentContext<C, C::Upstream> {
    /// The message is delivered upstream; the component is not touched.
    open spec fn accepts(&self, message: C::OutboundMessage, after: &Self) -> bool {
        &&& self.upstream.delivers(message, &after.upstream)
        &&& after.component == self.component
    }

    /// Sends `message` to the parent of the component.
    fn send(&mut self, message: C::OutboundMessage) {
        self.upstream.send(message)
    }
}

/// A component's context in which the component handles what its children
/// send with the tree above it at hand, so that it can pass events on.
pub struct ForwardingContext<C, U> {
    /// The component.
    pub component: C,
    /// The tree above the component.
    pub upstream: U,
}

impl<C, U> ForwardingContext<C, U> {
    /// The same component below the same tree, handling with the tree at
    /// hand.
    pub fn new(context: ComponentContext<C, U>) -> (forwarding: Self)
        ensures
            forwarding.component == context.component,
            forwarding.upstream == context.upstream,
    {
        ForwardingContext { component: context.component, upstream: context.upstream }
    }

    /// The same component below the same tree, as a plain context again.
    pub fn into_context(self) -> (context: ComponentContext<C, U>)
        ensures
            context.component == self.component,
            context.upstream == self.upstream,
    {
        ComponentContext { component: self.component, upstream: self.upstream }
    }
}

impl<C, U: IrqRegistrar> IrqRegistrar for ForwardingContext<C, U> {
    /// The lines that the tree above has registered.
    open spec fn lines(&self) -> Seq<u8> {
        self.upstream.lines()
    }

    /// Whether the tree above is being started.
    open spec fn wiring(&self) -> bool {
        self.upstream.wiring()
    }

    /// A registration is taken by the tree above; the component is not
    /// touched.
    open spec fn registers(&self, irq: u8, after: &Self) -> bool {
        &&& self.upstream.registers(irq, &after.upstream)
        &&& after.upstream.lines() == self.upstream.lines().push(irq)
        &&& after.upstream.wiring() == self.upstream.wiring()
        &&& after.component == self.component
    }

    /// Whether the tree above is being started.
    fn is_wiring(&self) -> (wiring: bool) {
        self.upstream.is_wiring()
    }

    /// Passes a child's registration on to the tree above.
    fn register_irq(&mut self, irq: u8) -> (handler: Option<usize>)
        ensures
            final(self).component == old(self).component,
    {
        self.upstream.register_irq(irq)
    }
}

impl<M, C: Forwarder<M, U>, U: IrqRegistrar> UpstreamContext<M> for ForwardingContext<C, U> {
    /// A child's message is handled by the component, which may act on the
    /// tree above it.
    open spec fn delivers(&self, message: M, after: &Self) -> bool {
        self.component.forwards(message, self.upstream, &after.component, after.upstream)
    }

    /// Hands a child's message to the component, with the tree above it at
    /// hand. When this returns the component has handled the message, and
    /// whatever it sent on has been handled above.
    fn send(&mut self, message: M) {
        self.component.on_message(message, &mut self.upstream)
    }
}

/// What a child sends upstream is handled at once: when a send through a
/// leaf's context returns, the message has been handled by the parent
/// component in the context above, and nothing above the parent has been
/// touched.
pub proof fn lemma_sent_is_handled<I, M, C: Handler<M>, U: IrqRegistrar>(
    before: InterruptContext<I, ComponentContext<C, U>>,
    message: M,
    after: InterruptContext<I, ComponentContext<C, U>>,
)
    requires
        before.upstream.delivers(message, &after.upstream),
    ensures
        before.upstream.component.handles(message, &after.upstream.component),
        after.upstream.upstream == before.upstream.upstream,
{
}

/// The wrapper that gives a component its place in the tree: it holds the
/// component, its children, the queue of its inbound messages and, once
/// started, the two handles of that queue. The component leaves the wrapper
/// for the time of a hook, in the hook's context, and is back when the call
/// returns.
pub struct ConnectedComponent<C: Component> {
    component: Option<C>,
    children: C::Children,
    consumer: Option<AsyncConsumer<C::InboundMessage, INBOX_CAPACITY>>,
    fifo: AsyncFifo<C::InboundMessage, INBOX_CAPACITY>,
    producer: Option<AsyncProducer<C::InboundMessage, INBOX_CAPACITY>>,
}

impl<C: Component> ConnectedComponent<C> {
    /// The component inside, unless it is away in a context.
    pub closed spec fn node(&self) -> Option<C> {
        self.component
    }

    /// The children of the component.
    pub closed spec fn children(&self) -> C::Children {
        self.children
    }

    /// The queue of inbound messages.
    pub closed spec fn inbox(&self) -> FifoView<C::InboundMessage> {
        self.fifo@
    }

    /// Whether the component has been started: from then on the queue is
    /// split and the wrapper holds its two handles.
    pub closed spec fn spec_is_started(&self) -> bool {
        self.producer is Some && self.consumer is Some && self.fifo@.split
    }

    /// Whether the component has been started.
    #[verifier::when_used_as_spec(spec_is_started)]
    pub fn is_started(&self) -> (started: bool)
        ensures
            started == self.is_started(),
    {
        self.producer.is_some() && self.consumer.is_some() && self.fifo.is_split()
    }

    /// Whether the component is inside. It is away only while a hook runs.
    pub fn is_home(&self) -> (home: bool)
        ensures
            home == (self.node() is Some),
    {
        self.component.is_some()
    }

    /// Wraps a component and its children. It is not started yet, and its
    /// queue is empty.
    pub fn new(component: C, children: C::Children) -> (connected: Self)
        ensures
            connected.node() == Some(component),
            connected.children() == children,
            !connected.is_started(),
            connected.inbox() == FifoView::<C::InboundMessage>::empty(),
    {
        ConnectedComponent {
            component: Some(component),
            children,
            consumer: None,
            fifo: AsyncFifo::new(),
            producer: None,
        }
    }

    /// Lends the component, for the tasks that act on it.
    pub fn component(&mut self) -> (component: &mut C)
        requires
            old(self).node() is Some,
        ensures
            Some(*component) == old(self).node(),
            final(self).node() == Some(*final(component)),
            final(self).children() == old(self).children(),
            final(self).inbox() == old(self).inbox(),
            final(self).is_started() == old(self).is_started(),
    {
        self.component.as_mut().unwrap()
    }

    /// Lends the children, for the tasks that act on them.
    pub fn children_mut(&mut self) -> (children: &mut C::Children)
        ensures
            *children == old(self).children(),
            final(self).children() == *final(children),
            final(self).node() == old(self).node(),
            final(self).inbox() == old(self).inbox(),
            final(self).is_started() == old(self).is_started(),
    {
        &mut self.children
    }

    /// Starts the component, once: sets up an empty queue and takes its two
    /// handles, then runs the component's start hook on its children, with a
    /// context that holds the component and `upstream`. Hands back the tree
    /// above as the hook left it.
    pub fn start(&mut self, upstream: C::Upstream) -> (after: C::Upstream)
        requires
            !old(self).is_started(),
            old(self).node() is Some,
        ensures
            final(self).is_started(),
            final(self).inbox() == (FifoView { split: true, ..FifoView::<C::InboundMessage>::empty() }),
            final(self).node() is Some,
            old(self).node().unwrap().starts(
                old(self).children(),
                upstream,
                final(self).node().unwrap(),
                final(self).children(),
                after,
            ),
            after.wiring() == upstream.wiring(),
            upstream.lines().is_prefix_of(after.lines()),
    {
        self.fifo = AsyncFifo::new();
        let (producer, consumer) = self.fifo.split();
        self.producer = Some(producer);
        self.consumer = Some(consumer);
        let component = self.component.take().unwrap();
        let context = C::start(&mut self.children, ComponentContext::new(component, upstream));
        self.component = Some(context.component);
        context.upstream
    }

    /// Sends a message to the component: puts it into the queue and wakes
    /// the component's task if it is suspended on the queue. Only the parent
    /// does this. A full queue takes nothing and the message comes back.
    pub fn send(&mut self, message: C::InboundMessage) -> (result: Result<bool, C::InboundMessage>)
        requires
            old(self).is_started(),
        ensures
            final(self).is_started(),
            final(self).node() == old(self).node(),
            final(self).children() == old(self).children(),
            final(self).inbox() == old(self).inbox().enqueue(INBOX_CAPACITY as nat, message),
            final(self).inbox().items.len() <= INBOX_CAPACITY,
            result == old(self).inbox().enqueue_result(INBOX_CAPACITY as nat, message),
    {
        match &mut self.producer {
            Some(producer) => producer.enqueue(&mut self.fifo, message),
            None => Err(message),
        }
    }

    /// Takes the oldest message for the component's task. When there is none
    /// the task is to suspend: `waker` is kept and fires at the next message.
    pub fn receive(&mut self, waker: Waker) -> (message: Option<C::InboundMessage>)
        requires
            old(self).is_started(),
        ensures
            final(self).is_started(),
            final(self).node() == old(self).node(),
            final(self).children() == old(self).children(),
            final(self).inbox() == old(self).inbox().dequeue(waker),
            final(self).inbox().items.len() <= INBOX_CAPACITY,
            message == old(self).inbox().dequeue_result(),
    {
        match &mut self.consumer {
            Some(consumer) => consumer.dequeue(&mut self.fifo, waker),
            None => None,
        }
    }
}

impl<C: Component> Interruptable for ConnectedComponent<C> {
    type Upstream = C::Upstream;

    /// A line can be routed into a component that has been started and is
    /// inside its wrapper.
    open spec fn started(&self) -> bool {
        self.is_started() && self.node() is Some
    }

    /// Runs the component's routing hook on its children, with a context
    /// that holds the component and `upstream`, if the tree has been
    /// started; otherwise nothing is touched. Hands back the tree above as
    /// the hook left it. The queue is not touched.
    fn interrupt(&mut self, handler: usize, upstream: C::Upstream) -> (after: C::Upstream)
        ensures
            final(self).is_started(),
            final(self).node() is Some,
            final(self).inbox() == old(self).inbox(),
            !upstream.wiring() ==> old(self).node().unwrap().routes(
                old(self).children(),
                handler,
                upstream,
                final(self).node().unwrap(),
                final(self).children(),
                after,
            ),
            upstream.wiring() ==> {
                &&& *final(self) == *old(self)
                &&& after == upstream
            },
    {
        if upstream.is_wiring() {
            return upstream;
        }
        let component = self.component.take().unwrap();
        let context = C::interrupt(
            &mut self.children,
            handler,
            ComponentContext::new(component, upstream),
        );
        self.component = Some(context.component);
        context.upstream
    }
}

impl<C: Component> Sink<C::InboundMessage> for ConnectedComponent<C> {
    /// A component can be sent to once it is started.
    open spec fn ready(&self) -> bool {
        self.is_started()
    }

    /// The message is enqueued, or dropped if the queue is full.
    open spec fn accepts(&self, message: C::InboundMessage, after: &Self) -> bool {
        &&& after.is_started()
        &&& after.node() == self.node()
        &&& after.children() == self.children()
        &&& after.inbox() == self.inbox().enqueue(INBOX_CAPACITY as nat, message)
    }

    /// Sends a message to the component, and drops it if the queue is full.
    fn send(&mut self, message: C::InboundMessage) {
        let _ = ConnectedComponent::send(self, message);
    }
}

} // verus!
