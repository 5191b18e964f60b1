//! The root of the component tree: the registry of interrupt lines and the
//! wrapper that starts the tree and dispatches interrupts into it.

use crate::context::{IrqRegistrar, UpstreamContext};
use crate::handler::{Handler, Sink};
use vstd::prelude::*;

verus! {

/// How many registrations the registry has room for.
pub const IRQ_CAPACITY: usize = 16;

/// The fixed-capacity vector of `heapless`, which holds the registry's lines.
#[verifier::external_type_specification]
#[verifier::external_body]
#[verifier::reject_recursive_types(T)]
pub struct ExHeaplessVec<T, const N: usize>(heapless::Vec<T, N>);

/// The lines that a vector of the registry holds, first pushed first.
pub uninterp spec fn registered_lines(lines: heapless::Vec<u8, 16>) -> Seq<u8>;

/// Calls `heapless::Vec::new`, which makes a vector that holds nothing.
#[verifier::external_body]
fn lines_new() -> (lines: heapless::Vec<u8, 16>)
    ensures
        registered_lines(lines) == Seq::<u8>::empty(),
{
    heapless::Vec::new()
}

/// Calls `heapless::Vec::push`, which appends the item while fewer items
/// than the capacity are held, and otherwise changes nothing and hands the
/// item back.
#[verifier::external_body]
fn lines_push(lines: &mut heapless::Vec<u8, 16>, line: u8) -> (result: Result<(), u8>)
    ensures
        match result {
            Ok(_) => {
                &&& registered_lines(*old(lines)).len() < 16
                &&& registered_lines(*final(lines)) == registered_lines(*old(lines)).push(line)
            },
            Err(back) => {
                &&& registered_lines(*old(lines)).len() >= 16
                &&& *final(lines) == *old(lines)
                &&& back == line
            },
        },
{
    lines.push(line)
}

/// Calls `heapless::Vec::as_slice`, which lends the items held, in order.
#[verifier::external_body]
fn lines_slice(lines: &heapless::Vec<u8, 16>) -> (slice: &[u8])
    ensures
        slice@ == registered_lines(*lines),
{
    lines.as_slice()
}

/// The handlers bound to the line numbered `irqn` by the registrations
/// `lines`: their positions in `lines`, in ascending order. A number that is
/// no line (negative, or above 255) has none.
pub open spec fn handlers_on(lines: Seq<u8>, irqn: int) -> Seq<usize>
    decreases lines.len(),
{
    if lines.len() == 0 {
        Seq::empty()
    } else if lines.last() == irqn {
        handlers_on(lines.drop_last(), irqn).push((lines.len() - 1) as usize)
    } else {
        handlers_on(lines.drop_last(), irqn)
    }
}

/// Dispatch reaches the handlers bound to the line and no others: every
/// position it gives holds that line, every position that holds the line is
/// given, and the positions ascend, so that none is given twice.
pub proof fn lemma_handlers_on(lines: Seq<u8>, irqn: int)
    requires
        lines.len() <= usize::MAX,
    ensures
        forall|k: int|
            0 <= k < handlers_on(lines, irqn).len() ==> {
                &&& (#[trigger] handlers_on(lines, irqn)[k]) < lines.len()
                &&& lines[handlers_on(lines, irqn)[k] as int] == irqn
            },
        forall|position: int|
            0 <= position < lines.len() && #[trigger] lines[position] == irqn ==> handlers_on(
                lines,
                irqn,
            ).contains(position as usize),
        forall|j: int, k: int|
            0 <= j < k < handlers_on(lines, irqn).len() ==> (#[trigger] handlers_on(
                lines,
                irqn,
            )[j]) < (#[trigger] handlers_on(lines, irqn)[k]),
    decreases lines.len(),
{
    if lines.len() > 0 {
        let front = lines.drop_last();
        let before = handlers_on(front, irqn);
        let all = handlers_on(lines, irqn);
        lemma_handlers_on(front, irqn);
        assert forall|position: int|
            0 <= position < lines.len() && #[trigger] lines[position] == irqn implies all.contains(
            position as usize,
        ) by {
            if position < front.len() {
                assert(front[position] == irqn);
                let k = choose|k: int| 0 <= k < before.len() && before[k] == position as usize;
                assert(all[k] == position as usize);
            } else {
                assert(all[all.len() - 1] == position as usize);
            }
        }
    }
}

/// Lines are kept apart: no handler is dispatched for two different lines.
pub proof fn lemma_lines_isolated(lines: Seq<u8>, first: int, second: int, handler: usize)
    requires
        lines.len() <= usize::MAX,
        first != second,
        handlers_on(lines, first).contains(handler),
    ensures
        !handlers_on(lines, second).contains(handler),
{
    lemma_handlers_on(lines, first);
    lemma_handlers_on(lines, second);
}

/// A line to which no handler is bound dispatches to nothing.
pub proof fn lemma_unbound_line(lines: Seq<u8>, irqn: int)
    requires
        lines.len() <= usize::MAX,
        forall|position: int| 0 <= position < lines.len() ==> lines[position] != irqn,
    ensures
        handlers_on(lines, irqn) == Seq::<usize>::empty(),
{
    lemma_handlers_on(lines, irqn);
    if handlers_on(lines, irqn).len() > 0 {
        assert(lines[handlers_on(lines, irqn)[0] as int] == irqn);
    }
}

/// A registration adds its handler to its own line, behind those bound
/// before, and leaves every other line as it was.
pub proof fn lemma_register_extends(lines: Seq<u8>, irq: u8, irqn: int)
    ensures
        handlers_on(lines.push(irq), irqn) == if irq == irqn {
            handlers_on(lines, irqn).push(lines.len() as usize)
        } else {
            handlers_on(lines, irqn)
        },
{
    assert(lines.push(irq).drop_last() == lines);
}

/// The registrations of interrupt handlers, in the order in which they were
/// made. A handler is known by its position in that order.
pub struct IrqRegistry {
    entries: heapless::Vec<u8, 16>,
}

impl View for IrqRegistry {
    type V = Seq<u8>;

    /// The line of each registration, first made first.
    closed spec fn view(&self) -> Seq<u8> {
        registered_lines(self.entries)
    }
}

impl Default for IrqRegistry {
    /// A registry without registrations.
    fn default() -> (registry: Self)
        ensures
            registry@ == Seq::<u8>::empty(),
    {
        IrqRegistry::new()
    }
}

impl IrqRegistry {
    /// A registry without registrations.
    pub fn new() -> (registry: Self)
        ensures
            registry@ == Seq::<u8>::empty(),
    {
        IrqRegistry { entries: lines_new() }
    }

    /// The number of registrations.
    pub fn len(&self) -> (len: usize)
        ensures
            len == self@.len(),
    {
        lines_slice(&self.entries).len()
    }

    /// Binds a new handler to the line `irq` and returns its position. Several
    /// handlers may share a line. The registry has room for the registration.
    pub fn register(&mut self, irq: u8) -> (position: usize)
        requires
            old(self)@.len() < IRQ_CAPACITY,
        ensures
            position == old(self)@.len(),
            final(self)@ == old(self)@.push(irq),
    {
        let position = lines_slice(&self.entries).len();
        let _ = lines_push(&mut self.entries, irq);
        position
    }

    /// Dispatches the line numbered `irqn` into the tree of `kernel`: passes
    /// each handler bound to the line, in the order of registration, to the
    /// root's routing hook, with a context that holds the root and takes no
    /// registrations. Hands the root back.
    pub fn interrupt<K: Kernel>(&self, irqn: i16, kernel: K, tree: &mut K::Tree) -> (after: K)
        ensures
            routed(kernel, *old(tree), handlers_on(self@, irqn as int), after, *final(tree)),
    {
        let lines = lines_slice(&self.entries);
        let mut root = kernel;
        let mut position: usize = 0;
        while position < lines.len()
            invariant
                position <= lines@.len(),
                lines@ == self@,
                routed(
                    kernel,
                    *old(tree),
                    handlers_on(lines@.take(position as int), irqn as int),
                    root,
                    *tree,
                ),
            decreases lines@.len() - position,
        {
            assert(lines@.take(position + 1).drop_last() == lines@.take(position as int));
            if lines[position] as i16 == irqn {
                let ghost before = (root, *tree);
                let context = KernelContext::closed(root);
                let context = K::interrupt(tree, position, context);
                root = context.into_root();
                proof {
                    let reached = handlers_on(lines@.take(position + 1), irqn as int);
                    assert(reached.drop_last() == handlers_on(
                        lines@.take(position as int),
                        irqn as int,
                    ));
                    assert(before.0.routes(before.1, reached.last(), root, *tree));
                }
            }
            position += 1;
        }
        assert(lines@.take(position as int) == lines@);
        root
    }

    /// How many handlers are bound to the line numbered `irqn`.
    pub fn bound_to(&self, irqn: i16) -> (count: usize)
        ensures
            count == handlers_on(self@, irqn as int).len(),
    {
        let lines = lines_slice(&self.entries);
        let mut count: usize = 0;
        let mut position: usize = 0;
        while position < lines.len()
            invariant
                position <= lines@.len(),
                lines@ == self@,
                count == handlers_on(lines@.take(position as int), irqn as int).len(),
                count <= position,
            decreases lines@.len() - position,
        {
            assert(lines@.take(position + 1).drop_last() == lines@.take(position as int));
            if lines[position] as i16 == irqn {
                count += 1;
            }
            position += 1;
        }
        assert(lines@.take(position as int) == lines@);
        count
    }

    /// The lines to unmask at the interrupt controller: the line of each
    /// registration, in the order of registration.
    pub fn unmask_all(&self) -> (lines: &[u8])
        ensures
            lines@ == self@,
    {
        lines_slice(&self.entries)
    }
}

/// The root of the tree. It handles what the children at the top of the tree
/// send, and it starts them and routes interrupts to them. Those children
/// are held beside the root, as its tree.
pub trait Kernel: Sized {
    /// The children at the top of the tree.
    type Tree;

    /// Whether the start hook may turn this root into `after`, its tree from
    /// `tree` into `tree_after` and the registered lines from `lines` into
    /// `lines_after`. An implementation that says nothing of itself allows
    /// everything.
    open spec fn starts(
        &self,
        tree: Self::Tree,
        lines: Seq<u8>,
        after: Self,
        tree_after: Self::Tree,
        lines_after: Seq<u8>,
    ) -> bool {
        true
    }

    /// Whether routing the leaf registered as `handler` may turn this root
    /// into `after` and its tree from `tree` into `tree_after`. An
    /// implementation that says nothing of itself allows everything.
    open spec fn routes(
        &self,
        tree: Self::Tree,
        handler: usize,
        after: Self,
        tree_after: Self::Tree,
    ) -> bool {
        true
    }

    /// Starts the tree: starts each child, passing `context` down, and hands
    /// the context back. The context holds the root and takes registrations;
    /// what is registered stays registered.
    fn start(tree: &mut Self::Tree, context: KernelContext<Self>) -> (after: KernelContext<Self>)
        requires
            context.wiring(),
        ensures
            context.root().starts(
                *old(tree),
                context.lines(),
                after.root(),
                *final(tree),
                after.lines(),
            ),
            after.wiring(),
            context.lines().is_prefix_of(after.lines()),
    ;

    /// Routes a fired line into the tree: passes `handler` to each child
    /// that may hold the leaf registered under that position, and hands the
    /// context back. The context holds the root and takes no registrations.
    fn interrupt(tree: &mut Self::Tree, handler: usize, context: KernelContext<Self>) -> (after:
        KernelContext<Self>)
        requires
            !context.wiring(),
        ensures
            context.root().routes(*old(tree), handler, after.root(), *final(tree)),
    ;
}

impl<K: Kernel> Handler<()> for K {
    /// A unit message changes nothing.
    open spec fn handles(&self, message: (), after: &Self) -> bool {
        *after == *self
    }

    /// Discards the message.
    fn on_message(&mut self, message: ()) {
    }
}

/// Whether routing each of `handlers` in turn may turn the root `before` into
/// `after` and its tree from `tree` into `tree_after`.
pub open spec fn routed<K: Kernel>(
    before: K,
    tree: K::Tree,
    handlers: Seq<usize>,
    after: K,
    tree_after: K::Tree,
) -> bool
    decreases handlers.len(),
{
    if handlers.len() == 0 {
        after == before && tree_after == tree
    } else {
        exists|between: K, tree_between: K::Tree|
            routed(before, tree, handlers.drop_last(), between, tree_between)
                && #[trigger] between.routes(tree_between, handlers.last(), after, tree_after)
    }
}

/// What the children at the top of the tree see above them: the root, which
/// handles what they send, and the registry, which takes registrations while
/// the tree is being started. Only the kernel's wrapper makes one.
pub struct KernelContext<K> {
    kernel: K,
    registry: IrqRegistry,
    wiring: bool,
}

impl<K> KernelContext<K> {
    /// The root.
    pub closed spec fn root(&self) -> K {
        self.kernel
    }

    /// A context that takes registrations into an empty registry: that of a
    /// tree that is being started.
    fn open(kernel: K) -> (context: Self)
        ensures
            context.root() == kernel,
            context.lines() == Seq::<u8>::empty(),
            context.wiring(),
    {
        KernelContext { kernel, registry: IrqRegistry::new(), wiring: true }
    }

    /// A context that takes no registrations and shows no lines: that of a
    /// tree that has been started.
    fn closed(kernel: K) -> (context: Self)
        ensures
            context.root() == kernel,
            context.lines() == Seq::<u8>::empty(),
            !context.wiring(),
    {
        KernelContext { kernel, registry: IrqRegistry::new(), wiring: false }
    }

    /// Gives up the context for the root in it.
    fn into_root(self) -> (kernel: K)
        ensures
            kernel == self.root(),
    {
        self.kernel
    }

    /// Gives up the context for the root and the registry in it.
    fn into_parts(self) -> (parts: (K, IrqRegistry))
        ensures
            parts.0 == self.root(),
            parts.1@ == self.lines(),
    {
        (self.kernel, self.registry)
    }

    /// Sends `message` to the root. The root's handler has run to completion
    /// when this returns, and the registry is as it was.
    pub fn send<M>(&mut self, message: M) where K: Handler<M>
        ensures
            old(self).root().handles(message, &final(self).root()),
            final(self).lines() == old(self).lines(),
            final(self).wiring() == old(self).wiring(),
    {
        self.kernel.on_message(message)
    }

    /// Lends the root.
    pub fn kernel(&mut self) -> (kernel: &mut K)
        ensures
            *kernel == old(self).root(),
            final(self).root() == *final(kernel),
            final(self).lines() == old(self).lines(),
            final(self).wiring() == old(self).wiring(),
    {
        &mut self.kernel
    }
}

impl<K> IrqRegistrar for KernelContext<K> {
    /// The lines in the registry behind the context.
    closed spec fn lines(&self) -> Seq<u8> {
        self.registry@
    }

    /// Whether the context takes registrations.
    closed spec fn wiring(&self) -> bool {
        self.wiring
    }

    /// A registration adds its line to the registry and leaves the root as
    /// it is.
    open spec fn registers(&self, irq: u8, after: &Self) -> bool {
        &&& after.lines() == self.lines().push(irq)
        &&& after.wiring() == self.wiring()
        &&& after.root() == self.root()
    }

    /// Whether the context takes registrations.
    fn is_wiring(&self) -> (wiring: bool) {
        self.wiring
    }

    /// Appends the registration to the registry, while the tree is being
    /// started and the registry has room.
    fn register_irq(&mut self, irq: u8) -> (handler: Option<usize>) {
        if self.wiring && self.registry.len() < IRQ_CAPACITY {
            Some(self.registry.register(irq))
        } else {
            None
        }
    }
}

impl<M, K: Handler<M>> UpstreamContext<M> for KernelContext<K> {
    /// A message is handled by the root; the registry is not touched.
    open spec fn delivers(&self, message: M, after: &Self) -> bool {
        &&& self.root().handles(message, &after.root())
        &&& after.lines() == self.lines()
        &&& after.wiring() == self.wiring()
    }

    /// Hands a message to the root's handler. When this returns the handler
    /// has run to completion, and the registry is as it was.
    fn send(&mut self, message: M)
        ensures
            old(self).root().handles(message, &final(self).root()),
    {
        self.kernel.on_message(message)
    }
}

impl<M, K: Handler<M>> Sink<M> for KernelContext<K> {
    /// A message is handled by the root; the registry is not touched.
    open spec fn accepts(&self, message: M, after: &Self) -> bool {
        &&& self.root().handles(message, &after.root())
        &&& after.lines() == self.lines()
        &&& after.wiring() == self.wiring()
    }

    /// Hands a message to the root's handler.
    fn send(&mut self, message: M) {
        self.kernel.on_message(message)
    }
}

/// The wrapper that holds the root, its tree and the interrupt registry.
/// The root leaves the wrapper for the time of a hook, in the hook's
/// context, and is back when the call returns.
pub struct ConnectedKernel<K: Kernel> {
    kernel: Option<K>,
    tree: K::Tree,
    started: bool,
    irq_registry: IrqRegistry,
}

impl<K: Kernel> ConnectedKernel<K> {
    /// The root inside.
    pub closed spec fn node(&self) -> Option<K> {
        self.kernel
    }

    /// The children at the top of the tree.
    pub closed spec fn children(&self) -> K::Tree {
        self.tree
    }

    /// Whether the tree has been started.
    pub closed spec fn spec_is_started(&self) -> bool {
        self.started
    }

    /// Whether the tree has been started.
    #[verifier::when_used_as_spec(spec_is_started)]
    pub fn is_started(&self) -> (started: bool)
        ensures
            started == self.is_started(),
    {
        self.started
    }

    /// Whether the root is inside. It is away only while a hook runs.
    pub fn is_home(&self) -> (home: bool)
        ensures
            home == (self.node() is Some),
    {
        self.kernel.is_some()
    }

    /// The line of each registration, first made first.
    pub closed spec fn lines(&self) -> Seq<u8> {
        self.irq_registry@
    }

    /// Wraps the root and its tree. Nothing is started or registered yet.
    pub fn new(kernel: K, tree: K::Tree) -> (connected: Self)
        ensures
            connected.node() == Some(kernel),
            connected.children() == tree,
            !connected.is_started(),
            connected.lines() == Seq::<u8>::empty(),
    {
        ConnectedKernel { kernel: Some(kernel), tree, started: false, irq_registry: IrqRegistry::new() }
    }

    /// Lends the root.
    pub fn kernel(&mut self) -> (kernel: &mut K)
        requires
            old(self).node() is Some,
        ensures
            Some(*kernel) == old(self).node(),
            final(self).node() == Some(*final(kernel)),
            final(self).children() == old(self).children(),
            final(self).is_started() == old(self).is_started(),
            final(self).lines() == old(self).lines(),
    {
        self.kernel.as_mut().unwrap()
    }

    /// Lends the tree, for the tasks that act on it.
    pub fn tree(&mut self) -> (tree: &mut K::Tree)
        ensures
            *tree == old(self).children(),
            final(self).children() == *final(tree),
            final(self).node() == old(self).node(),
            final(self).is_started() == old(self).is_started(),
            final(self).lines() == old(self).lines(),
    {
        &mut self.tree
    }

    /// Starts the tree, once: runs the root's start hook with a context that
    /// holds the root and takes registrations into an empty registry. Only
    /// when the hook has returned does it give the lines to unmask at the
    /// interrupt controller: every line registered, in the order of
    /// registration. From then on the registry is closed.
    pub fn start(&mut self) -> (unmask: &[u8])
        requires
            !old(self).is_started(),
            old(self).node() is Some,
        ensures
            final(self).is_started(),
            final(self).node() is Some,
            old(self).node().unwrap().starts(
                old(self).children(),
                Seq::empty(),
                final(self).node().unwrap(),
                final(self).children(),
                final(self).lines(),
            ),
            unmask@ == final(self).lines(),
    {
        let kernel = self.kernel.take().unwrap();
        let context = K::start(&mut self.tree, KernelContext::open(kernel));
        let (kernel, registry) = context.into_parts();
        self.kernel = Some(kernel);
        self.irq_registry = registry;
        self.started = true;
        self.irq_registry.unmask_all()
    }

    /// Dispatches the line numbered `irqn`: passes each handler bound to it,
    /// in the order of registration, to the root's routing hook, and returns
    /// how many were passed. Before the tree is started nothing is invoked
    /// and nothing changes. The hooks get a context that takes no
    /// registrations, and the registry stays as it is.
    pub fn interrupt(&mut self, irqn: i16) -> (invoked: usize)
        requires
            old(self).node() is Some,
        ensures
            final(self).is_started() == old(self).is_started(),
            final(self).lines() == old(self).lines(),
            final(self).node() is Some,
            invoked == dispatched(old(self).is_started(), old(self).lines(), irqn as int).len(),
            routed(
                old(self).node().unwrap(),
                old(self).children(),
                dispatched(old(self).is_started(), old(self).lines(), irqn as int),
                final(self).node().unwrap(),
                final(self).children(),
            ),
            !old(self).is_started() ==> *final(self) == *old(self),
    {
        if !self.started {
            return 0;
        }
        let kernel = self.kernel.take().unwrap();
        let kernel = self.irq_registry.interrupt(irqn, kernel, &mut self.tree);
        self.kernel = Some(kernel);
        self.irq_registry.bound_to(irqn)
    }
}

/// The handlers that a kernel invokes when the line numbered `irqn` fires:
/// none before the tree is started, and afterwards those bound to the line.
pub open spec fn dispatched(started: bool, lines: Seq<u8>, irqn: int) -> Seq<usize> {
    if started {
        handlers_on(lines, irqn)
    } else {
        Seq::empty()
    }
}

/// Before the tree is started no line reaches a handler, whatever is
/// registered; once it is started, a line reaches the handlers bound to it
/// and no others.
pub proof fn lemma_dispatch_waits_for_start(lines: Seq<u8>, irqn: int)
    ensures
        dispatched(false, lines, irqn) == Seq::<usize>::empty(),
        dispatched(true, lines, irqn) == handlers_on(lines, irqn),
{
}

} // verus!
