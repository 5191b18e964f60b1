//! A component framework for bare-metal devices: a static tree of components
//! and interrupt sources rooted at a kernel, bounded queues that carry messages
//! from parent to child, synchronous delivery from child to parent, and a
//! registry that dispatches interrupt lines to the handlers bound to them.
//!
//! A device is written as three kinds of node. A `Kernel` is the root. A
//! `Component` takes messages from its parent through a queue and handles,
//! as a `Handler`, what its children send. An `Interrupt` is a leaf that
//! answers one interrupt line. Each node sits in a wrapper
//! (`ConnectedKernel`, `ConnectedComponent`, `ConnectedInterrupt`) that its
//! owner holds.
//!
//! Every node is owned in one place and nothing is shared. The children
//! that send to a node are held beside it in its wrapper: the root's tree, a
//! component's children. What a node sees of the tree above it is a context:
//! a value that is handed down to the node and handed back by it. The root's
//! context holds the root and the registry; a component's context holds the
//! component and the context above it. A node is in its context while one of
//! its hooks runs, and in its wrapper otherwise. A message sent through a
//! context has been handled by the parent when the send returns.
//!
//! Starting the kernel starts the tree, in which every interrupt leaf
//! registers its line, and gives the lines to unmask when that is done.
//! From then on the registry is closed, and an interrupt is dispatched to
//! the leaves registered on its line, in the order of registration. No
//! leaf is interrupted through a context that still takes registrations,
//! that is, before the tree has been started.
//!
//! The registry is a `heapless::Vec` and is never reallocated. The queues
//! are kept in `std::collections::VecDeque` and are never let grow beyond
//! their capacity.

/// Bounded queue with a single wake slot.
pub mod fifo;

/// The root of the tree and its interrupt registry.
pub mod kernel;

/// Delivery of a child's messages to its parent.
pub mod handler;

/// What a node sees of the tree above it.
pub mod context;

/// Leaves that answer an interrupt line.
pub mod interrupt;

/// Components: nodes that receive messages from their parent.
pub mod component;

/// Quick imports of the common traits and wrappers.
pub mod prelude;
