//! The traits and wrappers that a device is written with.

pub use crate::component::{Component, ComponentContext, ConnectedComponent, ForwardingContext};
pub use crate::context::{IrqRegistrar, UpstreamContext};
pub use crate::handler::{Forwarder, Handler};
pub use crate::interrupt::{ConnectedInterrupt, Interrupt, InterruptContext, Interruptable};
pub use crate::kernel::{ConnectedKernel, Kernel, KernelContext};
