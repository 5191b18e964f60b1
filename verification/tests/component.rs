use drogue_device::component::{
    Component, ComponentContext, ConnectedComponent, ForwardingContext, INBOX_CAPACITY,
};
use drogue_device::context::{IrqRegistrar, UpstreamContext};
use drogue_device::handler::{Forwarder, Handler, Sink};
use drogue_device::interrupt::Interruptable;
use drogue_device::kernel::{ConnectedKernel, Kernel, KernelContext};
use std::sync::atomic::{AtomicUsize, Ordering};
use std::sync::Arc;
use std::task::{Wake, Waker};

struct Task {
    wakes: AtomicUsize,
}

impl Wake for Task {
    fn wake(self: Arc<Self>) {
        self.wakes.fetch_add(1, Ordering::SeqCst);
    }
}

fn task() -> (Arc<Task>, Waker) {
    let task = Arc::new(Task { wakes: AtomicUsize::new(0) });
    (task.clone(), Waker::from(task))
}

struct Lamp {
    starts: usize,
    routed: Vec<usize>,
}

impl Component for Lamp {
    type InboundMessage = bool;
    type OutboundMessage = ();
    type Upstream = KernelContext<Plant>;
    type Children = ();

    fn start(
        _children: &mut (),
        mut context: ComponentContext<Self, Self::Upstream>,
    ) -> ComponentContext<Self, Self::Upstream> {
        context.component.starts += 1;
        context.send(());
        context
    }

    fn interrupt(
        _children: &mut (),
        handler: usize,
        mut context: ComponentContext<Self, Self::Upstream>,
    ) -> ComponentContext<Self, Self::Upstream> {
        context.component.routed.push(handler);
        context
    }
}

struct Sensor {
    registered: Option<Option<usize>>,
}

impl Component for Sensor {
    type InboundMessage = ();
    type OutboundMessage = i32;
    type Upstream = ForwardingContext<Station, KernelContext<Plant>>;
    type Children = ();

    fn start(
        _children: &mut (),
        mut context: ComponentContext<Self, Self::Upstream>,
    ) -> ComponentContext<Self, Self::Upstream> {
        context.send(-5);
        context.component.registered = Some(context.upstream.register_irq(40));
        context
    }

    fn interrupt(
        _children: &mut (),
        _handler: usize,
        context: ComponentContext<Self, Self::Upstream>,
    ) -> ComponentContext<Self, Self::Upstream> {
        context
    }
}

struct Station {
    total: i32,
}

struct StationChildren {
    sensor: ConnectedComponent<Sensor>,
    sent_while_away: Option<Result<bool, ()>>,
}

impl Component for Station {
    type InboundMessage = ();
    type OutboundMessage = String;
    type Upstream = KernelContext<Plant>;
    type Children = StationChildren;

    fn start(
        children: &mut StationChildren,
        context: ComponentContext<Self, Self::Upstream>,
    ) -> ComponentContext<Self, Self::Upstream> {
        let forwarding = ForwardingContext::new(context);
        let forwarding = children.sensor.start(forwarding);
        let mut context = forwarding.into_context();
        UpstreamContext::<i32>::send(&mut context, 100);
        context
    }

    fn interrupt(
        _children: &mut StationChildren,
        _handler: usize,
        context: ComponentContext<Self, Self::Upstream>,
    ) -> ComponentContext<Self, Self::Upstream> {
        context
    }
}

impl Forwarder<i32, KernelContext<Plant>> for Station {
    fn on_message(&mut self, message: i32, upstream: &mut KernelContext<Plant>) {
        self.total += message;
        upstream.send(format!("station at {}", self.total));
    }
}

impl Handler<i32> for Station {
    fn on_message(&mut self, message: i32) {
        self.total += 2 * message;
    }
}

struct Plant {
    reports: Vec<String>,
}

impl Handler<String> for Plant {
    fn on_message(&mut self, message: String) {
        self.reports.push(message);
    }
}

struct Floor {
    lamp: ConnectedComponent<Lamp>,
    station: ConnectedComponent<Station>,
    wiring_at_start: Vec<bool>,
}

impl Kernel for Plant {
    type Tree = Floor;

    fn start(tree: &mut Floor, context: KernelContext<Self>) -> KernelContext<Self> {
        let context = tree.lamp.start(context);
        let context = tree.lamp.interrupt(9, context);
        tree.wiring_at_start.push(context.is_wiring());
        let context = tree.station.start(context);
        tree.wiring_at_start.push(tree.station.is_home());
        let sent = tree.station.send(());
        tree.station.children_mut().sent_while_away = Some(sent);
        context
    }

    fn interrupt(tree: &mut Floor, handler: usize, context: KernelContext<Self>) -> KernelContext<Self> {
        tree.lamp.interrupt(handler, context)
    }
}

fn plant() -> ConnectedKernel<Plant> {
    let sensor = ConnectedComponent::new(Sensor { registered: None }, ());
    ConnectedKernel::new(
        Plant { reports: Vec::new() },
        Floor {
            lamp: ConnectedComponent::new(Lamp { starts: 0, routed: Vec::new() }, ()),
            station: ConnectedComponent::new(
                Station { total: 10 },
                StationChildren { sensor, sent_while_away: None },
            ),
            wiring_at_start: Vec::new(),
        },
    )
}

fn started() -> ConnectedKernel<Plant> {
    let mut kernel = plant();
    kernel.start();
    kernel
}

#[test]
fn new_component_is_home_and_not_started() {
    let mut kernel = plant();
    let lamp = &mut kernel.tree().lamp;
    assert!(lamp.is_home());
    assert!(!lamp.is_started());
    assert_eq!(lamp.component().starts, 0);
}

#[test]
fn start_runs_the_start_hook_once() {
    let mut kernel = started();
    let lamp = &mut kernel.tree().lamp;
    assert!(lamp.is_started());
    assert!(lamp.is_home());
    assert_eq!(lamp.component().starts, 1);
    assert_eq!(kernel.tree().wiring_at_start, vec![true, true]);
}

#[test]
fn start_leaves_an_empty_queue() {
    let mut kernel = started();
    let (_, waker) = task();
    assert_eq!(kernel.tree().lamp.receive(waker), None);
}

#[test]
fn messages_reach_the_task_in_order() {
    let mut kernel = started();
    let lamp = &mut kernel.tree().lamp;
    let (_, waker) = task();
    assert_eq!(lamp.send(true), Ok(false));
    assert_eq!(lamp.send(false), Ok(false));
    assert_eq!(lamp.send(false), Ok(false));
    assert_eq!(lamp.receive(waker.clone()), Some(true));
    assert_eq!(lamp.receive(waker.clone()), Some(false));
    assert_eq!(lamp.receive(waker.clone()), Some(false));
    assert_eq!(lamp.receive(waker), None);
}

#[test]
fn send_wakes_the_suspended_task() {
    let mut kernel = started();
    let lamp = &mut kernel.tree().lamp;
    let (handle, waker) = task();
    assert_eq!(lamp.receive(waker.clone()), None);
    assert_eq!(lamp.send(true), Ok(true));
    assert_eq!(handle.wakes.load(Ordering::SeqCst), 1);
    assert_eq!(lamp.send(true), Ok(false));
    assert_eq!(handle.wakes.load(Ordering::SeqCst), 1);
    assert_eq!(lamp.receive(waker), Some(true));
}

#[test]
fn inbound_queue_holds_thirty_two_messages() {
    assert_eq!(INBOX_CAPACITY, 32);
    let mut kernel = started();
    let lamp = &mut kernel.tree().lamp;
    for round in 0..32 {
        assert_eq!(lamp.send(round % 3 == 0), Ok(false));
    }
    assert_eq!(lamp.send(true), Err(true));
    let (_, waker) = task();
    for round in 0..32 {
        assert_eq!(lamp.receive(waker.clone()), Some(round % 3 == 0));
    }
    assert_eq!(lamp.receive(waker), None);
}

#[test]
fn sink_enqueues_and_drops_what_does_not_fit() {
    let mut kernel = started();
    let lamp = &mut kernel.tree().lamp;
    for _ in 0..33 {
        Sink::send(lamp, true);
    }
    let (_, waker) = task();
    for _ in 0..32 {
        assert_eq!(lamp.receive(waker.clone()), Some(true));
    }
    assert_eq!(lamp.receive(waker), None);
}

#[test]
fn component_is_back_after_each_hook() {
    let mut kernel = started();
    assert!(kernel.tree().station.is_home());
    assert!(kernel.tree().station.is_started());
    assert_eq!(kernel.interrupt(40), 1);
    assert!(kernel.tree().lamp.is_home());
    assert!(kernel.tree().lamp.is_started());
}

#[test]
fn a_line_is_routed_through_a_component_once_the_tree_is_started() {
    let mut kernel = started();
    assert_eq!(kernel.tree().lamp.component().routed, Vec::<usize>::new());
    assert_eq!(kernel.interrupt(40), 1);
    assert_eq!(kernel.interrupt(41), 0);
    assert_eq!(kernel.tree().lamp.component().routed, vec![0usize]);
}

#[test]
fn child_reaches_parent_and_registry_through_the_context() {
    let mut kernel = plant();
    assert_eq!(kernel.start(), &[40u8]);
    let sensor = &mut kernel.tree().station.children_mut().sensor;
    assert_eq!(sensor.component().registered, Some(Some(0)));
    assert!(sensor.is_started());
}

#[test]
fn a_forwarder_passes_the_event_on_before_the_send_returns() {
    let mut kernel = started();
    assert_eq!(kernel.kernel().reports, vec![String::from("station at 5")]);
}

#[test]
fn a_plain_context_delivers_to_the_handler() {
    let mut kernel = started();
    assert_eq!(kernel.tree().station.component().total, 205);
}

#[test]
fn a_started_component_takes_messages_from_its_parent() {
    let mut kernel = started();
    assert_eq!(kernel.tree().station.children_mut().sent_while_away, Some(Ok(false)));
    let (_, waker) = task();
    assert_eq!(kernel.tree().station.receive(waker.clone()), Some(()));
    assert_eq!(kernel.tree().station.receive(waker), None);
}
