use drogue_device::fifo::{AsyncFifo, Signaller};
use std::sync::atomic::{AtomicUsize, Ordering};
use std::sync::Arc;
use std::task::{Wake, Waker};

struct Counter {
    wakes: AtomicUsize,
}

impl Wake for Counter {
    fn wake(self: Arc<Self>) {
        self.wakes.fetch_add(1, Ordering::SeqCst);
    }
}

fn counting_waker() -> (Arc<Counter>, Waker) {
    let counter = Arc::new(Counter { wakes: AtomicUsize::new(0) });
    (counter.clone(), Waker::from(counter))
}

fn wakes(counter: &Arc<Counter>) -> usize {
    counter.wakes.load(Ordering::SeqCst)
}

#[test]
fn signaller_starts_empty() {
    let mut signaller = Signaller::new();
    assert!(!signaller.wake());
}

#[test]
fn signaller_wakes_the_stored_waker_once() {
    let (counter, waker) = counting_waker();
    let mut signaller = Signaller::new();
    signaller.set_waker(waker);
    assert!(signaller.wake());
    assert_eq!(wakes(&counter), 1);
    assert!(!signaller.wake());
    assert_eq!(wakes(&counter), 1);
}

#[test]
fn signaller_keeps_only_the_last_waker() {
    let (first, first_waker) = counting_waker();
    let (second, second_waker) = counting_waker();
    let mut signaller = Signaller::new();
    signaller.set_waker(first_waker);
    signaller.set_waker(second_waker);
    assert!(signaller.wake());
    assert_eq!(wakes(&first), 0);
    assert_eq!(wakes(&second), 1);
}

#[test]
fn new_queue_is_empty() {
    let mut fifo: AsyncFifo<u32, 32> = AsyncFifo::new();
    assert_eq!(fifo.len(), 0);
    let (_, mut consumer) = fifo.split();
    let (_, waker) = counting_waker();
    assert_eq!(consumer.dequeue(&mut fifo, waker), None);
}

#[test]
fn messages_leave_in_the_order_they_came() {
    let mut fifo: AsyncFifo<u32, 32> = AsyncFifo::new();
    let (mut producer, mut consumer) = fifo.split();
    for item in 0..32u32 {
        assert_eq!(producer.enqueue(&mut fifo, item * 7), Ok(false));
    }
    assert_eq!(fifo.len(), 32);
    let (counter, waker) = counting_waker();
    for item in 0..32u32 {
        assert_eq!(consumer.dequeue(&mut fifo, waker.clone()), Some(item * 7));
    }
    assert_eq!(fifo.len(), 0);
    assert_eq!(wakes(&counter), 0);
}

#[test]
fn order_holds_when_enqueues_and_dequeues_alternate() {
    let mut fifo: AsyncFifo<&str, 3> = AsyncFifo::new();
    let (mut producer, mut consumer) = fifo.split();
    let (_, waker) = counting_waker();
    assert_eq!(producer.enqueue(&mut fifo, "a"), Ok(false));
    assert_eq!(producer.enqueue(&mut fifo, "b"), Ok(false));
    assert_eq!(consumer.dequeue(&mut fifo, waker.clone()), Some("a"));
    assert_eq!(producer.enqueue(&mut fifo, "c"), Ok(false));
    assert_eq!(producer.enqueue(&mut fifo, "d"), Ok(false));
    assert_eq!(producer.enqueue(&mut fifo, "e"), Err("e"));
    assert_eq!(consumer.dequeue(&mut fifo, waker.clone()), Some("b"));
    assert_eq!(consumer.dequeue(&mut fifo, waker.clone()), Some("c"));
    assert_eq!(consumer.dequeue(&mut fifo, waker.clone()), Some("d"));
    assert_eq!(consumer.dequeue(&mut fifo, waker), None);
}

#[test]
fn overflow_drops_the_newest() {
    let mut fifo: AsyncFifo<char, 2> = AsyncFifo::new();
    let (mut producer, mut consumer) = fifo.split();
    assert_eq!(producer.enqueue(&mut fifo, 'A'), Ok(false));
    assert_eq!(producer.enqueue(&mut fifo, 'B'), Ok(false));
    assert_eq!(producer.enqueue(&mut fifo, 'C'), Err('C'));
    assert_eq!(fifo.len(), 2);
    let (_, waker) = counting_waker();
    assert_eq!(consumer.dequeue(&mut fifo, waker.clone()), Some('A'));
    assert_eq!(consumer.dequeue(&mut fifo, waker.clone()), Some('B'));
    assert_eq!(consumer.dequeue(&mut fifo, waker), None);
}

#[test]
fn full_queue_of_thirty_two_rejects_the_next() {
    let mut fifo: AsyncFifo<usize, 32> = AsyncFifo::new();
    let (mut producer, _) = fifo.split();
    for item in 0..32usize {
        assert_eq!(producer.enqueue(&mut fifo, item), Ok(false));
    }
    assert_eq!(producer.enqueue(&mut fifo, 32), Err(32));
    assert_eq!(fifo.len(), 32);
}

#[test]
fn suspended_consumer_is_woken_once() {
    let mut fifo: AsyncFifo<u8, 4> = AsyncFifo::new();
    let (mut producer, mut consumer) = fifo.split();
    let (counter, waker) = counting_waker();
    assert_eq!(consumer.dequeue(&mut fifo, waker.clone()), None);
    assert_eq!(wakes(&counter), 0);

    assert_eq!(producer.enqueue(&mut fifo, 10), Ok(true));
    assert_eq!(wakes(&counter), 1);
    assert_eq!(producer.enqueue(&mut fifo, 20), Ok(false));
    assert_eq!(wakes(&counter), 1);

    assert_eq!(consumer.dequeue(&mut fifo, waker.clone()), Some(10));
    assert_eq!(consumer.dequeue(&mut fifo, waker.clone()), Some(20));
    assert_eq!(wakes(&counter), 1);
}

#[test]
fn each_suspension_is_woken_by_the_next_enqueue() {
    let mut fifo: AsyncFifo<u8, 4> = AsyncFifo::new();
    let (mut producer, mut consumer) = fifo.split();
    let (counter, waker) = counting_waker();
    for round in 1..=3u8 {
        assert_eq!(consumer.dequeue(&mut fifo, waker.clone()), None);
        assert_eq!(producer.enqueue(&mut fifo, round), Ok(true));
        assert_eq!(wakes(&counter), round as usize);
        assert_eq!(consumer.dequeue(&mut fifo, waker.clone()), Some(round));
    }
}

#[test]
fn dequeue_of_a_waiting_message_leaves_the_wake_slot_alone() {
    let mut fifo: AsyncFifo<u8, 4> = AsyncFifo::new();
    let (mut producer, mut consumer) = fifo.split();
    let (counter, waker) = counting_waker();
    assert_eq!(producer.enqueue(&mut fifo, 1), Ok(false));
    assert_eq!(consumer.dequeue(&mut fifo, waker), Some(1));
    assert_eq!(producer.enqueue(&mut fifo, 2), Ok(false));
    assert_eq!(wakes(&counter), 0);
}

#[test]
fn second_suspension_replaces_the_first_waker() {
    let mut fifo: AsyncFifo<u8, 4> = AsyncFifo::new();
    let (mut producer, mut consumer) = fifo.split();
    let (first, first_waker) = counting_waker();
    let (second, second_waker) = counting_waker();
    assert_eq!(consumer.dequeue(&mut fifo, first_waker), None);
    assert_eq!(consumer.dequeue(&mut fifo, second_waker), None);
    assert_eq!(producer.enqueue(&mut fifo, 5), Ok(true));
    assert_eq!(wakes(&first), 0);
    assert_eq!(wakes(&second), 1);
}

#[test]
fn rejected_message_wakes_nobody() {
    let mut fifo: AsyncFifo<u8, 0> = AsyncFifo::new();
    let (mut producer, mut consumer) = fifo.split();
    let (counter, waker) = counting_waker();
    assert_eq!(consumer.dequeue(&mut fifo, waker.clone()), None);
    assert_eq!(producer.enqueue(&mut fifo, 9), Err(9));
    assert_eq!(wakes(&counter), 0);
    assert_eq!(fifo.len(), 0);
    assert_eq!(consumer.dequeue(&mut fifo, waker), None);
}

#[test]
fn split_is_recorded() {
    let mut fifo: AsyncFifo<u8, 4> = AsyncFifo::new();
    assert!(!fifo.is_split());
    let _handles = fifo.split();
    assert!(fifo.is_split());
    assert_eq!(fifo.len(), 0);
}

#[test]
fn length_stays_within_the_capacity() {
    let mut fifo: AsyncFifo<u8, 3> = AsyncFifo::new();
    let (mut producer, _) = fifo.split();
    for item in 0..10u8 {
        let _ = producer.enqueue(&mut fifo, item);
        assert!(fifo.len() <= 3);
    }
    assert_eq!(fifo.len(), 3);
}
