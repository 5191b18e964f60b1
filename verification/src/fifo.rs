//! The bounded queue that carries a component's inbound messages, and the
//! single-slot signaller that wakes the one task waiting on it.
//!
//! A queue is owned in one place. Its producer and its consumer each hold a
//! handle, and either reaches the queue through an exclusive reference for
//! the length of one call, so that an enqueue and a dequeue never overlap.
//! Where messages are enqueued from an interrupt handler, the firmware holds
//! that interrupt off while a task dequeues.
//!
//! A task that finds the queue empty leaves its waker behind and suspends.
//! The next message that is enqueued fires that waker, once. The queue
//! serves one waiting task: a waker left behind replaces the one before it.

use core::marker::PhantomData;
use core::task::Waker;
use std::collections::VecDeque;
use vstd::prelude::*;

verus! {

/// The task handle of `core::task`, carried through without looking inside.
#[verifier::external_type_specification]
#[verifier::external_body]
pub struct ExWaker(core::task::Waker);

/// Calls `core::task::Waker::wake`, which consumes the waker and asks the
/// executor to poll its task again. Nothing is claimed of the executor.
#[verifier::external_body]
fn wake_task(waker: Waker) {
    waker.wake()
}

/// Holds at most one waker: that of the task suspended on the queue.
pub struct Signaller {
    waker: Option<Waker>,
}

impl View for Signaller {
    type V = Option<Waker>;

    closed spec fn view(&self) -> Option<Waker> {
        self.waker
    }
}

impl Signaller {
    /// A signaller with an empty slot.
    pub fn new() -> (signaller: Self)
        ensures
            signaller@ is None,
    {
        Signaller { waker: None }
    }

    /// Stores `waker` in the slot; a waker already there is replaced.
    pub fn set_waker(&mut self, waker: Waker)
        ensures
            final(self)@ == Some(waker),
    {
        self.waker = Some(waker);
    }

    /// Empties the slot and wakes the task whose waker was in it. Returns
    /// whether there was one.
    pub fn wake(&mut self) -> (fired: bool)
        ensures
            fired == (old(self)@ is Some),
            final(self)@ is None,
    {
        match self.waker.take() {
            Some(waker) => {
                wake_task(waker);
                true
            },
            None => false,
        }
    }
}

/// What a queue holds, as contracts see it.
pub struct FifoView<T> {
    /// The messages waiting, oldest first.
    pub items: Seq<T>,
    /// The waker of the suspended consumer, if one is suspended.
    pub waker: Option<Waker>,
    /// Whether the two handles have been handed out.
    pub split: bool,
}

impl<T> FifoView<T> {
    /// A queue that holds nothing, before the handles are handed out.
    pub open spec fn empty() -> Self {
        FifoView { items: Seq::empty(), waker: None, split: false }
    }

    /// Whether no further message fits.
    pub open spec fn is_full(self, capacity: nat) -> bool {
        self.items.len() >= capacity
    }

    /// The queue after an attempt to enqueue `item`: a full queue is left as
    /// it is; otherwise `item` goes to the back and the wake slot is emptied.
    pub open spec fn enqueue(self, capacity: nat, item: T) -> Self {
        if self.is_full(capacity) {
            self
        } else {
            FifoView { items: self.items.push(item), waker: None, split: self.split }
        }
    }

    /// What an attempt to enqueue `item` reports: the item itself when the
    /// queue is full, otherwise whether a suspended consumer was woken.
    pub open spec fn enqueue_result(self, capacity: nat, item: T) -> Result<bool, T> {
        if self.is_full(capacity) {
            Err(item)
        } else {
            Ok(self.waker is Some)
        }
    }

    /// The queue after a dequeue by a task with the given waker: the oldest
    /// message leaves; from an empty queue nothing leaves and the waker is
    /// left in the wake slot.
    pub open spec fn dequeue(self, waker: Waker) -> Self {
        if self.items.len() > 0 {
            FifoView { items: self.items.drop_first(), waker: self.waker, split: self.split }
        } else {
            FifoView { items: self.items, waker: Some(waker), split: self.split }
        }
    }

    /// What a dequeue yields: the oldest message, or nothing from an empty
    /// queue.
    pub open spec fn dequeue_result(self) -> Option<T> {
        if self.items.len() > 0 {
            Some(self.items[0])
        } else {
            None
        }
    }
}

impl<T> FifoView<T> {
    /// The queue after attempts to enqueue each of `items` in turn.
    pub open spec fn enqueue_all(self, capacity: nat, items: Seq<T>) -> Self
        decreases items.len(),
    {
        if items.len() == 0 {
            self
        } else {
            self.enqueue_all(capacity, items.drop_last()).enqueue(capacity, items.last())
        }
    }

    /// How many of the attempts to enqueue each of `items` in turn wake a
    /// suspended consumer.
    pub open spec fn wakes(self, capacity: nat, items: Seq<T>) -> nat
        decreases items.len(),
    {
        if items.len() == 0 {
            0
        } else {
            let before = self.enqueue_all(capacity, items.drop_last());
            let woke = before.enqueue_result(capacity, items.last()) == Ok::<bool, T>(true);
            self.wakes(capacity, items.drop_last()) + if woke { 1nat } else { 0nat }
        }
    }

    /// The queue after one dequeue for each of `wakers` in turn.
    pub open spec fn dequeue_all(self, wakers: Seq<Waker>) -> Self
        decreases wakers.len(),
    {
        if wakers.len() == 0 {
            self
        } else {
            self.dequeue_all(wakers.drop_last()).dequeue(wakers.last())
        }
    }

    /// What one dequeue for each of `wakers` in turn yields.
    pub open spec fn yields(self, wakers: Seq<Waker>) -> Seq<Option<T>>
        decreases wakers.len(),
    {
        if wakers.len() == 0 {
            Seq::empty()
        } else {
            self.yields(wakers.drop_last()).push(
                self.dequeue_all(wakers.drop_last()).dequeue_result(),
            )
        }
    }

    /// A queue within its capacity stays within it, whatever is enqueued and
    /// dequeued.
    pub proof fn lemma_stays_within_capacity(self, capacity: nat, item: T, waker: Waker)
        requires
            self.items.len() <= capacity,
        ensures
            self.enqueue(capacity, item).items.len() <= capacity,
            self.dequeue(waker).items.len() <= capacity,
    {
    }

    /// Attempts to enqueue `items` keep what the queue held and add, in
    /// order, as many of `items` as there is room for; the rest are dropped.
    pub proof fn lemma_enqueue_all(self, capacity: nat, items: Seq<T>)
        requires
            self.items.len() <= capacity,
        ensures
            self.enqueue_all(capacity, items).items == self.items + items.take(
                if items.len() <= capacity - self.items.len() {
                    items.len() as int
                } else {
                    capacity - self.items.len()
                },
            ),
            self.enqueue_all(capacity, items).split == self.split,
        decreases items.len(),
    {
        if items.len() > 0 {
            let front = items.drop_last();
            self.lemma_enqueue_all(capacity, front);
            let room = capacity - self.items.len();
            if items.len() <= room {
                assert(items.take(items.len() as int) == front.take(front.len() as int).push(
                    items.last(),
                ));
            } else if front.len() <= room {
                assert(items.take(room) == front.take(front.len() as int));
            } else {
                assert(items.take(room) == front.take(room));
            }
        } else {
            assert(items.take(0) == Seq::<T>::empty());
        }
    }

    /// Dequeues, no more of them than there are messages, yield the messages
    /// oldest first and leave the rest, with the wake slot untouched.
    pub proof fn lemma_dequeue_all(self, wakers: Seq<Waker>)
        requires
            wakers.len() <= self.items.len(),
        ensures
            self.yields(wakers) == self.items.take(wakers.len() as int).map_values(
                |item: T| Some(item),
            ),
            self.dequeue_all(wakers).items == self.items.skip(wakers.len() as int),
            self.dequeue_all(wakers).waker == self.waker,
            self.dequeue_all(wakers).split == self.split,
        decreases wakers.len(),
    {
        let wrap = |item: T| Some(item);
        if wakers.len() > 0 {
            let front = wakers.drop_last();
            self.lemma_dequeue_all(front);
            let before = self.dequeue_all(front);
            assert(before.items.len() > 0);
            assert(before.items.drop_first() == self.items.skip(wakers.len() as int));
            assert(self.items.take(wakers.len() as int).map_values(wrap) == self.items.take(
                front.len() as int,
            ).map_values(wrap).push(Some(before.items[0])));
        } else {
            assert(self.items.skip(0) == self.items);
            assert(self.items.take(0).map_values(wrap) == Seq::<Option<T>>::empty());
        }
    }

    /// Dequeues from an empty queue yield nothing and leave the queue empty;
    /// the waker of the last of them is the one that stays in the wake slot.
    pub proof fn lemma_dequeue_from_empty(self, wakers: Seq<Waker>)
        requires
            self.items.len() == 0,
            wakers.len() > 0,
        ensures
            self.yields(wakers) == Seq::new(wakers.len(), |i: int| None::<T>),
            self.dequeue_all(wakers).items == self.items,
            self.dequeue_all(wakers).waker == Some(wakers.last()),
            self.dequeue_all(wakers).split == self.split,
        decreases wakers.len(),
    {
        let front = wakers.drop_last();
        let before = self.dequeue_all(front);
        if front.len() > 0 {
            self.lemma_dequeue_from_empty(front);
        }
        assert(before.items.len() == 0);
        assert(self.yields(wakers) == self.yields(front).push(None::<T>));
        assert(self.yields(wakers) =~= Seq::new(wakers.len(), |i: int| None::<T>));
    }

    /// Messages come out in the order in which they went in: after `items`
    /// are enqueued into a queue with room for all of them, dequeues yield
    /// what the queue held before and then `items`, each once and in order.
    pub proof fn lemma_fifo_order(self, capacity: nat, items: Seq<T>, wakers: Seq<Waker>)
        requires
            self.items.len() + items.len() <= capacity,
            wakers.len() <= self.items.len() + items.len(),
        ensures
            self.enqueue_all(capacity, items).yields(wakers) == (self.items + items).take(
                wakers.len() as int,
            ).map_values(|item: T| Some(item)),
    {
        self.lemma_enqueue_all(capacity, items);
        assert(items.take(items.len() as int) == items);
        self.enqueue_all(capacity, items).lemma_dequeue_all(wakers);
    }

    /// A full queue drops what is offered: whatever is enqueued into an empty
    /// queue, it then holds the first `capacity` of them, in order.
    pub proof fn lemma_overflow_keeps_oldest(capacity: nat, items: Seq<T>)
        requires
            items.len() >= capacity,
        ensures
            Self::empty().enqueue_all(capacity, items).items == items.take(capacity as int),
    {
        Self::empty().lemma_enqueue_all(capacity, items);
        assert(Seq::<T>::empty() + items.take(capacity as int) == items.take(capacity as int));
    }

    /// A queue whose wake slot is empty wakes nobody, whatever is enqueued.
    pub proof fn lemma_no_wake_without_waker(self, capacity: nat, items: Seq<T>)
        requires
            self.waker is None,
        ensures
            self.wakes(capacity, items) == 0,
            self.enqueue_all(capacity, items).waker is None,
        decreases items.len(),
    {
        if items.len() > 0 {
            self.lemma_no_wake_without_waker(capacity, items.drop_last());
        }
    }

    /// A suspended consumer is woken once: of the enqueues that follow a
    /// dequeue from an empty queue, the first wakes it and no later one does,
    /// and all of them that fit are delivered in order.
    pub proof fn lemma_wakes_once(self, capacity: nat, waker: Waker, items: Seq<T>)
        requires
            self.items.len() == 0,
            0 < items.len() <= capacity,
        ensures
            self.dequeue(waker).enqueue_result(capacity, items[0]) == Ok::<bool, T>(true),
            self.dequeue(waker).wakes(capacity, items) == 1,
            self.dequeue(waker).enqueue_all(capacity, items).waker is None,
            self.dequeue(waker).enqueue_all(capacity, items).items == items,
        decreases items.len(),
    {
        let suspended = self.dequeue(waker);
        let front = items.drop_last();
        if front.len() == 0 {
            assert(suspended.enqueue_all(capacity, front) == suspended);
            assert(suspended.wakes(capacity, front) == 0);
            assert(items.last() == items[0]);
            assert(suspended.enqueue(capacity, items[0]).items == items);
        } else {
            self.lemma_wakes_once(capacity, waker, front);
            assert(front[0] == items[0]);
            assert(front.push(items.last()) == items);
        }
    }
}

/// A queue of at most `N` messages with one wake slot.
pub struct AsyncFifo<T, const N: usize> {
    queue: VecDeque<T>,
    signaller: Signaller,
    split: bool,
}

/// The handle that may enqueue. `AsyncFifo::split` hands out one.
pub struct AsyncProducer<T, const N: usize> {
    _queue: PhantomData<T>,
}

/// The handle that may dequeue. `AsyncFifo::split` hands out one.
pub struct AsyncConsumer<T, const N: usize> {
    _queue: PhantomData<T>,
}

impl<T, const N: usize> View for AsyncFifo<T, N> {
    type V = FifoView<T>;

    closed spec fn view(&self) -> FifoView<T> {
        FifoView { items: self.queue@, waker: self.signaller@, split: self.split }
    }
}

impl<T, const N: usize> AsyncFifo<T, N> {
    /// A queue never holds more than its capacity.
    #[verifier::type_invariant]
    spec fn within_capacity(self) -> bool {
        self.queue@.len() <= N
    }

    /// The number of messages the queue can hold.
    pub open spec fn capacity() -> nat {
        N as nat
    }

    /// The number of messages waiting, which is never above the capacity.
    pub fn len(&self) -> (len: usize)
        ensures
            len == self@.items.len(),
            len <= Self::capacity(),
    {
        proof {
            use_type_invariant(self);
        }
        self.queue.len()
    }

    /// Whether the two handles have been handed out.
    pub fn is_split(&self) -> (split: bool)
        ensures
            split == self@.split,
    {
        self.split
    }

    /// An empty queue whose handles have not been handed out.
    pub fn new() -> (fifo: Self)
        ensures
            fifo@ == FifoView::<T>::empty(),
    {
        AsyncFifo { queue: VecDeque::new(), signaller: Signaller::new(), split: false }
    }

    /// Hands out the two handles. This is done once.
    pub fn split(&mut self) -> (handles: (AsyncProducer<T, N>, AsyncConsumer<T, N>))
        requires
            !old(self)@.split,
        ensures
            final(self)@ == (FifoView { split: true, ..old(self)@ }),
    {
        proof {
            use_type_invariant(&*self);
        }
        self.split = true;
        (AsyncProducer { _queue: PhantomData }, AsyncConsumer { _queue: PhantomData })
    }

    /// Takes the queue apart, leaving an empty one in its place for the
    /// moment.
    fn take(&mut self) -> (parts: (VecDeque<T>, Signaller, bool))
        ensures
            parts.0@ == old(self)@.items,
            parts.1@ == old(self)@.waker,
            parts.2 == old(self)@.split,
            parts.0@.len() <= N,
    {
        let mut taken = AsyncFifo::new();
        core::mem::swap(self, &mut taken);
        proof {
            use_type_invariant(&taken);
        }
        let AsyncFifo { queue, signaller, split } = taken;
        (queue, signaller, split)
    }
}

impl<T, const N: usize> AsyncProducer<T, N> {
    /// Puts `item` at the back of the queue and wakes the suspended consumer,
    /// if there is one. A full queue is left as it is and `item` comes back.
    pub fn enqueue(&mut self, fifo: &mut AsyncFifo<T, N>, item: T) -> (result: Result<bool, T>)
        requires
            old(fifo)@.split,
        ensures
            final(fifo)@ == old(fifo)@.enqueue(AsyncFifo::<T, N>::capacity(), item),
            final(fifo)@.items.len() <= AsyncFifo::<T, N>::capacity(),
            result == old(fifo)@.enqueue_result(AsyncFifo::<T, N>::capacity(), item),
    {
        let (mut queue, mut signaller, split) = fifo.take();
        if queue.len() >= N {
            *fifo = AsyncFifo { queue, signaller, split };
            Err(item)
        } else {
            queue.push_back(item);
            let woke = signaller.wake();
            *fifo = AsyncFifo { queue, signaller, split };
            Ok(woke)
        }
    }
}

impl<T, const N: usize> AsyncConsumer<T, N> {
    /// Takes the oldest message if there is one. Otherwise leaves `waker` in
    /// the wake slot, in place of any waker left there before, and yields
    /// nothing: the task is to suspend until the waker fires.
    pub fn dequeue(&mut self, fifo: &mut AsyncFifo<T, N>, waker: Waker) -> (item: Option<T>)
        requires
            old(fifo)@.split,
        ensures
            final(fifo)@ == old(fifo)@.dequeue(waker),
            final(fifo)@.items.len() <= AsyncFifo::<T, N>::capacity(),
            item == old(fifo)@.dequeue_result(),
    {
        let (mut queue, mut signaller, split) = fifo.take();
        let item = queue.pop_front();
        if item.is_none() {
            signaller.set_waker(waker);
        }
        *fifo = AsyncFifo { queue, signaller, split };
        item
    }
}

} // verus!
