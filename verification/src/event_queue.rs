//! Fixed-capacity queues for communication between execution contexts.

use vstd::prelude::*;

verus! {

/// The position in a ring of `n` slots that lies `offset` places after
/// `start`, for `0 <= start < n` and `0 <= offset <= n`.
pub open spec fn ring_slot(start: int, offset: int, n: int) -> int {
    if start + offset < n {
        start + offset
    } else {
        start + offset - n
    }
}

/// The contents and result after pushing `value` onto a queue holding
/// `items` with room for `capacity` items: a full queue rejects the value and
/// is unchanged, any other queue takes it at the back.
pub open spec fn queue_push<T>(items: Seq<T>, capacity: nat, value: T) -> (Seq<T>, Result<(), T>) {
    if items.len() >= capacity {
        (items, Err(value))
    } else {
        (items.push(value), Ok(()))
    }
}

/// The contents and result after popping from a queue holding `items`: an
/// empty queue yields nothing and is unchanged, any other queue yields and
/// drops its oldest item.
pub open spec fn queue_pop<T>(items: Seq<T>) -> (Seq<T>, Option<T>) {
    if items.len() == 0 {
        (items, None)
    } else {
        (items.drop_first(), Some(items[0]))
    }
}

/// One operation on a queue.
pub enum QueueOp<T> {
    /// Push the value.
    Push(T),
    /// Pop the oldest value.
    Pop,
}

/// Runs `ops` in order on an empty queue with room for `capacity` items.
/// The result is the final contents, the values whose push was accepted, and
/// the values that pops returned, each in order.
pub open spec fn queue_run<T>(capacity: nat, ops: Seq<QueueOp<T>>) -> (Seq<T>, Seq<T>, Seq<T>)
    decreases ops.len(),
{
    if ops.len() == 0 {
        (Seq::empty(), Seq::empty(), Seq::empty())
    } else {
        let (items, accepted, popped) = queue_run(capacity, ops.drop_last());
        match ops.last() {
            QueueOp::Push(value) => {
                let (next, result) = queue_push(items, capacity, value);
                (next, if result is Ok { accepted.push(value) } else { accepted }, popped)
            },
            QueueOp::Pop => {
                let (next, result) = queue_pop(items);
                (next, accepted, if let Some(value) = result { popped.push(value) } else { popped })
            },
        }
    }
}

/// First in, first out: over any run of pushes and pops on a queue, the
/// values popped followed by the values still queued are exactly the values
/// whose push was accepted, in the order they were pushed; and the queue
/// never holds more than its capacity.
pub proof fn lemma_fifo<T>(capacity: nat, ops: Seq<QueueOp<T>>)
    ensures
        ({
            let (items, accepted, popped) = queue_run(capacity, ops);
            &&& popped + items == accepted
            &&& items.len() <= capacity
        }),
    decreases ops.len(),
{
    if ops.len() > 0 {
        lemma_fifo(capacity, ops.drop_last());
        let (items, accepted, popped) = queue_run(capacity, ops.drop_last());
        match ops.last() {
            QueueOp::Push(value) => {
                if items.len() < capacity {
                    assert(popped + items.push(value) =~= (popped + items).push(value));
                }
            },
            QueueOp::Pop => {
                if items.len() > 0 {
                    assert(popped.push(items[0]) + items.drop_first() =~= popped + items);
                }
            },
        }
    }
}

/// Items pushed onto an empty queue, no more than it holds, are all accepted
/// and come back out in the same order.
pub proof fn lemma_pushes_then_pops_in_order<T>(capacity: nat, values: Seq<T>)
    requires
        values.len() <= capacity,
    ensures
        ({
            let ops = values.map_values(|v: T| QueueOp::Push(v)) + Seq::new(
                values.len(),
                |i: int| QueueOp::<T>::Pop,
            );
            let (items, accepted, popped) = queue_run(capacity, ops);
            &&& accepted == values
            &&& popped == values
            &&& items.len() == 0
        }),
{
    lemma_pops_drain(capacity, values, values.len());
    assert(values.skip(values.len() as int) =~= Seq::<T>::empty());
    assert(values.take(values.len() as int) =~= values);
}

proof fn lemma_pushes_accepted<T>(capacity: nat, values: Seq<T>, k: nat)
    requires
        values.len() <= capacity,
        k <= values.len(),
    ensures
        ({
            let (items, accepted, popped) = queue_run(
                capacity,
                values.map_values(|v: T| QueueOp::Push(v)).take(k as int),
            );
            items == values.take(k as int) && accepted == values.take(k as int) && popped.len()
                == 0
        }),
    decreases k,
{
    let pushes = values.map_values(|v: T| QueueOp::Push(v));
    if k > 0 {
        lemma_pushes_accepted(capacity, values, (k - 1) as nat);
        assert(pushes.take(k as int).drop_last() =~= pushes.take(k - 1));
        assert(values.take(k - 1).push(values[k - 1]) =~= values.take(k as int));
    } else {
        assert(pushes.take(0) =~= Seq::<QueueOp<T>>::empty());
        assert(values.take(0) =~= Seq::<T>::empty());
    }
}

proof fn lemma_pops_drain<T>(capacity: nat, values: Seq<T>, k: nat)
    requires
        values.len() <= capacity,
        k <= values.len(),
    ensures
        ({
            let ops = values.map_values(|v: T| QueueOp::Push(v)) + Seq::new(
                k,
                |i: int| QueueOp::<T>::Pop,
            );
            let (items, accepted, popped) = queue_run(capacity, ops);
            items == values.skip(k as int) && accepted == values && popped == values.take(k as int)
        }),
    decreases k,
{
    let pushes = values.map_values(|v: T| QueueOp::Push(v));
    let n = values.len();
    if k > 0 {
        lemma_pops_drain(capacity, values, (k - 1) as nat);
        let ops = pushes + Seq::new(k, |i: int| QueueOp::<T>::Pop);
        assert(ops.drop_last() =~= pushes + Seq::new((k - 1) as nat, |i: int| QueueOp::<T>::Pop));
        assert(values.skip(k - 1).drop_first() =~= values.skip(k as int));
        assert(values.take(k - 1).push(values[k - 1]) =~= values.take(k as int));
    } else {
        lemma_pushes_accepted(capacity, values, n);
        assert(pushes.take(n as int) =~= pushes);
        assert(pushes + Seq::new(0, |i: int| QueueOp::<T>::Pop) =~= pushes);
        assert(values.take(n as int) =~= values);
        assert(values.skip(0) =~= values);
        assert(values.take(0) =~= Seq::<T>::empty());
    }
}

/// A fixed-capacity first-in-first-out queue.
///
/// Storage is a fixed array of `N` slots and the queue performs no heap
/// allocation. Its contents, oldest first, are its view.
pub struct EventQueue<T: Copy, const N: usize> {
    buffer: [Option<T>; N],
    head: usize,
    tail: usize,
    length: usize,
}

impl<T: Copy, const N: usize> View for EventQueue<T, N> {
    type V = Seq<T>;

    /// The stored items, oldest first.
    closed spec fn view(&self) -> Seq<T> {
        Seq::new(
            self.length as nat,
            |i: int| self.buffer@[ring_slot(self.head as int, i, N as int)].unwrap(),
        )
    }
}

impl<T: Copy, const N: usize> EventQueue<T, N> {
    /// The queue's internal consistency: the stored items occupy the
    /// `length` slots that follow `head` around the ring, and `tail` is the
    /// slot after the newest item.
    pub closed spec fn wf(&self) -> bool {
        &&& N > 0
        &&& self.head < N
        &&& self.length <= N
        &&& self.tail as int == ring_slot(self.head as int, self.length as int, N as int)
        &&& forall|i: int|
            0 <= i < self.length ==> (#[trigger] self.buffer@[ring_slot(
                self.head as int,
                i,
                N as int,
            )]) is Some
    }

    /// Creates an empty queue with capacity `N`.
    ///
    /// A queue needs room for at least one item, so `N` must not be zero.
    pub fn new() -> (queue: Self)
        requires
            N > 0,
        ensures
            queue.wf(),
            queue@ == Seq::<T>::empty(),
    {
        let queue = Self { buffer: [None; N], head: 0, tail: 0, length: 0 };
        assert(queue@ =~= Seq::<T>::empty());
        queue
    }

    /// Adds an item to the back of the queue.
    ///
    /// Returns the rejected item if the queue is full; the queue is then
    /// left unchanged.
    pub fn push(&mut self, value: T) -> (result: Result<(), T>)
        requires
            old(self).wf(),
        ensures
            final(self).wf(),
            (final(self)@, result) == queue_push(old(self)@, N as nat, value),
            final(self)@.len() <= N,
    {
        if self.is_full() {
            return Err(value);
        }
        let ghost before = *self;
        self.buffer[self.tail] = Some(value);
        let next = self.tail + 1;
        if next == N {
            self.tail = 0;
        } else {
            self.tail = next;
        }
        self.length += 1;
        proof {
            assert forall|i: int| 0 <= i < before.length implies #[trigger] ring_slot(
                self.head as int,
                i,
                N as int,
            ) != before.tail by {}
            assert(self@ =~= before@.push(value));
        }
        Ok(())
    }

    /// Removes and returns the oldest item.
    ///
    /// Returns `None`, leaving the queue unchanged, if the queue is empty.
    pub fn pop(&mut self) -> (result: Option<T>)
        requires
            old(self).wf(),
        ensures
            final(self).wf(),
            (final(self)@, result) == queue_pop(old(self)@),
            final(self)@.len() <= N,
    {
        if self.is_empty() {
            return None;
        }
        let ghost before = *self;
        let value = self.buffer[self.head];
        self.buffer[self.head] = None;
        let next = self.head + 1;
        if next == N {
            self.head = 0;
        } else {
            self.head = next;
        }
        self.length -= 1;
        proof {
            assert(before.buffer@[ring_slot(before.head as int, 0, N as int)] is Some);
            assert forall|i: int| 0 <= i < self.length implies #[trigger] ring_slot(
                self.head as int,
                i,
                N as int,
            ) == ring_slot(before.head as int, i + 1, N as int) && ring_slot(
                self.head as int,
                i,
                N as int,
            ) != before.head by {}
            assert forall|i: int| 0 <= i < self.length implies (#[trigger] self.buffer@[ring_slot(
                self.head as int,
                i,
                N as int,
            )]) is Some by {
                assert(before.buffer@[ring_slot(before.head as int, i + 1, N as int)] is Some);
            }
            assert(self@ =~= before@.drop_first());
        }
        value
    }

    /// A consistent queue never holds more items than its capacity, so it is
    /// full exactly when a push would be rejected.
    pub proof fn lemma_len_bounded(&self)
        requires
            self.wf(),
        ensures
            self@.len() <= N,
            forall|value: T| (#[trigger] queue_push(self@, N as nat, value)).1 is Err <==> self@.len() == N,
    {
    }

    /// Returns the number of items currently stored.
    pub fn len(&self) -> (count: usize)
        requires
            self.wf(),
        ensures
            count == self@.len(),
            count <= N,
    {
        self.length
    }

    /// Returns the queue's fixed capacity.
    pub fn capacity(&self) -> (capacity: usize)
        ensures
            capacity == N,
    {
        N
    }

    /// Returns `true` if the queue contains no items.
    pub fn is_empty(&self) -> (empty: bool)
        requires
            self.wf(),
        ensures
            empty == (self@.len() == 0),
    {
        self.length == 0
    }

    /// Returns `true` if the queue has reached its capacity.
    pub fn is_full(&self) -> (full: bool)
        requires
            self.wf(),
        ensures
            full == (self@.len() == N),
            self@.len() <= N,
            forall|value: T| (#[trigger] queue_push(self@, N as nat, value)).1 is Err <==> full,
    {
        self.length == N
    }
}

} // verus!
