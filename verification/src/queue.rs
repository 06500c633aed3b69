use vstd::prelude::*;
use crate::itc::WaitQueue;
use crate::kernel::Kernel;

verus! {

/// Slot `x` of a ring of `n` slots, for `0 <= x < 2 * n`.
pub open spec fn wrap(x: int, n: int) -> int {
    if x < n {
        x
    } else {
        x - n
    }
}

proof fn lemma_mod_wrap(x: int, n: int)
    requires
        0 < n,
        0 <= x < 2 * n,
    ensures
        x % n == wrap(x, n),
{
    assert(x % n == wrap(x, n)) by (nonlinear_arith)
        requires
            0 < n,
            0 <= x < 2 * n,
    {
        if x >= n {
            assert((x - n) % n == x % n);
        }
    }
}

/// Ring-buffer bookkeeping of a queue.
struct QueueState {
    count: usize,
    write_idx: usize,
    read_idx: usize,
    prod_waiting: WaitQueue,
    cons_waiting: WaitQueue,
}

/// A bounded multi-producer, multi-consumer queue of at most `N` items,
/// kept in a ring buffer. Items come out in the order they went in;
/// blocked producers and consumers are woken highest priority first.
pub struct Queue<T, const N: usize> {
    data: Vec<Option<T>>,
    state: QueueState,
}

impl<T, const N: usize> View for Queue<T, N> {
    type V = Seq<T>;

    /// The items of the queue, oldest first.
    closed spec fn view(&self) -> Seq<T> {
        Seq::new(
            self.state.count as nat,
            |i: int| self.data@[wrap(self.state.read_idx + i, N as int)]->0,
        )
    }
}

impl<T, const N: usize> Queue<T, N> {
    /// The ring holds `count` items from `read_idx` on, and `write_idx` is
    /// the slot after the last of them.
    pub closed spec fn wf(&self) -> bool {
        &&& self.data@.len() == N
        &&& self.state.count <= N
        &&& N > 0 ==> self.state.read_idx < N
        &&& N > 0 ==> self.state.write_idx == wrap(
            self.state.read_idx + self.state.count,
            N as int,
        )
        &&& forall|i: int|
            0 <= i < self.state.count ==> (#[trigger] self.data@[wrap(
                self.state.read_idx + i,
                N as int,
            )]) is Some
    }

    /// Producers waiting for room.
    pub closed spec fn producers(&self) -> WaitQueue {
        self.state.prod_waiting
    }

    /// Consumers waiting for an item.
    pub closed spec fn consumers(&self) -> WaitQueue {
        self.state.cons_waiting
    }

    /// An empty queue.
    pub fn new() -> (r: Self)
        ensures
            r.wf(),
            r@ == Seq::<T>::empty(),
            r.producers()@ == Seq::new(crate::MAX_TASKS as nat, |i: int| false),
            r.consumers()@ == Seq::new(crate::MAX_TASKS as nat, |i: int| false),
    {
        let mut data: Vec<Option<T>> = Vec::new();
        let mut i: usize = 0;
        while i < N
            invariant
                i <= N,
                data@.len() == i,
            decreases N - i,
        {
            data.push(None);
            i = i + 1;
        }
        let r = Queue {
            data,
            state: QueueState {
                count: 0,
                write_idx: 0,
                read_idx: 0,
                prod_waiting: WaitQueue::new(),
                cons_waiting: WaitQueue::new(),
            },
        };
        assert(r@ == Seq::<T>::empty());
        r
    }

    /// Appends `item` behind the last item.
    fn push_back(&mut self, item: T)
        requires
            old(self).wf(),
            old(self)@.len() < N,
        ensures
            final(self).wf(),
            final(self)@ == old(self)@.push(item),
            final(self).producers() == old(self).producers(),
            final(self).consumers() == old(self).consumers(),
    {
        let ghost q0 = self@;
        let w = self.state.write_idx;
        self.data[w] = Some(item);
        proof {
            lemma_mod_wrap(w + 1, N as int);
        }
        self.state.write_idx = (w + 1) % N;
        self.state.count = self.state.count + 1;
        assert(self@ == q0.push(item));
    }

    /// Takes out the oldest item.
    fn pop_front(&mut self) -> (r: T)
        requires
            old(self).wf(),
            old(self)@.len() > 0,
        ensures
            final(self).wf(),
            r == old(self)@[0],
            final(self)@ == old(self)@.drop_first(),
            final(self).producers() == old(self).producers(),
            final(self).consumers() == old(self).consumers(),
    {
        let ghost q0 = self@;
        let ri = self.state.read_idx;
        assert(self.data@[wrap(ri + 0, N as int)] is Some);
        let item = self.data[ri].take();
        proof {
            lemma_mod_wrap(ri + 1, N as int);
        }
        self.state.read_idx = (ri + 1) % N;
        self.state.count = self.state.count - 1;
        assert forall|i: int| 0 <= i < self.state.count implies (#[trigger] self.data@[wrap(
            self.state.read_idx + i,
            N as int,
        )]) is Some by {
            assert(wrap(self.state.read_idx + i, N as int) == wrap(ri + (i + 1), N as int));
            assert(old(self).data@[wrap(ri + (i + 1), N as int)] is Some);
        }
        assert(self@ == q0.drop_first());
        item.unwrap()
    }

    /// Appends `item` if there is room, and then wakes the
    /// highest-priority waiting consumer; hands `item` back when the queue
    /// is full. Never blocks or yields.
    pub fn try_send(&mut self, k: &mut Kernel, item: T) -> (r: Result<(), T>)
        requires
            old(self).wf(),
            old(k).wf(),
        ensures
            final(self).wf(),
            final(k).wf(),
            final(self).producers() == old(self).producers(),
            old(self)@.len() == N ==> r == Err::<(), T>(item) && final(self)@ == old(self)@
                && final(self).consumers() == old(self).consumers() && *final(k) == *old(k),
            old(self)@.len() < N ==> r is Ok && final(self)@ == old(self)@.push(item) && exists|
                w: bool,
            | #[trigger] old(self).consumers().wakes(final(self).consumers(), *old(k), *final(k), w),
    {
        if self.state.count == N {
            return Err(item);
        }
        self.push_back(item);
        let w = self.state.cons_waiting.wake_highest_prio(k);
        assert(old(self).consumers().wakes(self.consumers(), *old(k), *k, w));
        Ok(())
    }

    /// Takes out the oldest item if there is one, and then wakes the
    /// highest-priority waiting producer. Never blocks or yields.
    pub fn try_receive(&mut self, k: &mut Kernel) -> (r: Option<T>)
        requires
            old(self).wf(),
            old(k).wf(),
        ensures
            final(self).wf(),
            final(k).wf(),
            final(self).consumers() == old(self).consumers(),
            old(self)@.len() == 0 ==> r is None && final(self)@ == old(self)@
                && final(self).producers() == old(self).producers() && *final(k) == *old(k),
            old(self)@.len() > 0 ==> r == Some(old(self)@[0]) && final(self)@ == old(self)@.drop_first()
                && exists|w: bool| #[trigger]
                    old(self).producers().wakes(final(self).producers(), *old(k), *final(k), w),
    {
        if self.state.count == 0 {
            return None;
        }
        let item = self.pop_front();
        let w = self.state.prod_waiting.wake_highest_prio(k);
        assert(old(self).producers().wakes(self.producers(), *old(k), *k, w));
        Some(item)
    }

    /// One attempt of a blocking send by the running task. When there is
    /// room: appends `item`, takes the task off the producers' queue, wakes
    /// the highest-priority waiting consumer and answers `Ok(woken)`; the
    /// caller yields when a consumer was woken. When the queue is full:
    /// blocks the task on the producers' queue and hands `item` back; the
    /// caller yields and tries again.
    pub fn send(&mut self, k: &mut Kernel, item: T) -> (r: Result<bool, T>)
        requires
            old(self).wf(),
            old(k).wf(),
            old(self)@.len() == N ==> old(k).current() is Some,
        ensures
            final(self).wf(),
            old(self)@.len() == N ==> r == Err::<bool, T>(item) && final(self)@ == old(self)@
                && final(self).consumers() == old(self).consumers()
                && old(self).producers().blocks_current(final(self).producers(), *old(k), *final(k)),
            old(self)@.len() < N ==> r is Ok && final(self)@ == old(self)@.push(item)
                && final(self).producers()@ == old(self).producers().without_current(*old(k))
                && old(self).consumers().wakes(final(self).consumers(), *old(k), *final(k), r->Ok_0),
    {
        if self.state.count == N {
            self.state.prod_waiting.block_current(k);
            return Err(item);
        }
        self.push_back(item);
        self.state.prod_waiting.remove_current(k);
        let woken = self.state.cons_waiting.wake_highest_prio(k);
        Ok(woken)
    }

    /// One attempt of a blocking receive by the running task. When there
    /// is an item: takes out the oldest, takes the task off the consumers'
    /// queue, wakes the highest-priority waiting producer and answers
    /// `Some((item, woken))`; the caller yields when a producer was woken.
    /// When the queue is empty: blocks the task on the consumers' queue and
    /// answers `None`; the caller yields and tries again.
    pub fn receive(&mut self, k: &mut Kernel) -> (r: Option<(T, bool)>)
        requires
            old(self).wf(),
            old(k).wf(),
            old(self)@.len() == 0 ==> old(k).current() is Some,
        ensures
            final(self).wf(),
            old(self)@.len() == 0 ==> r is None && final(self)@ == old(self)@
                && final(self).producers() == old(self).producers()
                && old(self).consumers().blocks_current(final(self).consumers(), *old(k), *final(k)),
            old(self)@.len() > 0 ==> r is Some && (r->0).0 == old(self)@[0] && final(self)@ == old(
                self,
            )@.drop_first() && final(self).consumers()@ == old(self).consumers().without_current(*old(k))
                && old(self).producers().wakes(final(self).producers(), *old(k), *final(k), (r->0).1),
    {
        if self.state.count == 0 {
            self.state.cons_waiting.block_current(k);
            return None;
        }
        let item = self.pop_front();
        self.state.cons_waiting.remove_current(k);
        let woken = self.state.prod_waiting.wake_highest_prio(k);
        Some((item, woken))
    }

    /// A queue never holds more than `N` items.
    pub proof fn lemma_len_bound(&self)
        requires
            self.wf(),
        ensures
            self@.len() <= N,
    {
    }

    /// Number of items in the queue, at most `N`.
    pub fn len(&self) -> (r: usize)
        requires
            self.wf(),
        ensures
            r == self@.len(),
            r <= N,
    {
        self.state.count
    }

    /// Whether the queue holds no item.
    pub fn is_empty(&self) -> (r: bool)
        requires
            self.wf(),
        ensures
            r == (self@.len() == 0),
    {
        self.len() == 0
    }

    /// Whether the queue holds `N` items.
    pub fn is_full(&self) -> (r: bool)
        requires
            self.wf(),
        ensures
            r == (self@.len() == N),
    {
        self.len() == N
    }
}

/// The sequence holding `o`'s item, if any.
pub open spec fn seq_of<T>(o: Option<T>) -> Seq<T> {
    match o {
        Some(x) => seq![x],
        None => Seq::empty(),
    }
}

/// One operation on a queue of capacity `cap` holding `q`, as
/// [`Queue::try_send`] and [`Queue::try_receive`] (and the successful
/// attempts of [`Queue::send`] and [`Queue::receive`]) perform it: `Some(x)`
/// sends `x`, taken only when there is room; `None` receives, which takes
/// the oldest item when there is one. Answers the new contents, the item
/// received and the item accepted.
pub open spec fn queue_step<T>(q: Seq<T>, cap: nat, op: Option<T>) -> (Seq<T>, Option<T>, Option<T>) {
    match op {
        Some(x) => if q.len() < cap {
            (q.push(x), None, Some(x))
        } else {
            (q, None, None)
        },
        None => if q.len() > 0 {
            (q.drop_first(), Some(q[0]), None)
        } else {
            (q, None, None)
        },
    }
}

/// A run of operations from contents `q`: the final contents, every item
/// received and every item accepted, in order.
pub open spec fn queue_run<T>(q: Seq<T>, cap: nat, ops: Seq<Option<T>>) -> (Seq<T>, Seq<T>, Seq<T>)
    decreases ops.len(),
{
    if ops.len() == 0 {
        (q, Seq::empty(), Seq::empty())
    } else {
        let (q1, got, took) = queue_step(q, cap, ops[0]);
        let (qn, received, accepted) = queue_run(q1, cap, ops.drop_first());
        (qn, seq_of(got) + received, seq_of(took) + accepted)
    }
}

/// Items leave a queue in the order they entered it: over any run of
/// sends and receives, the items held at the start followed by the items
/// accepted are exactly the items received followed by those still held.
pub proof fn lemma_queue_fifo<T>(q: Seq<T>, cap: nat, ops: Seq<Option<T>>)
    ensures
        ({
            let (qn, received, accepted) = queue_run(q, cap, ops);
            q + accepted == received + qn
        }),
    decreases ops.len(),
{
    if ops.len() > 0 {
        let (q1, got, took) = queue_step(q, cap, ops[0]);
        let (qn, received, accepted) = queue_run(q1, cap, ops.drop_first());
        lemma_queue_fifo(q1, cap, ops.drop_first());
        assert(q1 + accepted == received + qn);
        match ops[0] {
            Some(x) => {
                if q.len() < cap {
                    assert(q + (seq![x] + accepted) =~= q.push(x) + accepted);
                    assert(Seq::<T>::empty() + received =~= received);
                } else {
                    assert(Seq::<T>::empty() + accepted =~= accepted);
                    assert(Seq::<T>::empty() + received =~= received);
                }
            },
            None => {
                if q.len() > 0 {
                    assert(q =~= seq![q[0]] + q.drop_first());
                    assert(q + (Seq::<T>::empty() + accepted) =~= seq![q[0]] + (q1 + accepted));
                    assert(seq![q[0]] + (received + qn) =~= (seq![q[0]] + received) + qn);
                } else {
                    assert(Seq::<T>::empty() + accepted =~= accepted);
                    assert(Seq::<T>::empty() + received =~= received);
                }
            },
        }
    } else {
        assert(q + Seq::<T>::empty() =~= Seq::<T>::empty() + q);
    }
}

impl<T, const N: usize> Default for Queue<T, N> {
    fn default() -> (r: Self)
        ensures
            r.wf(),
            r@ == Seq::<T>::empty(),
    {
        Self::new()
    }
}

} // verus!
