use vstd::prelude::*;
use crate::MAX_TASKS;
use crate::bitmap::ascending_members;
use crate::kernel::{Kernel, with_state};
use crate::task_map::{TaskMap, ids_of};
use crate::types::{TaskId, TaskState, BlockReason};

verus! {

/// Whether task `t` of `k` is blocked on a wait queue.
pub open spec fn waits_on_queue(k: Kernel, t: int) -> bool {
    k.state(t) == TaskState::Blocked(BlockReason::WaitQueue)
}

/// Tasks waiting for a synchronisation object to become available.
pub struct WaitQueue {
    waiting: TaskMap,
}

impl View for WaitQueue {
    type V = Seq<bool>;

    closed spec fn view(&self) -> Seq<bool> {
        self.waiting@
    }
}

impl WaitQueue {
    /// A wait queue has one entry per task slot.
    pub proof fn lemma_len(&self)
        ensures
            self@.len() == MAX_TASKS,
    {
        self.waiting.lemma_view();
    }

    /// Whether `r` is the task a wake-up picks: among the tasks of the
    /// queue that are blocked on a wait queue, one of the highest priority
    /// (lowest number), the lowest slot among equals; `None` when there is
    /// no such task.
    pub open spec fn picks(&self, k: Kernel, r: Option<int>) -> bool {
        &&& r is None <==> !(exists|t: int| 0 <= t < MAX_TASKS && #[trigger] self@[t] && waits_on_queue(k, t))
        &&& r matches Some(t) ==> {
            &&& 0 <= t < MAX_TASKS
            &&& self@[t]
            &&& waits_on_queue(k, t)
            &&& forall|u: int|
                0 <= u < MAX_TASKS && #[trigger] self@[u] && waits_on_queue(k, u) ==> k.priority(t) <= k.priority(u)
            &&& forall|u: int|
                0 <= u < MAX_TASKS && #[trigger] self@[u] && waits_on_queue(k, u) && k.priority(u) == k.priority(t)
                    ==> t <= u
        }
    }

    /// What one wake-up does: `next` and `k_next` are the queue and kernel
    /// after waking from `self` and `k`, `r` whether a task was woken. A
    /// task is woken exactly when one of the queue is blocked on a wait
    /// queue; then the task [`WaitQueue::picks`] chooses leaves the queue
    /// and becomes ready, and nothing else changes.
    pub open spec fn wakes(&self, next: WaitQueue, k: Kernel, k_next: Kernel, r: bool) -> bool {
        &&& k_next.wf()
        &&& r == (exists|t: int| 0 <= t < MAX_TASKS && #[trigger] self@[t] && waits_on_queue(k, t))
        &&& !r ==> next@ == self@ && k_next.unchanged_from(&k)
        &&& r ==> exists|t: int| {
            &&& self.picks(k, Some(t))
            &&& next@ == self@.update(t, false)
            &&& k_next.tcbs() == k.tcbs().update(t, #[trigger] with_state(k.tcbs()[t], TaskState::Ready))
            &&& k_next.ready_set() == k.ready_set().update(t, true)
            &&& k_next.blocked_set() == k.blocked_set().update(t, false)
            &&& k_next.zombie_set() == k.zombie_set()
            &&& k_next.same_frame(&k)
        }
    }

    /// The queue with the running task of `k`, if any, taken off it.
    pub open spec fn without_current(&self, k: Kernel) -> Seq<bool> {
        match k.current() {
            Some(c) => self@.update(c@ as int, false),
            None => self@,
        }
    }

    /// What blocking the running task of `k` does: `next` and `k_next` are
    /// the queue and kernel afterwards. The task joins the queue and is
    /// blocked on a wait queue, and nothing else changes.
    pub open spec fn blocks_current(&self, next: WaitQueue, k: Kernel, k_next: Kernel) -> bool {
        let t = k.current()->0@ as int;
        &&& next@ == self@.update(t, true)
        &&& k_next.tcbs() == k.tcbs().update(t, with_state(k.tcbs()[t], TaskState::Blocked(BlockReason::WaitQueue)))
        &&& k_next.ready_set() == k.ready_set().update(t, false)
        &&& k_next.blocked_set() == k.blocked_set().update(t, true)
        &&& k_next.zombie_set() == k.zombie_set()
        &&& k_next.same_frame(&k)
        &&& k.live()[t] && !(k.state(t) is Zombie) ==> k_next.wf()
    }

    /// An empty queue.
    pub fn new() -> (r: Self)
        ensures
            r@ == Seq::new(MAX_TASKS as nat, |i: int| false),
    {
        WaitQueue { waiting: TaskMap::new() }
    }

    /// Adds the running task to the queue and blocks it.
    pub fn block_current(&mut self, k: &mut Kernel)
        requires
            old(k).wf(),
            old(k).current() is Some,
        ensures
            old(self).blocks_current(*final(self), *old(k), *final(k)),
    {
        let curr = crate::api::current_tid(k);
        self.waiting.add(curr);
        k.block_task(curr, BlockReason::WaitQueue);
    }

    /// Takes the running task, if any, off the queue.
    pub fn remove_current(&mut self, k: &Kernel)
        requires
            k.wf(),
        ensures
            final(self)@ == old(self).without_current(*k),
    {
        if let Some(curr) = k.current_task() {
            self.waiting.remove(curr);
        }
    }

    /// Wakes the task picked by [`WaitQueue::picks`], taking it off the
    /// queue and making it ready; reports whether a task was woken.
    /// Tasks of the queue that are no longer blocked on a wait queue (for
    /// instance suspended ones) are skipped.
    pub fn wake_highest_prio(&mut self, k: &mut Kernel) -> (r: bool)
        requires
            old(k).wf(),
        ensures
            old(self).wakes(*final(self), *old(k), *final(k), r),
    {
        let members = self.waiting.iter();
        let ghost z = ids_of(members@);
        proof {
            self.waiting.lemma_view();
        }
        let mut best: Option<TaskId> = None;
        let mut best_prio: u8 = 0;
        let mut i: usize = 0;
        while i < members.len()
            invariant
                k.wf(),
                z == ids_of(members@),
                self@.len() == MAX_TASKS,
                ascending_members(self@, z),
                forall|j: int| 0 <= j < members@.len() ==> (#[trigger] members@[j])@ < MAX_TASKS,
                i <= members@.len(),
                best is None ==> forall|j: int| 0 <= j < i ==> !waits_on_queue(*k, #[trigger] z[j] as int),
                best matches Some(b) ==> {
                    &&& b@ < MAX_TASKS
                    &&& self@[b@ as int]
                    &&& waits_on_queue(*k, b@ as int)
                    &&& best_prio == k.priority(b@ as int)
                    &&& forall|j: int| 0 <= j < i && waits_on_queue(*k, #[trigger] z[j] as int) ==> best_prio <= k.priority(z[j] as int)
                    &&& forall|j: int| 0 <= j < i && waits_on_queue(*k, #[trigger] z[j] as int) && k.priority(z[j] as int) == best_prio ==> b@ <= z[j]
                    &&& exists|j: int| 0 <= j < i && #[trigger] z[j] == b@
                },
            decreases members@.len() - i,
        {
            let tid = members[i];
            let task = k.task_unchecked(tid);
            proof {
                assert(z[i as int] == tid@);
            }
            if task.state == TaskState::Blocked(BlockReason::WaitQueue) {
                let p = task.priority;
                match best {
                    None => {
                        best = Some(tid);
                        best_prio = p;
                    },
                    Some(b) => {
                        proof {
                            let j = choose|j: int| 0 <= j < i && #[trigger] z[j] == b@;
                            assert(z[j] < z[i as int]);
                        }
                        if p < best_prio {
                            best = Some(tid);
                            best_prio = p;
                        }
                    },
                }
            }
            i = i + 1;
        }
        proof {
            if let Some(b) = best {
                assert forall|u: int| 0 <= u < MAX_TASKS && #[trigger] self@[u] && waits_on_queue(*k, u) implies k.priority(b@ as int) <= k.priority(u) && (k.priority(u) == k.priority(b@ as int) ==> b@ <= u) by {
                    let j = choose|j: int| 0 <= j < z.len() && z[j] == u as usize;
                    assert(waits_on_queue(*k, z[j] as int));
                }
                assert(self.picks(*k, Some(b@ as int)));
            } else {
                assert forall|t: int| 0 <= t < MAX_TASKS && #[trigger] self@[t] implies !waits_on_queue(*k, t) by {
                    let j = choose|j: int| 0 <= j < z.len() && z[j] == t as usize;
                    assert(!waits_on_queue(*k, z[j] as int));
                }
            }
        }
        match best {
            Some(tid) => {
                let ghost t = tid@ as int;
                let ghost k0 = *k;
                let ghost w0 = self@;
                self.waiting.remove(tid);
                k.unblock_task(tid);
                proof {
                    assert(w0[t] && waits_on_queue(k0, t));
                    assert(k.tcbs() == k0.tcbs().update(t, with_state(k0.tcbs()[t], TaskState::Ready)));
                }
                true
            },
            None => false,
        }
    }
}

/// Bookkeeping of a semaphore.
struct SemState {
    permits: usize,
    capacity: usize,
    waiting: WaitQueue,
}

impl SemState {
    fn new(init_permits: usize, capacity: usize) -> (r: Self)
        ensures
            r.permits == init_permits,
            r.capacity == capacity,
            r.waiting@ == Seq::new(MAX_TASKS as nat, |i: int| false),
    {
        SemState { permits: init_permits, capacity, waiting: WaitQueue::new() }
    }
}

/// A counting semaphore: up to `capacity` permits; waiting tasks are woken
/// highest priority first.
pub struct Semaphore {
    state: SemState,
}

impl Semaphore {
    /// Permits available.
    pub closed spec fn permits(&self) -> usize {
        self.state.permits
    }

    /// Most permits the semaphore holds.
    pub closed spec fn capacity(&self) -> usize {
        self.state.capacity
    }

    /// Tasks waiting for a permit.
    pub closed spec fn waiters(&self) -> WaitQueue {
        self.state.waiting
    }

    /// A semaphore with `init_permits` of at most `capacity` permits.
    pub fn new(init_permits: usize, capacity: usize) -> (r: Self)
        ensures
            r.permits() == init_permits,
            r.capacity() == capacity,
            r.waiters()@ == Seq::new(MAX_TASKS as nat, |i: int| false),
    {
        Semaphore { state: SemState::new(init_permits, capacity) }
    }

    /// A semaphore with one permit, available.
    pub fn binary() -> (r: Self)
        ensures
            r.permits() == 1,
            r.capacity() == 1,
    {
        Self::new(1, 1)
    }

    /// A semaphore with `capacity` permits, all available.
    pub fn counting(capacity: usize) -> (r: Self)
        ensures
            r.permits() == capacity,
            r.capacity() == capacity,
    {
        Self::new(capacity, capacity)
    }

    /// One attempt to take a permit for the running task: takes it (and
    /// takes the task off the wait queue) when one is available, otherwise
    /// blocks the task on the wait queue. Reports whether a permit was
    /// taken; the caller yields and tries again when it was not.
    pub fn wait(&mut self, k: &mut Kernel) -> (r: bool)
        requires
            old(k).wf(),
            old(self).permits() == 0 ==> old(k).current() is Some,
        ensures
            r == (old(self).permits() > 0),
            final(self).capacity() == old(self).capacity(),
            r ==> final(self).permits() == old(self).permits() - 1
                && final(self).waiters()@ == old(self).waiters().without_current(*old(k))
                && final(k).unchanged_from(&*old(k)),
            !r ==> final(self).permits() == 0 && old(self).waiters().blocks_current(
                final(self).waiters(),
                *old(k),
                *final(k),
            ),
    {
        if self.state.permits > 0 {
            self.state.permits = self.state.permits - 1;
            self.state.waiting.remove_current(k);
            true
        } else {
            self.state.waiting.block_current(k);
            false
        }
    }

    /// Takes a permit if one is available; reports whether it did.
    pub fn try_wait(&mut self) -> (r: bool)
        ensures
            r == (old(self).permits() > 0),
            final(self).permits() == if r {
                (old(self).permits() - 1) as usize
            } else {
                old(self).permits()
            },
            final(self).capacity() == old(self).capacity(),
            final(self).waiters() == old(self).waiters(),
    {
        if self.state.permits > 0 {
            self.state.permits = self.state.permits - 1;
            true
        } else {
            false
        }
    }

    /// Gives a permit back (the count never exceeds the capacity) and
    /// wakes the highest-priority waiting task, if any; reports whether a
    /// task was woken, in which case the caller yields.
    pub fn signal(&mut self, k: &mut Kernel) -> (r: bool)
        requires
            old(k).wf(),
        ensures
            final(k).wf(),
            final(self).permits() == if old(self).permits() < old(self).capacity() {
                (old(self).permits() + 1) as usize
            } else {
                old(self).permits()
            },
            final(self).capacity() == old(self).capacity(),
            old(self).waiters().wakes(final(self).waiters(), *old(k), *final(k), r),
    {
        if self.state.permits < self.state.capacity {
            self.state.permits = self.state.permits + 1;
        }
        proof {
            assert(self.state.waiting == old(self).waiters());
        }
        self.state.waiting.wake_highest_prio(k)
    }

    /// Permits available.
    pub fn available(&self) -> (r: usize)
        ensures
            r == self.permits(),
    {
        self.state.permits
    }
}

/// Bookkeeping of a mutex.
struct MutexState {
    locked: bool,
    waiting: WaitQueue,
}

impl MutexState {
    fn new() -> (r: Self)
        ensures
            !r.locked,
            r.waiting@ == Seq::new(MAX_TASKS as nat, |i: int| false),
    {
        MutexState { locked: false, waiting: WaitQueue::new() }
    }
}

/// A mutual-exclusion lock around a value; waiting tasks are woken highest
/// priority first.
pub struct Mutex<T> {
    data: T,
    state: MutexState,
}

impl<T> Mutex<T> {
    /// Whether some task holds the lock.
    pub closed spec fn locked(&self) -> bool {
        self.state.locked
    }

    /// The protected value.
    pub closed spec fn value(&self) -> T {
        self.data
    }

    /// Tasks waiting for the lock.
    pub closed spec fn waiters(&self) -> WaitQueue {
        self.state.waiting
    }

    /// An unlocked mutex holding `data`.
    pub fn new(data: T) -> (r: Self)
        ensures
            !r.locked(),
            r.value() == data,
            r.waiters()@ == Seq::new(MAX_TASKS as nat, |i: int| false),
    {
        Mutex { data, state: MutexState::new() }
    }

    /// One attempt to take the lock for the running task: takes it (and
    /// takes the task off the wait queue) when it is free, otherwise blocks
    /// the task on the wait queue. Reports whether the lock was taken; the
    /// caller yields and tries again when it was not.
    pub fn lock(&mut self, k: &mut Kernel) -> (r: bool)
        requires
            old(k).wf(),
            old(self).locked() ==> old(k).current() is Some,
        ensures
            r == !old(self).locked(),
            final(self).locked(),
            final(self).value() == old(self).value(),
            r ==> final(self).waiters()@ == old(self).waiters().without_current(*old(k))
                && final(k).unchanged_from(&*old(k)),
            !r ==> old(self).waiters().blocks_current(final(self).waiters(), *old(k), *final(k)),
    {
        if !self.state.locked {
            self.state.locked = true;
            self.state.waiting.remove_current(k);
            true
        } else {
            self.state.waiting.block_current(k);
            false
        }
    }

    /// Takes the lock if it is free; reports whether it did.
    pub fn try_lock(&mut self) -> (r: bool)
        ensures
            r == !old(self).locked(),
            final(self).locked(),
            final(self).value() == old(self).value(),
            final(self).waiters() == old(self).waiters(),
    {
        if !self.state.locked {
            self.state.locked = true;
            true
        } else {
            false
        }
    }

    /// Whether some task holds the lock.
    pub fn is_locked(&self) -> (r: bool)
        ensures
            r == self.locked(),
    {
        self.state.locked
    }

    /// The protected value, for the holder of the lock.
    pub fn get_mut(&mut self) -> (r: &mut T)
        requires
            old(self).locked(),
        ensures
            *r == old(self).value(),
            final(self).value() == *final(r),
            final(self).locked() == old(self).locked(),
            final(self).waiters() == old(self).waiters(),
    {
        &mut self.data
    }

    /// Releases the lock and wakes the highest-priority waiting task, if
    /// any; reports whether a task was woken, in which case the caller
    /// yields.
    pub fn release(&mut self, k: &mut Kernel) -> (r: bool)
        requires
            old(k).wf(),
        ensures
            final(k).wf(),
            !final(self).locked(),
            final(self).value() == old(self).value(),
            old(self).waiters().wakes(final(self).waiters(), *old(k), *final(k), r),
    {
        self.state.locked = false;
        proof {
            assert(self.state.waiting == old(self).waiters());
        }
        self.state.waiting.wake_highest_prio(k)
    }
}

} // verus!
