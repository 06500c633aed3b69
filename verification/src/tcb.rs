use vstd::prelude::*;
use crate::MAX_TASKS;
use crate::bitmap::fill;
use crate::memory::{MemChunk, MemoryPool, BLOCK_SIZE, first_block};
use crate::stack::TaskStack;
use crate::types::{TaskId, TaskState, Gen};

verus! {

/// Per-task software watchdog: a task that subscribed must feed it at
/// least once every `interval` ticks while it is ready to run.
pub struct Watchdog {
    remaining: u64,
    interval: u64,
}

impl View for Watchdog {
    /// Ticks left before the watchdog fires, and the interval it is reset to.
    type V = (u64, u64);

    closed spec fn view(&self) -> (u64, u64) {
        (self.remaining, self.interval)
    }
}

/// One tick of a watchdog whose view is `v`: the view after it, and
/// whether it fired (see [`Watchdog::check_n_tick`]).
pub open spec fn watchdog_tick(v: (u64, u64)) -> ((u64, u64), bool) {
    if v.0 == 0 {
        (v, true)
    } else {
        (((v.0 - 1) as u64, v.1), false)
    }
}

/// `m` ticks of a watchdog whose view is `v`: the view after them, and
/// whether any of them fired.
pub open spec fn watchdog_ticks(v: (u64, u64), m: nat) -> ((u64, u64), bool)
    decreases m,
{
    if m == 0 {
        (v, false)
    } else {
        let (v1, fired) = watchdog_tick(v);
        let (vn, later) = watchdog_ticks(v1, (m - 1) as nat);
        (vn, fired || later)
    }
}

/// A watchdog with `r` ticks left counts `m <= r` ticks without firing.
pub proof fn lemma_watchdog_countdown(r: u64, interval: u64, m: nat)
    requires
        m <= r,
    ensures
        watchdog_ticks((r, interval), m) == (((r - m) as u64, interval), false),
    decreases m,
{
    if m > 0 {
        lemma_watchdog_countdown((r - 1) as u64, interval, (m - 1) as nat);
    }
}

/// Once fed, a watchdog of interval `n` lets the next `n` ticks pass and
/// fires on the one after: feeding leaves the view `(n, n)`
/// ([`Watchdog::feed`]), `n` ticks from there never fire, and the next
/// tick does.
pub proof fn lemma_fed_watchdog(n: u64)
    ensures
        watchdog_ticks((n, n), n as nat) == ((0u64, n), false),
        watchdog_tick((0u64, n)) == ((0u64, n), true),
{
    lemma_watchdog_countdown(n, n, n as nat);
}

impl Watchdog {
    #[verifier::type_invariant]
    spec fn positive_interval(self) -> bool {
        self.interval > 0
    }

    /// A watchdog with `interval` ticks left.
    pub fn new(interval: u64) -> (r: Self)
        requires
            interval > 0,
        ensures
            r@ == (interval, interval),
    {
        Watchdog { remaining: interval, interval }
    }

    /// The interval the watchdog is reset to when fed.
    pub fn interval(&self) -> (r: u64)
        ensures
            r == self@.1,
            r > 0,
    {
        proof {
            use_type_invariant(self);
        }
        self.interval
    }

    /// Resets the ticks left to the full interval.
    pub fn feed(&mut self)
        ensures
            final(self)@ == (old(self)@.1, old(self)@.1),
    {
        proof {
            use_type_invariant(&*self);
        }
        self.remaining = self.interval;
    }

    /// Counts one tick: reports `true` (and changes nothing) when no ticks
    /// were left, otherwise takes one tick off and reports `false`.
    pub fn check_n_tick(&mut self) -> (r: bool)
        ensures
            (final(self)@, r) == watchdog_tick(old(self)@),
            r == (old(self)@.0 == 0),
            r ==> *final(self) == *old(self),
            final(self)@ == if r {
                old(self)@
            } else {
                ((old(self)@.0 - 1) as u64, old(self)@.1)
            },
    {
        proof {
            use_type_invariant(&*self);
        }
        if self.remaining == 0 {
            true
        } else {
            self.remaining = self.remaining - 1;
            false
        }
    }
}

/// Task control block.
pub struct Tcb {
    pub name: Option<&'static str>,
    pub state: TaskState,
    /// Lower number means higher priority.
    pub priority: u8,
    pub stack: Option<TaskStack>,
    pub watchdog: Option<Watchdog>,
    pub generation: Gen,
}

/// Whether a control block describes an empty slot at generation `generation`.
pub open spec fn is_dead_tcb(t: Tcb, generation: Gen) -> bool {
    &&& t.name is None
    &&& t.state == TaskState::Dead
    &&& t.priority == u8::MAX
    &&& t.stack is None
    &&& t.watchdog is None
    &&& t.generation == generation
}

/// Whether the pool holds the memory of `stack`, if there is one.
pub open spec fn pool_holds_stack(pool: MemoryPool, stack: Option<TaskStack>) -> bool {
    stack matches Some(s) ==> pool.holds(s.memory())
}

/// The blocks in use once the memory of `stack`, if any, is given back.
pub open spec fn used_after_release(used: Seq<bool>, base: usize, stack: Option<TaskStack>) -> Seq<bool> {
    match stack {
        Some(s) => fill(
            used,
            first_block(base, s.memory().chunk_ptr()),
            s.memory().chunk_size() as int / (BLOCK_SIZE as int),
            false,
        ),
        None => used,
    }
}

/// Gives the memory of `stack`, if any, back to `pool`.
fn release_stack(stack: Option<TaskStack>, pool: &mut MemoryPool)
    requires
        pool_holds_stack(*old(pool), stack),
    ensures
        final(pool).base() == old(pool).base(),
        final(pool).used() == used_after_release(old(pool).used(), old(pool).base(), stack),
{
    if let Some(s) = stack {
        let mem = s.release();
        pool.dealloc(mem);
    }
}

impl Tcb {
    /// An empty slot at generation zero.
    pub fn dead() -> (r: Self)
        ensures
            is_dead_tcb(r, 0),
    {
        Tcb {
            name: None,
            state: TaskState::Dead,
            priority: u8::MAX,
            stack: None,
            watchdog: None,
            generation: 0,
        }
    }

    /// Turns the slot into a ready task with the given name, priority and
    /// stack, keeping its generation; a stack it held before goes back to
    /// the pool.
    pub fn revive(&mut self, name: Option<&'static str>, priority: u8, stack: TaskStack, pool: &mut MemoryPool)
        requires
            pool_holds_stack(*old(pool), old(self).stack),
        ensures
            final(self).name == name,
            final(self).state == TaskState::Ready,
            final(self).priority == priority,
            final(self).stack == Some(stack),
            final(self).watchdog is None,
            final(self).generation == old(self).generation,
            final(pool).base() == old(pool).base(),
            final(pool).used() == used_after_release(old(pool).used(), old(pool).base(), old(self).stack),
    {
        let old_stack = self.stack.take();
        release_stack(old_stack, pool);
        self.name = name;
        self.state = TaskState::Ready;
        self.priority = priority;
        self.stack = Some(stack);
        self.watchdog = None;
    }

    /// Empties the slot, gives its stack back to the pool and moves the slot
    /// to the next generation (wrapping).
    pub fn kill(&mut self, pool: &mut MemoryPool)
        requires
            pool_holds_stack(*old(pool), old(self).stack),
        ensures
            is_dead_tcb(*final(self), old(self).generation.wrapping_add(1)),
            final(pool).base() == old(pool).base(),
            final(pool).used() == used_after_release(old(pool).used(), old(pool).base(), old(self).stack),
    {
        let old_stack = self.stack.take();
        release_stack(old_stack, pool);
        self.name = None;
        self.state = TaskState::Dead;
        self.priority = u8::MAX;
        self.watchdog = None;
        self.generation = self.generation.wrapping_add(1);
    }
}

/// The control blocks of all slots.
pub struct TaskTable(Vec<Tcb>);

impl View for TaskTable {
    type V = Seq<Tcb>;

    closed spec fn view(&self) -> Seq<Tcb> {
        self.0@
    }
}

impl TaskTable {
    /// Every slot empty, at generation zero.
    pub fn new() -> (r: Self)
        ensures
            r@.len() == MAX_TASKS,
            forall|i: int| 0 <= i < MAX_TASKS ==> is_dead_tcb(#[trigger] r@[i], 0),
    {
        let mut v: Vec<Tcb> = Vec::new();
        while v.len() < MAX_TASKS
            invariant
                v@.len() <= MAX_TASKS,
                forall|i: int| 0 <= i < v@.len() ==> is_dead_tcb(#[trigger] v@[i], 0),
            decreases MAX_TASKS - v@.len(),
        {
            v.push(Tcb::dead());
        }
        TaskTable(v)
    }

    /// The control block of slot `tid`.
    pub fn get(&self, tid: TaskId) -> (r: &Tcb)
        requires
            self@.len() == MAX_TASKS,
        ensures
            *r == self@[tid@ as int],
            tid@ < MAX_TASKS,
    {
        &self.0[tid.id()]
    }

    /// The control block of slot `tid`, for changing it.
    pub fn get_mut(&mut self, tid: TaskId) -> (r: &mut Tcb)
        requires
            old(self)@.len() == MAX_TASKS,
        ensures
            *r == old(self)@[tid@ as int],
            final(self)@ == old(self)@.update(tid@ as int, *final(r)),
            tid@ < MAX_TASKS,
    {
        let i = tid.id();
        &mut self.0[i]
    }
}

} // verus!
