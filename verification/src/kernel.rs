use vstd::prelude::*;
use crate::MAX_TASKS;
use crate::bitmap::circular_rank;
use crate::error::{WhyError, WhyResult};
use crate::frame::FRAME_BYTES;
use crate::memory::{MemChunk, MemoryPool, StaticMemory, BLOCK_SIZE, MAX_BLOCKS, first_block};
use crate::bitmap::{ascending_members, count_true, fill, free_run};
use crate::registry::{TaskRegistry, revived_tcb};
use crate::stack::{Stack, TaskStack, STACK_CANARY, initial_contents, starts_task};
use crate::frame::{InitStackFrame, frame_words, initial_sw_frame, hw_frame_for};
use crate::task_map::{TaskMap, ids_of};
use crate::tcb::{Tcb, Watchdog, is_dead_tcb, pool_holds_stack, used_after_release};
use crate::types::{TaskId, TaskHandle, TaskState, BlockReason, ResumeContext, context_of_state};

verus! {

/// Whether the caller should hand the processor to the scheduler.
#[derive(Clone, Copy, PartialEq, Eq, Debug, Structural)]
pub enum ContextSwitch {
    Yield,
    Continue,
}

impl ContextSwitch {
    /// `Yield` when `condition` holds, `Continue` otherwise.
    pub fn yield_if(condition: bool) -> (r: Self)
        ensures
            r == (if condition {
                ContextSwitch::Yield
            } else {
                ContextSwitch::Continue
            }),
    {
        if condition {
            ContextSwitch::Yield
        } else {
            ContextSwitch::Continue
        }
    }
}

/// Size in bytes of the idle task's stack.
pub const IDLE_STACK_SIZE: usize = 1024;

/// The task that runs when no other task is ready.
pub struct IdleTask {
    stack: Stack<StaticMemory>,
}

/// The words of a fresh idle stack that starts at `entry` with no
/// argument and returns to `return_handler`.
pub open spec fn idle_stack_contents(entry: usize, return_handler: usize) -> Seq<u32> {
    initial_contents(
        IDLE_STACK_SIZE as int / 4,
        frame_words(InitStackFrame { sw_frame: initial_sw_frame(), hw_frame: hw_frame_for(entry, 0, return_handler) }),
    )
}

impl IdleTask {
    /// The idle task's stack.
    pub closed spec fn stack(&self) -> Stack<StaticMemory> {
        self.stack
    }

    /// The idle task with its stack in the `IDLE_STACK_SIZE` bytes at
    /// `memory`, starting at `entry` and returning to `return_handler`.
    pub fn new(memory: usize, entry: usize, return_handler: usize) -> (r: Self)
        requires
            memory % 8 == 0,
            memory + IDLE_STACK_SIZE <= usize::MAX,
        ensures
            r.stack().memory().chunk_ptr() == memory,
            r.stack().memory().chunk_size() == IDLE_STACK_SIZE,
            r.stack().stack_pointer() == memory + IDLE_STACK_SIZE - FRAME_BYTES,
            r.stack().contents() == idle_stack_contents(entry, return_handler),
            starts_task(r.stack().contents(), entry, 0, return_handler),
    {
        let mem = StaticMemory::from_raw(memory, IDLE_STACK_SIZE);
        let stack = Stack::init(mem, entry, 0, return_handler);
        IdleTask { stack }
    }

    /// The idle task's saved stack pointer.
    pub fn sp(&self) -> (r: usize)
        ensures
            r == self.stack().stack_pointer(),
    {
        self.stack.sp()
    }

    /// Records the idle task's stack pointer.
    pub fn set_sp(&mut self, sp: usize)
        ensures
            final(self).stack() == old(self).stack().with_sp(sp),
    {
        self.stack.set_sp(sp);
    }
}

/// A control block with its state replaced.
pub open spec fn with_state(t: Tcb, state: TaskState) -> Tcb {
    Tcb { state, ..t }
}

/// A control block with its watchdog replaced.
pub open spec fn with_watchdog(t: Tcb, watchdog: Option<Watchdog>) -> Tcb {
    Tcb { watchdog, ..t }
}

/// Whether a state lets a task run.
pub open spec fn is_runnable(s: TaskState) -> bool {
    s is Ready || s is Running
}

/// Where the round-robin search starts: just after the current task, or
/// at slot zero when the idle task runs.
pub open spec fn search_start(current: Option<TaskId>) -> int {
    match current {
        Some(c) => (c@ as int + 1) % (MAX_TASKS as int),
        None => 0,
    }
}

/// The state a task is left in by suspending it from state `s`: ready,
/// running and blocked tasks are suspended with the context they resume
/// to; other states are left as they are.
pub open spec fn suspended_state(s: TaskState) -> TaskState {
    match context_of_state(s) {
        Ok(ctx) => TaskState::Suspended(ctx),
        Err(_) => s,
    }
}

/// The state a task suspended with `ctx` resumes to at tick `now`: a
/// sleeper whose waking time has not come goes back to sleep; every other
/// task becomes ready.
pub open spec fn resumed_state(ctx: ResumeContext, now: u64) -> TaskState {
    match ctx {
        ResumeContext::Blocked(BlockReason::Sleep(w)) => if w <= now {
            TaskState::Ready
        } else {
            TaskState::Blocked(BlockReason::Sleep(w))
        },
        _ => TaskState::Ready,
    }
}

/// Suspending a task and resuming it at tick `now` leaves a ready or
/// running task ready, wakes a task that waited on a wait queue, and puts a
/// sleeper back to sleep until its waking time unless that time has come.
pub proof fn lemma_suspend_resume(s: TaskState, now: u64)
    requires
        s is Ready || s is Running || s is Blocked,
    ensures
        suspended_state(s) matches TaskState::Suspended(ctx) && resumed_state(ctx, now) == match s {
            TaskState::Blocked(BlockReason::Sleep(w)) => if w <= now {
                TaskState::Ready
            } else {
                s
            },
            _ => TaskState::Ready,
        },
{
}

/// A handle to a killed task is refused once the zombies have been reaped,
/// and keeps being refused after its slot is given to a new task: reaping
/// moves the slot to the next generation, which a new task in the slot
/// keeps.
pub proof fn lemma_reaped_handle_refused(k0: Kernel, k1: Kernel, h: TaskHandle)
    requires
        h@.0 < MAX_TASKS,
        k0.wf(),
        k0.handle_valid(&h),
        k0.zombie_set()[h@.0 as int],
        k0.reaps_to(k1),
    ensures
        !k1.handle_valid(&h),
        k1.tcbs()[h@.0 as int].generation != h@.1,
{
    let t = h@.0 as int;
    assert(k1.tcbs()[t].generation == h@.1.wrapping_add(1));
}

/// Round robin: when another ready task has the running task's priority
/// and no ready task has a higher one, the next switch hands the
/// processor to another task.
pub proof fn lemma_round_robin(k: Kernel, next: Option<TaskId>, u: int)
    requires
        k.wf(),
        k.picks_next(next),
        k.current() is Some,
        0 <= u < MAX_TASKS,
        u != k.current()->0@,
        k.ready_set()[u],
        k.priority(u) == k.priority(k.current()->0@ as int),
        forall|v: int| 0 <= v < MAX_TASKS && #[trigger] k.ready_set()[v] ==> k.priority(u) <= k.priority(v),
    ensures
        next is Some,
        next->0 != k.current()->0,
{
    let c = k.current()->0;
    let start = search_start(k.current());
    let t = next->0;
    assert(k.ready_set()[u]);
    assert(k.priority(t@ as int) <= k.priority(u));
    assert(k.priority(t@ as int) == k.priority(u));
    assert(circular_rank(t@ as int, start, MAX_TASKS as int) <= circular_rank(u, start, MAX_TASKS as int));
    if t == c {
        assert(circular_rank(c@ as int, start, MAX_TASKS as int) == MAX_TASKS - 1);
    }
}

/// Whether `ks` is a run of ticks from a well-formed kernel: each kernel is
/// the one before after one more tick ([`Kernel::ticks_to`]).
pub open spec fn tick_run(ks: Seq<Kernel>) -> bool {
    &&& ks.len() > 0
    &&& ks[0].wf()
    &&& forall|i: int| 0 <= i < ks.len() - 1 ==> #[trigger] ks[i].ticks_to(ks[i + 1], (ks[i].ticks() + 1) as u64)
}

/// Along a tick run in which task `t` stays ready and its watchdog, with
/// `r` ticks left at the start, is neither fed nor removed, the watchdog
/// has `r - i` ticks left after `i <= r` ticks.
proof fn lemma_watchdog_counts_down(ks: Seq<Kernel>, t: int, r: u64, interval: u64, i: int)
    requires
        0 <= t < MAX_TASKS,
        tick_run(ks),
        ks.len() == r + 2,
        ks[0].tcbs()[t].watchdog matches Some(w) && w@ == (r, interval),
        forall|j: int| 0 <= j <= r ==> #[trigger] ks[j].ready_set()[t],
        0 <= i <= r,
    ensures
        ks[i].wf(),
        ks[i].tcbs()[t].watchdog matches Some(w) && w@ == ((r - i) as u64, interval),
    decreases i,
{
    if i > 0 {
        lemma_watchdog_counts_down(ks, t, r, interval, i - 1);
        let a = ks[i - 1];
        let now = (a.ticks() + 1) as u64;
        assert(ks[i - 1].ticks_to(ks[(i - 1) + 1], (ks[i - 1].ticks() + 1) as u64));
        assert(a.ready_set()[t]);
        assert(!a.blocked_set()[t]);
        assert(a.woken_tcb(t, now) == a.tcbs()[t]);
        assert(a.ready_after_wake(t, now));
        assert(wdt_ticked(a.woken_tcb(t, now), ks[i].tcbs()[t]));
    }
}

/// A watchdog that starves ends its task: when a task stays ready and its
/// watchdog, with `r` ticks left, is neither fed nor removed, the task
/// survives the first `r` ticks and the next one turns it into a zombie,
/// out of the ready and blocked sets.
pub proof fn lemma_watchdog_starvation(ks: Seq<Kernel>, t: int, r: u64, interval: u64)
    requires
        0 <= t < MAX_TASKS,
        tick_run(ks),
        ks.len() == r + 2,
        ks[0].tcbs()[t].watchdog matches Some(w) && w@ == (r, interval),
        forall|j: int| 0 <= j <= r ==> #[trigger] ks[j].ready_set()[t],
    ensures
        forall|j: int| 0 <= j <= r ==> !(#[trigger] ks[j].state(t) is Zombie),
        ks[r + 1].state(t) == TaskState::Zombie,
        ks[r + 1].zombie_set()[t],
        !ks[r + 1].ready_set()[t],
        !ks[r + 1].blocked_set()[t],
{
    assert forall|j: int| 0 <= j <= r implies !(#[trigger] ks[j].state(t) is Zombie) by {
        lemma_watchdog_counts_down(ks, t, r, interval, j);
        assert(ks[j].ready_set()[t]);
    }
    lemma_watchdog_counts_down(ks, t, r, interval, r as int);
    let a = ks[r as int];
    let now = (a.ticks() + 1) as u64;
    assert(ks[r as int].ticks_to(ks[r as int + 1], (ks[r as int].ticks() + 1) as u64));
    assert(a.ready_set()[t]);
    assert(!a.blocked_set()[t]);
    assert(a.woken_tcb(t, now) == a.tcbs()[t]);
    assert(a.ready_after_wake(t, now));
    assert(wdt_fires(a.tcbs()[t]));
    assert(a.killed_by_watchdog(t, now));
    assert(wdt_ticked(a.woken_tcb(t, now), ks[r + 1].tcbs()[t]));
}

/// A task put to sleep at tick `start` for `ticks` ticks sleeps at least
/// that long: no tick before `start + ticks` wakes it, and the tick that
/// reaches `start + ticks` does (a waking time past the largest tick count
/// is cut to it).
pub proof fn lemma_sleep_at_least(k: Kernel, t: int, start: u64, ticks: u64, now: u64)
    requires
        k.blocked_set()[t],
        k.state(t) == TaskState::Blocked(BlockReason::Sleep(start.saturating_add(ticks))),
    ensures
        now < start + ticks && now < u64::MAX ==> !k.wakes_at(t, now),
        now == start + ticks ==> k.wakes_at(t, now),
{
}

/// Whether `a` is `b` with at most its contents changed: same memory and
/// stack pointer.
pub open spec fn same_stack_place(a: Option<TaskStack>, b: Option<TaskStack>) -> bool {
    match (a, b) {
        (Some(x), Some(y)) => *x.memory() == *y.memory() && x.stack_pointer() == y.stack_pointer(),
        (None, None) => true,
        _ => false,
    }
}

/// Whether `stack`, if any, occupies heap block `b` of the heap at `base`.
pub open spec fn stack_covers(stack: Option<TaskStack>, base: usize, b: int) -> bool {
    match stack {
        Some(s) => first_block(base, s.memory().chunk_ptr()) <= b < first_block(base, s.memory().chunk_ptr())
            + s.memory().chunk_size() as int / (BLOCK_SIZE as int),
        None => false,
    }
}

/// Whether slot `t` is among the first `n` entries of `z`.
pub open spec fn in_prefix(z: Seq<usize>, n: int, t: int) -> bool {
    exists|k: int| 0 <= k < n && #[trigger] z[k] == t
}

/// Whether heap block `b` is occupied by the stack of one of the tasks in
/// the first `n` entries of `z`.
pub open spec fn prefix_covers(k0: Kernel, z: Seq<usize>, n: int, base: usize, b: int) -> bool {
    exists|k: int| 0 <= k < n && stack_covers(k0.tcbs()[#[trigger] z[k] as int].stack, base, b)
}

/// The control block of a task that is switched out with its stack
/// pointer at `sp`: the pointer is saved in its stack, and a running task
/// becomes ready (other states are kept).
pub open spec fn saved_tcb(t: Tcb, sp: usize) -> Tcb {
    Tcb {
        stack: match t.stack {
            Some(s) => Some(s.with_sp(sp)),
            None => None,
        },
        state: if t.state is Running {
            TaskState::Ready
        } else {
            t.state
        },
        ..t
    }
}

/// Whether the watchdog of a task fires on this tick: it is subscribed and
/// has no ticks left.
pub open spec fn wdt_fires(t: Tcb) -> bool {
    t.watchdog matches Some(w) && w@.0 == 0
}

/// `after` is `before` once its watchdog has counted a tick: a firing
/// watchdog turns the task into a zombie; otherwise one tick is taken off;
/// a task without a watchdog is unchanged.
pub open spec fn wdt_ticked(before: Tcb, after: Tcb) -> bool {
    match before.watchdog {
        Some(w) => if w@.0 == 0 {
            after == with_state(before, TaskState::Zombie)
        } else {
            &&& after.watchdog matches Some(w2) && w2@ == ((w@.0 - 1) as u64, w@.1)
            &&& after == with_watchdog(before, after.watchdog)
        },
        None => after == before,
    }
}

/// The scheduler state: the task slots, the sets of ready, blocked and
/// zombie tasks, the running task (`None` for the idle task), the tick
/// count and the tick frequency.
pub struct Kernel {
    registry: TaskRegistry,
    current_task: Option<TaskId>,
    system_ticks: u64,
    timer_interval: u32,
    idle: Option<IdleTask>,
    ready: TaskMap,
    blocked: TaskMap,
    zombies: TaskMap,
}

impl Kernel {
    /// Control blocks by slot.
    pub closed spec fn tcbs(&self) -> Seq<Tcb> {
        self.registry.tcbs()
    }

    /// Occupied slots.
    pub closed spec fn live(&self) -> Seq<bool> {
        self.registry.live()
    }

    /// Tasks that want the processor.
    pub closed spec fn ready_set(&self) -> Seq<bool> {
        self.ready@
    }

    /// Tasks that wait for time or for a wait queue.
    pub closed spec fn blocked_set(&self) -> Seq<bool> {
        self.blocked@
    }

    /// Tasks that ended and wait to be reclaimed.
    pub closed spec fn zombie_set(&self) -> Seq<bool> {
        self.zombies@
    }

    /// The running task; `None` while the idle task runs.
    pub closed spec fn current(&self) -> Option<TaskId> {
        self.current_task
    }

    /// Ticks since start.
    pub closed spec fn ticks(&self) -> u64 {
        self.system_ticks
    }

    /// Tick frequency in hertz.
    pub closed spec fn interval(&self) -> u32 {
        self.timer_interval
    }

    /// The idle task, once set up.
    pub closed spec fn idle(&self) -> Option<IdleTask> {
        self.idle
    }

    /// State of the task in slot `i`.
    pub open spec fn state(&self, i: int) -> TaskState {
        self.tcbs()[i].state
    }

    /// Priority of the task in slot `i`.
    pub open spec fn priority(&self, i: int) -> u8 {
        self.tcbs()[i].priority
    }

    /// The kernel's invariant: the sets agree with the task states.
    pub open spec fn wf(&self) -> bool {
        &&& self.tcbs().len() == MAX_TASKS
        &&& self.live().len() == MAX_TASKS
        &&& self.ready_set().len() == MAX_TASKS
        &&& self.blocked_set().len() == MAX_TASKS
        &&& self.zombie_set().len() == MAX_TASKS
        &&& self.current() matches Some(c) ==> c@ < MAX_TASKS
        &&& forall|i: int|
            0 <= i < MAX_TASKS ==> (#[trigger] self.live()[i] ==> self.state(i) != TaskState::Dead
                && self.tcbs()[i].stack is Some)
        &&& forall|i: int|
            0 <= i < MAX_TASKS ==> (!#[trigger] self.live()[i] ==> is_dead_tcb(
                self.tcbs()[i],
                self.tcbs()[i].generation,
            ))
        &&& forall|i: int|
            0 <= i < MAX_TASKS ==> (#[trigger] self.ready_set()[i] <==> self.live()[i]
                && is_runnable(self.state(i)))
        &&& forall|i: int|
            0 <= i < MAX_TASKS ==> (#[trigger] self.blocked_set()[i] <==> self.live()[i]
                && self.state(i) is Blocked)
        &&& forall|i: int|
            0 <= i < MAX_TASKS ==> (#[trigger] self.zombie_set()[i] <==> self.live()[i]
                && self.state(i) is Zombie)
    }

    /// A kernel with no tasks, no idle task yet, at tick zero.
    pub fn new() -> (r: Self)
        ensures
            r.wf(),
            forall|i: int| 0 <= i < MAX_TASKS ==> !#[trigger] r.live()[i],
            forall|i: int| 0 <= i < MAX_TASKS ==> is_dead_tcb(#[trigger] r.tcbs()[i], 0),
            r.current() is None,
            r.ticks() == 0,
            r.interval() == 0,
            r.idle() is None,
    {
        let r = Kernel {
            registry: TaskRegistry::new(),
            current_task: None,
            system_ticks: 0,
            timer_interval: 0,
            idle: None,
            ready: TaskMap::new(),
            blocked: TaskMap::new(),
            zombies: TaskMap::new(),
        };
        r
    }

    /// The running task; `None` while the idle task runs.
    pub fn current_task(&self) -> (r: Option<TaskId>)
        ensures
            r == self.current(),
    {
        self.current_task
    }

    /// Ticks since start.
    pub fn system_ticks(&self) -> (r: u64)
        ensures
            r == self.ticks(),
    {
        self.system_ticks
    }

    /// Records the tick frequency.
    pub fn set_timer_interval(&mut self, interval: u32)
        ensures
            final(self).interval() == interval,
            final(self).tcbs() == old(self).tcbs(),
            final(self).live() == old(self).live(),
            final(self).ready_set() == old(self).ready_set(),
            final(self).blocked_set() == old(self).blocked_set(),
            final(self).zombie_set() == old(self).zombie_set(),
            final(self).current() == old(self).current(),
            final(self).ticks() == old(self).ticks(),
            final(self).idle() == old(self).idle(),
    {
        self.timer_interval = interval;
    }

    /// The tick frequency.
    pub fn timer_interval(&self) -> (r: u32)
        ensures
            r == self.interval(),
    {
        self.timer_interval
    }

    /// The idle task's saved stack pointer.
    pub fn idle_sp(&self) -> (r: usize)
        requires
            self.idle() is Some,
        ensures
            r == self.idle()->0.stack().stack_pointer(),
    {
        match &self.idle {
            Some(idle) => idle.sp(),
            None => 0,
        }
    }

    /// The occupied slots.
    pub fn allocated(&self) -> (r: TaskMap)
        ensures
            r@ == self.live(),
    {
        self.registry.allocated_map()
    }

    /// A handle to the task in slot `tid`; `InvalidTaskId` when the slot is free.
    pub fn handle(&self, tid: TaskId) -> (r: WhyResult<TaskHandle>)
        requires
            self.wf(),
        ensures
            tid@ < MAX_TASKS,
            r is Ok <==> self.live()[tid@ as int],
            r matches Ok(h) ==> h@ == (tid@, self.tcbs()[tid@ as int].generation) && h.spec_tid() == tid,
            r is Err ==> r == Err::<TaskHandle, WhyError>(WhyError::InvalidTaskId),
    {
        self.registry.handle(tid)
    }

    /// The control block of the task `h` refers to; `InvalidHandle` when
    /// the handle is stale.
    pub fn task(&self, h: &TaskHandle) -> (r: WhyResult<&Tcb>)
        requires
            self.wf(),
        ensures
            r is Ok <==> (self.live()[h@.0 as int] && self.tcbs()[h@.0 as int].generation == h@.1),
            r matches Ok(t) ==> *t == self.tcbs()[h@.0 as int] && h@.0 < MAX_TASKS,
            r is Err ==> r == Err::<&Tcb, WhyError>(WhyError::InvalidHandle),
    {
        self.registry.get_task(h)
    }

    /// The fields other than the task slots and the three sets are equal.
    pub open spec fn same_frame(&self, other: &Kernel) -> bool {
        &&& self.live() == other.live()
        &&& self.current() == other.current()
        &&& self.ticks() == other.ticks()
        &&& self.interval() == other.interval()
        &&& self.idle() == other.idle()
    }

    /// Nothing observable differs from `other`.
    pub open spec fn unchanged_from(&self, other: &Kernel) -> bool {
        &&& self.same_frame(other)
        &&& self.tcbs() == other.tcbs()
        &&& self.ready_set() == other.ready_set()
        &&& self.blocked_set() == other.blocked_set()
        &&& self.zombie_set() == other.zombie_set()
    }

    /// `Yield` when the task in slot `t` is the running task, `Continue`
    /// otherwise.
    pub open spec fn switch_if_current_slot(&self, t: int) -> ContextSwitch {
        if self.current() matches Some(c) && c@ == t {
            ContextSwitch::Yield
        } else {
            ContextSwitch::Continue
        }
    }

    /// `Yield` when `tid` is the running task, `Continue` otherwise.
    pub open spec fn switch_if_current(&self, tid: TaskId) -> ContextSwitch {
        if self.current() == Some(tid) {
            ContextSwitch::Yield
        } else {
            ContextSwitch::Continue
        }
    }

    fn is_current(&self, tid: TaskId) -> (r: bool)
        ensures
            r == (self.current() == Some(tid)),
    {
        match self.current_task {
            Some(c) => c == tid,
            None => false,
        }
    }

    /// Marks task `tid` blocked for `reason`: it leaves the ready set and
    /// joins the blocked set. Asks for a switch when the task blocks itself.
    pub fn block_task(&mut self, tid: TaskId, reason: BlockReason) -> (r: ContextSwitch)
        requires
            old(self).wf(),
        ensures
            r == old(self).switch_if_current(tid),
            final(self).tcbs() == old(self).tcbs().update(
                tid@ as int,
                with_state(old(self).tcbs()[tid@ as int], TaskState::Blocked(reason)),
            ),
            final(self).blocked_set() == old(self).blocked_set().update(tid@ as int, true),
            final(self).ready_set() == old(self).ready_set().update(tid@ as int, false),
            final(self).zombie_set() == old(self).zombie_set(),
            final(self).same_frame(&*old(self)),
            old(self).live()[tid@ as int] && !(old(self).state(tid@ as int) is Zombie) ==> final(self).wf(),
    {
        let task = self.registry.get_task_mut_unchecked(tid);
        task.state = TaskState::Blocked(reason);
        self.blocked.add(tid);
        self.ready.remove(tid);
        let cur = self.is_current(tid);
        ContextSwitch::yield_if(cur)
    }

    /// Makes blocked task `tid` ready again: it leaves the blocked set and
    /// joins the ready set.
    pub fn unblock_task(&mut self, tid: TaskId)
        requires
            old(self).wf(),
            old(self).state(tid@ as int) is Blocked,
        ensures
            final(self).tcbs() == old(self).tcbs().update(
                tid@ as int,
                with_state(old(self).tcbs()[tid@ as int], TaskState::Ready),
            ),
            final(self).blocked_set() == old(self).blocked_set().update(tid@ as int, false),
            final(self).ready_set() == old(self).ready_set().update(tid@ as int, true),
            final(self).zombie_set() == old(self).zombie_set(),
            final(self).same_frame(&*old(self)),
            final(self).wf(),
    {
        let task = self.registry.get_task_mut_unchecked(tid);
        task.state = TaskState::Ready;
        self.blocked.remove(tid);
        self.ready.add(tid);
    }

    /// Ends task `tid` without reclaiming it yet: it leaves the ready and
    /// blocked sets and joins the zombie set. Asks for a switch when the
    /// task ends itself.
    pub fn make_zombie(&mut self, tid: TaskId) -> (r: ContextSwitch)
        requires
            old(self).wf(),
        ensures
            r == old(self).switch_if_current(tid),
            final(self).tcbs() == old(self).tcbs().update(
                tid@ as int,
                with_state(old(self).tcbs()[tid@ as int], TaskState::Zombie),
            ),
            final(self).ready_set() == old(self).ready_set().update(tid@ as int, false),
            final(self).blocked_set() == old(self).blocked_set().update(tid@ as int, false),
            final(self).zombie_set() == old(self).zombie_set().update(tid@ as int, true),
            final(self).same_frame(&*old(self)),
            old(self).live()[tid@ as int] ==> final(self).wf(),
    {
        self.ready.remove(tid);
        self.blocked.remove(tid);
        self.zombies.add(tid);
        let task = self.registry.get_task_mut_unchecked(tid);
        task.state = TaskState::Zombie;
        let cur = self.is_current(tid);
        ContextSwitch::yield_if(cur)
    }

    /// Puts task `tid` to sleep for `ticks` ticks from now (waking time
    /// saturates at the largest tick count).
    pub fn sleep_task(&mut self, tid: TaskId, ticks: u64) -> (r: ContextSwitch)
        requires
            old(self).wf(),
            ticks > 0,
        ensures
            r == old(self).switch_if_current(tid),
            final(self).tcbs() == old(self).tcbs().update(
                tid@ as int,
                with_state(
                    old(self).tcbs()[tid@ as int],
                    TaskState::Blocked(BlockReason::Sleep(old(self).ticks().saturating_add(ticks))),
                ),
            ),
            final(self).blocked_set() == old(self).blocked_set().update(tid@ as int, true),
            final(self).ready_set() == old(self).ready_set().update(tid@ as int, false),
            final(self).zombie_set() == old(self).zombie_set(),
            final(self).same_frame(&*old(self)),
            old(self).ticks().saturating_add(ticks) > 0,
            old(self).live()[tid@ as int] && !(old(self).state(tid@ as int) is Zombie) ==> final(self).wf(),
    {
        let target_time = self.system_ticks.saturating_add(ticks);
        self.block_task(tid, BlockReason::Sleep(target_time))
    }

    /// Subscribes task `tid` to the watchdog with `interval` ticks.
    pub fn wdt_sub(&mut self, tid: TaskId, interval: u64)
        requires
            old(self).wf(),
            interval > 0,
        ensures
            final(self).tcbs().len() == MAX_TASKS,
            forall|i: int| 0 <= i < MAX_TASKS && i != tid@ ==> #[trigger] final(self).tcbs()[i] == old(self).tcbs()[i],
            final(self).tcbs()[tid@ as int].watchdog matches Some(w) && w@ == (interval, interval),
            final(self).tcbs()[tid@ as int] == with_watchdog(old(self).tcbs()[tid@ as int], final(self).tcbs()[tid@ as int].watchdog),
            final(self).ready_set() == old(self).ready_set(),
            final(self).blocked_set() == old(self).blocked_set(),
            final(self).zombie_set() == old(self).zombie_set(),
            final(self).same_frame(&*old(self)),
            old(self).live()[tid@ as int] ==> final(self).wf(),
    {
        let task = self.registry.get_task_mut_unchecked(tid);
        task.watchdog = Some(Watchdog::new(interval));
    }

    /// Unsubscribes task `tid` from the watchdog.
    pub fn wdt_unsub(&mut self, tid: TaskId)
        requires
            old(self).wf(),
        ensures
            final(self).tcbs() == old(self).tcbs().update(
                tid@ as int,
                with_watchdog(old(self).tcbs()[tid@ as int], None),
            ),
            final(self).ready_set() == old(self).ready_set(),
            final(self).blocked_set() == old(self).blocked_set(),
            final(self).zombie_set() == old(self).zombie_set(),
            final(self).same_frame(&*old(self)),
            final(self).wf(),
    {
        let task = self.registry.get_task_mut_unchecked(tid);
        task.watchdog = None;
    }

    /// Feeds the watchdog of task `tid`, if it has one.
    pub fn wdt_feed(&mut self, tid: TaskId)
        requires
            old(self).wf(),
        ensures
            final(self).tcbs().len() == MAX_TASKS,
            forall|i: int| 0 <= i < MAX_TASKS && i != tid@ ==> #[trigger] final(self).tcbs()[i] == old(self).tcbs()[i],
            match old(self).tcbs()[tid@ as int].watchdog {
                Some(w) => final(self).tcbs()[tid@ as int].watchdog matches Some(w2) && w2@ == (w@.1, w@.1),
                None => final(self).tcbs()[tid@ as int].watchdog is None,
            },
            final(self).tcbs()[tid@ as int] == with_watchdog(old(self).tcbs()[tid@ as int], final(self).tcbs()[tid@ as int].watchdog),
            final(self).ready_set() == old(self).ready_set(),
            final(self).blocked_set() == old(self).blocked_set(),
            final(self).zombie_set() == old(self).zombie_set(),
            final(self).same_frame(&*old(self)),
            final(self).wf(),
    {
        let task = self.registry.get_task_mut_unchecked(tid);
        if let Some(watchdog) = task.watchdog.as_mut() {
            watchdog.feed();
        }
    }

    /// Whether `h` refers to the task now in its slot.
    pub open spec fn handle_valid(&self, h: &TaskHandle) -> bool {
        self.live()[h@.0 as int] && self.tcbs()[h@.0 as int].generation == h@.1
    }

    /// What suspending the task in slot `tid` does, when the slot holds a
    /// task (see [`Kernel::suspend_task`]): a zombie is refused, a suspended
    /// task is left as it is, any other task leaves the ready and blocked
    /// sets and remembers what it resumes to; `next` is the kernel after.
    pub open spec fn suspends_to(&self, next: Kernel, t: int, r: WhyResult<ContextSwitch>) -> bool {
        if self.state(t) is Zombie {
            r == Err::<ContextSwitch, WhyError>(WhyError::InvalidHandle) && next.unchanged_from(self)
        } else if self.state(t) is Suspended {
            r == Ok::<ContextSwitch, WhyError>(ContextSwitch::Continue) && next.unchanged_from(self)
        } else {
            &&& r == Ok::<ContextSwitch, WhyError>(self.switch_if_current_slot(t))
            &&& next.tcbs() == self.tcbs().update(t, with_state(self.tcbs()[t], suspended_state(self.state(t))))
            &&& next.ready_set() == self.ready_set().update(t, false)
            &&& next.blocked_set() == self.blocked_set().update(t, false)
            &&& next.zombie_set() == self.zombie_set()
            &&& next.same_frame(self)
        }
    }

    /// What resuming the task in slot `tid` does, when the slot holds a
    /// task (see [`Kernel::resume_task`]): a zombie is refused, a task that
    /// is not suspended is left as it is, a suspended one takes the state
    /// [`resumed_state`] gives and joins the matching set; a switch is
    /// asked for when it became ready.
    pub open spec fn resumes_to(&self, next: Kernel, t: int, r: WhyResult<ContextSwitch>) -> bool {
        if self.state(t) is Zombie {
            r == Err::<ContextSwitch, WhyError>(WhyError::InvalidHandle) && next.unchanged_from(self)
        } else {
            match self.state(t) {
                TaskState::Suspended(ctx) => {
                    let s = resumed_state(ctx, self.ticks());
                    &&& r == Ok::<ContextSwitch, WhyError>(
                        if s is Ready {
                            ContextSwitch::Yield
                        } else {
                            ContextSwitch::Continue
                        },
                    )
                    &&& next.tcbs() == self.tcbs().update(t, with_state(self.tcbs()[t], s))
                    &&& next.ready_set() == self.ready_set().update(t, s is Ready)
                    &&& next.blocked_set() == self.blocked_set().update(t, s is Blocked)
                    &&& next.zombie_set() == self.zombie_set()
                    &&& next.same_frame(self)
                },
                _ => r == Ok::<ContextSwitch, WhyError>(ContextSwitch::Continue) && next.unchanged_from(self),
            }
        }
    }

    /// Suspends the task `h` refers to: it leaves the ready and blocked sets
    /// and remembers what it resumes to. Suspending a suspended task does
    /// nothing. Fails with `InvalidHandle` for a stale handle or a zombie.
    /// Asks for a switch when the task suspends itself.
    pub fn suspend_task(&mut self, h: &TaskHandle) -> (r: WhyResult<ContextSwitch>)
        requires
            old(self).wf(),
        ensures
            final(self).wf(),
            r is Err <==> (!old(self).handle_valid(h) || old(self).state(h@.0 as int) is Zombie),
            r is Err ==> r == Err::<ContextSwitch, WhyError>(WhyError::InvalidHandle) && final(self).unchanged_from(&*old(self)),
            r is Ok && old(self).state(h@.0 as int) is Suspended ==> r == Ok::<ContextSwitch, WhyError>(
                ContextSwitch::Continue,
            ) && final(self).unchanged_from(&*old(self)),
            r is Ok && !(old(self).state(h@.0 as int) is Suspended) ==> {
                let t = h@.0 as int;
                &&& r == Ok::<ContextSwitch, WhyError>(old(self).switch_if_current(h.spec_tid()))
                &&& final(self).tcbs() == old(self).tcbs().update(
                    t,
                    with_state(old(self).tcbs()[t], suspended_state(old(self).state(t))),
                )
                &&& final(self).ready_set() == old(self).ready_set().update(t, false)
                &&& final(self).blocked_set() == old(self).blocked_set().update(t, false)
                &&& final(self).zombie_set() == old(self).zombie_set()
                &&& final(self).same_frame(&*old(self))
            },
            old(self).handle_valid(h) ==> old(self).suspends_to(*final(self), h@.0 as int, r),
    {
        proof {
            crate::types::lemma_handle_tid(h);
            if let Some(c) = self.current() {
                crate::types::lemma_task_id_view_injective(c, h.spec_tid());
            }
        }
        let tid = self.registry.validate(h)?;
        let state = self.registry.get_task_unchecked(tid).state;
        if state == TaskState::Zombie {
            return Err(WhyError::InvalidHandle);
        }
        if let TaskState::Suspended(_) = state {
            return Ok(ContextSwitch::Continue);
        }
        let ctx: ResumeContext = match ResumeContext::try_from(state) {
            Ok(ctx) => ctx,
            Err(e) => {
                return Err(e);
            },
        };
        let task = self.registry.get_task_mut_unchecked(tid);
        task.state = TaskState::Suspended(ctx);
        self.ready.remove(tid);
        self.blocked.remove(tid);
        let cur = self.is_current(tid);
        Ok(ContextSwitch::yield_if(cur))
    }

    /// Resumes the task `h` refers to; see [`resumed_state`]. A task that
    /// is not suspended is left alone. Fails with `InvalidHandle` for a
    /// stale handle or a zombie. Asks for a switch when the task became
    /// ready.
    pub fn resume_task(&mut self, h: &TaskHandle) -> (r: WhyResult<ContextSwitch>)
        requires
            old(self).wf(),
        ensures
            final(self).wf(),
            r is Err <==> (!old(self).handle_valid(h) || old(self).state(h@.0 as int) is Zombie),
            r is Err ==> r == Err::<ContextSwitch, WhyError>(WhyError::InvalidHandle) && final(self).unchanged_from(&*old(self)),
            r is Ok && !(old(self).state(h@.0 as int) is Suspended) ==> r == Ok::<ContextSwitch, WhyError>(
                ContextSwitch::Continue,
            ) && final(self).unchanged_from(&*old(self)),
            r is Ok ==> (old(self).state(h@.0 as int) matches TaskState::Suspended(ctx) ==> {
                let t = h@.0 as int;
                let s = resumed_state(ctx, old(self).ticks());
                &&& r == Ok::<ContextSwitch, WhyError>(if s is Ready {
                    ContextSwitch::Yield
                } else {
                    ContextSwitch::Continue
                })
                &&& final(self).tcbs() == old(self).tcbs().update(t, with_state(old(self).tcbs()[t], s))
                &&& final(self).ready_set() == old(self).ready_set().update(t, s is Ready)
                &&& final(self).blocked_set() == old(self).blocked_set().update(t, s is Blocked)
                &&& final(self).zombie_set() == old(self).zombie_set()
                &&& final(self).same_frame(&*old(self))
            }),
            old(self).handle_valid(h) ==> old(self).resumes_to(*final(self), h@.0 as int, r),
    {
        proof {
            crate::types::lemma_handle_tid(h);
            if let Some(c) = self.current() {
                crate::types::lemma_task_id_view_injective(c, h.spec_tid());
            }
        }
        let tid = self.registry.validate(h)?;
        let now = self.system_ticks;
        let state = self.registry.get_task_unchecked(tid).state;
        if state == TaskState::Zombie {
            return Err(WhyError::InvalidHandle);
        }
        let ctx = match state {
            TaskState::Suspended(ctx) => ctx,
            _ => {
                return Ok(ContextSwitch::Continue);
            },
        };
        let new_state = match ctx {
            ResumeContext::Blocked(BlockReason::Sleep(wakeup_time)) => if wakeup_time <= now {
                TaskState::Ready
            } else {
                TaskState::Blocked(BlockReason::Sleep(wakeup_time))
            },
            _ => TaskState::Ready,
        };
        let task = self.registry.get_task_mut_unchecked(tid);
        task.state = new_state;
        if new_state == TaskState::Ready {
            self.ready.add(tid);
            proof {
                let t = h@.0 as int;
                assert(old(self).state(t) == TaskState::Suspended(ctx));
                assert(new_state == resumed_state(ctx, old(self).ticks()));
                assert(self.tcbs() == old(self).tcbs().update(t, with_state(old(self).tcbs()[t], new_state)));
                assert(self.ready_set() == old(self).ready_set().update(t, true));
                assert(self.blocked_set() == old(self).blocked_set().update(t, false));
                assert(self.zombie_set() == old(self).zombie_set());
                assert(self.same_frame(&*old(self)));
            }
            Ok(ContextSwitch::Yield)
        } else {
            self.blocked.add(tid);
            proof {
                let t = h@.0 as int;
                assert(old(self).state(t) == TaskState::Suspended(ctx));
                assert(new_state == resumed_state(ctx, old(self).ticks()));
                assert(self.tcbs() == old(self).tcbs().update(t, with_state(old(self).tcbs()[t], new_state)));
                assert(self.ready_set() == old(self).ready_set().update(t, false));
                assert(self.blocked_set() == old(self).blocked_set().update(t, true));
                assert(self.same_frame(&*old(self)));
            }
            Ok(ContextSwitch::Continue)
        }
    }

    /// Every task stack lives in `pool` on blocks that the pool has handed
    /// out, and no two slots' stacks share a block.
    pub open spec fn stacks_held_by(&self, pool: MemoryPool) -> bool {
        &&& pool.used().len() == MAX_BLOCKS
        &&& forall|i: int| 0 <= i < MAX_TASKS ==> pool_holds_stack(pool, #[trigger] self.tcbs()[i].stack)
        &&& forall|i: int, b: int|
            0 <= i < MAX_TASKS && #[trigger] stack_covers(self.tcbs()[i].stack, pool.base(), b) ==> pool.used()[b]
        &&& forall|i: int, j: int, b: int|
            0 <= i < MAX_TASKS && 0 <= j < MAX_TASKS && i != j && #[trigger] stack_covers(
                self.tcbs()[i].stack,
                pool.base(),
                b,
            ) ==> !#[trigger] stack_covers(self.tcbs()[j].stack, pool.base(), b)
    }

    /// Emptying slot `t` and giving its stack back keeps every other stack
    /// on used blocks of its own.
    pub proof fn lemma_release_slot(k0: Kernel, k1: Kernel, pool0: MemoryPool, pool1: MemoryPool, t: int)
        requires
            k0.stacks_held_by(pool0),
            0 <= t < MAX_TASKS,
            k1.tcbs()[t].stack is None,
            forall|i: int| 0 <= i < MAX_TASKS && i != t ==> #[trigger] k1.tcbs()[i] == k0.tcbs()[i],
            pool1.base() == pool0.base(),
            pool1.used() == used_after_release(pool0.used(), pool0.base(), k0.tcbs()[t].stack),
        ensures
            k1.stacks_held_by(pool1),
    {
        let base = pool0.base();
        assert forall|i: int| 0 <= i < MAX_TASKS implies pool_holds_stack(pool1, #[trigger] k1.tcbs()[i].stack) by {
            if i != t {
                assert(pool_holds_stack(pool0, k0.tcbs()[i].stack));
            }
        }
        assert forall|i: int, b: int|
            0 <= i < MAX_TASKS && #[trigger] stack_covers(k1.tcbs()[i].stack, pool1.base(), b) implies pool1.used()[b] by {
            assert(i != t);
            assert(stack_covers(k0.tcbs()[i].stack, base, b));
            assert(pool_holds_stack(pool0, k0.tcbs()[i].stack));
            assert(pool0.used()[b]);
            assert(!stack_covers(k0.tcbs()[t].stack, base, b));
        }
        assert forall|i: int, j: int, b: int|
            0 <= i < MAX_TASKS && 0 <= j < MAX_TASKS && i != j && #[trigger] stack_covers(
                k1.tcbs()[i].stack,
                pool1.base(),
                b,
            ) implies !#[trigger] stack_covers(k1.tcbs()[j].stack, pool1.base(), b) by {
            assert(i != t);
            assert(stack_covers(k0.tcbs()[i].stack, base, b));
            if j != t {
                assert(!stack_covers(k0.tcbs()[j].stack, base, b));
            }
        }
    }

    /// Placing a stack on a run of blocks that was free, and that the pool
    /// has just marked used, into the empty slot `t` keeps every stack on
    /// used blocks of its own.
    pub proof fn lemma_place_stack(
        k0: Kernel,
        k1: Kernel,
        pool0: MemoryPool,
        pool1: MemoryPool,
        t: int,
        s: TaskStack,
    )
        requires
            k0.stacks_held_by(pool0),
            0 <= t < MAX_TASKS,
            k0.tcbs()[t].stack is None,
            k1.tcbs()[t].stack == Some(s),
            forall|i: int| 0 <= i < MAX_TASKS && i != t ==> #[trigger] k1.tcbs()[i] == k0.tcbs()[i],
            pool1.base() == pool0.base(),
            pool0.holds(s.memory()),
            free_run(
                pool0.used(),
                first_block(pool0.base(), s.memory().chunk_ptr()),
                s.memory().chunk_size() as int / (BLOCK_SIZE as int),
            ),
            pool1.used() == fill(
                pool0.used(),
                first_block(pool0.base(), s.memory().chunk_ptr()),
                s.memory().chunk_size() as int / (BLOCK_SIZE as int),
                true,
            ),
        ensures
            k1.stacks_held_by(pool1),
    {
        let base = pool0.base();
        assert forall|i: int| 0 <= i < MAX_TASKS implies pool_holds_stack(pool1, #[trigger] k1.tcbs()[i].stack) by {
            if i != t {
                assert(pool_holds_stack(pool0, k0.tcbs()[i].stack));
            }
        }
        assert forall|i: int, b: int|
            0 <= i < MAX_TASKS && #[trigger] stack_covers(k1.tcbs()[i].stack, pool1.base(), b) implies pool1.used()[b] by {
            if i != t {
                assert(stack_covers(k0.tcbs()[i].stack, base, b));
                assert(pool_holds_stack(pool0, k0.tcbs()[i].stack));
            }
        }
        assert forall|i: int, j: int, b: int|
            0 <= i < MAX_TASKS && 0 <= j < MAX_TASKS && i != j && #[trigger] stack_covers(
                k1.tcbs()[i].stack,
                pool1.base(),
                b,
            ) implies !#[trigger] stack_covers(k1.tcbs()[j].stack, pool1.base(), b) by {
            if i != t && j != t {
                assert(stack_covers(k0.tcbs()[i].stack, base, b));
            } else if i == t {
                if stack_covers(k1.tcbs()[j].stack, base, b) {
                    assert(stack_covers(k0.tcbs()[j].stack, base, b));
                    assert(pool_holds_stack(pool0, k0.tcbs()[j].stack));
                    assert(pool0.used()[b]);
                }
            } else {
                assert(stack_covers(k0.tcbs()[i].stack, base, b));
                assert(pool_holds_stack(pool0, k0.tcbs()[i].stack));
                assert(pool0.used()[b]);
            }
        }
    }

    /// What reaping does to the slots: every zombie's slot is freed and
    /// moves to the next generation; the other slots are untouched.
    pub open spec fn reaps_to(&self, next: Kernel) -> bool {
        &&& forall|t: int| 0 <= t < MAX_TASKS && self.zombie_set()[t] ==> !#[trigger] next.live()[t]
        &&& forall|t: int|
            0 <= t < MAX_TASKS && self.zombie_set()[t] ==> (#[trigger] next.tcbs()[t]).generation
                == self.tcbs()[t].generation.wrapping_add(1)
        &&& forall|t: int| 0 <= t < MAX_TASKS && !self.zombie_set()[t] ==> #[trigger] next.live()[t] == self.live()[t]
        &&& forall|t: int| 0 <= t < MAX_TASKS && !self.zombie_set()[t] ==> #[trigger] next.tcbs()[t] == self.tcbs()[t]
        &&& forall|t: int| 0 <= t < MAX_TASKS ==> !#[trigger] next.zombie_set()[t]
        &&& next.ready_set() == self.ready_set()
        &&& next.blocked_set() == self.blocked_set()
        &&& next.current() == self.current()
        &&& next.ticks() == self.ticks()
        &&& next.interval() == self.interval()
        &&& next.idle() == self.idle()
    }

    /// What reaping does to the heap: exactly the blocks of the zombies'
    /// stacks go back to the pool; every other block keeps its state.
    pub open spec fn returns_zombie_stacks(&self, pool0: MemoryPool, pool1: MemoryPool) -> bool {
        &&& pool1.base() == pool0.base()
        &&& pool1.used().len() == pool0.used().len()
        &&& forall|b: int|
            0 <= b < pool0.used().len() ==> #[trigger] pool1.used()[b] == (pool0.used()[b]
                && !self.zombie_stack_covers(pool0.base(), MAX_TASKS as int, b))
    }

    /// Everything but the contents of the task stacks equals `other`.
    pub open spec fn unchanged_but_stacks(&self, other: &Kernel) -> bool {
        &&& self.same_frame(other)
        &&& self.ready_set() == other.ready_set()
        &&& self.blocked_set() == other.blocked_set()
        &&& self.zombie_set() == other.zombie_set()
        &&& forall|i: int|
            0 <= i < MAX_TASKS ==> {
                let (a, b) = (#[trigger] self.tcbs()[i], other.tcbs()[i]);
                &&& a.name == b.name
                &&& a.state == b.state
                &&& a.priority == b.priority
                &&& a.watchdog == b.watchdog
                &&& a.generation == b.generation
                &&& a.stack is Some == b.stack is Some
            }
    }

    /// Every task slot holds the same stack as in `other`.
    pub open spec fn same_stacks(&self, other: &Kernel) -> bool {
        forall|i: int| 0 <= i < MAX_TASKS ==> (#[trigger] self.tcbs()[i]).stack == other.tcbs()[i].stack
    }

    /// Places a new ready task in the lowest free slot and returns its
    /// handle; `MaxTasksReached` (with the stack's memory given back to
    /// the pool) when every slot is taken.
    pub fn spawn_task(
        &mut self,
        name: Option<&'static str>,
        priority: u8,
        stack: TaskStack,
        pool: &mut MemoryPool,
    ) -> (r: WhyResult<TaskHandle>)
        requires
            old(self).wf(),
            old(pool).holds(stack.memory()),
        ensures
            final(self).wf(),
            final(pool).base() == old(pool).base(),
            r is Err <==> (forall|i: int| 0 <= i < MAX_TASKS ==> #[trigger] old(self).live()[i]),
            r is Err ==> r == Err::<TaskHandle, WhyError>(WhyError::MaxTasksReached) && final(self).unchanged_from(&*old(self)) && final(pool).used() == used_after_release(
                old(pool).used(),
                old(pool).base(),
                Some(stack),
            ),
            r matches Ok(h) ==> {
                let t = h@.0 as int;
                &&& 0 <= t < MAX_TASKS
                &&& !old(self).live()[t]
                &&& forall|j: int| 0 <= j < t ==> #[trigger] old(self).live()[j]
                &&& h@.1 == old(self).tcbs()[t].generation
                &&& final(self).live() == old(self).live().update(t, true)
                &&& final(self).tcbs() == old(self).tcbs().update(
                    t,
                    revived_tcb(old(self).tcbs()[t], name, priority, stack),
                )
                &&& final(self).ready_set() == old(self).ready_set().update(t, true)
                &&& final(self).blocked_set() == old(self).blocked_set()
                &&& final(self).zombie_set() == old(self).zombie_set()
                &&& final(self).current() == old(self).current()
                &&& final(self).ticks() == old(self).ticks()
                &&& final(self).interval() == old(self).interval()
                &&& final(self).idle() == old(self).idle()
                &&& final(pool).used() == old(pool).used()
            },
    {
        let handle = self.registry.allocate(name, priority, stack, pool)?;
        self.ready.add(handle.tid());
        Ok(handle)
    }

    /// Ends the task `h` refers to (see [`Kernel::make_zombie`]);
    /// `InvalidHandle` for a stale handle.
    pub fn kill_task(&mut self, h: &TaskHandle) -> (r: WhyResult<ContextSwitch>)
        requires
            old(self).wf(),
        ensures
            final(self).wf(),
            r is Err <==> !old(self).handle_valid(h),
            r is Err ==> r == Err::<ContextSwitch, WhyError>(WhyError::InvalidHandle) && final(self).unchanged_from(&*old(self)),
            r is Ok ==> {
                let t = h@.0 as int;
                &&& r == Ok::<ContextSwitch, WhyError>(old(self).switch_if_current(h.spec_tid()))
                &&& final(self).tcbs() == old(self).tcbs().update(
                    t,
                    with_state(old(self).tcbs()[t], TaskState::Zombie),
                )
                &&& final(self).ready_set() == old(self).ready_set().update(t, false)
                &&& final(self).blocked_set() == old(self).blocked_set().update(t, false)
                &&& final(self).zombie_set() == old(self).zombie_set().update(t, true)
                &&& final(self).same_frame(&*old(self))
            },
    {
        let tid = self.registry.validate(h)?;
        Ok(self.make_zombie(tid))
    }

    /// Ends the task `h` refers to at once and reclaims it: its slot is
    /// freed (moving to the next generation), it leaves every set, and its
    /// stack goes back to `pool`. `InvalidHandle` for a stale handle. Asks
    /// for a switch when the task ends itself.
    pub fn reclaim_task(&mut self, h: &TaskHandle, pool: &mut MemoryPool) -> (r: WhyResult<ContextSwitch>)
        requires
            old(self).wf(),
            old(self).stacks_held_by(*old(pool)),
        ensures
            final(self).wf(),
            final(self).stacks_held_by(*final(pool)),
            final(pool).base() == old(pool).base(),
            r is Err <==> !old(self).handle_valid(h),
            r is Err ==> r == Err::<ContextSwitch, WhyError>(WhyError::InvalidHandle) && final(self).unchanged_from(
                &*old(self),
            ) && final(pool).used() == old(pool).used(),
            r is Ok ==> {
                let t = h@.0 as int;
                &&& r == Ok::<ContextSwitch, WhyError>(old(self).switch_if_current(h.spec_tid()))
                &&& old(self).reclaims_to(*final(self), t)
                &&& final(pool).used() == used_after_release(old(pool).used(), old(pool).base(), old(self).tcbs()[t].stack)
            },
    {
        proof {
            crate::types::lemma_handle_tid(h);
        }
        let tid = self.registry.validate(h)?;
        let cs = ContextSwitch::yield_if(self.is_current(tid));
        let ghost k0 = *self;
        self.ready.remove(tid);
        self.blocked.remove(tid);
        self.zombies.remove(tid);
        let _ = self.registry.deallocate(tid, pool);
        proof {
            let t = tid@ as int;
            assert(self.tcbs() =~= k0.tcbs().update(t, self.tcbs()[t]));
            Kernel::lemma_release_slot(k0, *self, *old(pool), *pool, t);
        }
        Ok(cs)
    }

    /// Whether `next` is this kernel with a new ready task placed in `t`,
    /// its lowest free slot, at the slot's generation; every other slot, the
    /// blocked and zombie sets, the running task, the clock and the idle
    /// task stay as they were.
    pub open spec fn spawned_into(&self, next: Kernel, t: int) -> bool {
        &&& 0 <= t < MAX_TASKS
        &&& !self.live()[t]
        &&& forall|j: int| 0 <= j < t ==> #[trigger] self.live()[j]
        &&& next.live() == self.live().update(t, true)
        &&& forall|i: int| 0 <= i < MAX_TASKS && i != t ==> #[trigger] next.tcbs()[i] == self.tcbs()[i]
        &&& next.tcbs()[t].generation == self.tcbs()[t].generation
        &&& next.ready_set() == self.ready_set().update(t, true)
        &&& next.blocked_set() == self.blocked_set()
        &&& next.zombie_set() == self.zombie_set()
        &&& next.current() == self.current()
        &&& next.ticks() == self.ticks()
        &&& next.interval() == self.interval()
        &&& next.idle() == self.idle()
    }

    /// A task placed in `slot`, or, with no slot, nothing changed.
    pub open spec fn spawn_step(&self, next: Kernel, slot: Option<int>) -> bool {
        match slot {
            Some(t) => self.spawned_into(next, t),
            None => next.unchanged_from(self),
        }
    }

    /// What freeing slot `t` at once does: the slot is empty at the next
    /// generation, it leaves every set, and nothing else changes.
    pub open spec fn reclaims_to(&self, next: Kernel, t: int) -> bool {
        &&& next.live() == self.live().update(t, false)
        &&& is_dead_tcb(next.tcbs()[t], self.tcbs()[t].generation.wrapping_add(1))
        &&& next.tcbs().len() == self.tcbs().len()
        &&& forall|i: int| 0 <= i < MAX_TASKS && i != t ==> #[trigger] next.tcbs()[i] == self.tcbs()[i]
        &&& next.ready_set() == self.ready_set().update(t, false)
        &&& next.blocked_set() == self.blocked_set().update(t, false)
        &&& next.zombie_set() == self.zombie_set().update(t, false)
        &&& next.current() == self.current()
        &&& next.ticks() == self.ticks()
        &&& next.interval() == self.interval()
        &&& next.idle() == self.idle()
    }

    /// Whether a zombie in a slot below `lim` has its stack on heap block `b`.
    pub open spec fn zombie_stack_covers(&self, base: usize, lim: int, b: int) -> bool {
        exists|t: int| 0 <= t < lim && #[trigger] self.zombie_set()[t] && stack_covers(self.tcbs()[t].stack, base, b)
    }

    /// Reclaims every zombie: its slot is freed (moving to the next
    /// generation) and its stack goes back to the pool.
    pub fn reap_zombies(&mut self, pool: &mut MemoryPool)
        requires
            old(self).wf(),
            old(self).stacks_held_by(*old(pool)),
        ensures
            final(self).wf(),
            final(self).stacks_held_by(*final(pool)),
            old(self).returns_zombie_stacks(*old(pool), *final(pool)),
            forall|t: int| 0 <= t < MAX_TASKS && old(self).zombie_set()[t] ==> !#[trigger] final(self).live()[t],
            forall|t: int| 0 <= t < MAX_TASKS && old(self).zombie_set()[t] ==> is_dead_tcb(
                #[trigger] final(self).tcbs()[t],
                old(self).tcbs()[t].generation.wrapping_add(1),
            ),
            forall|t: int| 0 <= t < MAX_TASKS && !old(self).zombie_set()[t] ==> #[trigger] final(self).live()[t]
                == old(self).live()[t],
            forall|t: int| 0 <= t < MAX_TASKS && !old(self).zombie_set()[t] ==> #[trigger] final(self).tcbs()[t]
                == old(self).tcbs()[t],
            forall|t: int| 0 <= t < MAX_TASKS ==> !#[trigger] final(self).zombie_set()[t],
            final(self).ready_set() == old(self).ready_set(),
            final(self).blocked_set() == old(self).blocked_set(),
            final(self).current() == old(self).current(),
            final(self).ticks() == old(self).ticks(),
            final(self).interval() == old(self).interval(),
            final(self).idle() == old(self).idle(),
            old(self).reaps_to(*final(self)),
    {
        let ghost k0 = *self;
        let ghost base = pool.base();
        let ghost used0 = pool.used();
        let zs = self.zombies.iter();
        let ghost z = ids_of(zs@);
        let mut i: usize = 0;
        while i < zs.len()
            invariant
                k0.wf(),
                ascending_members(k0.zombie_set(), z),
                z == ids_of(zs@),
                i <= zs@.len(),
                pool.base() == base,
                pool.used().len() == used0.len(),
                self.tcbs().len() == MAX_TASKS,
                self.live().len() == MAX_TASKS,
                self.zombie_set().len() == MAX_TASKS,
                self.ready_set() == k0.ready_set(),
                self.blocked_set() == k0.blocked_set(),
                self.current() == k0.current(),
                self.ticks() == k0.ticks(),
                self.interval() == k0.interval(),
                self.idle() == k0.idle(),
                forall|t: int| 0 <= t < MAX_TASKS ==> #[trigger] self.zombie_set()[t] == (k0.zombie_set()[t]
                    && !in_prefix(z, i as int, t)),
                forall|t: int| 0 <= t < MAX_TASKS && in_prefix(z, i as int, t) ==> !#[trigger] self.live()[t],
                forall|t: int| 0 <= t < MAX_TASKS && in_prefix(z, i as int, t) ==> is_dead_tcb(
                    #[trigger] self.tcbs()[t],
                    k0.tcbs()[t].generation.wrapping_add(1),
                ),
                forall|t: int| 0 <= t < MAX_TASKS && !in_prefix(z, i as int, t) ==> #[trigger] self.live()[t] == k0.live()[t],
                forall|t: int| 0 <= t < MAX_TASKS && !in_prefix(z, i as int, t) ==> #[trigger] self.tcbs()[t] == k0.tcbs()[t],
                self.stacks_held_by(*pool),
                forall|b: int| 0 <= b < used0.len() ==> #[trigger] pool.used()[b] == (used0[b] && !prefix_covers(k0, z, i as int, base, b)),
            decreases zs@.len() - i,
        {
            let tid = zs[i];
            let ghost before = *self;
            let ghost used_before = pool.used();
            self.zombies.remove(tid);
            proof {
                assert(z[i as int] == tid@);
                assert(k0.zombie_set()[tid@ as int]);
                assert(!in_prefix(z, i as int, tid@ as int)) by {
                    if in_prefix(z, i as int, tid@ as int) {
                        let k = choose|k: int| 0 <= k < i && z[k] == tid@;
                        assert(z[k] < z[i as int]);
                    }
                }
                assert(self.tcbs()[tid@ as int] == k0.tcbs()[tid@ as int]);
            }
            let ghost pool_before = *pool;
            let _ = self.registry.deallocate(tid, pool);
            proof {
                let t0 = tid@ as int;
                Kernel::lemma_release_slot(before, *self, pool_before, *pool, t0);
                assert forall|t: int| 0 <= t < MAX_TASKS implies in_prefix(z, i + 1, t)
                    == (in_prefix(z, i as int, t) || t == t0) by {
                    if t == t0 {
                        assert(z[i as int] == t);
                    }
                    if in_prefix(z, i + 1, t) {
                        let k = choose|k: int| 0 <= k < i + 1 && z[k] == t;
                        if k == i {
                            assert(t == t0);
                        }
                    }
                }
                assert forall|t: int| 0 <= t < MAX_TASKS && in_prefix(z, i + 1, t) implies !#[trigger] self.live()[t] by {
                    if t != t0 {
                        assert(in_prefix(z, i as int, t));
                        assert(!before.live()[t]);
                    }
                }
                assert forall|t: int| 0 <= t < MAX_TASKS && in_prefix(z, i + 1, t) implies is_dead_tcb(
                    #[trigger] self.tcbs()[t],
                    k0.tcbs()[t].generation.wrapping_add(1),
                ) by {
                    if t != t0 {
                        assert(in_prefix(z, i as int, t));
                        assert(self.tcbs()[t] == before.tcbs()[t]);
                    }
                }
                assert forall|t: int| 0 <= t < MAX_TASKS && !in_prefix(z, i + 1, t) implies #[trigger] self.live()[t]
                    == k0.live()[t] by {
                    assert(t != t0);
                    assert(!in_prefix(z, i as int, t));
                    assert(before.live()[t] == k0.live()[t]);
                }
                assert forall|t: int| 0 <= t < MAX_TASKS && !in_prefix(z, i + 1, t) implies #[trigger] self.tcbs()[t]
                    == k0.tcbs()[t] by {
                    assert(t != t0);
                    assert(!in_prefix(z, i as int, t));
                    assert(self.tcbs()[t] == before.tcbs()[t]);
                }
                assert forall|b: int| 0 <= b < used0.len() implies #[trigger] pool.used()[b] == (used0[b] && !prefix_covers(k0, z, i + 1, base, b)) by {
                    let e0 = prefix_covers(k0, z, i as int, base, b);
                    let e1 = prefix_covers(k0, z, i + 1, base, b);
                    assert(used_before[b] == (used0[b] && !e0));
                    assert(pool.used()[b] == (used_before[b] && !stack_covers(before.tcbs()[t0].stack, base, b)));
                    if e1 {
                        let k = choose|k: int| 0 <= k < i + 1 && stack_covers(k0.tcbs()[z[k] as int].stack, base, b);
                        if k < i {
                            assert(e0);
                        } else {
                            assert(z[k] == t0);
                        }
                    }
                    if e0 {
                        let k = choose|k: int| 0 <= k < i && stack_covers(k0.tcbs()[z[k] as int].stack, base, b);
                        assert(0 <= k < i + 1 && stack_covers(k0.tcbs()[z[k] as int].stack, base, b));
                    }
                    if stack_covers(before.tcbs()[t0].stack, base, b) {
                        assert(0 <= i < i + 1 && stack_covers(k0.tcbs()[z[i as int] as int].stack, base, b));
                    }
                }
            }
            i = i + 1;
        }
        proof {
            assert forall|t: int| 0 <= t < MAX_TASKS implies in_prefix(z, i as int, t) == k0.zombie_set()[t] by {
                if k0.zombie_set()[t] {
                    assert(zs@.len() == z.len());
                    let k = choose|k: int| 0 <= k < z.len() && z[k] == t as usize;
                    assert(z[k] == t);
                }
                if in_prefix(z, i as int, t) {
                    let k = choose|k: int| 0 <= k < i && z[k] == t;
                    assert(k0.zombie_set()[z[k] as int]);
                }
            }
            assert forall|b: int| 0 <= b < used0.len() implies #[trigger] pool.used()[b] == (used0[b]
                && !k0.zombie_stack_covers(base, MAX_TASKS as int, b)) by {
                let e = prefix_covers(k0, z, i as int, base, b);
                if e {
                    let k = choose|k: int| 0 <= k < i && stack_covers(k0.tcbs()[z[k] as int].stack, base, b);
                    let t = z[k] as int;
                    assert(k0.zombie_set()[t]);
                    assert(k0.zombie_stack_covers(base, MAX_TASKS as int, b));
                }
                if k0.zombie_stack_covers(base, MAX_TASKS as int, b) {
                    let t = choose|t: int| 0 <= t < MAX_TASKS && #[trigger] k0.zombie_set()[t] && stack_covers(k0.tcbs()[t].stack, base, b);
                    assert(in_prefix(z, i as int, t));
                    let k = choose|k: int| 0 <= k < i && z[k] == t;
                    assert(stack_covers(k0.tcbs()[z[k] as int].stack, base, b));
                }
            }
        }
    }

    /// Whether `r` is the scheduler's choice: no task when none is ready;
    /// otherwise a ready task of the highest priority (lowest number), and
    /// among those the first one met going round from just after the
    /// running task.
    pub open spec fn picks_next(&self, r: Option<TaskId>) -> bool {
        let start = search_start(self.current());
        &&& r is None <==> (forall|i: int| 0 <= i < MAX_TASKS ==> !#[trigger] self.ready_set()[i])
        &&& r matches Some(t) ==> {
            &&& t@ < MAX_TASKS
            &&& self.ready_set()[t@ as int]
            &&& forall|u: int|
                0 <= u < MAX_TASKS && #[trigger] self.ready_set()[u] ==> self.priority(t@ as int) <= self.priority(u)
            &&& forall|u: int|
                0 <= u < MAX_TASKS && #[trigger] self.ready_set()[u] && self.priority(u) == self.priority(t@ as int)
                    ==> circular_rank(t@ as int, start, MAX_TASKS as int) <= circular_rank(u, start, MAX_TASKS as int)
        }
    }

    /// What a task switch does (see [`Kernel::schedule`]): `next` is the
    /// kernel after switching away from a task whose stack pointer was
    /// `old_sp`, and `sp` the stack pointer of the task to run.
    pub open spec fn switches_to(&self, next: Kernel, old_sp: usize, sp: usize) -> bool {
        &&& next.wf()
        &&& self.picks_next(next.current())
        &&& {
            let mid = match self.current() {
                Some(c) => self.tcbs().update(c@ as int, saved_tcb(self.tcbs()[c@ as int], old_sp)),
                None => self.tcbs(),
            };
            next.tcbs() == match next.current() {
                Some(n) => mid.update(n@ as int, with_state(mid[n@ as int], TaskState::Running)),
                None => mid,
            }
        }
        &&& self.current() is Some ==> next.idle() == self.idle()
        &&& self.current() is None ==> (next.idle() matches Some(idle) && idle.stack() == self.idle()->0.stack().with_sp(
            old_sp,
        ))
        &&& sp == match next.current() {
            Some(n) => next.tcbs()[n@ as int].stack->0.stack_pointer(),
            None => next.idle()->0.stack().stack_pointer(),
        }
        &&& next.live() == self.live()
        &&& next.ready_set() == self.ready_set()
        &&& next.blocked_set() == self.blocked_set()
        &&& next.zombie_set() == self.zombie_set()
        &&& next.ticks() == self.ticks()
        &&& next.interval() == self.interval()
    }

    /// The task to run next; see [`Kernel::picks_next`].
    pub fn pick_next(&self) -> (r: Option<TaskId>)
        requires
            self.wf(),
        ensures
            self.picks_next(r),
    {
        let next: usize = match self.current_task {
            Some(curr) => (curr.id() + 1) % MAX_TASKS,
            None => 0,
        };
        let order = self.ready.iter_from(next);
        let ghost z = ids_of(order@);
        let ghost start = search_start(self.current());
        assert(next == start);
        let mut best: Option<TaskId> = None;
        let mut best_prio: u8 = 0;
        let ghost mut best_k: int = 0;
        let mut i: usize = 0;
        while i < order.len()
            invariant
                self.wf(),
                z == ids_of(order@),
                crate::bitmap::circular_members(self.ready_set(), start, z),
                0 <= start < MAX_TASKS,
                i <= order@.len(),
                best is None <==> i == 0,
                best matches Some(t) ==> {
                    &&& 0 <= best_k < i
                    &&& t@ == z[best_k]
                    &&& best_prio == self.priority(t@ as int)
                    &&& forall|k: int| 0 <= k < i ==> best_prio <= self.priority(#[trigger] z[k] as int)
                    &&& forall|k: int| 0 <= k < i && self.priority(#[trigger] z[k] as int) == best_prio ==> best_k <= k
                },
            decreases order@.len() - i,
        {
            let tid = order[i];
            let p = self.registry.get_task_unchecked(tid).priority;
            proof {
                assert(z[i as int] == tid@);
            }
            match best {
                None => {
                    best = Some(tid);
                    best_prio = p;
                    proof {
                        best_k = i as int;
                    }
                },
                Some(_) => {
                    if p < best_prio {
                        best = Some(tid);
                        best_prio = p;
                        proof {
                            best_k = i as int;
                        }
                    }
                },
            }
            i = i + 1;
        }
        proof {
            if let Some(t) = best {
                assert(self.ready_set()[z[best_k] as int]);
                assert forall|u: int| 0 <= u < MAX_TASKS && #[trigger] self.ready_set()[u] implies self.priority(t@ as int) <= self.priority(u) && (self.priority(u) == self.priority(t@ as int) ==> circular_rank(t@ as int, start, MAX_TASKS as int) <= circular_rank(u, start, MAX_TASKS as int)) by {
                    let k = choose|k: int| 0 <= k < z.len() && z[k] == u as usize;
                    assert(self.priority(z[k] as int) >= best_prio);
                    if self.priority(u) == self.priority(t@ as int) {
                        assert(best_k <= k);
                        if best_k < k {
                            assert(circular_rank(z[best_k] as int, start, MAX_TASKS as int) < circular_rank(z[k] as int, start, MAX_TASKS as int));
                        }
                    }
                }
            } else {
                assert forall|u: int| 0 <= u < MAX_TASKS implies !#[trigger] self.ready_set()[u] by {
                    if self.ready_set()[u] {
                        assert(z.contains(u as usize));
                    }
                }
            }
        }
        best
    }

    /// Whether the running task's stack canary has been overwritten.
    pub open spec fn current_stack_broken(&self) -> bool {
        self.current() matches Some(c) && self.tcbs()[c@ as int].stack matches Some(st)
            && st.contents()[0] != STACK_CANARY
    }

    /// Whether the running task overflowed its stack (its canary is gone).
    /// The scheduler must not switch away from such a task.
    pub fn stack_overflowed(&self) -> (r: bool)
        requires
            self.wf(),
        ensures
            r == self.current_stack_broken(),
    {
        match self.current_task {
            Some(curr) => {
                let task = self.registry.get_task_unchecked(curr);
                match &task.stack {
                    Some(stack) => !stack.check_canary(),
                    None => false,
                }
            },
            None => false,
        }
    }

    /// Lowest address of the running task's stack, where its canary lives;
    /// `None` when the idle task runs.
    pub fn current_stack_base(&self) -> (r: Option<usize>)
        requires
            self.wf(),
        ensures
            r == match self.current() {
                Some(c) => match self.tcbs()[c@ as int].stack {
                    Some(st) => Some(st.memory().chunk_ptr()),
                    None => None::<usize>,
                },
                None => None::<usize>,
            },
    {
        match self.current_task {
            Some(curr) => match &self.registry.get_task_unchecked(curr).stack {
                Some(stack) => Some(stack.base()),
                None => None,
            },
            None => None,
        }
    }

    /// Records `word` as the value the running task's stack now holds at its
    /// lowest address, read back from memory, so that
    /// [`Kernel::stack_overflowed`] sees an overwritten canary.
    pub fn record_canary(&mut self, word: u32)
        requires
            old(self).wf(),
        ensures
            final(self).wf(),
            final(self).unchanged_but_stacks(&*old(self)),
            final(self).current_stack_broken() == (old(self).current() matches Some(c) && old(self).tcbs()[c@ as int].stack
                is Some && word != STACK_CANARY),
            forall|i: int| 0 <= i < MAX_TASKS ==> #[trigger] same_stack_place(final(self).tcbs()[i].stack, old(self).tcbs()[i].stack),
    {
        let ghost k0 = *self;
        if let Some(curr) = self.current_task {
            let task = self.registry.get_task_mut_unchecked(curr);
            match task.stack.take() {
                Some(mut stack) => {
                    stack.record_bottom(word);
                    task.stack = Some(stack);
                },
                None => {},
            }
            proof {
                assert forall|i: int| 0 <= i < MAX_TASKS implies #[trigger] same_stack_place(self.tcbs()[i].stack, k0.tcbs()[i].stack) by {
                    if i == curr@ as int {
                    }
                }
            }
        }
    }

    /// Where the stack of the task in slot `tid` lies: its lowest address
    /// and its size in bytes; `None` for a slot without a stack.
    pub fn stack_extent(&self, tid: TaskId) -> (r: Option<(usize, usize)>)
        requires
            self.wf(),
        ensures
            r == match self.tcbs()[tid@ as int].stack {
                Some(st) => Some((st.memory().chunk_ptr(), st.memory().chunk_size())),
                None => None::<(usize, usize)>,
            },
    {
        match &self.registry.get_task_unchecked(tid).stack {
            Some(stack) => Some((stack.base(), stack.size())),
            None => None,
        }
    }

    /// The recorded contents of the stack of the task in slot `tid`, lowest
    /// address first; `None` for a slot without a stack.
    pub fn stack_words(&self, tid: TaskId) -> (r: Option<Vec<u32>>)
        requires
            self.wf(),
        ensures
            match self.tcbs()[tid@ as int].stack {
                Some(st) => r matches Some(w) && w@ == st.contents(),
                None => r is None,
            },
    {
        match &self.registry.get_task_unchecked(tid).stack {
            Some(stack) => Some(stack.words()),
            None => None,
        }
    }

    /// The recorded contents of the idle task's stack, lowest address
    /// first; `None` before the idle task is set up.
    pub fn idle_stack_words(&self) -> (r: Option<Vec<u32>>)
        ensures
            match self.idle() {
                Some(idle) => r matches Some(w) && w@ == idle.stack().contents(),
                None => r is None,
            },
    {
        match &self.idle {
            Some(idle) => Some(idle.stack.words()),
            None => None,
        }
    }

    /// Records `words` as the contents of the stack of the task in slot
    /// `tid`, read back from its memory (one word per four bytes, lowest
    /// address first), so that its high-water mark can be measured.
    /// Nothing changes when the slot has no stack.
    pub fn record_stack(&mut self, tid: TaskId, words: Vec<u32>)
        requires
            old(self).wf(),
            old(self).tcbs()[tid@ as int].stack matches Some(st) ==> words@.len() * 4 == st.memory().chunk_size(),
        ensures
            final(self).wf(),
            final(self).unchanged_but_stacks(&*old(self)),
            forall|i: int| 0 <= i < MAX_TASKS ==> #[trigger] same_stack_place(final(self).tcbs()[i].stack, old(self).tcbs()[i].stack),
            forall|i: int| 0 <= i < MAX_TASKS && i != tid@ ==> #[trigger] final(self).tcbs()[i] == old(self).tcbs()[i],
            final(self).tcbs()[tid@ as int].stack matches Some(st) ==> st.contents() == words@,
    {
        let task = self.registry.get_task_mut_unchecked(tid);
        match task.stack.take() {
            Some(mut stack) => {
                stack.record_contents(words);
                task.stack = Some(stack);
            },
            None => {},
        }
    }

    /// Sets up the idle task with its stack at `memory` (entry point
    /// `entry`, return address `return_handler`) and returns its stack
    /// pointer.
    pub fn init_idle(&mut self, memory: usize, entry: usize, return_handler: usize) -> (r: usize)
        requires
            old(self).wf(),
            old(self).idle() is None,
            memory % 8 == 0,
            memory + IDLE_STACK_SIZE <= usize::MAX,
        ensures
            final(self).wf(),
            final(self).idle() matches Some(idle) && idle.stack().memory().chunk_ptr() == memory
                && idle.stack().memory().chunk_size() == IDLE_STACK_SIZE
                && idle.stack().stack_pointer() == memory + IDLE_STACK_SIZE - FRAME_BYTES
                && idle.stack().contents() == idle_stack_contents(entry, return_handler)
                && starts_task(idle.stack().contents(), entry, 0, return_handler),
            r == memory + IDLE_STACK_SIZE - FRAME_BYTES,
            final(self).tcbs() == old(self).tcbs(),
            final(self).live() == old(self).live(),
            final(self).ready_set() == old(self).ready_set(),
            final(self).blocked_set() == old(self).blocked_set(),
            final(self).zombie_set() == old(self).zombie_set(),
            final(self).current() == old(self).current(),
            final(self).ticks() == old(self).ticks(),
            final(self).interval() == old(self).interval(),
    {
        self.idle = Some(IdleTask::new(memory, entry, return_handler));
        self.idle_sp()
    }

    /// The context switch: saves `old_sp` as the stack pointer of the task
    /// being switched out (the idle task when none runs), makes a running
    /// task ready again, picks the next task (see [`Kernel::picks_next`]),
    /// marks it running and returns the stack pointer to resume; the idle
    /// task's when no task is ready.
    pub fn schedule(&mut self, old_sp: usize) -> (r: usize)
        requires
            old(self).wf(),
            old(self).idle() is Some,
            !old(self).current_stack_broken(),
        ensures
            final(self).wf(),
            old(self).picks_next(final(self).current()),
            ({
                let mid = match old(self).current() {
                    Some(c) => old(self).tcbs().update(c@ as int, saved_tcb(old(self).tcbs()[c@ as int], old_sp)),
                    None => old(self).tcbs(),
                };
                final(self).tcbs() == match final(self).current() {
                    Some(n) => mid.update(n@ as int, with_state(mid[n@ as int], TaskState::Running)),
                    None => mid,
                }
            }),
            old(self).current() is Some ==> final(self).idle() == old(self).idle(),
            old(self).current() is None ==> (final(self).idle() matches Some(idle) && idle.stack() == old(
                self,
            ).idle()->0.stack().with_sp(old_sp)),
            r == match final(self).current() {
                Some(n) => final(self).tcbs()[n@ as int].stack->0.stack_pointer(),
                None => final(self).idle()->0.stack().stack_pointer(),
            },
            final(self).live() == old(self).live(),
            final(self).ready_set() == old(self).ready_set(),
            final(self).blocked_set() == old(self).blocked_set(),
            final(self).zombie_set() == old(self).zombie_set(),
            final(self).ticks() == old(self).ticks(),
            final(self).interval() == old(self).interval(),
            old(self).switches_to(*final(self), old_sp, r),
    {
        let ghost k0 = *self;
        match self.current_task {
            Some(curr) => {
                let curr_task = self.registry.get_task_mut_unchecked(curr);
                match &mut curr_task.stack {
                    Some(stack) => {
                        stack.set_sp(old_sp);
                    },
                    None => {},
                }
                if curr_task.state == TaskState::Running {
                    curr_task.state = TaskState::Ready;
                }
            },
            None => {
                match &mut self.idle {
                    Some(idle) => {
                        idle.set_sp(old_sp);
                    },
                    None => {},
                }
            },
        }
        let ghost k1 = *self;
        proof {
            assert(k1.ready_set() == k0.ready_set());
            assert forall|i: int| 0 <= i < MAX_TASKS implies #[trigger] k1.priority(i) == k0.priority(i) by {}
        }
        let next_task = self.pick_next();
        proof {
            assert(k0.picks_next(next_task));
        }
        self.current_task = next_task;
        match next_task {
            Some(n) => {
                let next = self.registry.get_task_mut_unchecked(n);
                next.state = TaskState::Running;
                match &next.stack {
                    Some(stack) => stack.sp(),
                    None => 0,
                }
            },
            None => self.idle_sp(),
        }
    }

    /// Counts one tick on the watchdog of task `tid`; a task whose watchdog
    /// fires becomes a zombie (see [`Kernel::make_zombie`]).
    fn wdt_check(&mut self, tid: TaskId)
        requires
            old(self).wf(),
        ensures
            final(self).tcbs().len() == MAX_TASKS,
            forall|i: int| 0 <= i < MAX_TASKS && i != tid@ ==> #[trigger] final(self).tcbs()[i] == old(self).tcbs()[i],
            wdt_ticked(old(self).tcbs()[tid@ as int], final(self).tcbs()[tid@ as int]),
            wdt_fires(old(self).tcbs()[tid@ as int]) ==> {
                &&& final(self).ready_set() == old(self).ready_set().update(tid@ as int, false)
                &&& final(self).blocked_set() == old(self).blocked_set().update(tid@ as int, false)
                &&& final(self).zombie_set() == old(self).zombie_set().update(tid@ as int, true)
            },
            !wdt_fires(old(self).tcbs()[tid@ as int]) ==> {
                &&& final(self).ready_set() == old(self).ready_set()
                &&& final(self).blocked_set() == old(self).blocked_set()
                &&& final(self).zombie_set() == old(self).zombie_set()
            },
            final(self).same_frame(&*old(self)),
            old(self).live()[tid@ as int] ==> final(self).wf(),
    {
        let task = self.registry.get_task_mut_unchecked(tid);
        let fired = match task.watchdog.as_mut() {
            Some(watchdog) => watchdog.check_n_tick(),
            None => false,
        };
        if fired {
            self.make_zombie(tid);
        }
    }

    /// Advances the tick count by one and returns it.
    fn tick(&mut self) -> (r: u64)
        requires
            old(self).ticks() < u64::MAX,
        ensures
            r == old(self).ticks() + 1,
            final(self).ticks() == r,
            final(self).tcbs() == old(self).tcbs(),
            final(self).live() == old(self).live(),
            final(self).ready_set() == old(self).ready_set(),
            final(self).blocked_set() == old(self).blocked_set(),
            final(self).zombie_set() == old(self).zombie_set(),
            final(self).current() == old(self).current(),
            final(self).interval() == old(self).interval(),
            final(self).idle() == old(self).idle(),
    {
        self.system_ticks = self.system_ticks + 1;
        self.system_ticks
    }

    /// Whether task `t` sleeps until a time no later than `now`.
    pub open spec fn wakes_at(&self, t: int, now: u64) -> bool {
        self.blocked_set()[t] && (self.state(t) matches TaskState::Blocked(BlockReason::Sleep(w)) && w <= now)
    }

    /// Task `t` after the sleepers due at `now` have been woken.
    pub open spec fn woken_tcb(&self, t: int, now: u64) -> Tcb {
        if self.wakes_at(t, now) {
            with_state(self.tcbs()[t], TaskState::Ready)
        } else {
            self.tcbs()[t]
        }
    }

    /// Whether task `t` is ready once the sleepers due at `now` are woken.
    pub open spec fn ready_after_wake(&self, t: int, now: u64) -> bool {
        self.ready_set()[t] || self.wakes_at(t, now)
    }

    /// Whether the watchdog of task `t` ends it on the tick that brings the
    /// count to `now`.
    pub open spec fn killed_by_watchdog(&self, t: int, now: u64) -> bool {
        self.ready_after_wake(t, now) && wdt_fires(self.tcbs()[t])
    }

    /// What a tick does (see [`Kernel::on_tick`]): `next` is the kernel
    /// after the tick that brings the count to `now`.
    pub open spec fn ticks_to(&self, next: Kernel, now: u64) -> bool {
        &&& now == self.ticks() + 1
        &&& next.ticks() == now
        &&& next.wf()
        &&& next.live() == self.live()
        &&& next.current() == self.current()
        &&& next.interval() == self.interval()
        &&& next.idle() == self.idle()
        &&& forall|t: int|
            0 <= t < MAX_TASKS && self.ready_after_wake(t, now) ==> wdt_ticked(
                self.woken_tcb(t, now),
                #[trigger] next.tcbs()[t],
            )
        &&& forall|t: int|
            0 <= t < MAX_TASKS && !self.ready_after_wake(t, now) ==> #[trigger] next.tcbs()[t] == self.woken_tcb(
                t,
                now,
            )
        &&& forall|t: int|
            0 <= t < MAX_TASKS ==> #[trigger] next.ready_set()[t] == (self.ready_after_wake(t, now)
                && !self.killed_by_watchdog(t, now))
        &&& forall|t: int|
            0 <= t < MAX_TASKS ==> #[trigger] next.blocked_set()[t] == (self.blocked_set()[t] && !self.wakes_at(t, now)
                && !self.killed_by_watchdog(t, now))
        &&& forall|t: int|
            0 <= t < MAX_TASKS ==> #[trigger] next.zombie_set()[t] == (self.zombie_set()[t]
                || self.killed_by_watchdog(t, now))
    }

    /// The timer tick: advances the tick count, wakes every sleeper whose
    /// waking time has come, then counts a tick on the watchdog of every
    /// ready task (ending those whose watchdog fires). Returns the new tick
    /// count.
    pub fn on_tick(&mut self) -> (r: u64)
        requires
            old(self).wf(),
            old(self).ticks() < u64::MAX,
        ensures
            r == old(self).ticks() + 1,
            final(self).ticks() == r,
            final(self).wf(),
            final(self).live() == old(self).live(),
            final(self).current() == old(self).current(),
            final(self).interval() == old(self).interval(),
            final(self).idle() == old(self).idle(),
            forall|t: int| 0 <= t < MAX_TASKS && old(self).ready_after_wake(t, r) ==> wdt_ticked(
                old(self).woken_tcb(t, r),
                #[trigger] final(self).tcbs()[t],
            ),
            forall|t: int| 0 <= t < MAX_TASKS && !old(self).ready_after_wake(t, r) ==> #[trigger] final(self).tcbs()[t]
                == old(self).woken_tcb(t, r),
            forall|t: int| 0 <= t < MAX_TASKS ==> #[trigger] final(self).ready_set()[t] == (old(self).ready_after_wake(t, r)
                && !old(self).killed_by_watchdog(t, r)),
            forall|t: int| 0 <= t < MAX_TASKS ==> #[trigger] final(self).blocked_set()[t] == (old(self).blocked_set()[t]
                && !old(self).wakes_at(t, r) && !old(self).killed_by_watchdog(t, r)),
            forall|t: int| 0 <= t < MAX_TASKS ==> #[trigger] final(self).zombie_set()[t] == (old(self).zombie_set()[t]
                || old(self).killed_by_watchdog(t, r)),
            old(self).ticks_to(*final(self), r),
    {
        let ghost k0 = *self;
        let now = self.tick();
        let sleepers = self.blocked.iter();
        let ghost z1 = ids_of(sleepers@);
        let mut i: usize = 0;
        while i < sleepers.len()
            invariant
                k0.wf(),
                now == k0.ticks() + 1,
                ascending_members(k0.blocked_set(), z1),
                z1 == ids_of(sleepers@),
                i <= sleepers@.len(),
                self.wf(),
                self.ticks() == now,
                self.live() == k0.live(),
                self.current() == k0.current(),
                self.interval() == k0.interval(),
                self.idle() == k0.idle(),
                self.zombie_set() == k0.zombie_set(),
                forall|t: int| 0 <= t < MAX_TASKS ==> #[trigger] self.tcbs()[t] == if in_prefix(z1, i as int, t) {
                    k0.woken_tcb(t, now)
                } else {
                    k0.tcbs()[t]
                },
                forall|t: int| 0 <= t < MAX_TASKS ==> #[trigger] self.ready_set()[t] == (k0.ready_set()[t]
                    || (in_prefix(z1, i as int, t) && k0.wakes_at(t, now))),
                forall|t: int| 0 <= t < MAX_TASKS ==> #[trigger] self.blocked_set()[t] == (k0.blocked_set()[t]
                    && !(in_prefix(z1, i as int, t) && k0.wakes_at(t, now))),
            decreases sleepers@.len() - i,
        {
            let tid = sleepers[i];
            let ghost before = *self;
            let state = self.registry.get_task_unchecked(tid).state;
            proof {
                let t0 = tid@ as int;
                assert(z1[i as int] == tid@);
                assert(k0.blocked_set()[t0]);
                assert(!in_prefix(z1, i as int, t0)) by {
                    if in_prefix(z1, i as int, t0) {
                        let k = choose|k: int| 0 <= k < i && #[trigger] z1[k] == t0;
                        assert(z1[k] < z1[i as int]);
                    }
                }
                assert forall|t: int| 0 <= t < MAX_TASKS implies #[trigger] in_prefix(z1, i + 1, t) == (in_prefix(z1, i as int, t) || t == t0) by {
                    if t == t0 {
                        assert(z1[i as int] == t);
                    }
                    if in_prefix(z1, i + 1, t) {
                        let k = choose|k: int| 0 <= k < i + 1 && #[trigger] z1[k] == t;
                        if k < i {
                            assert(in_prefix(z1, i as int, t));
                        }
                    }
                }
            }
            if let TaskState::Blocked(BlockReason::Sleep(wakeup_time)) = state {
                if wakeup_time <= now {
                    self.unblock_task(tid);
                }
            }
            i = i + 1;
        }
        let ghost k1 = *self;
        proof {
            assert forall|t: int| 0 <= t < MAX_TASKS implies #[trigger] in_prefix(z1, i as int, t) == k0.blocked_set()[t] by {
                if k0.blocked_set()[t] {
                    let k = choose|k: int| 0 <= k < z1.len() && z1[k] == t as usize;
                    assert(z1[k] == t);
                }
                if in_prefix(z1, i as int, t) {
                    let k = choose|k: int| 0 <= k < i && #[trigger] z1[k] == t;
                    assert(k0.blocked_set()[z1[k] as int]);
                }
            }
        }
        let runners = self.ready.iter();
        let ghost z2 = ids_of(runners@);
        let mut j: usize = 0;
        while j < runners.len()
            invariant
                k0.wf(),
                now == k0.ticks() + 1,
                k1.wf(),
                ascending_members(k1.ready_set(), z2),
                z2 == ids_of(runners@),
                forall|k: int| 0 <= k < runners@.len() ==> (#[trigger] runners@[k])@ < MAX_TASKS,
                j <= runners@.len(),
                forall|t: int| 0 <= t < MAX_TASKS ==> #[trigger] k1.tcbs()[t] == k0.woken_tcb(t, now),
                forall|t: int| 0 <= t < MAX_TASKS ==> #[trigger] k1.ready_set()[t] == k0.ready_after_wake(t, now),
                forall|t: int| 0 <= t < MAX_TASKS ==> #[trigger] k1.blocked_set()[t] == (k0.blocked_set()[t] && !k0.wakes_at(t, now)),
                k1.zombie_set() == k0.zombie_set(),
                self.wf(),
                self.ticks() == now,
                self.live() == k0.live(),
                self.current() == k0.current(),
                self.interval() == k0.interval(),
                self.idle() == k0.idle(),
                forall|t: int| 0 <= t < MAX_TASKS && in_prefix(z2, j as int, t) ==> wdt_ticked(k1.tcbs()[t], #[trigger] self.tcbs()[t]),
                forall|t: int| 0 <= t < MAX_TASKS && !in_prefix(z2, j as int, t) ==> #[trigger] self.tcbs()[t] == k1.tcbs()[t],
                forall|t: int| 0 <= t < MAX_TASKS ==> #[trigger] self.ready_set()[t] == (k1.ready_set()[t]
                    && !(in_prefix(z2, j as int, t) && wdt_fires(k1.tcbs()[t]))),
                forall|t: int| 0 <= t < MAX_TASKS ==> #[trigger] self.blocked_set()[t] == (k1.blocked_set()[t]
                    && !(in_prefix(z2, j as int, t) && wdt_fires(k1.tcbs()[t]))),
                forall|t: int| 0 <= t < MAX_TASKS ==> #[trigger] self.zombie_set()[t] == (k1.zombie_set()[t]
                    || (in_prefix(z2, j as int, t) && wdt_fires(k1.tcbs()[t]))),
            decreases runners@.len() - j,
        {
            let tid = runners[j];
            let ghost before = *self;
            proof {
                let t0 = tid@ as int;
                assert(runners@[j as int] == tid);
                assert(tid@ < MAX_TASKS);
                assert(z2[j as int] == tid@);
                assert(k1.ready_set()[t0]);
                assert(!in_prefix(z2, j as int, t0)) by {
                    if in_prefix(z2, j as int, t0) {
                        let k = choose|k: int| 0 <= k < j && #[trigger] z2[k] == t0;
                        assert(z2[k] < z2[j as int]);
                    }
                }
                assert forall|t: int| 0 <= t < MAX_TASKS implies #[trigger] in_prefix(z2, j + 1, t) == (in_prefix(z2, j as int, t) || t == t0) by {
                    if t == t0 {
                        assert(z2[j as int] == t);
                    }
                    if in_prefix(z2, j + 1, t) {
                        let k = choose|k: int| 0 <= k < j + 1 && #[trigger] z2[k] == t;
                        if k < j {
                            assert(in_prefix(z2, j as int, t));
                        }
                    }
                }
                assert(before.tcbs()[t0] == k1.tcbs()[t0]);
                assert(before.live()[t0]);
            }
            self.wdt_check(tid);
            j = j + 1;
        }
        proof {
            assert forall|t: int| 0 <= t < MAX_TASKS implies #[trigger] in_prefix(z2, j as int, t) == k1.ready_set()[t] by {
                if k1.ready_set()[t] {
                    let k = choose|k: int| 0 <= k < z2.len() && z2[k] == t as usize;
                    assert(z2[k] == t);
                }
                if in_prefix(z2, j as int, t) {
                    let k = choose|k: int| 0 <= k < j && #[trigger] z2[k] == t;
                    assert(k1.ready_set()[z2[k] as int]);
                }
            }
        }
        now
    }

    /// Number of zombies waiting to be reclaimed.
    pub fn zombie_count(&self) -> (r: usize)
        ensures
            r == count_true(self.zombie_set()),
    {
        self.zombies.ones()
    }

    /// The control block of slot `tid`, whether or not it is occupied.
    pub fn task_unchecked(&self, tid: TaskId) -> (r: &Tcb)
        requires
            self.wf(),
        ensures
            *r == self.tcbs()[tid@ as int],
            tid@ < MAX_TASKS,
    {
        self.registry.get_task_unchecked(tid)
    }
}

} // verus!
