use vstd::prelude::*;
use crate::MAX_TASKS;
use crate::bitmap::ascending_members;
use crate::error::{WhyError, WhyResult};
use crate::kernel::{Kernel, ContextSwitch, with_state, with_watchdog};
use crate::memory::{MemChunk, MemoryPool};
use crate::task::{TaskBuilder, default_stack_bytes, fits, fresh_stack_contents, spawn_outcome, spawned_slot};
use crate::stack::starts_task;
use crate::task_map::ids_of;
use crate::types::{TaskId, TaskHandle, TaskState, BlockReason};

verus! {

/// A frequency in hertz.
#[derive(Debug, Clone, Copy, PartialEq, Eq, Structural)]
pub struct Freq(u32);

impl View for Freq {
    type V = u32;

    closed spec fn view(&self) -> u32 {
        self.0
    }
}

/// Two frequencies with the same number of hertz are the same value.
pub proof fn lemma_freq_view_injective(a: Freq, b: Freq)
    ensures
        a@ == b@ ==> a == b,
{
}

impl Freq {
    /// One kilohertz.
    pub fn one_khz() -> (r: Self)
        ensures
            r@ == 1000,
    {
        Freq(1000)
    }

    /// `hz` hertz; `None` when `hz` is zero.
    pub fn from_hz(hz: u32) -> (r: Option<Self>)
        ensures
            r is None <==> hz == 0,
            r matches Some(f) ==> f@ == hz,
    {
        if hz == 0 {
            None
        } else {
            Some(Freq(hz))
        }
    }

    /// `khz` kilohertz, saturating at the largest `u32`; `None` when `khz`
    /// is zero.
    pub fn from_khz(khz: u32) -> (r: Option<Self>)
        ensures
            r is None <==> khz == 0,
            r matches Some(f) ==> f@ == if khz * 1000 > u32::MAX {
                u32::MAX
            } else {
                (khz * 1000) as u32
            },
    {
        let hz = match khz.checked_mul(1000) {
            Some(v) => v,
            None => u32::MAX,
        };
        Self::from_hz(hz)
    }

    /// The frequency in hertz.
    pub fn as_hz(self) -> (r: u32)
        ensures
            r == self@,
    {
        self.0
    }
}

/// Records `freq` as the kernel's tick frequency (the timer itself is
/// reprogrammed by the platform layer).
pub fn set_tick_freq(k: &mut Kernel, freq: Freq)
    requires
        old(k).wf(),
    ensures
        final(k).wf(),
        final(k).interval() == freq@,
        final(k).tcbs() == old(k).tcbs(),
        final(k).current() == old(k).current(),
        final(k).ticks() == old(k).ticks(),
{
    k.set_timer_interval(freq.as_hz());
}

/// The kernel's tick frequency.
pub fn tick_freq(k: &Kernel) -> (r: Freq)
    ensures
        r@ == k.interval(),
{
    Freq(k.timer_interval())
}

/// Spawns a task at `entry` with default settings.
pub fn spawn(k: &mut Kernel, pool: &mut MemoryPool, entry: usize, exit_handler: usize) -> (r: WhyResult<TaskHandle>)
    requires
        old(k).wf(),
        old(k).stacks_held_by(*old(pool)),
    ensures
        final(k).wf(),
        final(k).stacks_held_by(*final(pool)),
        r matches Ok(h) ==> final(k).state(h@.0 as int) == TaskState::Ready && final(k).priority(h@.0 as int) == 128
            && final(k).tcbs()[h@.0 as int].name is None,
        r is Err ==> r == Err::<TaskHandle, WhyError>(WhyError::OutOfMemory) || r == Err::<
            TaskHandle,
            WhyError,
        >(WhyError::MaxTasksReached),
        fits(old(pool).used(), default_stack_bytes()) && (exists|i: int|
            0 <= i < MAX_TASKS && !#[trigger] old(k).live()[i]) ==> r is Ok,
        r == Err::<TaskHandle, WhyError>(WhyError::OutOfMemory) ==> !fits(old(pool).used(), default_stack_bytes()),
        spawn_outcome(*old(k), *final(k), old(pool).used(), default_stack_bytes(), spawned_slot(r)),
        r matches Ok(h) ==> final(k).tcbs()[h@.0 as int].stack matches Some(s) && s.contents()
            == fresh_stack_contents(s.memory().chunk_size(), entry, 0, exit_handler) && starts_task(
            s.contents(),
            entry,
            0,
            exit_handler,
        ),
{
    TaskBuilder::new(entry).spawn(k, pool, exit_handler)
}

/// Spawns a task at `entry` with the given priority.
pub fn spawn_with_priority(
    k: &mut Kernel,
    pool: &mut MemoryPool,
    entry: usize,
    priority: u8,
    exit_handler: usize,
) -> (r: WhyResult<TaskHandle>)
    requires
        old(k).wf(),
        old(k).stacks_held_by(*old(pool)),
    ensures
        final(k).wf(),
        final(k).stacks_held_by(*final(pool)),
        r matches Ok(h) ==> final(k).state(h@.0 as int) == TaskState::Ready && final(k).priority(h@.0 as int)
            == priority && final(k).tcbs()[h@.0 as int].name is None,
        r is Err ==> r == Err::<TaskHandle, WhyError>(WhyError::OutOfMemory) || r == Err::<
            TaskHandle,
            WhyError,
        >(WhyError::MaxTasksReached),
        fits(old(pool).used(), default_stack_bytes()) && (exists|i: int|
            0 <= i < MAX_TASKS && !#[trigger] old(k).live()[i]) ==> r is Ok,
        r == Err::<TaskHandle, WhyError>(WhyError::OutOfMemory) ==> !fits(old(pool).used(), default_stack_bytes()),
        spawn_outcome(*old(k), *final(k), old(pool).used(), default_stack_bytes(), spawned_slot(r)),
        r matches Ok(h) ==> final(k).tcbs()[h@.0 as int].stack matches Some(s) && s.contents()
            == fresh_stack_contents(s.memory().chunk_size(), entry, 0, exit_handler) && starts_task(
            s.contents(),
            entry,
            0,
            exit_handler,
        ),
{
    TaskBuilder::new(entry).priority(priority).spawn(k, pool, exit_handler)
}

/// The running task.
pub fn current_tid(k: &Kernel) -> (r: TaskId)
    requires
        k.current() is Some,
    ensures
        k.current() == Some(r),
{
    k.current_task().unwrap()
}

/// Puts the running task to sleep for `ticks` ticks; zero ticks only
/// yields. The caller switches tasks afterwards in either case.
pub fn sleep(k: &mut Kernel, ticks: u64)
    requires
        old(k).wf(),
        ticks > 0 ==> old(k).current() is Some,
    ensures
        ticks == 0 ==> final(k).unchanged_from(&*old(k)),
        ticks > 0 ==> {
            let t = old(k).current()->0@ as int;
            &&& final(k).tcbs() == old(k).tcbs().update(
                t,
                with_state(
                    old(k).tcbs()[t],
                    TaskState::Blocked(BlockReason::Sleep(old(k).ticks().saturating_add(ticks))),
                ),
            )
            &&& final(k).ready_set() == old(k).ready_set().update(t, false)
            &&& final(k).blocked_set() == old(k).blocked_set().update(t, true)
            &&& final(k).zombie_set() == old(k).zombie_set()
            &&& final(k).same_frame(&*old(k))
            &&& old(k).live()[t] && !(old(k).state(t) is Zombie) ==> final(k).wf()
        },
{
    if ticks > 0 {
        let curr = current_tid(k);
        k.sleep_task(curr, ticks);
    }
}

/// Ends the running task; its memory is reclaimed later. The caller
/// switches tasks afterwards.
pub fn exit(k: &mut Kernel)
    requires
        old(k).wf(),
        old(k).current() is Some,
    ensures
        ({
            let t = old(k).current()->0@ as int;
            &&& final(k).tcbs() == old(k).tcbs().update(t, with_state(old(k).tcbs()[t], TaskState::Zombie))
            &&& final(k).ready_set() == old(k).ready_set().update(t, false)
            &&& final(k).blocked_set() == old(k).blocked_set().update(t, false)
            &&& final(k).zombie_set() == old(k).zombie_set().update(t, true)
            &&& final(k).same_frame(&*old(k))
            &&& old(k).live()[t] ==> final(k).wf()
        }),
{
    let curr = current_tid(k);
    k.make_zombie(curr);
}

/// A handle to the running task.
pub fn my_handle(k: &Kernel) -> (r: TaskHandle)
    requires
        k.wf(),
        k.current() matches Some(c) && k.live()[c@ as int],
    ensures
        r@ == (k.current()->0@, k.tcbs()[k.current()->0@ as int].generation),
{
    let curr = current_tid(k);
    k.handle(curr).unwrap()
}

/// Ticks since start.
pub fn uptime_ticks(k: &Kernel) -> (r: u64)
    ensures
        r == k.ticks(),
{
    k.system_ticks()
}

/// Handles to every task, in slot order.
pub fn allocated(k: &Kernel) -> (r: Vec<TaskHandle>)
    requires
        k.wf(),
    ensures
        ascending_members(k.live(), Seq::new(r@.len(), |i: int| r@[i]@.0 as usize)),
        forall|i: int| 0 <= i < r@.len() ==> (#[trigger] r@[i])@.1 == k.tcbs()[r@[i]@.0 as int].generation,
{
    let map = k.allocated();
    let tids = map.iter();
    let ghost z = ids_of(tids@);
    let mut out: Vec<TaskHandle> = Vec::new();
    let mut i: usize = 0;
    while i < tids.len()
        invariant
            k.wf(),
            z == ids_of(tids@),
            ascending_members(k.live(), z),
            forall|j: int| 0 <= j < tids@.len() ==> (#[trigger] tids@[j])@ < MAX_TASKS,
            i <= tids@.len(),
            out@.len() == i,
            forall|j: int| 0 <= j < i ==> (#[trigger] out@[j])@ == (tids@[j]@, k.tcbs()[tids@[j]@ as int].generation),
        decreases tids@.len() - i,
    {
        let tid = tids[i];
        proof {
            assert(z[i as int] == tid@ as usize);
            assert(k.live()[z[i as int] as int]);
        }
        out.push(k.handle(tid).unwrap());
        i = i + 1;
    }
    proof {
        let s = Seq::new(out@.len(), |i: int| out@[i]@.0 as usize);
        assert(s =~= z);
    }
    out
}

/// Reclaims every zombie (see [`Kernel::reap_zombies`]).
pub fn reclaim_memory(k: &mut Kernel, pool: &mut MemoryPool)
    requires
        old(k).wf(),
        old(k).stacks_held_by(*old(pool)),
    ensures
        final(k).wf(),
        final(k).stacks_held_by(*final(pool)),
        old(k).reaps_to(*final(k)),
        old(k).returns_zombie_stacks(*old(pool), *final(pool)),
{
    k.reap_zombies(pool)
}

/// Subscribes the running task to the watchdog with `interval_ticks`
/// ticks; zero is ignored.
pub fn wdt_sub(k: &mut Kernel, interval_ticks: u64)
    requires
        old(k).wf(),
        interval_ticks > 0 ==> old(k).current() is Some,
    ensures
        interval_ticks == 0 ==> final(k).unchanged_from(&*old(k)),
        interval_ticks > 0 ==> {
            let t = old(k).current()->0@ as int;
            &&& final(k).tcbs()[t].watchdog matches Some(w) && w@ == (interval_ticks, interval_ticks)
            &&& final(k).tcbs()[t] == with_watchdog(old(k).tcbs()[t], final(k).tcbs()[t].watchdog)
            &&& forall|i: int| 0 <= i < MAX_TASKS && i != t ==> #[trigger] final(k).tcbs()[i] == old(k).tcbs()[i]
            &&& final(k).ready_set() == old(k).ready_set()
            &&& final(k).blocked_set() == old(k).blocked_set()
            &&& final(k).zombie_set() == old(k).zombie_set()
            &&& final(k).same_frame(&*old(k))
            &&& old(k).live()[t] ==> final(k).wf()
        },
{
    if interval_ticks > 0 {
        let curr = current_tid(k);
        k.wdt_sub(curr, interval_ticks);
    }
}

/// Unsubscribes the running task from the watchdog.
pub fn wdt_unsub(k: &mut Kernel)
    requires
        old(k).wf(),
        old(k).current() is Some,
    ensures
        final(k).wf(),
        final(k).tcbs() == old(k).tcbs().update(
            old(k).current()->0@ as int,
            with_watchdog(old(k).tcbs()[old(k).current()->0@ as int], None),
        ),
        final(k).ready_set() == old(k).ready_set(),
        final(k).blocked_set() == old(k).blocked_set(),
        final(k).zombie_set() == old(k).zombie_set(),
        final(k).same_frame(&*old(k)),
{
    let curr = current_tid(k);
    k.wdt_unsub(curr);
}

/// Feeds the running task's watchdog.
pub fn wdt_feed(k: &mut Kernel)
    requires
        old(k).wf(),
        old(k).current() is Some,
    ensures
        final(k).wf(),
        ({
            let t = old(k).current()->0@ as int;
            &&& match old(k).tcbs()[t].watchdog {
                Some(w) => final(k).tcbs()[t].watchdog matches Some(w2) && w2@ == (w@.1, w@.1),
                None => final(k).tcbs()[t].watchdog is None,
            }
            &&& final(k).tcbs() == old(k).tcbs().update(t, with_watchdog(old(k).tcbs()[t], final(k).tcbs()[t].watchdog))
        }),
        final(k).ready_set() == old(k).ready_set(),
        final(k).blocked_set() == old(k).blocked_set(),
        final(k).zombie_set() == old(k).zombie_set(),
        final(k).same_frame(&*old(k)),
{
    let curr = current_tid(k);
    let ghost k0 = *k;
    k.wdt_feed(curr);
    assert(k.tcbs() =~= k0.tcbs().update(curr@ as int, with_watchdog(k0.tcbs()[curr@ as int], k.tcbs()[curr@ as int].watchdog)));
}

} // verus!
