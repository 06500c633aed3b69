use vstd::prelude::*;
use crate::MAX_TASKS;
use crate::bitmap::count_true;
use crate::error::{WhyError, WhyResult};
use crate::kernel::{Kernel, ContextSwitch, with_state, with_watchdog};
use crate::memory::MemoryPool;
use crate::task::TaskInfo;
use crate::task_map::TaskMap;
use crate::types::{TaskId, TaskState};

verus! {

/// System call numbers.
#[derive(Debug, Clone, Copy, PartialEq, Eq, Structural)]
pub enum SvcNumber {
    Start,
    Yield,
    Sleep,
    Exit,
    Suspend,
    Resume,
    GetTaskInfo,
    GetCurrentTid,
    GetCurrentName,
    GetUptimeTicks,
    GetTaskCount,
    GetActiveTasks,
    ReclaimMemory,
    WatchdogSubscribe,
    WatchdogUnsubscribe,
    WatchdogFeed,
    Spawn,
    Kill,
    Reboot,
}

/// The number of each system call.
pub open spec fn svc_id(n: SvcNumber) -> u8 {
    match n {
        SvcNumber::Start => 0,
        SvcNumber::Yield => 1,
        SvcNumber::Sleep => 2,
        SvcNumber::Exit => 3,
        SvcNumber::Suspend => 4,
        SvcNumber::Resume => 5,
        SvcNumber::GetTaskInfo => 6,
        SvcNumber::GetCurrentTid => 7,
        SvcNumber::GetCurrentName => 8,
        SvcNumber::GetUptimeTicks => 9,
        SvcNumber::GetTaskCount => 10,
        SvcNumber::GetActiveTasks => 11,
        SvcNumber::ReclaimMemory => 13,
        SvcNumber::WatchdogSubscribe => 14,
        SvcNumber::WatchdogUnsubscribe => 15,
        SvcNumber::WatchdogFeed => 16,
        SvcNumber::Spawn => 17,
        SvcNumber::Kill => 18,
        SvcNumber::Reboot => 19,
    }
}

/// The system call with number `id`, if any.
pub open spec fn svc_of_id(id: u8) -> Result<SvcNumber, WhyError> {
    if id == 0 {
        Ok(SvcNumber::Start)
    } else if id == 1 {
        Ok(SvcNumber::Yield)
    } else if id == 2 {
        Ok(SvcNumber::Sleep)
    } else if id == 3 {
        Ok(SvcNumber::Exit)
    } else if id == 4 {
        Ok(SvcNumber::Suspend)
    } else if id == 5 {
        Ok(SvcNumber::Resume)
    } else if id == 6 {
        Ok(SvcNumber::GetTaskInfo)
    } else if id == 7 {
        Ok(SvcNumber::GetCurrentTid)
    } else if id == 8 {
        Ok(SvcNumber::GetCurrentName)
    } else if id == 9 {
        Ok(SvcNumber::GetUptimeTicks)
    } else if id == 10 {
        Ok(SvcNumber::GetTaskCount)
    } else if id == 11 {
        Ok(SvcNumber::GetActiveTasks)
    } else if id == 13 {
        Ok(SvcNumber::ReclaimMemory)
    } else if id == 14 {
        Ok(SvcNumber::WatchdogSubscribe)
    } else if id == 15 {
        Ok(SvcNumber::WatchdogUnsubscribe)
    } else if id == 16 {
        Ok(SvcNumber::WatchdogFeed)
    } else if id == 17 {
        Ok(SvcNumber::Spawn)
    } else if id == 18 {
        Ok(SvcNumber::Kill)
    } else if id == 19 {
        Ok(SvcNumber::Reboot)
    } else {
        Err(WhyError::InvalidOperation)
    }
}

impl SvcNumber {
    /// The call's number.
    pub fn id(self) -> (r: u8)
        ensures
            r == svc_id(self),
    {
        match self {
            SvcNumber::Start => 0,
            SvcNumber::Yield => 1,
            SvcNumber::Sleep => 2,
            SvcNumber::Exit => 3,
            SvcNumber::Suspend => 4,
            SvcNumber::Resume => 5,
            SvcNumber::GetTaskInfo => 6,
            SvcNumber::GetCurrentTid => 7,
            SvcNumber::GetCurrentName => 8,
            SvcNumber::GetUptimeTicks => 9,
            SvcNumber::GetTaskCount => 10,
            SvcNumber::GetActiveTasks => 11,
            SvcNumber::ReclaimMemory => 13,
            SvcNumber::WatchdogSubscribe => 14,
            SvcNumber::WatchdogUnsubscribe => 15,
            SvcNumber::WatchdogFeed => 16,
            SvcNumber::Spawn => 17,
            SvcNumber::Kill => 18,
            SvcNumber::Reboot => 19,
        }
    }
}

impl TryFrom<u8> for SvcNumber {
    type Error = WhyError;

    fn try_from(id: u8) -> (r: Result<Self, Self::Error>) {
        match id {
            0 => Ok(SvcNumber::Start),
            1 => Ok(SvcNumber::Yield),
            2 => Ok(SvcNumber::Sleep),
            3 => Ok(SvcNumber::Exit),
            4 => Ok(SvcNumber::Suspend),
            5 => Ok(SvcNumber::Resume),
            6 => Ok(SvcNumber::GetTaskInfo),
            7 => Ok(SvcNumber::GetCurrentTid),
            8 => Ok(SvcNumber::GetCurrentName),
            9 => Ok(SvcNumber::GetUptimeTicks),
            10 => Ok(SvcNumber::GetTaskCount),
            11 => Ok(SvcNumber::GetActiveTasks),
            13 => Ok(SvcNumber::ReclaimMemory),
            14 => Ok(SvcNumber::WatchdogSubscribe),
            15 => Ok(SvcNumber::WatchdogUnsubscribe),
            16 => Ok(SvcNumber::WatchdogFeed),
            17 => Ok(SvcNumber::Spawn),
            18 => Ok(SvcNumber::Kill),
            19 => Ok(SvcNumber::Reboot),
            _ => Err(WhyError::InvalidOperation),
        }
    }
}

impl vstd::std_specs::convert::TryFromSpecImpl<u8> for SvcNumber {
    open spec fn obeys_try_from_spec() -> bool {
        true
    }

    open spec fn try_from_spec(v: u8) -> Result<SvcNumber, WhyError> {
        svc_of_id(v)
    }
}

/// Decoding the number of a call gives the call back.
pub proof fn lemma_svc_roundtrip(n: SvcNumber)
    ensures
        svc_of_id(svc_id(n)) == Ok::<SvcNumber, WhyError>(n),
{
}

/// Every number that decodes names the call it decodes to.
pub proof fn lemma_svc_id_roundtrip(id: u8)
    ensures
        svc_of_id(id) matches Ok(n) ==> svc_id(n) == id,
        svc_of_id(id) is Err <==> (id == 12 || id > 19),
{
}

/// Ends the running task; the caller switches tasks afterwards.
pub fn exit(k: &mut Kernel)
    requires
        old(k).wf(),
        old(k).current() is Some,
    ensures
        ({
            let t = old(k).current()->0@ as int;
            &&& final(k).tcbs() == old(k).tcbs().update(t, with_state(old(k).tcbs()[t], TaskState::Zombie))
            &&& final(k).ready_set() == old(k).ready_set().update(t, false)
            &&& final(k).blocked_set() == old(k).blocked_set().update(t, false)
            &&& final(k).zombie_set() == old(k).zombie_set().update(t, true)
            &&& final(k).same_frame(&*old(k))
            &&& old(k).live()[t] ==> final(k).wf()
        }),
        final(k).same_stacks(&*old(k)),
{
    crate::api::exit(k)
}

/// Reclaims every zombie and returns how many there were.
pub fn reclaim_memory(k: &mut Kernel, pool: &mut MemoryPool) -> (r: usize)
    requires
        old(k).wf(),
        old(k).stacks_held_by(*old(pool)),
    ensures
        r == count_true(old(k).zombie_set()),
        final(k).wf(),
        final(k).stacks_held_by(*final(pool)),
        old(k).reaps_to(*final(k)),
        old(k).returns_zombie_stacks(*old(pool), *final(pool)),
{
    let n = k.zombie_count();
    k.reap_zombies(pool);
    n
}

/// Puts the running task to sleep for `ticks` ticks (see [`crate::api::sleep`]).
pub fn sleep(k: &mut Kernel, ticks: u64)
    requires
        old(k).wf(),
        ticks > 0 ==> old(k).current() is Some,
    ensures
        ticks == 0 ==> final(k).unchanged_from(&*old(k)),
        ticks > 0 ==> {
            let t = old(k).current()->0@ as int;
            &&& final(k).tcbs() == old(k).tcbs().update(
                t,
                with_state(
                    old(k).tcbs()[t],
                    TaskState::Blocked(crate::types::BlockReason::Sleep(old(k).ticks().saturating_add(ticks))),
                ),
            )
            &&& final(k).ready_set() == old(k).ready_set().update(t, false)
            &&& final(k).blocked_set() == old(k).blocked_set().update(t, true)
            &&& final(k).zombie_set() == old(k).zombie_set()
            &&& final(k).same_frame(&*old(k))
        },
        ticks > 0 && old(k).live()[old(k).current()->0@ as int] && !(old(k).state(old(k).current()->0@ as int) is Zombie)
            ==> final(k).wf(),
        final(k).same_stacks(&*old(k)),
{
    crate::api::sleep(k, ticks)
}

/// Suspends the task in slot `tid`; `InvalidTaskId` when the slot is free,
/// otherwise as [`Kernel::suspend_task`].
pub fn suspend(k: &mut Kernel, tid: TaskId) -> (r: WhyResult<ContextSwitch>)
    requires
        old(k).wf(),
    ensures
        final(k).wf(),
        !old(k).live()[tid@ as int] ==> r == Err::<ContextSwitch, WhyError>(WhyError::InvalidTaskId)
            && final(k).unchanged_from(&*old(k)),
        old(k).live()[tid@ as int] ==> old(k).suspends_to(*final(k), tid@ as int, r),
        final(k).same_stacks(&*old(k)),
{
    let h = k.handle(tid)?;
    let ghost k0 = *k;
    let r = k.suspend_task(&h);
    assert forall|i: int| 0 <= i < MAX_TASKS implies (#[trigger] k.tcbs()[i]).stack == k0.tcbs()[i].stack by {
        if i == h@.0 as int {
        }
    }
    r
}

/// Resumes the task in slot `tid`; `InvalidTaskId` when the slot is free,
/// otherwise as [`Kernel::resume_task`].
pub fn resume(k: &mut Kernel, tid: TaskId) -> (r: WhyResult<ContextSwitch>)
    requires
        old(k).wf(),
    ensures
        final(k).wf(),
        !old(k).live()[tid@ as int] ==> r == Err::<ContextSwitch, WhyError>(WhyError::InvalidTaskId)
            && final(k).unchanged_from(&*old(k)),
        old(k).live()[tid@ as int] ==> old(k).resumes_to(*final(k), tid@ as int, r),
        final(k).same_stacks(&*old(k)),
{
    let h = k.handle(tid)?;
    let ghost k0 = *k;
    let r = k.resume_task(&h);
    assert forall|i: int| 0 <= i < MAX_TASKS implies (#[trigger] k.tcbs()[i]).stack == k0.tcbs()[i].stack by {
        if i == h@.0 as int {
        }
    }
    r
}

/// A snapshot of the task in slot `tid`; `InvalidTaskId` when the slot is
/// free.
pub fn get_task_info(k: &Kernel, tid: TaskId) -> (r: WhyResult<TaskInfo>)
    requires
        k.wf(),
    ensures
        r is Err <==> !k.live()[tid@ as int],
        r is Err ==> r == Err::<TaskInfo, WhyError>(WhyError::InvalidTaskId),
        r matches Ok(info) ==> crate::task::describes(info, (tid@, k.tcbs()[tid@ as int].generation), k.tcbs()[tid@ as int]),
{
    if !k.allocated().is_set(tid) {
        return Err(WhyError::InvalidTaskId);
    }
    let h = k.handle(tid)?;
    h.info(k)
}

/// The running task.
pub fn get_current_tid(k: &Kernel) -> (r: TaskId)
    requires
        k.current() is Some,
    ensures
        k.current() == Some(r),
{
    crate::api::current_tid(k)
}

/// The running task's name.
pub fn get_current_name(k: &Kernel) -> (r: Option<&'static str>)
    requires
        k.wf(),
        k.current() is Some,
    ensures
        r == k.tcbs()[k.current()->0@ as int].name,
{
    let curr = crate::api::current_tid(k);
    k.task_unchecked(curr).name
}

/// Ticks since start.
pub fn get_uptime_ticks(k: &Kernel) -> (r: u64)
    ensures
        r == k.ticks(),
{
    k.system_ticks()
}

/// Number of tasks.
pub fn get_task_count(k: &Kernel) -> (r: usize)
    ensures
        r == count_true(k.live()),
{
    k.allocated().ones()
}

/// The set of occupied slots.
pub fn get_allocated_tasks(k: &Kernel) -> (r: TaskMap)
    ensures
        r@ == k.live(),
{
    k.allocated()
}

/// Subscribes the running task to the watchdog; zero is ignored.
pub fn watchdog_subscribe(k: &mut Kernel, interval_ticks: u64)
    requires
        old(k).wf(),
        interval_ticks > 0 ==> old(k).current() is Some,
    ensures
        interval_ticks == 0 ==> final(k).unchanged_from(&*old(k)),
        interval_ticks > 0 ==> {
            let t = old(k).current()->0@ as int;
            &&& final(k).tcbs()[t].watchdog matches Some(w) && w@ == (interval_ticks, interval_ticks)
            &&& final(k).tcbs()[t] == with_watchdog(old(k).tcbs()[t], final(k).tcbs()[t].watchdog)
            &&& forall|i: int| 0 <= i < MAX_TASKS && i != t ==> #[trigger] final(k).tcbs()[i] == old(k).tcbs()[i]
            &&& final(k).ready_set() == old(k).ready_set()
            &&& final(k).blocked_set() == old(k).blocked_set()
            &&& final(k).zombie_set() == old(k).zombie_set()
            &&& final(k).same_frame(&*old(k))
            &&& old(k).live()[t] ==> final(k).wf()
        },
        final(k).same_stacks(&*old(k)),
{
    if interval_ticks == 0 {
        return;
    }
    crate::api::wdt_sub(k, interval_ticks)
}

/// Unsubscribes the running task from the watchdog.
pub fn watchdog_unsubscribe(k: &mut Kernel)
    requires
        old(k).wf(),
        old(k).current() is Some,
    ensures
        final(k).wf(),
        final(k).tcbs() == old(k).tcbs().update(
            old(k).current()->0@ as int,
            with_watchdog(old(k).tcbs()[old(k).current()->0@ as int], None),
        ),
        final(k).ready_set() == old(k).ready_set(),
        final(k).blocked_set() == old(k).blocked_set(),
        final(k).zombie_set() == old(k).zombie_set(),
        final(k).same_frame(&*old(k)),
        final(k).same_stacks(&*old(k)),
{
    crate::api::wdt_unsub(k)
}

/// Feeds the running task's watchdog.
pub fn watchdog_feed(k: &mut Kernel)
    requires
        old(k).wf(),
        old(k).current() is Some,
    ensures
        final(k).wf(),
        ({
            let t = old(k).current()->0@ as int;
            &&& match old(k).tcbs()[t].watchdog {
                Some(w) => final(k).tcbs()[t].watchdog matches Some(w2) && w2@ == (w@.1, w@.1),
                None => final(k).tcbs()[t].watchdog is None,
            }
            &&& final(k).tcbs() == old(k).tcbs().update(t, with_watchdog(old(k).tcbs()[t], final(k).tcbs()[t].watchdog))
        }),
        final(k).ready_set() == old(k).ready_set(),
        final(k).blocked_set() == old(k).blocked_set(),
        final(k).zombie_set() == old(k).zombie_set(),
        final(k).same_frame(&*old(k)),
        final(k).same_stacks(&*old(k)),
{
    crate::api::wdt_feed(k)
}

} // verus!
