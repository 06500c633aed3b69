use vstd::prelude::*;
use crate::MAX_TASKS;
use crate::bitmap::{bits32, count_true};
use crate::error::{WhyError, WhyResult, error_code};
use crate::kernel::{Kernel, ContextSwitch, with_state, with_watchdog};
use crate::memory::{MemChunk, MemoryPool};
use crate::syscall::{self, svc_of_id, SvcNumber};
use crate::task::TaskInfo;
use crate::types::{TaskId, TaskState};

verus! {

/// Status word of a successful system call; a failed one reports the
/// error's code ([`WhyError::code`]), which never equals it.
pub const SVC_SUCCESS: u32 = 0xFFFF_FFFF;

/// The two argument and result registers of the calling task.
#[derive(Debug, Clone, Copy, PartialEq, Eq, Structural)]
pub struct SvcRegs {
    pub r0: u32,
    pub r1: u32,
}

/// The arguments of a spawn request, as the calling task lays them out in
/// its memory (addresses as plain numbers).
#[derive(Debug, Clone, Copy, PartialEq, Eq, Structural)]
pub struct SpawnArgs {
    pub entry: usize,
    pub arg: usize,
    pub name_addr: usize,
    pub name_len: usize,
    pub stack_size: usize,
    pub priority: u8,
}

/// What the handler does, beyond writing the registers, once the kernel
/// has been updated.
pub enum SvcEffect {
    /// Nothing more.
    Done,
    /// Request a task switch for when the call returns.
    Yield,
    /// Store the snapshot at the given address of the caller.
    StoreTaskInfo(usize, TaskInfo),
    /// Report the running task's name: its address and length go to the
    /// two registers, or zero and zero when it has none.
    ReportName(Option<&'static str>),
    /// Read the [`SpawnArgs`] at the given address of the caller and finish
    /// the call with [`svc_spawn`].
    LoadSpawnArgs(usize),
    /// Reset the system.
    Reboot,
}

/// The registers to write back and what remains to be done.
pub struct SvcReply {
    pub regs: SvcRegs,
    pub effect: SvcEffect,
}

/// The 64-bit value spread over two registers, low half first.
pub open spec fn wide(lo: u32, hi: u32) -> u64 {
    (lo + hi * 0x1_0000_0000int) as u64
}

/// Joins the two halves of a 64-bit argument.
fn join_u64(lo: u32, hi: u32) -> (r: u64)
    ensures
        r == wide(lo, hi),
{
    let r = (lo as u64) | ((hi as u64) << 32u64);
    proof {
        assert((lo as u64) | ((hi as u64) << 32u64) == lo + hi * 0x1_0000_0000u64) by (bit_vector);
    }
    r
}

/// The status word reporting `e`.
pub open spec fn error_word(e: WhyError) -> u32 {
    error_code(e) as u32
}

/// Whether a call with number `id` and registers `regs` acts on the
/// running task, so that one must exist.
pub open spec fn needs_caller(id: u8, regs: SvcRegs) -> bool {
    ||| id == 3
    ||| id == 7
    ||| id == 8
    ||| id == 15
    ||| id == 16
    ||| (id == 2 && wide(regs.r0, regs.r1) > 0)
    ||| (id == 14 && wide(regs.r0, regs.r1) > 0)
}

/// Whether a task runs and has not ended.
pub open spec fn caller_alive(k: Kernel) -> bool {
    k.current() matches Some(c) && k.live()[c@ as int] && !(k.state(c@ as int) is Zombie)
}

/// Whether a call with number `svc_id` and registers `regs` acts on the
/// running task; see [`needs_caller`].
pub fn requires_caller(svc_id: u8, regs: SvcRegs) -> (r: bool)
    ensures
        r == needs_caller(svc_id, regs),
{
    let wide_arg = join_u64(regs.r0, regs.r1);
    svc_id == 3 || svc_id == 7 || svc_id == 8 || svc_id == 15 || svc_id == 16 || (svc_id == 2
        && wide_arg > 0) || (svc_id == 14 && wide_arg > 0)
}

/// Whether a task runs and has not ended; see [`caller_alive`].
pub fn caller_is_alive(k: &Kernel) -> (r: bool)
    requires
        k.wf(),
    ensures
        r == caller_alive(*k),
{
    match k.current_task() {
        Some(c) => k.allocated().is_set(c) && k.task_unchecked(c).state != TaskState::Zombie,
        None => false,
    }
}

/// Whether `info` is the snapshot of slot `t` of `k` that
/// [`syscall::get_task_info`] gives.
pub open spec fn info_of(info: TaskInfo, k: Kernel, t: int) -> bool {
    crate::task::describes(info, (t as nat, k.tcbs()[t].generation), k.tcbs()[t])
}

/// Whether status word `r0` and `effect` report `res`: the success word,
/// with a switch exactly when `res` asks for one, or the error's code.
pub open spec fn reports(res: WhyResult<ContextSwitch>, r0: u32, effect: SvcEffect) -> bool {
    match res {
        Ok(s) => r0 == SVC_SUCCESS && (effect is Yield <==> s is Yield) && (effect is Yield || effect is Done),
        Err(e) => r0 == error_word(e) && effect is Done,
    }
}

/// The status word of a suspend or resume of slot `tid`, and the effect that
/// goes with it.
fn task_status(r: Result<ContextSwitch, WhyError>) -> (out: (u32, SvcEffect))
    ensures
        r matches Ok(s) ==> out.0 == SVC_SUCCESS && (out.1 is Yield <==> s is Yield) && (out.1 is Yield
            || out.1 is Done),
        r matches Err(e) ==> out.0 == error_word(e) && out.1 is Done,
{
    match r {
        Ok(ContextSwitch::Yield) => (SVC_SUCCESS, SvcEffect::Yield),
        Ok(ContextSwitch::Continue) => (SVC_SUCCESS, SvcEffect::Done),
        Err(e) => (e.code() as u32, SvcEffect::Done),
    }
}

/// Handles system call `svc_id` made with registers `regs`: decodes the
/// number and the arguments, performs the call on the kernel and answers
/// the registers to write back and what is left to do (a task switch, a
/// store into the caller's memory, a reboot). Numbers that name no call,
/// and the kill call, answer the `InvalidOperation` code. The start call
/// (number zero) never reaches the handler.
pub fn svc_dispatch(k: &mut Kernel, pool: &mut MemoryPool, regs: SvcRegs, svc_id: u8) -> (r: SvcReply)
    requires
        old(k).wf(),
        old(k).stacks_held_by(*old(pool)),
        svc_id != 0,
        needs_caller(svc_id, regs) ==> caller_alive(*old(k)),
    ensures
        final(k).wf(),
        final(k).stacks_held_by(*final(pool)),
        svc_of_id(svc_id) is Err || svc_id == 18 ==> r.regs.r0 == error_word(WhyError::InvalidOperation)
            && r.regs.r1 == regs.r1 && r.effect is Done && *final(k) == *old(k),
        svc_id == 1 ==> r.regs == regs && r.effect is Yield && *final(k) == *old(k),
        svc_id == 2 ==> r.regs == regs && r.effect is Yield && (wide(regs.r0, regs.r1) == 0
            ==> final(k).unchanged_from(&*old(k))),
        svc_id == 2 && wide(regs.r0, regs.r1) > 0 ==> {
            let t = old(k).current()->0@ as int;
            &&& final(k).tcbs() == old(k).tcbs().update(
                t,
                with_state(
                    old(k).tcbs()[t],
                    TaskState::Blocked(
                        crate::types::BlockReason::Sleep(old(k).ticks().saturating_add(wide(regs.r0, regs.r1))),
                    ),
                ),
            )
            &&& final(k).ready_set() == old(k).ready_set().update(t, false)
            &&& final(k).blocked_set() == old(k).blocked_set().update(t, true)
            &&& final(k).zombie_set() == old(k).zombie_set()
            &&& final(k).same_frame(&*old(k))
        },
        svc_id == 3 ==> r.regs == regs && r.effect is Yield && {
            let t = old(k).current()->0@ as int;
            &&& final(k).tcbs() == old(k).tcbs().update(t, with_state(old(k).tcbs()[t], TaskState::Zombie))
            &&& final(k).ready_set() == old(k).ready_set().update(t, false)
            &&& final(k).blocked_set() == old(k).blocked_set().update(t, false)
            &&& final(k).zombie_set() == old(k).zombie_set().update(t, true)
            &&& final(k).same_frame(&*old(k))
        },
        svc_id == 4 || svc_id == 5 ==> r.regs.r1 == regs.r1 && (r.effect is Yield || r.effect is Done) && (
        regs.r0 >= MAX_TASKS || !old(k).live()[regs.r0 as int] ==> r.regs.r0 == error_word(
            WhyError::InvalidTaskId,
        ) && r.effect is Done && final(k).unchanged_from(&*old(k))),
        svc_id == 4 && regs.r0 < MAX_TASKS && old(k).live()[regs.r0 as int] ==> exists|res: WhyResult<ContextSwitch>|
            #[trigger] old(k).suspends_to(*final(k), regs.r0 as int, res) && reports(res, r.regs.r0, r.effect),
        svc_id == 5 && regs.r0 < MAX_TASKS && old(k).live()[regs.r0 as int] ==> exists|res: WhyResult<ContextSwitch>|
            #[trigger] old(k).resumes_to(*final(k), regs.r0 as int, res) && reports(res, r.regs.r0, r.effect),
        svc_id == 6 ==> r.regs.r1 == regs.r1 && *final(k) == *old(k) && (regs.r0 >= MAX_TASKS
            || !old(k).live()[regs.r0 as int] ==> r.regs.r0 == error_word(WhyError::InvalidTaskId)
            && r.effect is Done) && (regs.r0 < MAX_TASKS && old(k).live()[regs.r0 as int] ==> r.regs.r0
            == SVC_SUCCESS && (r.effect matches SvcEffect::StoreTaskInfo(addr, info) && addr == regs.r1
            && info_of(info, *old(k), regs.r0 as int))),
        svc_id == 7 ==> r.regs.r0 == old(k).current()->0@ && r.regs.r1 == regs.r1 && r.effect is Done
            && *final(k) == *old(k),
        svc_id == 8 ==> r.regs == regs && *final(k) == *old(k) && (r.effect matches SvcEffect::ReportName(
            name,
        ) && name == old(k).tcbs()[old(k).current()->0@ as int].name),
        svc_id == 9 ==> wide(r.regs.r0, r.regs.r1) == old(k).ticks() && r.effect is Done && *final(k)
            == *old(k),
        svc_id == 10 ==> r.regs.r0 == count_true(old(k).live()) && r.regs.r1 == regs.r1 && r.effect is Done
            && *final(k) == *old(k),
        svc_id == 11 ==> bits32(r.regs.r0) == old(k).live() && r.regs.r1 == regs.r1 && r.effect is Done
            && *final(k) == *old(k),
        svc_id == 13 ==> r.regs.r0 == count_true(old(k).zombie_set()) && r.regs.r1 == regs.r1 && r.effect is Done,
        svc_id == 13 ==> old(k).reaps_to(*final(k)) && old(k).returns_zombie_stacks(*old(pool), *final(pool)),
        svc_id != 13 && svc_id != 17 ==> final(pool).used() == old(pool).used(),
        svc_id == 14 ==> r.regs == regs && r.effect is Done && (wide(regs.r0, regs.r1) == 0
            ==> final(k).unchanged_from(&*old(k))) && (wide(regs.r0, regs.r1) > 0 ==> (final(k).tcbs()[old(
            k,
        ).current()->0@ as int].watchdog matches Some(w) && w@ == (
            wide(regs.r0, regs.r1),
            wide(regs.r0, regs.r1),
        ))),
        svc_id == 15 ==> r.regs == regs && r.effect is Done && final(k).tcbs()[old(k).current()->0@ as int].watchdog is None,
        svc_id == 16 ==> r.regs == regs && r.effect is Done && match old(k).tcbs()[old(k).current()->0@ as int].watchdog {
            Some(w) => final(k).tcbs()[old(k).current()->0@ as int].watchdog matches Some(w2) && w2@ == (w@.1, w@.1),
            None => final(k).tcbs()[old(k).current()->0@ as int].watchdog is None,
        },
        (svc_id == 14 && wide(regs.r0, regs.r1) > 0) || svc_id == 15 || svc_id == 16 ==> {
            let t = old(k).current()->0@ as int;
            &&& final(k).tcbs() == old(k).tcbs().update(t, with_watchdog(old(k).tcbs()[t], final(k).tcbs()[t].watchdog))
            &&& final(k).ready_set() == old(k).ready_set()
            &&& final(k).blocked_set() == old(k).blocked_set()
            &&& final(k).zombie_set() == old(k).zombie_set()
            &&& final(k).same_frame(&*old(k))
        },
        svc_id == 17 ==> r.regs == regs && (r.effect matches SvcEffect::LoadSpawnArgs(addr) && addr
            == regs.r0) && *final(k) == *old(k),
        svc_id == 19 ==> r.regs == regs && r.effect is Reboot && *final(k) == *old(k),
{
    let svc = match SvcNumber::try_from(svc_id) {
        Ok(svc) => svc,
        Err(_) => {
            return SvcReply {
                regs: SvcRegs { r0: WhyError::InvalidOperation.code() as u32, r1: regs.r1 },
                effect: SvcEffect::Done,
            };
        },
    };
    proof {
        crate::syscall::lemma_svc_id_roundtrip(svc_id);
    }
    match svc {
        SvcNumber::Start => {
            SvcReply { regs, effect: SvcEffect::Done }
        },
        SvcNumber::Yield => SvcReply { regs, effect: SvcEffect::Yield },
        SvcNumber::Sleep => {
            let ticks = join_u64(regs.r0, regs.r1);
            syscall::sleep(k, ticks);
            SvcReply { regs, effect: SvcEffect::Yield }
        },
        SvcNumber::Exit => {
            syscall::exit(k);
            SvcReply { regs, effect: SvcEffect::Yield }
        },
        SvcNumber::Suspend | SvcNumber::Resume => {
            let res = match TaskId::new(regs.r0 as usize) {
                Some(tid) => if svc_id == 4 {
                    syscall::suspend(k, tid)
                } else {
                    syscall::resume(k, tid)
                },
                None => Err(WhyError::InvalidTaskId),
            };
            let (status, effect) = task_status(res);
            proof {
                if regs.r0 < MAX_TASKS && old(k).live()[regs.r0 as int] {
                    if svc_id == 4 {
                        assert(old(k).suspends_to(*k, regs.r0 as int, res));
                    } else {
                        assert(old(k).resumes_to(*k, regs.r0 as int, res));
                    }
                }
            }
            SvcReply { regs: SvcRegs { r0: status, r1: regs.r1 }, effect }
        },
        SvcNumber::GetTaskInfo => {
            let res = match TaskId::new(regs.r0 as usize) {
                Some(tid) => syscall::get_task_info(k, tid),
                None => Err(WhyError::InvalidTaskId),
            };
            match res {
                Ok(info) => SvcReply {
                    regs: SvcRegs { r0: SVC_SUCCESS, r1: regs.r1 },
                    effect: SvcEffect::StoreTaskInfo(regs.r1 as usize, info),
                },
                Err(e) => SvcReply {
                    regs: SvcRegs { r0: e.code() as u32, r1: regs.r1 },
                    effect: SvcEffect::Done,
                },
            }
        },
        SvcNumber::GetCurrentTid => {
            let tid = syscall::get_current_tid(k).id();
            SvcReply { regs: SvcRegs { r0: tid as u32, r1: regs.r1 }, effect: SvcEffect::Done }
        },
        SvcNumber::GetCurrentName => {
            let name = syscall::get_current_name(k);
            SvcReply { regs, effect: SvcEffect::ReportName(name) }
        },
        SvcNumber::GetUptimeTicks => {
            let ticks = syscall::get_uptime_ticks(k);
            proof {
                assert((ticks & 0xFFFF_FFFFu64) + (ticks >> 32u64) * 0x1_0000_0000u64 == ticks) by (bit_vector);
                assert((ticks >> 32u64) < 0x1_0000_0000u64) by (bit_vector);
                assert((ticks & 0xFFFF_FFFFu64) < 0x1_0000_0000u64) by (bit_vector);
            }
            let lo = (ticks & 0xFFFF_FFFF) as u32;
            let hi = (ticks >> 32u64) as u32;
            SvcReply { regs: SvcRegs { r0: lo, r1: hi }, effect: SvcEffect::Done }
        },
        SvcNumber::GetTaskCount => {
            let n = syscall::get_task_count(k);
            proof {
                crate::bitmap::lemma_count_true_bound(k.live());
            }
            SvcReply { regs: SvcRegs { r0: n as u32, r1: regs.r1 }, effect: SvcEffect::Done }
        },
        SvcNumber::GetActiveTasks => {
            let map = syscall::get_allocated_tasks(k);
            proof {
                map.lemma_view();
            }
            SvcReply { regs: SvcRegs { r0: map.raw(), r1: regs.r1 }, effect: SvcEffect::Done }
        },
        SvcNumber::ReclaimMemory => {
            let n = syscall::reclaim_memory(k, pool);
            proof {
                crate::bitmap::lemma_count_true_bound(old(k).zombie_set());
            }
            SvcReply { regs: SvcRegs { r0: n as u32, r1: regs.r1 }, effect: SvcEffect::Done }
        },
        SvcNumber::WatchdogSubscribe => {
            let interval = join_u64(regs.r0, regs.r1);
            syscall::watchdog_subscribe(k, interval);
            proof {
                let t = old(k).current()->0@ as int;
                assert(interval > 0 ==> k.tcbs() =~= old(k).tcbs().update(t, with_watchdog(old(k).tcbs()[t], k.tcbs()[t].watchdog)));
            }
            SvcReply { regs, effect: SvcEffect::Done }
        },
        SvcNumber::WatchdogUnsubscribe => {
            syscall::watchdog_unsubscribe(k);
            SvcReply { regs, effect: SvcEffect::Done }
        },
        SvcNumber::WatchdogFeed => {
            syscall::watchdog_feed(k);
            SvcReply { regs, effect: SvcEffect::Done }
        },
        SvcNumber::Spawn => SvcReply { regs, effect: SvcEffect::LoadSpawnArgs(regs.r0 as usize) },
        SvcNumber::Kill => SvcReply {
            regs: SvcRegs { r0: WhyError::InvalidOperation.code() as u32, r1: regs.r1 },
            effect: SvcEffect::Done,
        },
        SvcNumber::Reboot => SvcReply { regs, effect: SvcEffect::Reboot },
    }
}

/// Finishes a spawn request once its arguments have been read from the
/// caller's memory, with `name` the string they point to (`None` for a
/// null name): spawns the task ([`crate::task::spawn`]) and answers the
/// registers: the success word and the new task's slot, or the error's
/// code with the second register left as it was.
pub fn svc_spawn(
    k: &mut Kernel,
    pool: &mut MemoryPool,
    regs: SvcRegs,
    args: SpawnArgs,
    name: Option<&'static str>,
    exit_handler: usize,
) -> (r: SvcRegs)
    requires
        old(k).wf(),
        old(k).stacks_held_by(*old(pool)),
    ensures
        final(k).wf(),
        final(k).stacks_held_by(*final(pool)),
        r.r0 == SVC_SUCCESS ==> r.r1 < MAX_TASKS && final(k).live()[r.r1 as int] && final(k).state(r.r1 as int)
            == TaskState::Ready && final(k).priority(r.r1 as int) == args.priority && final(k).tcbs()[r.r1 as int].name
            == name,
        r.r0 != SVC_SUCCESS ==> r.r1 == regs.r1 && (r.r0 == error_word(WhyError::OutOfMemory) || r.r0
            == error_word(WhyError::MaxTasksReached)),
        crate::task::fits(old(pool).used(), args.stack_size) && (exists|i: int|
            0 <= i < MAX_TASKS && !#[trigger] old(k).live()[i]) ==> r.r0 == SVC_SUCCESS,
        r.r0 == error_word(WhyError::OutOfMemory) ==> !crate::task::fits(old(pool).used(), args.stack_size),
        r.r0 == SVC_SUCCESS ==> (final(k).tcbs()[r.r1 as int].stack matches Some(s) && s.contents()
            == crate::task::fresh_stack_contents(s.memory().chunk_size(), args.entry, args.arg, exit_handler)
            && crate::stack::starts_task(s.contents(), args.entry, args.arg, exit_handler)),
        crate::task::spawn_outcome(
            *old(k),
            *final(k),
            old(pool).used(),
            args.stack_size,
            if r.r0 == SVC_SUCCESS {
                Some(r.r1 as int)
            } else {
                None
            },
        ),
{
    match crate::task::spawn(
        k,
        pool,
        args.entry,
        args.arg,
        name,
        args.priority,
        args.stack_size,
        exit_handler,
    ) {
        Ok(h) => {
            let tid = h.tid().id();
            SvcRegs { r0: SVC_SUCCESS, r1: tid as u32 }
        },
        Err(e) => SvcRegs { r0: e.code() as u32, r1: regs.r1 },
    }
}

} // verus!
