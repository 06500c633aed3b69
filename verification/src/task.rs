use vstd::prelude::*;
use crate::MAX_TASKS;
use crate::bitmap::free_run;
use crate::error::{WhyError, WhyResult};
use crate::frame::{InitStackFrame, frame_words, initial_sw_frame, hw_frame_for};
use crate::kernel::{Kernel, ContextSwitch, stack_covers};
use crate::memory::{MemChunk, MemoryPool, BLOCK_SIZE, MAX_BLOCKS, blocks_for, first_block};
use crate::registry::revived_tcb;
use crate::stack::{Stack, TaskStack, initial_contents, used_words, starts_task};
use crate::tcb::{Tcb, used_after_release};
use crate::types::{TaskHandle, TaskState, Gen};

verus! {

/// A snapshot of a task for inspection.
pub struct TaskInfo {
    pub handle: TaskHandle,
    pub name: Option<&'static str>,
    pub state: TaskState,
    pub priority: u8,
    pub current_sp: usize,
    pub stack_base: usize,
    pub stack_size: usize,
    /// Words of the stack written so far (its high-water mark).
    pub max_stack_usage: usize,
}

/// Whether `info` is the snapshot of control block `task` reported under
/// a handle with view `handle`: every field copied, the stack's saved
/// pointer, base, size and high-water mark in words.
pub open spec fn describes(info: TaskInfo, handle: (nat, Gen), task: Tcb) -> bool {
    &&& task.stack is Some
    &&& info.handle@ == handle
    &&& info.name == task.name
    &&& info.state == task.state
    &&& info.priority == task.priority
    &&& info.current_sp == task.stack->0.stack_pointer()
    &&& info.stack_base == task.stack->0.memory().chunk_ptr()
    &&& info.stack_size == task.stack->0.memory().chunk_size()
    &&& used_words(task.stack->0.contents(), info.max_stack_usage as int)
}

impl TaskInfo {
    /// The snapshot of `task`, reported under `handle`; `InvalidTaskId`
    /// when the task has no stack (its slot is empty).
    pub fn new(handle: TaskHandle, task: &Tcb) -> (r: WhyResult<Self>)
        ensures
            r is Err <==> task.stack is None,
            r is Err ==> r == Err::<TaskInfo, WhyError>(WhyError::InvalidTaskId),
            r matches Ok(info) ==> describes(info, handle@, *task),
    {
        match &task.stack {
            Some(stack) => Ok(
                TaskInfo {
                    handle,
                    name: task.name,
                    state: task.state,
                    priority: task.priority,
                    current_sp: stack.sp(),
                    stack_base: stack.base(),
                    stack_size: stack.size(),
                    max_stack_usage: stack.usage(),
                },
            ),
            None => Err(WhyError::InvalidTaskId),
        }
    }
}

impl TaskHandle {
    /// Suspends the task (see [`Kernel::suspend_task`]); the result says
    /// whether to switch tasks.
    pub fn suspend(&self, k: &mut Kernel) -> (r: WhyResult<ContextSwitch>)
        requires
            old(k).wf(),
        ensures
            final(k).wf(),
            r is Err <==> (!old(k).handle_valid(self) || old(k).state(self@.0 as int) is Zombie),
            !old(k).handle_valid(self) ==> r == Err::<ContextSwitch, WhyError>(WhyError::InvalidHandle)
                && final(k).unchanged_from(&*old(k)),
            old(k).handle_valid(self) ==> old(k).suspends_to(*final(k), self@.0 as int, r),
    {
        k.suspend_task(self)
    }

    /// Resumes the task (see [`Kernel::resume_task`]); the result says
    /// whether to switch tasks.
    pub fn resume(&self, k: &mut Kernel) -> (r: WhyResult<ContextSwitch>)
        requires
            old(k).wf(),
        ensures
            final(k).wf(),
            r is Err <==> (!old(k).handle_valid(self) || old(k).state(self@.0 as int) is Zombie),
            !old(k).handle_valid(self) ==> r == Err::<ContextSwitch, WhyError>(WhyError::InvalidHandle)
                && final(k).unchanged_from(&*old(k)),
            old(k).handle_valid(self) ==> old(k).resumes_to(*final(k), self@.0 as int, r),
    {
        k.resume_task(self)
    }

    /// Kills the task at once and reclaims its memory (see
    /// [`Kernel::reclaim_task`]): its slot is freed and its stack goes back
    /// to `pool`. The result says whether to switch tasks.
    pub fn kill(&self, k: &mut Kernel, pool: &mut MemoryPool) -> (r: WhyResult<ContextSwitch>)
        requires
            old(k).wf(),
            old(k).stacks_held_by(*old(pool)),
        ensures
            final(k).wf(),
            final(k).stacks_held_by(*final(pool)),
            final(pool).base() == old(pool).base(),
            r is Err <==> !old(k).handle_valid(self),
            r is Err ==> r == Err::<ContextSwitch, WhyError>(WhyError::InvalidHandle) && final(k).unchanged_from(
                &*old(k),
            ) && final(pool).used() == old(pool).used(),
            r is Ok ==> {
                let t = self@.0 as int;
                &&& r == Ok::<ContextSwitch, WhyError>(old(k).switch_if_current(self.spec_tid()))
                &&& old(k).reclaims_to(*final(k), t)
                &&& final(pool).used() == used_after_release(old(pool).used(), old(pool).base(), old(k).tcbs()[t].stack)
            },
    {
        k.reclaim_task(self, pool)
    }

    /// A snapshot of the task; `InvalidHandle` for a stale handle.
    pub fn info(self, k: &Kernel) -> (r: WhyResult<TaskInfo>)
        requires
            k.wf(),
        ensures
            r is Ok <==> k.handle_valid(&self),
            r is Err ==> r == Err::<TaskInfo, WhyError>(WhyError::InvalidHandle),
            r matches Ok(info) ==> describes(info, self@, k.tcbs()[self@.0 as int]),
    {
        let task = k.task(&self)?;
        TaskInfo::new(self, task)
    }
}

/// A stack size in bytes.
#[derive(Debug, Clone, Copy, PartialEq, Eq, Structural)]
pub struct StackSize(usize);

impl View for StackSize {
    type V = usize;

    closed spec fn view(&self) -> usize {
        self.0
    }
}

/// Two stack sizes with the same number of bytes are the same value.
pub proof fn lemma_stack_size_view_injective(a: StackSize, b: StackSize)
    ensures
        a@ == b@ ==> a == b,
{
}

/// Stack size given to tasks unless told otherwise.
pub open spec fn default_stack_bytes() -> usize {
    2048
}

impl StackSize {
    /// 1 KB.
    pub fn small() -> (r: Self)
        ensures
            r@ == 1024,
    {
        StackSize(1024)
    }

    /// 2 KB, the default.
    pub fn default_size() -> (r: Self)
        ensures
            r@ == default_stack_bytes(),
    {
        StackSize(2048)
    }

    /// 4 KB.
    pub fn medium() -> (r: Self)
        ensures
            r@ == 4096,
    {
        StackSize(4096)
    }

    /// 8 KB.
    pub fn large() -> (r: Self)
        ensures
            r@ == 8192,
    {
        StackSize(8192)
    }

    /// Exactly `bytes` bytes (the allocator may round up to whole blocks).
    pub fn bytes(bytes: usize) -> (r: Self)
        ensures
            r@ == bytes,
    {
        StackSize(bytes)
    }

    /// `kb` kilobytes.
    pub fn kb(kb: usize) -> (r: Self)
        requires
            kb * 1024 <= usize::MAX,
        ensures
            r@ == kb * 1024,
    {
        StackSize(kb * 1024)
    }

    /// The size in bytes.
    pub fn as_bytes(&self) -> (r: usize)
        ensures
            r == self@,
    {
        self.0
    }
}

impl Default for StackSize {
    fn default() -> (r: Self)
        ensures
            r@ == default_stack_bytes(),
    {
        StackSize::default_size()
    }
}

/// Whether a request of `size` bytes can be served from a heap whose used
/// blocks are `used`.
pub open spec fn fits(used: Seq<bool>, size: usize) -> bool {
    &&& 0 < blocks_for(size) <= MAX_BLOCKS
    &&& exists|i: int| #[trigger] free_run(used, i, blocks_for(size))
}

/// What a spawn of a `stack_size`-byte stack does to the kernel `k0`,
/// given the pool's blocks `used0` beforehand, ending in `k1` with the new
/// task in `slot` (`None` when it failed): when the stack fits, the task is
/// placed directly; otherwise the zombies are reaped first.
pub open spec fn spawn_outcome(k0: Kernel, k1: Kernel, used0: Seq<bool>, stack_size: usize, slot: Option<int>) -> bool {
    &&& fits(used0, stack_size) ==> k0.spawn_step(k1, slot)
    &&& !fits(used0, stack_size) ==> exists|mid: Kernel| #[trigger] k0.reaps_to(mid) && mid.spawn_step(k1, slot)
}

/// The slot of a spawned task, if any.
pub open spec fn spawned_slot(r: WhyResult<TaskHandle>) -> Option<int> {
    match r {
        Ok(h) => Some(h@.0 as int),
        Err(_) => None,
    }
}

/// The words of a fresh task stack of `size` bytes.
pub open spec fn fresh_stack_contents(size: usize, entry: usize, arg: usize, ret: usize) -> Seq<u32> {
    initial_contents(
        size as int / 4,
        frame_words(InitStackFrame { sw_frame: initial_sw_frame(), hw_frame: hw_frame_for(entry, arg, ret) }),
    )
}

/// Allocates a stack of `stack_size` bytes, prepares it to start at `entry`
/// with `arg` and return to `exit_handler`, and places the task in the
/// kernel. When the heap has no room the zombies are reclaimed first and
/// the allocation retried; `OutOfMemory` when it still fails.
pub fn spawn(
    k: &mut Kernel,
    pool: &mut MemoryPool,
    entry: usize,
    arg: usize,
    name: Option<&'static str>,
    priority: u8,
    stack_size: usize,
    exit_handler: usize,
) -> (r: WhyResult<TaskHandle>)
    requires
        old(k).wf(),
        old(k).stacks_held_by(*old(pool)),
    ensures
        final(k).wf(),
        final(k).stacks_held_by(*final(pool)),
        final(pool).base() == old(pool).base(),
        r is Err ==> r == Err::<TaskHandle, WhyError>(WhyError::OutOfMemory) || r == Err::<
            TaskHandle,
            WhyError,
        >(WhyError::MaxTasksReached),
        fits(old(pool).used(), stack_size) ==> final(k).zombie_set() == old(k).zombie_set(),
        fits(old(pool).used(), stack_size) && (exists|i: int| 0 <= i < MAX_TASKS && !#[trigger] old(k).live()[i])
            ==> r is Ok,
        r == Err::<TaskHandle, WhyError>(WhyError::OutOfMemory) ==> !fits(old(pool).used(), stack_size),
        !fits(old(pool).used(), stack_size) && !(0 < blocks_for(stack_size) <= MAX_BLOCKS) ==> r
            == Err::<TaskHandle, WhyError>(WhyError::OutOfMemory),
        r == Err::<TaskHandle, WhyError>(WhyError::MaxTasksReached) ==> forall|i: int|
            0 <= i < MAX_TASKS ==> #[trigger] old(k).live()[i],
        spawn_outcome(*old(k), *final(k), old(pool).used(), stack_size, spawned_slot(r)),
        r matches Ok(h) ==> {
            let t = h@.0 as int;
            &&& 0 <= t < MAX_TASKS
            &&& final(k).live()[t]
            &&& final(k).ready_set()[t]
            &&& final(k).state(t) == TaskState::Ready
            &&& final(k).priority(t) == priority
            &&& final(k).tcbs()[t].name == name
            &&& final(k).tcbs()[t].watchdog is None
            &&& h@.1 == final(k).tcbs()[t].generation
            &&& final(k).tcbs()[t].stack matches Some(s) && s.contents() == fresh_stack_contents(
                s.memory().chunk_size(),
                entry,
                arg,
                exit_handler,
            ) && s.memory().chunk_size() == blocks_for(stack_size) * 1024 && starts_task(
                s.contents(),
                entry,
                arg,
                exit_handler,
            )
        },
{
    let ghost k_start = *k;
    let ghost k_start_used = pool.used();
    let ghost mut pool_a = *pool;
    let mem = match pool.allocate(stack_size) {
        Some(mem) => mem,
        None => {
            k.reap_zombies(pool);
            proof {
                pool_a = *pool;
            }
            match pool.allocate(stack_size) {
                Some(mem) => mem,
                None => {
                    proof {
                        assert(k_start.reaps_to(*k) && k.spawn_step(*k, None));
                    }
                    return Err(WhyError::OutOfMemory);
                },
            }
        },
    };
    let stack: TaskStack = Stack::init(mem, entry, arg, exit_handler);
    let ghost k0 = *k;
    let r = k.spawn_task(name, priority, stack, pool);
    proof {
        if r == Err::<TaskHandle, WhyError>(WhyError::MaxTasksReached) {
            assert forall|i: int| 0 <= i < MAX_TASKS implies #[trigger] k_start.live()[i] by {
                assert(k0.live()[i]);
                if k_start.zombie_set()[i] {
                    assert(k_start.live()[i]);
                }
            }
        }
        if let Ok(h) = &r {
            let t = h@.0 as int;
            assert(k0.spawned_into(*k, t));
        }
        assert(k0.spawn_step(*k, spawned_slot(r)));
        if !fits(k_start_used, stack_size) {
            assert(k_start.reaps_to(k0));
        } else {
            assert(k0 == k_start);
        }
        let start = first_block(pool_a.base(), mem.chunk_ptr());
        let n = mem.chunk_size() as int / (BLOCK_SIZE as int);
        if let Ok(h) = &r {
            let t = h@.0 as int;
            assert(k.tcbs()[t] == revived_tcb(k0.tcbs()[t], name, priority, stack));
            assert(k0.tcbs()[t].stack is None);
            Kernel::lemma_place_stack(k0, *k, pool_a, *pool, t, stack);
        } else {
            assert forall|i: int, b: int|
                0 <= i < MAX_TASKS && #[trigger] stack_covers(k.tcbs()[i].stack, pool.base(), b) implies pool.used()[b] by {
                assert(crate::tcb::pool_holds_stack(pool_a, k0.tcbs()[i].stack));
                assert(pool_a.used()[b]);
                crate::memory::lemma_alloc_disjoint(pool_a.used(), start, n, b);
            }
        }
    }
    r
}

/// A builder for a task: entry point, argument, priority (default 128),
/// stack size (default 2 KB) and optional name.
pub struct TaskBuilder {
    pub entry: usize,
    pub arg: usize,
    pub priority: u8,
    pub stack_size: usize,
    pub name: Option<&'static str>,
}

impl TaskBuilder {
    /// A builder with default settings for the task at `entry` taking `arg`.
    pub fn from_raw(entry: usize, arg: usize) -> (r: Self)
        ensures
            r.entry == entry,
            r.arg == arg,
            r.priority == 128,
            r.stack_size == default_stack_bytes(),
            r.name is None,
    {
        TaskBuilder { entry, arg, priority: 128, stack_size: StackSize::default_size().as_bytes(), name: None }
    }

    /// A builder for the task at `entry`, which takes no argument.
    pub fn new(entry: usize) -> (r: Self)
        ensures
            r.entry == entry,
            r.arg == 0,
            r.priority == 128,
            r.stack_size == default_stack_bytes(),
            r.name is None,
    {
        TaskBuilder::from_raw(entry, 0)
    }

    /// Sets the priority (lower number means higher priority).
    pub fn priority(self, priority: u8) -> (r: Self)
        ensures
            r == (TaskBuilder { priority, ..self }),
    {
        TaskBuilder { priority, ..self }
    }

    /// Sets the stack size.
    pub fn stack_size(self, size: StackSize) -> (r: Self)
        ensures
            r == (TaskBuilder { stack_size: size@, ..self }),
    {
        TaskBuilder { stack_size: size.as_bytes(), ..self }
    }

    /// Names the task.
    pub fn name(self, name: &'static str) -> (r: Self)
        ensures
            r == (TaskBuilder { name: Some(name), ..self }),
    {
        TaskBuilder { name: Some(name), ..self }
    }

    /// Spawns the configured task (see [`spawn`]), with `exit_handler` as
    /// the address it returns to.
    pub fn spawn(self, k: &mut Kernel, pool: &mut MemoryPool, exit_handler: usize) -> (r: WhyResult<TaskHandle>)
        requires
            old(k).wf(),
            old(k).stacks_held_by(*old(pool)),
        ensures
            final(k).wf(),
            final(k).stacks_held_by(*final(pool)),
            r matches Ok(h) ==> final(k).state(h@.0 as int) == TaskState::Ready && final(k).priority(h@.0 as int)
                == self.priority && final(k).tcbs()[h@.0 as int].name == self.name,
            r is Err ==> r == Err::<TaskHandle, WhyError>(WhyError::OutOfMemory) || r == Err::<
                TaskHandle,
                WhyError,
            >(WhyError::MaxTasksReached),
            fits(old(pool).used(), self.stack_size) && (exists|i: int| 0 <= i < MAX_TASKS && !#[trigger] old(k).live()[i])
                ==> r is Ok,
            r == Err::<TaskHandle, WhyError>(WhyError::OutOfMemory) ==> !fits(old(pool).used(), self.stack_size),
            spawn_outcome(*old(k), *final(k), old(pool).used(), self.stack_size, spawned_slot(r)),
            r matches Ok(h) ==> final(k).tcbs()[h@.0 as int].stack matches Some(s) && s.contents()
                == fresh_stack_contents(s.memory().chunk_size(), self.entry, self.arg, exit_handler) && starts_task(
                s.contents(),
                self.entry,
                self.arg,
                exit_handler,
            ),
    {
        spawn(k, pool, self.entry, self.arg, self.name, self.priority, self.stack_size, exit_handler)
    }
}

} // verus!
