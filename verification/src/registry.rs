use vstd::prelude::*;
use crate::MAX_TASKS;
use crate::error::{WhyError, WhyResult};
use crate::memory::MemoryPool;
use crate::stack::TaskStack;
use crate::task_map::TaskMap;
use crate::tcb::{Tcb, TaskTable, is_dead_tcb, pool_holds_stack, used_after_release};
use crate::types::{TaskId, TaskHandle, TaskState};

verus! {

/// The control block a slot gets when a task is placed in it.
pub open spec fn revived_tcb(old: Tcb, name: Option<&'static str>, priority: u8, stack: TaskStack) -> Tcb {
    Tcb {
        name,
        state: TaskState::Ready,
        priority,
        stack: Some(stack),
        watchdog: None,
        generation: old.generation,
    }
}

/// The task slots: one control block per slot and the set of occupied
/// slots.
pub struct TaskRegistry {
    tasks: TaskTable,
    allocated: TaskMap,
}

impl TaskRegistry {
    /// The control blocks, by slot.
    pub closed spec fn tcbs(&self) -> Seq<Tcb> {
        self.tasks@
    }

    /// Which slots are occupied.
    pub closed spec fn live(&self) -> Seq<bool> {
        self.allocated@
    }

    /// Occupied slots hold a live task with a stack; free slots are empty.
    pub open spec fn wf(&self) -> bool {
        &&& self.tcbs().len() == MAX_TASKS
        &&& self.live().len() == MAX_TASKS
        &&& forall|i: int|
            0 <= i < MAX_TASKS ==> (#[trigger] self.live()[i] ==> self.tcbs()[i].state != TaskState::Dead
                && self.tcbs()[i].stack is Some)
        &&& forall|i: int|
            0 <= i < MAX_TASKS ==> (!#[trigger] self.live()[i] ==> is_dead_tcb(
                self.tcbs()[i],
                self.tcbs()[i].generation,
            ))
    }

    /// Every stack held by a slot lives in `pool`.
    pub open spec fn stacks_held_by(&self, pool: MemoryPool) -> bool {
        forall|i: int| 0 <= i < MAX_TASKS ==> pool_holds_stack(pool, #[trigger] self.tcbs()[i].stack)
    }

    /// All slots free, at generation zero.
    pub fn new() -> (r: Self)
        ensures
            r.wf(),
            forall|i: int| 0 <= i < MAX_TASKS ==> !#[trigger] r.live()[i],
            forall|i: int| 0 <= i < MAX_TASKS ==> is_dead_tcb(#[trigger] r.tcbs()[i], 0),
    {
        let r = TaskRegistry { tasks: TaskTable::new(), allocated: TaskMap::new() };
        r
    }

    /// Places a new ready task in the lowest free slot and returns its
    /// handle. When every slot is taken the stack's memory goes back to
    /// the pool and `MaxTasksReached` is returned.
    pub fn allocate(
        &mut self,
        name: Option<&'static str>,
        priority: u8,
        stack: TaskStack,
        pool: &mut MemoryPool,
    ) -> (r: WhyResult<TaskHandle>)
        requires
            old(self).wf(),
            old(pool).holds(stack.memory()),
        ensures
            final(self).wf(),
            final(pool).base() == old(pool).base(),
            r is Err <==> (forall|i: int| 0 <= i < MAX_TASKS ==> #[trigger] old(self).live()[i]),
            r is Err ==> r == Err::<TaskHandle, WhyError>(WhyError::MaxTasksReached)
                && final(self).tcbs() == old(self).tcbs() && final(self).live() == old(self).live()
                && final(pool).used() == used_after_release(old(pool).used(), old(pool).base(), Some(stack)),
            r matches Ok(h) ==> {
                let t = h@.0 as int;
                &&& 0 <= t < MAX_TASKS
                &&& !old(self).live()[t]
                &&& forall|j: int| 0 <= j < t ==> #[trigger] old(self).live()[j]
                &&& h@.1 == old(self).tcbs()[t].generation
                &&& final(self).live() == old(self).live().update(t, true)
                &&& final(self).tcbs() == old(self).tcbs().update(
                    t,
                    revived_tcb(old(self).tcbs()[t], name, priority, stack),
                )
                &&& final(pool).used() == old(pool).used()
            },
    {
        let tid = match self.allocated.first_free() {
            Some(tid) => tid,
            None => {
                let mem = stack.release();
                pool.dealloc(mem);
                return Err(WhyError::MaxTasksReached);
            },
        };
        let ghost t = tid@ as int;
        self.allocated.add(tid);
        let tcb = self.tasks.get_mut(tid);
        tcb.revive(name, priority, stack, pool);
        let generation = self.tasks.get(tid).generation;
        let h = TaskHandle::new(tid, generation);
        proof {
            assert(final(self).tcbs()[t] == revived_tcb(old(self).tcbs()[t], name, priority, stack));
            assert(self.tcbs() =~= old(self).tcbs().update(t, revived_tcb(old(self).tcbs()[t], name, priority, stack)));
        }
        Ok(h)
    }

    /// Frees slot `tid`: its task is removed, its stack goes back to the
    /// pool and the slot moves to the next generation.
    pub fn deallocate(&mut self, tid: TaskId, pool: &mut MemoryPool) -> (r: WhyResult<()>)
        requires
            old(self).tcbs().len() == MAX_TASKS,
            pool_holds_stack(*old(pool), old(self).tcbs()[tid@ as int].stack),
        ensures
            r == Ok::<(), WhyError>(()),
            final(self).live() == old(self).live().update(tid@ as int, false),
            final(self).tcbs().len() == MAX_TASKS,
            is_dead_tcb(final(self).tcbs()[tid@ as int], old(self).tcbs()[tid@ as int].generation.wrapping_add(1)),
            forall|i: int| 0 <= i < MAX_TASKS && i != tid@ ==> #[trigger] final(self).tcbs()[i] == old(self).tcbs()[i],
            final(pool).base() == old(pool).base(),
            final(pool).used() == used_after_release(
                old(pool).used(),
                old(pool).base(),
                old(self).tcbs()[tid@ as int].stack,
            ),
    {
        self.allocated.remove(tid);
        let tcb = self.tasks.get_mut(tid);
        tcb.kill(pool);
        Ok(())
    }

    /// The slot of `h` when `h` refers to the task now in that slot;
    /// `InvalidHandle` when the slot is free or holds a later task.
    pub fn validate(&self, h: &TaskHandle) -> (r: WhyResult<TaskId>)
        requires
            self.wf(),
        ensures
            r is Ok <==> (self.live()[h@.0 as int] && self.tcbs()[h@.0 as int].generation == h@.1),
            r matches Ok(t) ==> t@ == h@.0 && t == h.spec_tid() && h@.0 < MAX_TASKS,
            r is Err ==> r == Err::<TaskId, WhyError>(WhyError::InvalidHandle),
    {
        let tid = h.tid();
        if !self.allocated.is_set(tid) {
            return Err(WhyError::InvalidHandle);
        }
        if self.tasks.get(tid).generation != h.generation() {
            return Err(WhyError::InvalidHandle);
        }
        Ok(tid)
    }

    /// A handle to the task in slot `tid`; `InvalidTaskId` when the slot is
    /// free.
    pub fn handle(&self, tid: TaskId) -> (r: WhyResult<TaskHandle>)
        requires
            self.wf(),
        ensures
            tid@ < MAX_TASKS,
            r is Ok <==> self.live()[tid@ as int],
            r matches Ok(h) ==> h@ == (tid@, self.tcbs()[tid@ as int].generation) && h.spec_tid() == tid,
            r is Err ==> r == Err::<TaskHandle, WhyError>(WhyError::InvalidTaskId),
    {
        if !self.allocated.is_set(tid) {
            return Err(WhyError::InvalidTaskId);
        }
        Ok(TaskHandle::new(tid, self.tasks.get(tid).generation))
    }

    /// The set of occupied slots.
    pub fn allocated_map(&self) -> (r: TaskMap)
        ensures
            r@ == self.live(),
    {
        self.allocated
    }

    /// The control block of the task `h` refers to.
    pub fn get_task(&self, h: &TaskHandle) -> (r: WhyResult<&Tcb>)
        requires
            self.wf(),
        ensures
            r is Ok <==> (self.live()[h@.0 as int] && self.tcbs()[h@.0 as int].generation == h@.1),
            r matches Ok(t) ==> *t == self.tcbs()[h@.0 as int] && h@.0 < MAX_TASKS,
            r is Err ==> r == Err::<&Tcb, WhyError>(WhyError::InvalidHandle),
    {
        let tid = self.validate(h)?;
        Ok(self.tasks.get(tid))
    }

    /// The control block of the task `h` refers to, for changing it.
    pub fn get_task_mut(&mut self, h: &TaskHandle) -> (r: WhyResult<&mut Tcb>)
        requires
            old(self).wf(),
        ensures
            r is Ok <==> (old(self).live()[h@.0 as int] && old(self).tcbs()[h@.0 as int].generation
                == h@.1),
            final(self).live() == old(self).live(),
            r matches Ok(t) ==> *t == old(self).tcbs()[h@.0 as int] && final(self).tcbs() == old(
                self,
            ).tcbs().update(h@.0 as int, *final(t)),
            r is Err ==> r == Err::<&mut Tcb, WhyError>(WhyError::InvalidHandle) && final(self).tcbs()
                == old(self).tcbs(),
    {
        let tid = self.validate(h)?;
        Ok(self.tasks.get_mut(tid))
    }

    /// The control block of slot `tid`, whether or not it is occupied.
    pub fn get_task_unchecked(&self, tid: TaskId) -> (r: &Tcb)
        requires
            self.tcbs().len() == MAX_TASKS,
        ensures
            *r == self.tcbs()[tid@ as int],
            tid@ < MAX_TASKS,
    {
        self.tasks.get(tid)
    }

    /// The control block of slot `tid`, for changing it, whether or not it
    /// is occupied.
    pub fn get_task_mut_unchecked(&mut self, tid: TaskId) -> (r: &mut Tcb)
        requires
            old(self).tcbs().len() == MAX_TASKS,
        ensures
            *r == old(self).tcbs()[tid@ as int],
            final(self).tcbs() == old(self).tcbs().update(tid@ as int, *final(r)),
            final(self).live() == old(self).live(),
            tid@ < MAX_TASKS,
    {
        self.tasks.get_mut(tid)
    }
}

} // verus!
