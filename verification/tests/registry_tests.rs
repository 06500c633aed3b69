use whyos::error::WhyError;
use whyos::memory::MemoryPool;
use whyos::registry::TaskRegistry;
use whyos::stack::Stack;
use whyos::tcb::{TaskTable, Tcb, Watchdog};
use whyos::types::{TaskHandle, TaskId, TaskState};

const HEAP: usize = 0x2000_0000;

fn stack_from(pool: &mut MemoryPool, bytes: usize) -> whyos::stack::TaskStack {
    let mem = pool.allocate(bytes).unwrap();
    Stack::init(mem, 0x0800_1001, 0, 0x0800_0101)
}

#[test]
fn watchdog_counts_down_and_fires_at_zero() {
    let mut w = Watchdog::new(2);
    assert_eq!(w.interval(), 2);
    assert!(!w.check_n_tick());
    assert!(!w.check_n_tick());
    assert!(w.check_n_tick());
    assert!(w.check_n_tick());
    w.feed();
    assert!(!w.check_n_tick());
    assert_eq!(w.interval(), 2);
}

#[test]
fn dead_slot_defaults() {
    let t = Tcb::dead();
    assert_eq!(t.state, TaskState::Dead);
    assert_eq!(t.priority, u8::MAX);
    assert!(t.name.is_none());
    assert!(t.stack.is_none());
    assert!(t.watchdog.is_none());
    assert_eq!(t.generation, 0);
}

#[test]
fn revive_then_kill_moves_to_next_generation() {
    let mut pool = MemoryPool::new(HEAP);
    let mut t = Tcb::dead();
    let st = stack_from(&mut pool, 1024);
    t.revive(Some("x"), 7, st, &mut pool);
    assert_eq!(t.state, TaskState::Ready);
    assert_eq!(t.priority, 7);
    assert_eq!(t.name, Some("x"));
    assert_eq!(t.generation, 0);
    t.kill(&mut pool);
    assert_eq!(t.state, TaskState::Dead);
    assert_eq!(t.generation, 1);
    assert!(t.stack.is_none());
    // the stack's block is free again
    assert_eq!(pool.allocate(1024).map(|m| whyos::memory::MemChunk::ptr(&m)), Some(HEAP));
}

#[test]
fn generation_wraps_around() {
    let mut pool = MemoryPool::new(HEAP);
    let mut t = Tcb::dead();
    for _ in 0..256 {
        t.kill(&mut pool);
    }
    assert_eq!(t.generation, 0);
}

#[test]
fn table_starts_with_dead_slots() {
    let mut table = TaskTable::new();
    let t5 = TaskId::new(5).unwrap();
    assert_eq!(table.get(t5).state, TaskState::Dead);
    table.get_mut(t5).priority = 3;
    assert_eq!(table.get(t5).priority, 3);
}

#[test]
fn registry_allocates_validates_and_frees() {
    let mut pool = MemoryPool::new(HEAP);
    let mut reg = TaskRegistry::new();
    let st = stack_from(&mut pool, 1024);
    let h = reg.allocate(Some("a"), 4, st, &mut pool).unwrap();
    assert_eq!(h.tid().id(), 0);
    assert_eq!(reg.validate(&h).map(|t| t.id()), Ok(0));
    assert_eq!(reg.get_task(&h).unwrap().priority, 4);
    reg.get_task_mut(&h).unwrap().priority = 9;
    assert_eq!(reg.get_task_unchecked(h.tid()).priority, 9);
    assert_eq!(reg.allocated_map().raw(), 1);
    let again = reg.handle(TaskId::new(0).unwrap()).unwrap();
    assert_eq!(again.generation(), 0);
    assert_eq!(reg.handle(TaskId::new(1).unwrap()).err(), Some(WhyError::InvalidTaskId));
    assert_eq!(reg.deallocate(h.tid(), &mut pool), Ok(()));
    assert_eq!(reg.validate(&h).err(), Some(WhyError::InvalidHandle));
    assert!(reg.get_task(&h).is_err());
    assert_eq!(reg.get_task_unchecked(h.tid()).generation, 1);
    assert_eq!(reg.allocated_map().raw(), 0);
    // a handle for the right slot but an old generation is refused
    let st = stack_from(&mut pool, 1024);
    let h2 = reg.allocate(None, 4, st, &mut pool).unwrap();
    assert_eq!(h2.generation(), 1);
    assert_eq!(reg.validate(&TaskHandle::from_u32(0x0000).unwrap()).err(), Some(WhyError::InvalidHandle));
    assert_eq!(reg.validate(&TaskHandle::from_u32(0x0100).unwrap()).map(|t| t.id()), Ok(0));
}

#[test]
fn registry_full_gives_the_stack_back() {
    let mut pool = MemoryPool::new(HEAP);
    let mut reg = TaskRegistry::new();
    for _ in 0..32 {
        let st = stack_from(&mut pool, 1024);
        reg.allocate(None, 4, st, &mut pool).unwrap();
    }
    let st = stack_from(&mut pool, 1024);
    let r = reg.allocate(None, 4, st, &mut pool);
    assert_eq!(r.err(), Some(WhyError::MaxTasksReached));
    // the 33rd stack's block went back to the pool
    assert_eq!(pool.allocate(1024).map(|m| whyos::memory::MemChunk::ptr(&m)), Some(HEAP + 32 * 1024));
}
