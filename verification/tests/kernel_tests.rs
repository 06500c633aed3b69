use whyos::error::WhyError;
use whyos::frame::{FRAME_BYTES, FRAME_WORDS};
use whyos::kernel::{ContextSwitch, Kernel, IDLE_STACK_SIZE};
use whyos::memory::MemoryPool;
use whyos::task::{spawn, StackSize, TaskBuilder};
use whyos::types::{BlockReason, ResumeContext, TaskHandle, TaskId, TaskState};
use whyos::{api, MAX_TASKS};

const HEAP: usize = 0x2000_0000;
const IDLE_MEM: usize = 0x1000_0000;
const EXIT: usize = 0x0800_0101;

fn boot() -> (Kernel, MemoryPool, usize) {
    let mut k = Kernel::new();
    let pool = MemoryPool::new(HEAP);
    let idle_sp = k.init_idle(IDLE_MEM, 0x0800_0001, EXIT);
    (k, pool, idle_sp)
}

fn add(k: &mut Kernel, pool: &mut MemoryPool, name: &'static str, prio: u8) -> TaskHandle {
    spawn(k, pool, 0x0800_1001, 0, Some(name), prio, 1024, EXIT).unwrap()
}

fn state(k: &Kernel, h: &TaskHandle) -> TaskState {
    k.task(h).unwrap().state
}

fn running(k: &Kernel) -> Option<usize> {
    k.current_task().map(|t| t.id())
}

#[test]
fn idle_stack_holds_its_first_frame() {
    let (k, _, idle_sp) = boot();
    assert_eq!(idle_sp, IDLE_MEM + IDLE_STACK_SIZE - FRAME_BYTES);
    assert_eq!(k.idle_sp(), idle_sp);
    assert_eq!(k.current_task(), None);
    assert_eq!(k.system_ticks(), 0);
}

#[test]
fn spawn_takes_lowest_free_slot() {
    let (mut k, mut pool, _) = boot();
    let a = add(&mut k, &mut pool, "a", 5);
    let b = add(&mut k, &mut pool, "b", 5);
    assert_eq!(a.tid().id(), 0);
    assert_eq!(b.tid().id(), 1);
    assert_eq!(a.generation(), 0);
    assert_eq!(state(&k, &a), TaskState::Ready);
    assert_eq!(k.task(&b).unwrap().name, Some("b"));
    assert_eq!(k.allocated().ones(), 2);
    let info = a.info(&k).unwrap();
    assert_eq!(info.stack_base, HEAP);
    assert_eq!(info.stack_size, 1024);
    assert_eq!(info.current_sp, HEAP + 1024 - FRAME_BYTES);
    assert_eq!(info.max_stack_usage, FRAME_WORDS);
    assert_eq!(info.priority, 5);
}

#[test]
fn spawn_fails_when_slots_run_out() {
    let (mut k, mut pool, _) = boot();
    for _ in 0..MAX_TASKS {
        add(&mut k, &mut pool, "t", 5);
    }
    let r = spawn(&mut k, &mut pool, 0x0800_1001, 0, None, 5, 1024, EXIT);
    assert_eq!(r.err(), Some(WhyError::MaxTasksReached));
    assert_eq!(k.allocated().ones(), MAX_TASKS);
}

#[test]
fn spawn_fails_when_memory_runs_out() {
    let (mut k, mut pool, _) = boot();
    let r = spawn(&mut k, &mut pool, 0x0800_1001, 0, None, 5, 300 * 1024, EXIT);
    assert_eq!(r.err(), Some(WhyError::OutOfMemory));
    let r = spawn(&mut k, &mut pool, 0x0800_1001, 0, None, 5, 0, EXIT);
    assert_eq!(r.err(), Some(WhyError::OutOfMemory));
}

#[test]
fn scheduler_runs_highest_priority_first() {
    let (mut k, mut pool, idle_sp) = boot();
    let _low = add(&mut k, &mut pool, "low", 9);
    let high = add(&mut k, &mut pool, "high", 2);
    let sp = k.schedule(idle_sp);
    assert_eq!(running(&k), Some(high.tid().id()));
    assert_eq!(state(&k, &high), TaskState::Running);
    assert_eq!(sp, HEAP + 2 * 1024 - FRAME_BYTES);
    // the high-priority task keeps the processor
    k.schedule(sp);
    assert_eq!(running(&k), Some(high.tid().id()));
}

#[test]
fn scheduler_round_robins_equal_priorities() {
    let (mut k, mut pool, idle_sp) = boot();
    for name in ["a", "b", "c"] {
        add(&mut k, &mut pool, name, 4);
    }
    let mut sp = k.schedule(idle_sp);
    let mut order = vec![running(&k).unwrap()];
    for _ in 0..4 {
        sp = k.schedule(sp);
        order.push(running(&k).unwrap());
    }
    assert_eq!(order, vec![0, 1, 2, 0, 1]);
}

#[test]
fn scheduler_falls_back_to_idle() {
    let (mut k, _, idle_sp) = boot();
    let sp = k.schedule(idle_sp - 8);
    assert_eq!(running(&k), None);
    assert_eq!(sp, idle_sp - 8);
}

#[test]
fn scheduler_saves_the_outgoing_stack_pointer() {
    let (mut k, mut pool, idle_sp) = boot();
    let a = add(&mut k, &mut pool, "a", 4);
    let b = add(&mut k, &mut pool, "b", 4);
    k.schedule(idle_sp);
    assert_eq!(running(&k), Some(0));
    let sp_b = k.schedule(0x2000_0300);
    assert_eq!(a.info(&k).unwrap().current_sp, 0x2000_0300);
    assert_eq!(sp_b, b.info(&k).unwrap().current_sp);
    let sp_a = k.schedule(sp_b);
    assert_eq!(sp_a, 0x2000_0300);
}

#[test]
fn sleep_blocks_until_the_wake_tick() {
    let (mut k, mut pool, idle_sp) = boot();
    let a = add(&mut k, &mut pool, "a", 4);
    k.schedule(idle_sp);
    api::sleep(&mut k, 3);
    assert_eq!(state(&k, &a), TaskState::Blocked(BlockReason::Sleep(3)));
    k.on_tick();
    k.on_tick();
    assert_eq!(state(&k, &a), TaskState::Blocked(BlockReason::Sleep(3)));
    assert_eq!(k.on_tick(), 3);
    assert_eq!(state(&k, &a), TaskState::Ready);
    assert_eq!(k.system_ticks(), 3);
}

#[test]
fn sleep_of_zero_ticks_changes_nothing() {
    let (mut k, mut pool, idle_sp) = boot();
    let a = add(&mut k, &mut pool, "a", 4);
    k.schedule(idle_sp);
    api::sleep(&mut k, 0);
    assert_eq!(state(&k, &a), TaskState::Running);
}

#[test]
fn watchdog_kills_a_task_that_is_not_fed() {
    let (mut k, mut pool, idle_sp) = boot();
    let a = add(&mut k, &mut pool, "a", 4);
    k.schedule(idle_sp);
    api::wdt_sub(&mut k, 2);
    k.on_tick();
    k.on_tick();
    assert_eq!(state(&k, &a), TaskState::Running);
    k.on_tick();
    assert_eq!(state(&k, &a), TaskState::Zombie);
    assert_eq!(k.zombie_count(), 1);
}

#[test]
fn watchdog_feeding_keeps_a_task_alive() {
    let (mut k, mut pool, idle_sp) = boot();
    let a = add(&mut k, &mut pool, "a", 4);
    k.schedule(idle_sp);
    api::wdt_sub(&mut k, 2);
    for _ in 0..10 {
        k.on_tick();
        api::wdt_feed(&mut k);
    }
    assert_eq!(state(&k, &a), TaskState::Running);
    api::wdt_unsub(&mut k);
    for _ in 0..10 {
        k.on_tick();
    }
    assert_eq!(state(&k, &a), TaskState::Running);
}

#[test]
fn suspend_then_resume_restores_a_ready_task() {
    let (mut k, mut pool, idle_sp) = boot();
    let a = add(&mut k, &mut pool, "a", 4);
    let b = add(&mut k, &mut pool, "b", 4);
    k.schedule(idle_sp);
    assert_eq!(b.suspend(&mut k), Ok(ContextSwitch::Continue));
    assert_eq!(state(&k, &b), TaskState::Suspended(ResumeContext::Ready));
    // suspending twice changes nothing
    assert_eq!(b.suspend(&mut k), Ok(ContextSwitch::Continue));
    assert_eq!(b.resume(&mut k), Ok(ContextSwitch::Yield));
    assert_eq!(state(&k, &b), TaskState::Ready);
    // resuming a task that is not suspended changes nothing
    assert_eq!(b.resume(&mut k), Ok(ContextSwitch::Continue));
    // suspending the running task asks for a switch
    assert_eq!(a.suspend(&mut k), Ok(ContextSwitch::Yield));
    assert_eq!(state(&k, &a), TaskState::Suspended(ResumeContext::Ready));
}

#[test]
fn suspend_keeps_the_sleep_of_a_blocked_task() {
    let (mut k, mut pool, idle_sp) = boot();
    let a = add(&mut k, &mut pool, "a", 4);
    k.schedule(idle_sp);
    api::sleep(&mut k, 5);
    // the sleeper is still the running task, so suspending it asks for a switch
    assert_eq!(a.suspend(&mut k), Ok(ContextSwitch::Yield));
    assert_eq!(state(&k, &a), TaskState::Suspended(ResumeContext::Blocked(BlockReason::Sleep(5))));
    // resumed before its wake tick: blocked again
    assert_eq!(a.resume(&mut k), Ok(ContextSwitch::Continue));
    assert_eq!(state(&k, &a), TaskState::Blocked(BlockReason::Sleep(5)));
}

#[test]
fn suspended_sleeper_past_its_tick_resumes_ready() {
    let (mut k, mut pool, idle_sp) = boot();
    let a = add(&mut k, &mut pool, "a", 4);
    k.schedule(idle_sp);
    api::sleep(&mut k, 2);
    a.suspend(&mut k).unwrap();
    for _ in 0..5 {
        k.on_tick();
    }
    assert_eq!(state(&k, &a), TaskState::Suspended(ResumeContext::Blocked(BlockReason::Sleep(2))));
    assert_eq!(a.resume(&mut k), Ok(ContextSwitch::Yield));
    assert_eq!(state(&k, &a), TaskState::Ready);
}

#[test]
fn kill_frees_the_slot_at_once_and_stales_the_handle() {
    let (mut k, mut pool, idle_sp) = boot();
    let a = add(&mut k, &mut pool, "a", 4);
    let _b = add(&mut k, &mut pool, "b", 4);
    k.schedule(idle_sp);
    assert_eq!(a.kill(&mut k, &mut pool), Ok(ContextSwitch::Yield));
    assert!(k.task(&a).is_err());
    assert_eq!(k.zombie_count(), 0);
    assert_eq!(k.allocated().ones(), 1);
    assert_eq!(a.suspend(&mut k).err(), Some(WhyError::InvalidHandle));
    assert_eq!(a.kill(&mut k, &mut pool).err(), Some(WhyError::InvalidHandle));
    // the slot and its memory are used again, under a new generation
    let c = add(&mut k, &mut pool, "c", 4);
    assert_eq!(c.tid().id(), 0);
    assert_eq!(c.generation(), 1);
    assert_eq!(c.info(&k).unwrap().stack_base, HEAP);
    assert_eq!(a.info(&k).err(), Some(WhyError::InvalidHandle));
}

#[test]
fn kill_of_another_task_needs_no_switch() {
    let (mut k, mut pool, idle_sp) = boot();
    let _a = add(&mut k, &mut pool, "a", 4);
    let b = add(&mut k, &mut pool, "b", 4);
    k.schedule(idle_sp);
    assert_eq!(b.kill(&mut k, &mut pool), Ok(ContextSwitch::Continue));
    // b's block is free again
    assert_eq!(pool.allocate(1024).map(|m| whyos::memory::MemChunk::ptr(&m)), Some(HEAP + 1024));
}

#[test]
fn kill_task_leaves_a_zombie_until_reaped() {
    let (mut k, mut pool, idle_sp) = boot();
    let a = add(&mut k, &mut pool, "a", 4);
    k.schedule(idle_sp);
    assert_eq!(k.kill_task(&a), Ok(ContextSwitch::Yield));
    assert_eq!(state(&k, &a), TaskState::Zombie);
    assert_eq!(k.zombie_count(), 1);
    k.reap_zombies(&mut pool);
    assert_eq!(k.zombie_count(), 0);
    assert_eq!(k.allocated().ones(), 0);
}

#[test]
fn suspending_a_zombie_is_refused() {
    let (mut k, mut pool, idle_sp) = boot();
    let a = add(&mut k, &mut pool, "a", 4);
    k.schedule(idle_sp);
    k.kill_task(&a).unwrap();
    assert_eq!(a.suspend(&mut k).err(), Some(WhyError::InvalidHandle));
    assert_eq!(a.resume(&mut k).err(), Some(WhyError::InvalidHandle));
}

#[test]
fn exit_turns_the_running_task_into_a_zombie() {
    let (mut k, mut pool, idle_sp) = boot();
    let a = add(&mut k, &mut pool, "a", 4);
    let sp = k.schedule(idle_sp);
    api::exit(&mut k);
    assert_eq!(state(&k, &a), TaskState::Zombie);
    let sp2 = k.schedule(sp);
    assert_eq!(running(&k), None);
    assert_eq!(sp2, idle_sp);
    api::reclaim_memory(&mut k, &mut pool);
    assert_eq!(k.allocated().ones(), 0);
}

#[test]
fn spawn_reclaims_zombies_when_memory_is_short() {
    let (mut k, mut pool, idle_sp) = boot();
    let big = spawn(&mut k, &mut pool, 0x0800_1001, 0, Some("big"), 4, 200 * 1024, EXIT).unwrap();
    k.schedule(idle_sp);
    k.kill_task(&big).unwrap();
    let again = spawn(&mut k, &mut pool, 0x0800_1001, 0, Some("again"), 4, 200 * 1024, EXIT).unwrap();
    assert_eq!(again.tid().id(), 0);
    assert_eq!(again.generation(), 1);
    assert_eq!(k.zombie_count(), 0);
}

#[test]
fn handle_packs_slot_and_generation() {
    let (mut k, mut pool, _) = boot();
    let a = add(&mut k, &mut pool, "a", 4);
    let word = a.as_u32();
    assert_eq!(word, 0);
    let back = TaskHandle::from_u32(word).unwrap();
    assert_eq!(back.tid().id(), a.tid().id());
    assert_eq!(back.generation(), a.generation());
    let h = TaskHandle::from_u32(0x0000_0203).unwrap();
    assert_eq!(h.tid().id(), 3);
    assert_eq!(h.generation(), 2);
    assert_eq!(h.as_u32(), 0x0203);
    assert!(TaskHandle::from_u32(0x0000_0020).is_none());
    let h = TaskHandle::new(TaskId::new(31).unwrap(), 255);
    assert_eq!(h.as_u32(), 0xFF1F);
}

#[test]
fn task_builder_spawns_with_its_settings() {
    let (mut k, mut pool, _) = boot();
    let h = TaskBuilder::new(0x0800_2001)
        .priority(3)
        .stack_size(StackSize::medium())
        .name("worker")
        .spawn(&mut k, &mut pool, EXIT)
        .unwrap();
    let info = h.info(&k).unwrap();
    assert_eq!(info.priority, 3);
    assert_eq!(info.stack_size, 4096);
    assert_eq!(info.name, Some("worker"));
    let d = TaskBuilder::new(0x0800_2001).spawn(&mut k, &mut pool, EXIT).unwrap();
    assert_eq!(d.info(&k).unwrap().stack_size, 2048);
}

#[test]
fn stack_sizes() {
    assert_eq!(StackSize::small().as_bytes(), 1024);
    assert_eq!(StackSize::default_size().as_bytes(), 2048);
    assert_eq!(StackSize::default().as_bytes(), 2048);
    assert_eq!(StackSize::medium().as_bytes(), 4096);
    assert_eq!(StackSize::large().as_bytes(), 8192);
    assert_eq!(StackSize::kb(3).as_bytes(), 3072);
    assert_eq!(StackSize::bytes(100).as_bytes(), 100);
}

#[test]
fn allocated_lists_live_handles() {
    let (mut k, mut pool, idle_sp) = boot();
    let a = add(&mut k, &mut pool, "a", 4);
    let b = add(&mut k, &mut pool, "b", 4);
    k.schedule(idle_sp);
    a.kill(&mut k, &mut pool).unwrap();
    let hs = api::allocated(&k);
    assert_eq!(hs.len(), 1);
    assert_eq!(hs[0].tid().id(), b.tid().id());
    assert_eq!(hs[0].generation(), b.generation());
}

#[test]
fn my_handle_names_the_running_task() {
    let (mut k, mut pool, idle_sp) = boot();
    add(&mut k, &mut pool, "a", 4);
    let b = add(&mut k, &mut pool, "b", 1);
    k.schedule(idle_sp);
    let me = api::my_handle(&k);
    assert_eq!(me.tid().id(), b.tid().id());
    assert_eq!(api::current_tid(&k).id(), 1);
    assert_eq!(api::uptime_ticks(&k), 0);
}

#[test]
fn overwritten_canary_is_reported() {
    let (mut k, mut pool, idle_sp) = boot();
    add(&mut k, &mut pool, "a", 4);
    assert_eq!(k.current_stack_base(), None);
    k.schedule(idle_sp);
    assert_eq!(k.current_stack_base(), Some(HEAP));
    assert!(!k.stack_overflowed());
    k.record_canary(whyos::stack::STACK_CANARY);
    assert!(!k.stack_overflowed());
    k.record_canary(0x1234_5678);
    assert!(k.stack_overflowed());
}

#[test]
fn recorded_stack_contents_give_the_high_water_mark() {
    let (mut k, mut pool, _) = boot();
    let a = add(&mut k, &mut pool, "a", 4);
    let tid = a.tid();
    assert_eq!(k.stack_extent(tid), Some((HEAP, 1024)));
    assert_eq!(k.stack_extent(TaskId::new(9).unwrap()), None);
    let mut words = vec![whyos::stack::STACK_PAINT; 256];
    words[0] = whyos::stack::STACK_CANARY;
    words[200] = 7;
    k.record_stack(tid, words);
    assert_eq!(a.info(&k).unwrap().max_stack_usage, 256 - 200);
}

#[test]
fn live_stacks_never_share_a_block() {
    let (mut k, mut pool, _) = boot();
    let a = spawn(&mut k, &mut pool, 0x0800_1001, 0, Some("a"), 4, 1024, EXIT).unwrap();
    let b = spawn(&mut k, &mut pool, 0x0800_1001, 0, Some("b"), 4, 2048, EXIT).unwrap();
    // freeing the first stack and spawning again reuses its block only
    a.kill(&mut k, &mut pool).unwrap();
    let c = spawn(&mut k, &mut pool, 0x0800_1001, 0, Some("c"), 4, 1024, EXIT).unwrap();
    let d = spawn(&mut k, &mut pool, 0x0800_1001, 0, Some("d"), 4, 1024, EXIT).unwrap();
    let spans: Vec<(usize, usize)> = vec![b, c, d]
        .into_iter()
        .map(|h| {
            let i = h.info(&k).unwrap();
            (i.stack_base, i.stack_base + i.stack_size)
        })
        .collect();
    assert_eq!(spans[1].0, HEAP);
    assert_eq!(spans[0], (HEAP + 1024, HEAP + 3072));
    assert_eq!(spans[2], (HEAP + 3072, HEAP + 4096));
    for x in 0..spans.len() {
        for y in 0..spans.len() {
            if x != y {
                assert!(spans[x].1 <= spans[y].0 || spans[y].1 <= spans[x].0);
            }
        }
    }
}
