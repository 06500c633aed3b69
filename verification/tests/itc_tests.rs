use whyos::itc::{Mutex, Semaphore, WaitQueue};
use whyos::kernel::Kernel;
use whyos::memory::MemoryPool;
use whyos::queue::Queue;
use whyos::task::spawn;
use whyos::types::{BlockReason, TaskHandle, TaskState};

const EXIT: usize = 0x0800_0101;

fn boot_with(prios: &[u8]) -> (Kernel, MemoryPool, Vec<TaskHandle>, usize) {
    let mut k = Kernel::new();
    let mut pool = MemoryPool::new(0x2000_0000);
    let idle_sp = k.init_idle(0x1000_0000, 0x0800_0001, EXIT);
    let mut hs = Vec::new();
    for &p in prios {
        hs.push(spawn(&mut k, &mut pool, 0x0800_1001, 0, None, p, 1024, EXIT).unwrap());
    }
    let sp = k.schedule(idle_sp);
    (k, pool, hs, sp)
}

fn state(k: &Kernel, h: &TaskHandle) -> TaskState {
    k.task(h).unwrap().state
}

fn running(k: &Kernel) -> usize {
    k.current_task().unwrap().id()
}

#[test]
fn semaphore_try_wait_counts_permits() {
    let mut s = Semaphore::new(2, 3);
    assert_eq!(s.available(), 2);
    assert!(s.try_wait());
    assert!(s.try_wait());
    assert!(!s.try_wait());
    assert_eq!(s.available(), 0);
}

#[test]
fn semaphore_kinds() {
    assert_eq!(Semaphore::binary().available(), 1);
    assert_eq!(Semaphore::counting(4).available(), 4);
    assert_eq!(Semaphore::new(0, 5).available(), 0);
}

#[test]
fn semaphore_signal_never_exceeds_capacity() {
    let (mut k, _, _, _) = boot_with(&[4]);
    let mut s = Semaphore::new(1, 2);
    assert!(!s.signal(&mut k));
    assert_eq!(s.available(), 2);
    assert!(!s.signal(&mut k));
    assert_eq!(s.available(), 2);
}

#[test]
fn semaphore_wait_blocks_and_signal_wakes() {
    let (mut k, _, hs, sp) = boot_with(&[4, 4]);
    let mut s = Semaphore::new(0, 1);
    assert_eq!(running(&k), 0);
    assert!(!s.wait(&mut k));
    assert_eq!(state(&k, &hs[0]), TaskState::Blocked(BlockReason::WaitQueue));
    k.schedule(sp);
    assert_eq!(running(&k), 1);
    assert!(s.signal(&mut k));
    assert_eq!(state(&k, &hs[0]), TaskState::Ready);
    assert_eq!(s.available(), 1);
    k.schedule(0x2000_0200);
    assert_eq!(running(&k), 0);
    assert!(s.wait(&mut k));
    assert_eq!(s.available(), 0);
}

#[test]
fn mutex_try_lock_and_value() {
    let mut m = Mutex::new(5u32);
    assert!(!m.is_locked());
    assert!(m.try_lock());
    assert!(m.is_locked());
    assert!(!m.try_lock());
    *m.get_mut() += 1;
    assert_eq!(*m.get_mut(), 6);
}

#[test]
fn mutex_release_wakes_highest_priority_waiter() {
    // slot 0 holds the lock; slots 1 (priority 6) and 2 (priority 3) wait
    let (mut k, _, hs, mut sp) = boot_with(&[1, 6, 3]);
    let mut m = Mutex::new(0u8);
    assert_eq!(running(&k), 0);
    assert!(m.lock(&mut k));
    hs[0].suspend(&mut k).unwrap();
    sp = k.schedule(sp);
    assert_eq!(running(&k), 2);
    assert!(!m.lock(&mut k));
    sp = k.schedule(sp);
    assert_eq!(running(&k), 1);
    assert!(!m.lock(&mut k));
    assert_eq!(state(&k, &hs[1]), TaskState::Blocked(BlockReason::WaitQueue));
    assert_eq!(state(&k, &hs[2]), TaskState::Blocked(BlockReason::WaitQueue));
    hs[0].resume(&mut k).unwrap();
    k.schedule(sp);
    assert_eq!(running(&k), 0);
    assert!(m.release(&mut k));
    assert!(!m.is_locked());
    assert_eq!(state(&k, &hs[2]), TaskState::Ready);
    assert_eq!(state(&k, &hs[1]), TaskState::Blocked(BlockReason::WaitQueue));
    assert!(m.release(&mut k));
    assert_eq!(state(&k, &hs[1]), TaskState::Ready);
    assert!(!m.release(&mut k));
}

#[test]
fn wait_queue_skips_suspended_waiters() {
    let (mut k, _, hs, sp) = boot_with(&[4, 4]);
    let mut q = WaitQueue::new();
    q.block_current(&mut k);
    hs[0].suspend(&mut k).unwrap();
    k.schedule(sp);
    assert_eq!(running(&k), 1);
    assert!(!q.wake_highest_prio(&mut k));
    assert_eq!(
        state(&k, &hs[0]),
        TaskState::Suspended(whyos::types::ResumeContext::Blocked(BlockReason::WaitQueue))
    );
}

#[test]
fn wait_queue_ties_go_to_the_lowest_slot() {
    let (mut k, _, hs, mut sp) = boot_with(&[4, 4, 4]);
    let mut q = WaitQueue::new();
    for _ in 0..3 {
        q.block_current(&mut k);
        sp = k.schedule(sp);
    }
    assert!(q.wake_highest_prio(&mut k));
    assert_eq!(state(&k, &hs[0]), TaskState::Ready);
    assert_eq!(state(&k, &hs[1]), TaskState::Blocked(BlockReason::WaitQueue));
    assert!(q.wake_highest_prio(&mut k));
    assert_eq!(state(&k, &hs[1]), TaskState::Ready);
    q.remove_current(&k);
}

#[test]
fn queue_is_first_in_first_out() {
    let (mut k, _, _, _) = boot_with(&[4]);
    let mut q: Queue<u32, 3> = Queue::new();
    assert!(q.is_empty());
    assert_eq!(q.try_send(&mut k, 1), Ok(()));
    assert_eq!(q.try_send(&mut k, 2), Ok(()));
    assert_eq!(q.try_send(&mut k, 3), Ok(()));
    assert!(q.is_full());
    assert_eq!(q.try_send(&mut k, 4), Err(4));
    assert_eq!(q.len(), 3);
    assert_eq!(q.try_receive(&mut k), Some(1));
    assert_eq!(q.try_send(&mut k, 4), Ok(()));
    assert_eq!(q.try_receive(&mut k), Some(2));
    assert_eq!(q.try_receive(&mut k), Some(3));
    assert_eq!(q.try_receive(&mut k), Some(4));
    assert_eq!(q.try_receive(&mut k), None);
    assert!(q.is_empty());
}

#[test]
fn queue_wraps_around_many_times() {
    let (mut k, _, _, _) = boot_with(&[4]);
    let mut q: Queue<u64, 4> = Queue::default();
    let mut next_in = 0u64;
    let mut next_out = 0u64;
    for round in 0..50 {
        for _ in 0..(round % 4 + 1) {
            if q.try_send(&mut k, next_in).is_ok() {
                next_in += 1;
            }
        }
        for _ in 0..(round % 3 + 1) {
            if let Some(v) = q.try_receive(&mut k) {
                assert_eq!(v, next_out);
                next_out += 1;
            }
        }
        assert_eq!(q.len() as u64, next_in - next_out);
    }
}

#[test]
fn queue_blocks_consumers_and_wakes_them() {
    let (mut k, _, hs, sp) = boot_with(&[4, 4]);
    let mut q: Queue<&'static str, 2> = Queue::new();
    assert_eq!(running(&k), 0);
    assert!(q.receive(&mut k).is_none());
    assert_eq!(state(&k, &hs[0]), TaskState::Blocked(BlockReason::WaitQueue));
    k.schedule(sp);
    assert_eq!(running(&k), 1);
    assert_eq!(q.send(&mut k, "hi"), Ok(true));
    assert_eq!(state(&k, &hs[0]), TaskState::Ready);
    assert_eq!(q.send(&mut k, "there"), Ok(false));
    assert_eq!(q.send(&mut k, "full"), Err("full"));
    assert_eq!(state(&k, &hs[1]), TaskState::Blocked(BlockReason::WaitQueue));
    let sp = k.schedule(0x2000_0500);
    assert_eq!(running(&k), 0);
    assert_eq!(q.receive(&mut k), Some(("hi", true)));
    assert_eq!(state(&k, &hs[1]), TaskState::Ready);
    assert_eq!(q.receive(&mut k), Some(("there", false)));
    let _ = sp;
}

#[test]
fn queue_of_zero_capacity_is_always_full() {
    let (mut k, _, _, _) = boot_with(&[4]);
    let mut q: Queue<u8, 0> = Queue::new();
    assert!(q.is_full());
    assert!(q.is_empty());
    assert_eq!(q.try_send(&mut k, 9), Err(9));
    assert_eq!(q.try_receive(&mut k), None);
}
