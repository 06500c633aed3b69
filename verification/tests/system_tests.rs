use whyos::api::{self, Freq};
use whyos::error::WhyError;
use whyos::kernel::Kernel;
use whyos::memory::MemoryPool;
use whyos::svc::{svc_dispatch, svc_spawn, SpawnArgs, SvcEffect, SvcRegs, SVC_SUCCESS};
use whyos::syscall::{self, SvcNumber};
use whyos::task::spawn;
use whyos::bench::{bench_stats, cycles_to_ns, SYS_CLOCK_MHZ};
use whyos::trap::{timer_tick, Exception, Interrupt, SioTimer, TrapAction, TrapCause};
use whyos::types::{BlockReason, ResumeContext, TaskHandle, TaskId, TaskState};

const EXIT: usize = 0x0800_0101;

fn boot_with(prios: &[u8]) -> (Kernel, MemoryPool, Vec<TaskHandle>, usize) {
    let mut k = Kernel::new();
    let mut pool = MemoryPool::new(0x2000_0000);
    let idle_sp = k.init_idle(0x1000_0000, 0x0800_0001, EXIT);
    let mut hs = Vec::new();
    for &p in prios {
        hs.push(spawn(&mut k, &mut pool, 0x0800_1001, 0, Some("task"), p, 1024, EXIT).unwrap());
    }
    let sp = k.schedule(idle_sp);
    (k, pool, hs, sp)
}

fn regs(r0: u32, r1: u32) -> SvcRegs {
    SvcRegs { r0, r1 }
}

#[test]
fn error_codes_and_messages() {
    assert_eq!(WhyError::OutOfMemory.code(), 0);
    assert_eq!(WhyError::MaxTasksReached.code(), 1);
    assert_eq!(WhyError::InvalidOperation.code(), 2);
    assert_eq!(WhyError::InvalidTaskId.code(), 3);
    assert_eq!(WhyError::InternalError.code(), 4);
    assert_eq!(WhyError::InvalidHandle.code(), 5);
    assert_eq!(WhyError::OutOfMemory.as_str(), "Out of memory");
    assert_eq!(WhyError::MaxTasksReached.as_str(), "Maximum number of tasks reached");
    assert_eq!(WhyError::InvalidOperation.as_str(), "Invalid operation");
    assert_eq!(WhyError::InvalidTaskId.as_str(), "Invalid task ID");
    assert_eq!(WhyError::InternalError.as_str(), "Internal error");
    assert_eq!(WhyError::InvalidHandle.as_str(), "Invalid handle");
}

#[test]
fn state_names() {
    assert_eq!(TaskState::Ready.name(), "Ready");
    assert_eq!(TaskState::Running.name(), "Running");
    assert_eq!(TaskState::Blocked(BlockReason::WaitQueue).name(), "Blocked");
    assert_eq!(TaskState::Suspended(ResumeContext::Ready).name(), "Suspended");
    assert_eq!(TaskState::Zombie.name(), "Zombie");
    assert_eq!(TaskState::Dead.name(), "Dead");
}

#[test]
fn resume_context_and_state_convert() {
    assert_eq!(TaskState::from(ResumeContext::Ready), TaskState::Ready);
    let sleep = BlockReason::Sleep(7);
    assert_eq!(TaskState::from(ResumeContext::Blocked(sleep)), TaskState::Blocked(sleep));
    assert_eq!(ResumeContext::try_from(TaskState::Running), Ok(ResumeContext::Ready));
    assert_eq!(ResumeContext::try_from(TaskState::Ready), Ok(ResumeContext::Ready));
    assert_eq!(ResumeContext::try_from(TaskState::Blocked(sleep)), Ok(ResumeContext::Blocked(sleep)));
    assert_eq!(ResumeContext::try_from(TaskState::Zombie), Err(WhyError::InvalidOperation));
    assert_eq!(ResumeContext::try_from(TaskState::Dead), Err(WhyError::InvalidOperation));
    assert_eq!(
        ResumeContext::try_from(TaskState::Suspended(ResumeContext::Ready)),
        Err(WhyError::InvalidOperation)
    );
}

#[test]
fn svc_numbers_round_trip() {
    for id in 0u8..=255 {
        match SvcNumber::try_from(id) {
            Ok(n) => assert_eq!(n.id(), id),
            Err(e) => {
                assert_eq!(e, WhyError::InvalidOperation);
                assert!(id == 12 || id > 19);
            },
        }
    }
    assert_eq!(SvcNumber::try_from(17), Ok(SvcNumber::Spawn));
    assert_eq!(SvcNumber::Reboot.id(), 19);
}

#[test]
fn frequencies() {
    assert_eq!(Freq::one_khz().as_hz(), 1000);
    assert!(Freq::from_hz(0).is_none());
    assert_eq!(Freq::from_hz(250).unwrap().as_hz(), 250);
    assert_eq!(Freq::from_khz(5).unwrap().as_hz(), 5000);
    assert_eq!(Freq::from_khz(5_000_000).unwrap().as_hz(), u32::MAX);
    assert!(Freq::from_khz(0).is_none());
}

#[test]
fn tick_frequency_is_recorded() {
    let (mut k, _, _, _) = boot_with(&[]);
    api::set_tick_freq(&mut k, Freq::from_hz(100).unwrap());
    assert_eq!(api::tick_freq(&k).as_hz(), 100);
    assert_eq!(k.timer_interval(), 100);
}

#[test]
fn trap_causes_decode() {
    assert_eq!(TrapCause::from_mcause(0x8000_0007), TrapCause::Interrupt(Interrupt::MachineTimer));
    assert_eq!(TrapCause::from_mcause(0x8000_0003), TrapCause::Interrupt(Interrupt::MachineSoftware));
    assert_eq!(TrapCause::from_mcause(0x8000_000B), TrapCause::Interrupt(Interrupt::MachineExternal));
    assert_eq!(TrapCause::from_mcause(0x8000_0005), TrapCause::Interrupt(Interrupt::Unknown(5)));
    assert_eq!(TrapCause::from_mcause(2), TrapCause::Exception(Exception::IllegalInstruction));
    assert_eq!(TrapCause::from_mcause(3), TrapCause::Exception(Exception::Breakpoint));
    assert_eq!(TrapCause::from_mcause(11), TrapCause::Exception(Exception::EnvironmentCallFromMMode));
    assert_eq!(TrapCause::from_mcause(5), TrapCause::Exception(Exception::Unknown(5)));
}

#[test]
fn trap_actions() {
    assert_eq!(TrapCause::from_mcause(0x8000_0007).action(), TrapAction::TimerTick);
    assert_eq!(TrapCause::from_mcause(0x8000_000B).action(), TrapAction::External);
    assert_eq!(TrapCause::from_mcause(0x8000_0003).action(), TrapAction::Switch);
    assert_eq!(TrapCause::from_mcause(0x8000_0009).action(), TrapAction::Switch);
    assert_eq!(TrapCause::from_mcause(11).action(), TrapAction::SkipAndSwitch);
    assert_eq!(TrapCause::from_mcause(3).action(), TrapAction::Skip);
    assert_eq!(
        TrapCause::from_mcause(2).action(),
        TrapAction::Fatal(Exception::IllegalInstruction)
    );
    assert_eq!(TrapCause::from_mcause(13).action(), TrapAction::Fatal(Exception::Unknown(13)));
}

#[test]
fn timer_tick_counts_and_reschedules() {
    let (mut k, _, hs, sp) = boot_with(&[4, 4]);
    k.set_timer_interval(1000);
    let (compare, next_sp) = timer_tick(&mut k, sp, 5_000);
    assert_eq!(compare, 6_000);
    assert_eq!(k.system_ticks(), 1);
    assert_eq!(k.current_task().unwrap().id(), 1);
    let info = syscall::get_task_info(&k, hs[1].tid()).unwrap();
    assert_eq!(next_sp, info.current_sp);
}

#[test]
fn timer_periods_and_cycle_conversion() {
    assert_eq!(SioTimer::schedule_next(1000, 1000), 2000);
    assert_eq!(SioTimer::schedule_next(0, 1), 1_000_000);
    assert_eq!(SioTimer::schedule_next(7, 3), 7 + 333_333);
    assert_eq!(cycles_to_ns(150, SYS_CLOCK_MHZ), 1000);
    assert_eq!(cycles_to_ns(1, 150), 6);
    assert_eq!(cycles_to_ns(0, 150), 0);
}

#[test]
fn syscalls_report_kernel_state() {
    let (mut k, mut pool, hs, _) = boot_with(&[4, 7]);
    assert_eq!(syscall::get_current_tid(&k).id(), 0);
    assert_eq!(syscall::get_current_name(&k), Some("task"));
    assert_eq!(syscall::get_task_count(&k), 2);
    assert_eq!(syscall::get_allocated_tasks(&k).raw(), 0b11);
    let info = syscall::get_task_info(&k, TaskId::new(1).unwrap()).unwrap();
    assert_eq!(info.priority, 7);
    assert!(syscall::get_task_info(&k, TaskId::new(5).unwrap()).is_err());
    assert_eq!(syscall::suspend(&mut k, TaskId::new(5).unwrap()).err(), Some(WhyError::InvalidTaskId));
    assert!(syscall::suspend(&mut k, TaskId::new(1).unwrap()).is_ok());
    assert_eq!(k.task(&hs[1]).unwrap().state, TaskState::Suspended(ResumeContext::Ready));
    assert!(syscall::resume(&mut k, TaskId::new(1).unwrap()).is_ok());
    syscall::exit(&mut k);
    assert_eq!(syscall::reclaim_memory(&mut k, &mut pool), 1);
    assert_eq!(syscall::get_task_count(&k), 1);
}

#[test]
fn svc_rejects_unknown_numbers_and_kill() {
    let (mut k, mut pool, _, _) = boot_with(&[4]);
    for id in [12u8, 18, 20, 255] {
        let r = svc_dispatch(&mut k, &mut pool, regs(9, 8), id);
        assert_eq!(r.regs, regs(2, 8));
        assert!(matches!(r.effect, SvcEffect::Done));
    }
}

#[test]
fn svc_reads_the_clock_over_two_registers() {
    let (mut k, mut pool, _, _) = boot_with(&[4]);
    for _ in 0..3 {
        k.on_tick();
    }
    let r = svc_dispatch(&mut k, &mut pool, regs(9, 9), 9);
    assert_eq!(r.regs, regs(3, 0));
}

#[test]
fn svc_sleep_joins_the_two_halves() {
    let (mut k, mut pool, hs, _) = boot_with(&[4]);
    let r = svc_dispatch(&mut k, &mut pool, regs(5, 1), 2);
    assert!(matches!(r.effect, SvcEffect::Yield));
    assert_eq!(
        k.task(&hs[0]).unwrap().state,
        TaskState::Blocked(BlockReason::Sleep(0x1_0000_0005))
    );
}

#[test]
fn svc_suspend_reports_status_words() {
    let (mut k, mut pool, hs, _) = boot_with(&[4, 4]);
    let r = svc_dispatch(&mut k, &mut pool, regs(40, 0), 4);
    assert_eq!(r.regs.r0, 3);
    let r = svc_dispatch(&mut k, &mut pool, regs(7, 0), 4);
    assert_eq!(r.regs.r0, 3);
    let r = svc_dispatch(&mut k, &mut pool, regs(1, 0), 4);
    assert_eq!(r.regs.r0, SVC_SUCCESS);
    assert!(matches!(r.effect, SvcEffect::Done));
    assert_eq!(k.task(&hs[1]).unwrap().state, TaskState::Suspended(ResumeContext::Ready));
    let r = svc_dispatch(&mut k, &mut pool, regs(1, 0), 5);
    assert_eq!(r.regs.r0, SVC_SUCCESS);
    assert!(matches!(r.effect, SvcEffect::Yield));
    let r = svc_dispatch(&mut k, &mut pool, regs(0, 0), 4);
    assert_eq!(r.regs.r0, SVC_SUCCESS);
    assert!(matches!(r.effect, SvcEffect::Yield));
}

#[test]
fn svc_task_queries() {
    let (mut k, mut pool, _, _) = boot_with(&[4, 6]);
    let r = svc_dispatch(&mut k, &mut pool, regs(0, 0), 7);
    assert_eq!(r.regs.r0, 0);
    let r = svc_dispatch(&mut k, &mut pool, regs(0, 0), 10);
    assert_eq!(r.regs.r0, 2);
    let r = svc_dispatch(&mut k, &mut pool, regs(0, 0), 11);
    assert_eq!(r.regs.r0, 0b11);
    let r = svc_dispatch(&mut k, &mut pool, regs(0, 0), 8);
    assert!(matches!(r.effect, SvcEffect::ReportName(Some("task"))));
    let r = svc_dispatch(&mut k, &mut pool, regs(1, 0x2000_8000), 6);
    assert_eq!(r.regs.r0, SVC_SUCCESS);
    match r.effect {
        SvcEffect::StoreTaskInfo(addr, info) => {
            assert_eq!(addr, 0x2000_8000);
            assert_eq!(info.priority, 6);
            assert_eq!(info.handle.tid().id(), 1);
        },
        _ => panic!("expected a store"),
    }
    let r = svc_dispatch(&mut k, &mut pool, regs(9, 0x2000_8000), 6);
    assert_eq!(r.regs.r0, 3);
    assert!(matches!(r.effect, SvcEffect::Done));
}

#[test]
fn svc_watchdog_and_reclaim() {
    let (mut k, mut pool, hs, _) = boot_with(&[4, 4]);
    svc_dispatch(&mut k, &mut pool, regs(3, 0), 14);
    assert_eq!(k.task(&hs[0]).unwrap().watchdog.as_ref().unwrap().interval(), 3);
    svc_dispatch(&mut k, &mut pool, regs(0, 0), 16);
    svc_dispatch(&mut k, &mut pool, regs(0, 0), 15);
    assert!(k.task(&hs[0]).unwrap().watchdog.is_none());
    k.kill_task(&hs[1]).unwrap();
    let r = svc_dispatch(&mut k, &mut pool, regs(0, 0), 13);
    assert_eq!(r.regs.r0, 1);
    let r = svc_dispatch(&mut k, &mut pool, regs(0, 0), 3);
    assert!(matches!(r.effect, SvcEffect::Yield));
    assert_eq!(k.task(&hs[0]).unwrap().state, TaskState::Zombie);
}

#[test]
fn svc_yield_spawn_and_reboot_effects() {
    let (mut k, mut pool, _, _) = boot_with(&[4]);
    assert!(matches!(svc_dispatch(&mut k, &mut pool, regs(0, 0), 1).effect, SvcEffect::Yield));
    assert!(matches!(svc_dispatch(&mut k, &mut pool, regs(0, 0), 19).effect, SvcEffect::Reboot));
    let r = svc_dispatch(&mut k, &mut pool, regs(0x2000_9000, 0), 17);
    assert!(matches!(r.effect, SvcEffect::LoadSpawnArgs(0x2000_9000)));
    let args = SpawnArgs { entry: 0x0800_3001, arg: 5, name_addr: 0, name_len: 0, stack_size: 1024, priority: 2 };
    let out = svc_spawn(&mut k, &mut pool, regs(0x2000_9000, 0), args, None, EXIT);
    assert_eq!(out, regs(SVC_SUCCESS, 1));
    let too_big = SpawnArgs { stack_size: 1 << 20, ..args };
    let out = svc_spawn(&mut k, &mut pool, regs(0x2000_9000, 77), too_big, None, EXIT);
    assert_eq!(out, regs(0, 77));
}

#[test]
fn svc_resume_makes_a_suspended_task_ready_again() {
    let (mut k, mut pool, hs, _) = boot_with(&[4, 4]);
    let r = svc_dispatch(&mut k, &mut pool, regs(1, 0), 4);
    assert_eq!(r.regs.r0, SVC_SUCCESS);
    assert_eq!(k.task(&hs[1]).unwrap().state, TaskState::Suspended(ResumeContext::Ready));
    let r = svc_dispatch(&mut k, &mut pool, regs(1, 0), 5);
    assert_eq!(r.regs.r0, SVC_SUCCESS);
    assert!(matches!(r.effect, SvcEffect::Yield));
    assert_eq!(k.task(&hs[1]).unwrap().state, TaskState::Ready);
    // resuming a task that is not suspended leaves it as it is
    let r = svc_dispatch(&mut k, &mut pool, regs(1, 0), 5);
    assert_eq!(r.regs.r0, SVC_SUCCESS);
    assert!(matches!(r.effect, SvcEffect::Done));
    assert_eq!(k.task(&hs[1]).unwrap().state, TaskState::Ready);
}

#[test]
fn bench_stats_skip_the_warm_up_and_handle_a_wrapped_counter() {
    let start = vec![0, 100, 200, 0xffff_fff0, 1000];
    let end = vec![5000, 130, 220, 0x0000_0010, 1040];
    // elapsed: (warm-up), 30, 20, 32, 40
    assert_eq!(bench_stats(&start, &end), (20, 30));
    assert_eq!(bench_stats(&vec![7, 7], &vec![7, 9]), (2, 2));
}

#[test]
fn svc_reclaim_gives_the_zombie_stack_back_to_the_heap() {
    let (mut k, mut pool, hs, _) = boot_with(&[4, 4]);
    let first_base = k.handle(hs[0].tid()).unwrap().info(&k).unwrap().stack_base;
    k.kill_task(&hs[0]).unwrap();
    let r = svc_dispatch(&mut k, &mut pool, regs(0, 0), 13);
    assert_eq!(r.regs.r0, 1);
    let h = spawn(&mut k, &mut pool, 0x0800_1001, 0, Some("again"), 4, 1024, EXIT).unwrap();
    assert_eq!(h.info(&k).unwrap().stack_base, first_base);
}
