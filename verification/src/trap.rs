use vstd::prelude::*;
use crate::kernel::Kernel;

verus! {

/// Machine-mode interrupt sources.
#[derive(Debug, Clone, Copy, PartialEq, Eq, Structural)]
pub enum Interrupt {
    MachineSoftware,
    MachineTimer,
    MachineExternal,
    Unknown(u32),
}

/// Machine-mode exception causes.
#[derive(Debug, Clone, Copy, PartialEq, Eq, Structural)]
pub enum Exception {
    InstructionAddressMisaligned,
    InstructionAccessFault,
    IllegalInstruction,
    Breakpoint,
    LoadAddressMisaligned,
    LoadAccessFault,
    StoreAddressMisaligned,
    StoreAccessFault,
    EnvironmentCallFromUMode,
    EnvironmentCallFromSMode,
    EnvironmentCallFromMMode,
    InstructionPageFault,
    LoadPageFault,
    StorePageFault,
    Unknown(u32),
}

/// Why a trap was taken.
#[derive(Debug, Clone, Copy, PartialEq, Eq, Structural)]
pub enum TrapCause {
    Interrupt(Interrupt),
    Exception(Exception),
}

/// The interrupt with cause code `code`.
pub open spec fn interrupt_of(code: u32) -> Interrupt {
    if code == 3 {
        Interrupt::MachineSoftware
    } else if code == 7 {
        Interrupt::MachineTimer
    } else if code == 11 {
        Interrupt::MachineExternal
    } else {
        Interrupt::Unknown(code)
    }
}

/// The exception with cause code `code`.
pub open spec fn exception_of(code: u32) -> Exception {
    if code == 2 {
        Exception::IllegalInstruction
    } else if code == 3 {
        Exception::Breakpoint
    } else if code == 11 {
        Exception::EnvironmentCallFromMMode
    } else {
        Exception::Unknown(code)
    }
}

/// Position of the interrupt flag in the cause register.
pub const INTERRUPT_BIT: u32 = 31;

impl TrapCause {
    /// Decodes the cause register: the top bit tells an interrupt from an
    /// exception, the low 31 bits give the code.
    pub fn from_mcause(mcause: u32) -> (r: Self)
        ensures
            r == if mcause >= 0x8000_0000 {
                TrapCause::Interrupt(interrupt_of((mcause % 0x8000_0000) as u32))
            } else {
                TrapCause::Exception(exception_of(mcause))
            },
    {
        let is_interrupt = (mcause >> INTERRUPT_BIT) != 0;
        let code = mcause & 0x7FFF_FFFF;
        proof {
            assert(((mcause >> 31u32) != 0) == (mcause >= 0x8000_0000)) by (bit_vector);
            assert(mcause & 0x7FFF_FFFF == mcause % 0x8000_0000) by (bit_vector);
        }
        if is_interrupt {
            TrapCause::Interrupt(
                match code {
                    3 => Interrupt::MachineSoftware,
                    7 => Interrupt::MachineTimer,
                    11 => Interrupt::MachineExternal,
                    _ => Interrupt::Unknown(code),
                },
            )
        } else {
            TrapCause::Exception(
                match code {
                    2 => Exception::IllegalInstruction,
                    3 => Exception::Breakpoint,
                    11 => Exception::EnvironmentCallFromMMode,
                    _ => Exception::Unknown(code),
                },
            )
        }
    }
}

/// What the trap handler does for a trap.
#[derive(Debug, Clone, Copy, PartialEq, Eq, Structural)]
pub enum TrapAction {
    /// Reprogram the timer, count a tick and switch tasks.
    TimerTick,
    /// Run the external interrupt handler, then switch tasks.
    External,
    /// Switch tasks.
    Switch,
    /// Step past the trapping instruction, then switch tasks.
    SkipAndSwitch,
    /// Step past the trapping instruction and go on with the same task.
    Skip,
    /// Stop: the exception cannot be recovered from.
    Fatal(Exception),
}

/// The handler's answer to each cause: the timer and external interrupts
/// get their own handling, any other interrupt only switches tasks; an
/// environment call is stepped past and switches tasks, a breakpoint is
/// stepped past without a switch, and every other exception is fatal.
pub open spec fn action_of(cause: TrapCause) -> TrapAction {
    match cause {
        TrapCause::Interrupt(Interrupt::MachineTimer) => TrapAction::TimerTick,
        TrapCause::Interrupt(Interrupt::MachineExternal) => TrapAction::External,
        TrapCause::Interrupt(_) => TrapAction::Switch,
        TrapCause::Exception(Exception::EnvironmentCallFromMMode) => TrapAction::SkipAndSwitch,
        TrapCause::Exception(Exception::Breakpoint) => TrapAction::Skip,
        TrapCause::Exception(e) => TrapAction::Fatal(e),
    }
}

/// Of the exceptions, as the cause register's code `code` names them,
/// only the breakpoint (code 3) is stepped past without a switch and only
/// the environment call from machine mode (code 11) is stepped past with
/// one; every other exception stops the system, reporting itself.
pub proof fn lemma_exception_actions(code: u32)
    requires
        code < 0x8000_0000,
    ensures
        (action_of(TrapCause::Exception(exception_of(code))) == TrapAction::Skip) <==> code == 3,
        (action_of(TrapCause::Exception(exception_of(code))) == TrapAction::SkipAndSwitch) <==> code == 11,
        code != 3 && code != 11 ==> action_of(TrapCause::Exception(exception_of(code))) == TrapAction::Fatal(
            exception_of(code),
        ),
        code != 3 && code != 11 && code != 2 ==> action_of(TrapCause::Exception(exception_of(code)))
            == TrapAction::Fatal(Exception::Unknown(code)),
{
}

/// Of the interrupts, as the cause register's code `code` names them, the
/// timer (code 7) counts a tick, the external interrupt (code 11) runs its
/// handler, and every other one only switches tasks; none stops the system.
pub proof fn lemma_interrupt_actions(code: u32)
    ensures
        (action_of(TrapCause::Interrupt(interrupt_of(code))) == TrapAction::TimerTick) <==> code == 7,
        (action_of(TrapCause::Interrupt(interrupt_of(code))) == TrapAction::External) <==> code == 11,
        code != 7 && code != 11 ==> action_of(TrapCause::Interrupt(interrupt_of(code))) == TrapAction::Switch,
{
}

/// Bytes a trap that is stepped past advances the saved program counter.
pub const INSTRUCTION_BYTES: u32 = 4;

impl TrapCause {
    /// What the trap handler does for this cause; see [`action_of`].
    pub fn action(&self) -> (r: TrapAction)
        ensures
            r == action_of(*self),
            (r is Skip || r is SkipAndSwitch) <==> (*self == TrapCause::Exception(Exception::Breakpoint) || *self
                == TrapCause::Exception(Exception::EnvironmentCallFromMMode)),
            r is TimerTick <==> *self == TrapCause::Interrupt(Interrupt::MachineTimer),
            r is External <==> *self == TrapCause::Interrupt(Interrupt::MachineExternal),
            r is Switch <==> (*self is Interrupt && !(r is TimerTick) && !(r is External)),
            match *self {
                TrapCause::Exception(e) => e != Exception::Breakpoint && e != Exception::EnvironmentCallFromMMode
                    ==> r == TrapAction::Fatal(e),
                TrapCause::Interrupt(_) => !(r is Fatal),
            },
    {
        match self {
            TrapCause::Interrupt(Interrupt::MachineTimer) => TrapAction::TimerTick,
            TrapCause::Interrupt(Interrupt::MachineExternal) => TrapAction::External,
            TrapCause::Interrupt(_) => TrapAction::Switch,
            TrapCause::Exception(Exception::EnvironmentCallFromMMode) => TrapAction::SkipAndSwitch,
            TrapCause::Exception(Exception::Breakpoint) => TrapAction::Skip,
            TrapCause::Exception(e) => TrapAction::Fatal(*e),
        }
    }
}

/// The timer interrupt taken with the timer reading `now` and the
/// interrupted task's stack pointer `sp`: answers the next timer compare
/// value, `now` plus the kernel's timer interval, and the stack pointer of
/// the task to run, after counting one tick ([`Kernel::on_tick`]) and
/// choosing the next task ([`Kernel::schedule`]).
pub fn timer_tick(k: &mut Kernel, sp: usize, now: u64) -> (r: (u64, usize))
    requires
        old(k).wf(),
        old(k).idle() is Some,
        old(k).ticks() < u64::MAX,
        now + old(k).interval() <= u64::MAX,
        !old(k).current_stack_broken(),
    ensures
        r.0 == now + old(k).interval(),
        final(k).wf(),
        final(k).ticks() == old(k).ticks() + 1,
        final(k).live() == old(k).live(),
        final(k).interval() == old(k).interval(),
        r.1 == match final(k).current() {
            Some(n) => final(k).tcbs()[n@ as int].stack->0.stack_pointer(),
            None => final(k).idle()->0.stack().stack_pointer(),
        },
        exists|mid: Kernel|
            #![trigger old(k).ticks_to(mid, (old(k).ticks() + 1) as u64)]
            old(k).ticks_to(mid, (old(k).ticks() + 1) as u64) && mid.switches_to(*final(k), sp, r.1),
{
    let interval = k.timer_interval() as u64;
    let compare = now + interval;
    let ghost k0 = *k;
    k.on_tick();
    proof {
        if let Some(c) = k0.current() {
            assert(k.tcbs()[c@ as int].stack == k0.tcbs()[c@ as int].stack);
        }
    }
    let ghost mid = *k;
    let next_sp = k.schedule(sp);
    assert(k0.ticks_to(mid, (k0.ticks() + 1) as u64) && mid.switches_to(*k, sp, next_sp));
    (compare, next_sp)
}

/// The RISC-V platform timer of the RP2350, which counts microseconds.
pub struct SioTimer;

impl SioTimer {
    /// The compare value that makes the timer fire one tick of
    /// `interval_hz` after `now` (in microseconds).
    pub fn schedule_next(now: u64, interval_hz: u32) -> (r: u64)
        requires
            interval_hz > 0,
            now + 1_000_000int / (interval_hz as int) <= u64::MAX,
        ensures
            r == now + 1_000_000int / (interval_hz as int),
    {
        let interval_us = (1_000_000 / interval_hz) as u64;
        now + interval_us
    }
}

/// Microseconds between two ticks at `tick_hz` ticks per second: the
/// reload value of a tick timer counting at one megahertz.
pub fn tick_period_us(tick_hz: u32) -> (r: u32)
    requires
        tick_hz > 0,
    ensures
        r == 1_000_000int / (tick_hz as int),
{
    1_000_000u32 / tick_hz
}

} // verus!
