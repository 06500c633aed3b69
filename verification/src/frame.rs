use vstd::prelude::*;

verus! {

/// Exception-return value that resumes thread mode on the process stack.
pub const EXC_RETURN_THREAD_PSP: u32 = 0xFFFF_FFFD;

/// Program status word with only the Thumb bit set.
pub const XPSR_THUMB: u32 = 0x0100_0000;

/// Number of words of an initial frame.
pub const FRAME_WORDS: usize = 17;

/// Number of bytes of an initial frame.
pub const FRAME_BYTES: usize = 68;

/// Registers the hardware pops on exception return.
#[derive(Debug, Clone, Copy)]
pub struct HwStackFrame {
    pub r0: u32,
    pub r1: u32,
    pub r2: u32,
    pub r3: u32,
    pub r12: u32,
    pub lr: u32,
    pub pc: u32,
    pub xpsr: u32,
}

/// Registers the context switch pops by hand: r4-r11 and the
/// exception-return value.
#[derive(Debug, Clone, Copy)]
pub struct SwStackFrame {
    pub r4: u32,
    pub r5: u32,
    pub r6: u32,
    pub r7: u32,
    pub r8: u32,
    pub r9: u32,
    pub r10: u32,
    pub r11: u32,
    pub lr: u32,
}

/// The frame placed at the top of a fresh task stack.
#[derive(Debug, Clone, Copy)]
pub struct InitStackFrame {
    pub sw_frame: SwStackFrame,
    pub hw_frame: HwStackFrame,
}

/// The hardware frame that starts `entry_point` with `arg` and returns to
/// `return_handler`.
pub open spec fn hw_frame_for(entry_point: usize, arg: usize, return_handler: usize) -> HwStackFrame {
    HwStackFrame {
        r0: arg as u32,
        r1: 0x1111_1111u32,
        r2: 0x2222_2222u32,
        r3: 0x3333_3333u32,
        r12: 0xCCCC_CCCCu32,
        lr: return_handler as u32,
        pc: entry_point as u32,
        xpsr: XPSR_THUMB,
    }
}

/// The software frame of a task that has not run yet.
pub open spec fn initial_sw_frame() -> SwStackFrame {
    SwStackFrame {
        r4: 0x4444_4444u32,
        r5: 0x5555_5555u32,
        r6: 0x6666_6666u32,
        r7: 0x7777_7777u32,
        r8: 0x8888_8888u32,
        r9: 0x9999_9999u32,
        r10: 0xAAAA_AAAAu32,
        r11: 0xBBBB_BBBBu32,
        lr: EXC_RETURN_THREAD_PSP,
    }
}

impl HwStackFrame {
    /// The hardware frame that starts `entry_point` with `arg` in r0 and
    /// `return_handler` as its return address.
    pub fn new(entry_point: usize, arg: usize, return_handler: usize) -> (r: Self)
        ensures
            r.r0 == arg as u32,
            r.r1 == 0x1111_1111u32,
            r.r2 == 0x2222_2222u32,
            r.r3 == 0x3333_3333u32,
            r.r12 == 0xCCCC_CCCCu32,
            r.lr == return_handler as u32,
            r.pc == entry_point as u32,
            r.xpsr == XPSR_THUMB,
    {
        HwStackFrame {
            r0: arg as u32,
            r1: 0x1111_1111,
            r2: 0x2222_2222,
            r3: 0x3333_3333,
            r12: 0xCCCC_CCCC,
            lr: return_handler as u32,
            pc: entry_point as u32,
            xpsr: XPSR_THUMB,
        }
    }
}

impl SwStackFrame {
    /// The software frame of a task that has not run yet: marker values in
    /// r4-r11 and a return to thread mode on the process stack.
    pub fn new() -> (r: Self)
        ensures
            r.r4 == 0x4444_4444u32,
            r.r5 == 0x5555_5555u32,
            r.r6 == 0x6666_6666u32,
            r.r7 == 0x7777_7777u32,
            r.r8 == 0x8888_8888u32,
            r.r9 == 0x9999_9999u32,
            r.r10 == 0xAAAA_AAAAu32,
            r.r11 == 0xBBBB_BBBBu32,
            r.lr == EXC_RETURN_THREAD_PSP,
    {
        SwStackFrame {
            r4: 0x4444_4444,
            r5: 0x5555_5555,
            r6: 0x6666_6666,
            r7: 0x7777_7777,
            r8: 0x8888_8888,
            r9: 0x9999_9999,
            r10: 0xAAAA_AAAA,
            r11: 0xBBBB_BBBB,
            lr: EXC_RETURN_THREAD_PSP,
        }
    }
}

/// The words of a frame in memory order, lowest address first.
pub open spec fn frame_words(f: InitStackFrame) -> Seq<u32> {
    seq![
        f.sw_frame.r4,
        f.sw_frame.r5,
        f.sw_frame.r6,
        f.sw_frame.r7,
        f.sw_frame.r8,
        f.sw_frame.r9,
        f.sw_frame.r10,
        f.sw_frame.r11,
        f.sw_frame.lr,
        f.hw_frame.r0,
        f.hw_frame.r1,
        f.hw_frame.r2,
        f.hw_frame.r3,
        f.hw_frame.r12,
        f.hw_frame.lr,
        f.hw_frame.pc,
        f.hw_frame.xpsr,
    ]
}

impl InitStackFrame {
    /// The initial frame of a task that starts at `entry_point` with `arg`
    /// and returns to `return_handler`.
    pub fn new(entry_point: usize, arg: usize, return_handler: usize) -> (r: Self)
        ensures
            r.sw_frame == initial_sw_frame(),
            r.hw_frame == hw_frame_for(entry_point, arg, return_handler),
    {
        InitStackFrame {
            sw_frame: SwStackFrame::new(),
            hw_frame: HwStackFrame::new(entry_point, arg, return_handler),
        }
    }

    /// The frame as words in memory order.
    pub fn to_words(&self) -> (r: Vec<u32>)
        ensures
            r@ == frame_words(*self),
            r@.len() == FRAME_WORDS,
    {
        let r = vec![
            self.sw_frame.r4,
            self.sw_frame.r5,
            self.sw_frame.r6,
            self.sw_frame.r7,
            self.sw_frame.r8,
            self.sw_frame.r9,
            self.sw_frame.r10,
            self.sw_frame.r11,
            self.sw_frame.lr,
            self.hw_frame.r0,
            self.hw_frame.r1,
            self.hw_frame.r2,
            self.hw_frame.r3,
            self.hw_frame.r12,
            self.hw_frame.lr,
            self.hw_frame.pc,
            self.hw_frame.xpsr,
        ];
        assert(r@ =~= frame_words(*self));
        r
    }
}

/// Machine status a RISC-V task starts with: machine mode, with interrupts
/// enabled once the trap return runs it.
pub const MSTATUS_TASK_START: u32 = 0x1880;

/// The frame placed at the top of a fresh task stack on the RISC-V cores:
/// every register but `zero` and `sp`, then the return address and status
/// of the trap that starts the task.
#[derive(Debug, Clone, Copy)]
pub struct RiscvStackFrame {
    pub ra: u32,
    pub gp: u32,
    pub tp: u32,
    pub t0: u32,
    pub t1: u32,
    pub t2: u32,
    pub s0: u32,
    pub s1: u32,
    pub a0: u32,
    pub a1: u32,
    pub a2: u32,
    pub a3: u32,
    pub a4: u32,
    pub a5: u32,
    pub a6: u32,
    pub a7: u32,
    pub s2: u32,
    pub s3: u32,
    pub s4: u32,
    pub s5: u32,
    pub s6: u32,
    pub s7: u32,
    pub s8: u32,
    pub s9: u32,
    pub s10: u32,
    pub s11: u32,
    pub t3: u32,
    pub t4: u32,
    pub t5: u32,
    pub t6: u32,
    pub mepc: u32,
    pub mstatus: u32,
}

/// Number of words of a RISC-V initial frame.
pub const RISCV_FRAME_WORDS: usize = 32;

/// Word of a RISC-V frame that holds the trap's return address.
pub const RISCV_MEPC_WORD: usize = 30;

impl RiscvStackFrame {
    /// The frame that starts `entry_point` with `arg` in `a0` and
    /// `return_handler` as its return address; `gp` and `tp` are the
    /// program's global and thread pointers, which every task shares.
    /// Every other register starts at zero.
    pub fn new(entry_point: usize, arg: usize, return_handler: usize, gp: u32, tp: u32) -> (r: Self)
        ensures
            r.ra == return_handler as u32,
            r.gp == gp,
            r.tp == tp,
            r.a0 == arg as u32,
            r.mepc == entry_point as u32,
            r.mstatus == MSTATUS_TASK_START,
            r.t0 == 0 && r.t1 == 0 && r.t2 == 0 && r.s0 == 0 && r.s1 == 0,
            r.a1 == 0 && r.a2 == 0 && r.a3 == 0 && r.a4 == 0 && r.a5 == 0 && r.a6 == 0 && r.a7 == 0,
            r.s2 == 0 && r.s3 == 0 && r.s4 == 0 && r.s5 == 0 && r.s6 == 0 && r.s7 == 0 && r.s8 == 0,
            r.s9 == 0 && r.s10 == 0 && r.s11 == 0 && r.t3 == 0 && r.t4 == 0 && r.t5 == 0 && r.t6 == 0,
    {
        RiscvStackFrame {
            ra: return_handler as u32,
            gp,
            tp,
            t0: 0,
            t1: 0,
            t2: 0,
            s0: 0,
            s1: 0,
            a0: arg as u32,
            a1: 0,
            a2: 0,
            a3: 0,
            a4: 0,
            a5: 0,
            a6: 0,
            a7: 0,
            s2: 0,
            s3: 0,
            s4: 0,
            s5: 0,
            s6: 0,
            s7: 0,
            s8: 0,
            s9: 0,
            s10: 0,
            s11: 0,
            t3: 0,
            t4: 0,
            t5: 0,
            t6: 0,
            mepc: entry_point as u32,
            mstatus: MSTATUS_TASK_START,
        }
    }

    /// The frame as words in memory order, lowest address first.
    pub fn to_words(&self) -> (r: Vec<u32>)
        ensures
            r@.len() == RISCV_FRAME_WORDS,
            r@[0] == self.ra,
            r@[1] == self.gp,
            r@[2] == self.tp,
            r@[8] == self.a0,
            r@[RISCV_MEPC_WORD as int] == self.mepc,
            r@[31] == self.mstatus,
            r@ == seq![
                self.ra, self.gp, self.tp, self.t0, self.t1, self.t2, self.s0, self.s1, self.a0, self.a1,
                self.a2, self.a3, self.a4, self.a5, self.a6, self.a7, self.s2, self.s3, self.s4, self.s5,
                self.s6, self.s7, self.s8, self.s9, self.s10, self.s11, self.t3, self.t4, self.t5, self.t6,
                self.mepc, self.mstatus,
            ],
    {
        let r = vec![
            self.ra, self.gp, self.tp, self.t0, self.t1, self.t2, self.s0, self.s1, self.a0, self.a1,
            self.a2, self.a3, self.a4, self.a5, self.a6, self.a7, self.s2, self.s3, self.s4, self.s5,
            self.s6, self.s7, self.s8, self.s9, self.s10, self.s11, self.t3, self.t4, self.t5, self.t6,
            self.mepc, self.mstatus,
        ];
        assert(r@ =~= seq![
            self.ra, self.gp, self.tp, self.t0, self.t1, self.t2, self.s0, self.s1, self.a0, self.a1,
            self.a2, self.a3, self.a4, self.a5, self.a6, self.a7, self.s2, self.s3, self.s4, self.s5,
            self.s6, self.s7, self.s8, self.s9, self.s10, self.s11, self.t3, self.t4, self.t5, self.t6,
            self.mepc, self.mstatus,
        ]);
        r
    }
}

} // verus!
