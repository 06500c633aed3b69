use whyos::frame::{
    HwStackFrame, InitStackFrame, RiscvStackFrame, SwStackFrame, EXC_RETURN_THREAD_PSP, FRAME_BYTES,
    FRAME_WORDS, MSTATUS_TASK_START, RISCV_FRAME_WORDS, RISCV_MEPC_WORD, XPSR_THUMB,
};
use whyos::memory::{MemChunk, MemoryPool, StaticMemory, BLOCK_SIZE, MAX_BLOCKS, TOTAL_BYTES};
use whyos::stack::{Stack, STACK_CANARY, STACK_PAINT};

const HEAP: usize = 0x2000_0000;

#[test]
fn pool_rounds_up_to_whole_blocks() {
    let mut pool = MemoryPool::new(HEAP);
    let a = pool.allocate(1500).unwrap();
    assert_eq!(a.ptr(), HEAP);
    assert_eq!(a.size(), 2 * BLOCK_SIZE);
    let b = pool.allocate(1024).unwrap();
    assert_eq!(b.ptr(), HEAP + 2 * BLOCK_SIZE);
    assert_eq!(b.size(), BLOCK_SIZE);
    let c = pool.allocate(1).unwrap();
    assert_eq!(c.ptr(), HEAP + 3 * BLOCK_SIZE);
    assert_eq!(c.size(), BLOCK_SIZE);
}

#[test]
fn pool_rejects_empty_and_oversized_requests() {
    let mut pool = MemoryPool::new(HEAP);
    assert!(pool.allocate(0).is_none());
    assert!(pool.allocate(TOTAL_BYTES + 1).is_none());
    let all = pool.allocate(TOTAL_BYTES).unwrap();
    assert_eq!(all.ptr(), HEAP);
    assert_eq!(all.size(), MAX_BLOCKS * BLOCK_SIZE);
    assert!(pool.allocate(1).is_none());
}

#[test]
fn pool_reuses_freed_blocks_first_fit() {
    let mut pool = MemoryPool::new(HEAP);
    let a = pool.allocate(2048).unwrap();
    let b = pool.allocate(1024).unwrap();
    assert_eq!(b.ptr(), HEAP + 2048);
    pool.dealloc(a);
    // a one-block request takes the first free block
    let c = pool.allocate(512).unwrap();
    assert_eq!(c.ptr(), HEAP);
    // a three-block request does not fit in the remaining hole
    let d = pool.allocate(3 * 1024).unwrap();
    assert_eq!(d.ptr(), HEAP + 3 * 1024);
    let e = pool.allocate(1024).unwrap();
    assert_eq!(e.ptr(), HEAP + 1024);
    assert_eq!(pool.base_addr(), HEAP);
}

#[test]
fn pool_alloc_then_dealloc_restores_space() {
    let mut pool = MemoryPool::new(HEAP);
    let a = pool.allocate(TOTAL_BYTES / 2).unwrap();
    let b = pool.allocate(TOTAL_BYTES / 2).unwrap();
    assert!(pool.allocate(1).is_none());
    pool.dealloc(b);
    let c = pool.allocate(TOTAL_BYTES / 2).unwrap();
    assert_eq!(c.ptr(), HEAP + TOTAL_BYTES / 2);
    pool.dealloc(a);
    pool.dealloc(c);
    assert_eq!(pool.allocate(TOTAL_BYTES).unwrap().ptr(), HEAP);
}

#[test]
fn frames_hold_their_marker_values() {
    let hw = HwStackFrame::new(0x1234, 42, 0x5678);
    assert_eq!(hw.r0, 42);
    assert_eq!(hw.r1, 0x1111_1111);
    assert_eq!(hw.r2, 0x2222_2222);
    assert_eq!(hw.r3, 0x3333_3333);
    assert_eq!(hw.r12, 0xCCCC_CCCC);
    assert_eq!(hw.lr, 0x5678);
    assert_eq!(hw.pc, 0x1234);
    assert_eq!(hw.xpsr, XPSR_THUMB);
    let sw = SwStackFrame::new();
    assert_eq!(sw.r4, 0x4444_4444);
    assert_eq!(sw.r11, 0xBBBB_BBBB);
    assert_eq!(sw.lr, EXC_RETURN_THREAD_PSP);
}

#[test]
fn init_frame_words_in_memory_order() {
    let f = InitStackFrame::new(0x1234, 42, 0x5678);
    assert_eq!(
        f.to_words(),
        vec![
            0x4444_4444, 0x5555_5555, 0x6666_6666, 0x7777_7777, 0x8888_8888, 0x9999_9999, 0xAAAA_AAAA,
            0xBBBB_BBBB, 0xFFFF_FFFD, 42, 0x1111_1111, 0x2222_2222, 0x3333_3333, 0xCCCC_CCCC, 0x5678,
            0x1234, 0x0100_0000,
        ]
    );
    assert_eq!(f.to_words().len() * 4, FRAME_BYTES);
}

#[test]
fn fresh_stack_layout() {
    let mem = StaticMemory::from_raw(0x1000, 256);
    let st = Stack::init(mem, 0x800, 7, 0x900);
    assert_eq!(st.base(), 0x1000);
    assert_eq!(st.size(), 256);
    assert_eq!(st.sp(), 0x1000 + 256 - FRAME_BYTES);
    assert!(st.check_canary());
    // only the initial frame has been written
    assert_eq!(st.usage(), FRAME_WORDS);
}

#[test]
fn stack_usage_tracks_lowest_written_word() {
    let mem = StaticMemory::from_raw(0x1000, 256);
    let mut st = Stack::init(mem, 0x800, 7, 0x900);
    st.store(40, 5);
    assert_eq!(st.usage(), 64 - 40);
    st.store(10, STACK_PAINT);
    assert_eq!(st.usage(), 64 - 40);
    st.store(1, 0);
    assert_eq!(st.usage(), 63);
    assert!(st.check_canary());
}

#[test]
fn stack_canary_detects_overflow() {
    let mem = StaticMemory::from_raw(0x1000, 256);
    let mut st = Stack::init(mem, 0x800, 7, 0x900);
    st.store(0, STACK_CANARY);
    assert!(st.check_canary());
    st.store(0, 0);
    assert!(!st.check_canary());
}

#[test]
fn stack_pointer_is_recorded() {
    let mem = StaticMemory::from_raw(0x1000, 256);
    let mut st = Stack::init(mem, 0x800, 7, 0x900);
    st.set_sp(0x1040);
    assert_eq!(st.sp(), 0x1040);
    let m = st.release();
    assert_eq!(m.ptr(), 0x1000);
    assert_eq!(m.size(), 256);
}

#[test]
fn riscv_frame_layout() {
    let f = RiscvStackFrame::new(0x2000_1000, 9, 0x2000_2000, 0x2000_8000, 0x2000_9000);
    let w = f.to_words();
    assert_eq!(w.len(), RISCV_FRAME_WORDS);
    assert_eq!(w[0], 0x2000_2000);
    assert_eq!(w[1], 0x2000_8000);
    assert_eq!(w[2], 0x2000_9000);
    assert_eq!(w[8], 9);
    assert_eq!(w[RISCV_MEPC_WORD], 0x2000_1000);
    assert_eq!(w[31], MSTATUS_TASK_START);
    assert_eq!(MSTATUS_TASK_START, (1 << 7) | (0b11 << 11));
    assert_eq!(w.iter().filter(|&&x| x == 0).count(), 26);
}
