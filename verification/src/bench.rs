use vstd::prelude::*;

verus! {

/// System clock of the benchmark board, in megahertz.
pub const SYS_CLOCK_MHZ: u32 = 150;

/// Converts a cycle count at `clock_mhz` megahertz to nanoseconds
/// (truncated to 32 bits).
pub fn cycles_to_ns(cycles: u32, clock_mhz: u32) -> (r: u32)
    requires
        clock_mhz > 0,
    ensures
        r == ((cycles * 1000) / (clock_mhz as int)) as u32,
{
    let c = cycles as u64 * 1000;
    (c / clock_mhz as u64) as u32
}

/// Cycles between a start and an end reading of a 32-bit cycle counter
/// that may have wrapped once in between.
pub open spec fn elapsed(start: u32, end: u32) -> int {
    if end >= start {
        end - start
    } else {
        end + 0x1_0000_0000 - start
    }
}

/// Sum of the elapsed cycles of samples `1 .. n` (the first sample warms
/// up and is left out).
pub open spec fn elapsed_sum(start: Seq<u32>, end: Seq<u32>, n: int) -> int
    decreases n,
{
    if n <= 1 {
        0
    } else {
        elapsed_sum(start, end, n - 1) + elapsed(start[n - 1], end[n - 1])
    }
}

/// The smallest and the mean (rounded down) elapsed cycle counts of the
/// samples `start[i] .. end[i]`, the first sample left out as a warm-up.
pub fn bench_stats(start: &Vec<u32>, end: &Vec<u32>) -> (r: (u32, u32))
    requires
        start.len() == end.len(),
        start.len() >= 2,
    ensures
        exists|i: int| 1 <= i < start.len() && r.0 == elapsed(start[i], end[i]),
        forall|i: int| 1 <= i < start.len() ==> r.0 <= elapsed(#[trigger] start[i], end[i]),
        r.1 == elapsed_sum(start@, end@, start.len() as int) / (start.len() - 1),
{
    let n = start.len();
    let mut min: u32 = u32::MAX;
    let mut total: u128 = 0;
    let mut i: usize = 1;
    while i < n
        invariant
            n == start.len(),
            n == end.len(),
            1 <= i <= n,
            total == elapsed_sum(start@, end@, i as int),
            total <= (i - 1) * 0xffff_ffff,
            i > 1 ==> exists|j: int| 1 <= j < i && min == elapsed(start[j], end[j]),
            forall|j: int| 1 <= j < i ==> min <= elapsed(#[trigger] start[j], end[j]),
        decreases n - i,
    {
        let cycles = end[i].wrapping_sub(start[i]);
        assert(cycles == elapsed(start[i as int], end[i as int]));
        if cycles < min || i == 1 {
            min = cycles;
        }
        total = total + cycles as u128;
        i = i + 1;
    }
    let mean = total / ((n - 1) as u128);
    assert(mean <= 0xffff_ffff) by (nonlinear_arith)
        requires
            mean == total / ((n - 1) as u128),
            total <= (n - 1) * 0xffff_ffff,
            n >= 2,
    ;
    (min, mean as u32)
}

} // verus!
