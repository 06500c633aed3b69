use vstd::prelude::*;
use crate::frame::{
    InitStackFrame,
    FRAME_WORDS,
    FRAME_BYTES,
    EXC_RETURN_THREAD_PSP,
    XPSR_THUMB,
    frame_words,
    initial_sw_frame,
    hw_frame_for,
};
use crate::memory::{MemChunk, AllocatedMemory};

verus! {

/// Word kept at the lowest address of every stack; a different value there
/// means the stack overflowed.
pub const STACK_CANARY: u32 = 0xDEAD_C0DE;

/// Word every unused stack slot holds, so that the high-water mark can be
/// measured.
pub const STACK_PAINT: u32 = 0xFEED_FACE;

/// The words of a fresh stack of `n` words: canary at the bottom, the
/// initial frame at the top, paint in between.
pub open spec fn initial_contents(n: int, frame: Seq<u32>) -> Seq<u32> {
    Seq::new(
        n as nat,
        |i: int|
            if i == 0 {
                STACK_CANARY
            } else if i < n - frame.len() {
                STACK_PAINT
            } else {
                frame[i - (n - frame.len())]
            },
    )
}

/// Whether the words `contents` of a stack, lowest address first, make a
/// task start at `entry` with `arg` and return to `ret` on its first switch:
/// the canary in the bottom word, paint up to the frame, and in the frame
/// the thread-mode return code, `arg` in r0, `ret` in lr, `entry` in pc
/// and the Thumb bit in xPSR.
pub open spec fn starts_task(contents: Seq<u32>, entry: usize, arg: usize, ret: usize) -> bool {
    let n = contents.len() as int;
    &&& n > FRAME_WORDS
    &&& contents[0] == STACK_CANARY
    &&& forall|i: int| 1 <= i < n - FRAME_WORDS ==> #[trigger] contents[i] == STACK_PAINT
    &&& contents[n - 9] == EXC_RETURN_THREAD_PSP
    &&& contents[n - 8] == arg as u32
    &&& contents[n - 3] == ret as u32
    &&& contents[n - 2] == entry as u32
    &&& contents[n - 1] == XPSR_THUMB
}

/// A fresh stack of `n` words starts its task where it was told to: the
/// bottom word is the canary, r0 holds the argument, lr the return address
/// and pc the entry point.
pub proof fn lemma_fresh_stack_starts_task(n: int, entry: usize, arg: usize, ret: usize)
    requires
        n > FRAME_WORDS,
    ensures
        starts_task(
            initial_contents(
                n,
                frame_words(InitStackFrame { sw_frame: initial_sw_frame(), hw_frame: hw_frame_for(entry, arg, ret) }),
            ),
            entry,
            arg,
            ret,
        ),
{
    let f = frame_words(InitStackFrame { sw_frame: initial_sw_frame(), hw_frame: hw_frame_for(entry, arg, ret) });
    let c = initial_contents(n, f);
    assert(f.len() == FRAME_WORDS);
    assert(c[n - 9] == f[8]);
    assert(c[n - 8] == f[9]);
    assert(c[n - 3] == f[14]);
    assert(c[n - 2] == f[15]);
    assert(c[n - 1] == f[16]);
}

/// Words of a stack that have been written to: everything from the lowest
/// word above the canary that no longer holds paint up to the top; the
/// whole stack when every such word still holds paint.
pub open spec fn used_words(contents: Seq<u32>, r: int) -> bool {
    ||| exists|i: int|
        1 <= i < contents.len() && contents[i] != STACK_PAINT && (forall|j: int|
            1 <= j < i ==> #[trigger] contents[j] == STACK_PAINT) && r == contents.len() - i
    ||| (forall|j: int| 1 <= j < contents.len() ==> #[trigger] contents[j] == STACK_PAINT) && r == contents.len()
}

/// A task stack: a chunk of memory, its contents as words (lowest address
/// first) and the saved stack pointer.
pub struct Stack<M: MemChunk> {
    mem: M,
    words: Vec<u32>,
    sp: usize,
}

/// Stack of a spawned task, carved from the heap.
pub type TaskStack = Stack<AllocatedMemory>;

impl<M: MemChunk> Stack<M> {
    #[verifier::type_invariant]
    spec fn well_formed(self) -> bool {
        &&& self.words@.len() * 4 == self.mem.chunk_size()
        &&& self.words@.len() > FRAME_WORDS
        &&& self.mem.chunk_ptr() + self.mem.chunk_size() <= usize::MAX
    }

    /// The memory the stack lives in.
    pub closed spec fn memory(&self) -> &M {
        &self.mem
    }

    /// The stack's words, lowest address first.
    pub closed spec fn contents(&self) -> Seq<u32> {
        self.words@
    }

    /// The saved stack pointer.
    pub closed spec fn stack_pointer(&self) -> usize {
        self.sp
    }

    /// The same stack with `sp` as its saved stack pointer.
    pub closed spec fn with_sp(self, sp: usize) -> Self {
        Stack { sp, ..self }
    }

    /// Replacing the saved stack pointer changes nothing else.
    pub proof fn lemma_with_sp(self, sp: usize)
        ensures
            self.with_sp(sp).stack_pointer() == sp,
            self.with_sp(sp).contents() == self.contents(),
            *self.with_sp(sp).memory() == *self.memory(),
    {
    }

    /// The stack of a task in `mem` that starts at `entry` with `arg` and
    /// returns to `ret`: its recorded contents have every word painted, the
    /// initial frame at the top and the canary at the bottom, and the saved
    /// stack pointer at the frame. The platform layer writes these words
    /// (see [`Stack::words`]) into the memory itself.
    pub fn init(mem: M, entry: usize, arg: usize, ret: usize) -> (r: Self)
        requires
            mem.chunk_ptr() % 8 == 0,
            mem.chunk_size() % 4 == 0,
            mem.chunk_size() >= FRAME_BYTES + 4,
            mem.chunk_ptr() + mem.chunk_size() <= usize::MAX,
        ensures
            *r.memory() == mem,
            r.stack_pointer() == mem.chunk_ptr() + mem.chunk_size() - FRAME_BYTES,
            r.contents() == initial_contents(
                mem.chunk_size() as int / 4,
                frame_words(
                    InitStackFrame {
                        sw_frame: initial_sw_frame(),
                        hw_frame: hw_frame_for(entry, arg, ret),
                    },
                ),
            ),
            starts_task(r.contents(), entry, arg, ret),
    {
        proof {
            lemma_fresh_stack_starts_task(mem.chunk_size() as int / 4, entry, arg, ret);
        }
        let ptr = mem.ptr();
        let size = mem.size();
        let paint_count = size / 4;
        let mut words: Vec<u32> = Vec::new();
        while words.len() < paint_count
            invariant
                words@.len() <= paint_count,
                forall|j: int| 0 <= j < words@.len() ==> #[trigger] words@[j] == STACK_PAINT,
            decreases paint_count - words@.len(),
        {
            words.push(STACK_PAINT);
        }
        let frame = InitStackFrame::new(entry, arg, ret);
        let fw = frame.to_words();
        let frame_start = paint_count - FRAME_WORDS;
        let mut k: usize = 0;
        while k < FRAME_WORDS
            invariant
                k <= FRAME_WORDS,
                fw@.len() == FRAME_WORDS,
                words@.len() == paint_count,
                paint_count > FRAME_WORDS,
                frame_start == paint_count - FRAME_WORDS,
                forall|j: int| 0 <= j < frame_start ==> #[trigger] words@[j] == STACK_PAINT,
                forall|j: int| frame_start <= j < frame_start + k ==> #[trigger] words@[j] == fw@[j - frame_start],
                forall|j: int| frame_start + k <= j < paint_count ==> #[trigger] words@[j] == STACK_PAINT,
            decreases FRAME_WORDS - k,
        {
            words.set(frame_start + k, fw[k]);
            k = k + 1;
        }
        words.set(0, STACK_CANARY);
        let sp = ptr + size - FRAME_BYTES;
        let r = Stack { mem, words, sp };
        proof {
            assert(r.words@ =~= initial_contents(size as int / 4, fw@));
        }
        r
    }

    /// The recorded contents, lowest address first.
    pub fn words(&self) -> (r: Vec<u32>)
        ensures
            r@ == self.contents(),
    {
        let mut out: Vec<u32> = Vec::new();
        let mut i: usize = 0;
        while i < self.words.len()
            invariant
                i <= self.words@.len(),
                out@ == self.words@.subrange(0, i as int),
            decreases self.words@.len() - i,
        {
            out.push(self.words[i]);
            i = i + 1;
        }
        assert(self.words@.subrange(0, self.words@.len() as int) =~= self.words@);
        out
    }

    /// Gives up the stack and returns the memory it lived in.
    pub fn release(self) -> (r: M)
        ensures
            r == *self.memory(),
    {
        self.mem
    }

    /// The saved stack pointer.
    pub fn sp(&self) -> (r: usize)
        ensures
            r == self.stack_pointer(),
    {
        self.sp
    }

    /// Records `sp` as the saved stack pointer.
    pub fn set_sp(&mut self, sp: usize)
        ensures
            *final(self) == old(self).with_sp(sp),
            final(self).stack_pointer() == sp,
            final(self).contents() == old(self).contents(),
            *final(self).memory() == *old(self).memory(),
    {
        proof {
            use_type_invariant(&*self);
        }
        self.sp = sp;
    }

    /// Records that the stack word at `index` (counted from the lowest
    /// address) now holds `value`, as read back from the stack's memory.
    pub fn store(&mut self, index: usize, value: u32)
        requires
            index < old(self).contents().len(),
        ensures
            final(self).contents() == old(self).contents().update(index as int, value),
            final(self).stack_pointer() == old(self).stack_pointer(),
            *final(self).memory() == *old(self).memory(),
        no_unwind
    {
        proof {
            use_type_invariant(&*self);
        }
        self.words[index] = value;
    }

    /// Records that the lowest word of the stack, where the canary lives,
    /// now holds `value`, as read back from the stack's memory.
    pub fn record_bottom(&mut self, value: u32)
        ensures
            final(self).contents() == old(self).contents().update(0, value),
            final(self).contents()[0] == value,
            final(self).stack_pointer() == old(self).stack_pointer(),
            *final(self).memory() == *old(self).memory(),
    {
        proof {
            use_type_invariant(&*self);
        }
        self.store(0, value);
    }

    /// Records `words` as the stack's contents, as read back from its
    /// memory, lowest address first.
    pub fn record_contents(&mut self, words: Vec<u32>)
        requires
            words@.len() * 4 == old(self).memory().chunk_size(),
        ensures
            final(self).contents() == words@,
            final(self).stack_pointer() == old(self).stack_pointer(),
            *final(self).memory() == *old(self).memory(),
    {
        proof {
            use_type_invariant(&*self);
        }
        let mut i: usize = 0;
        while i < words.len()
            invariant
                words@.len() == self.contents().len(),
                i <= words@.len(),
                self.stack_pointer() == old(self).stack_pointer(),
                *self.memory() == *old(self).memory(),
                forall|j: int| 0 <= j < i ==> #[trigger] self.contents()[j] == words@[j],
            decreases words@.len() - i,
        {
            self.store(i, words[i]);
            i = i + 1;
        }
        assert(self.contents() =~= words@);
    }

    /// Size of the stack in bytes.
    pub fn size(&self) -> (r: usize)
        ensures
            r == self.memory().chunk_size(),
    {
        self.mem.size()
    }

    /// Lowest address of the stack.
    pub fn base(&self) -> (r: usize)
        ensures
            r == self.memory().chunk_ptr(),
    {
        self.mem.ptr()
    }

    /// Words of the stack that have been written to (its high-water mark),
    /// counted from the top.
    pub fn usage(&self) -> (r: usize)
        ensures
            used_words(self.contents(), r as int),
    {
        proof {
            use_type_invariant(self);
        }
        let count = self.words.len();
        let mut i: usize = 1;
        while i < count
            invariant
                1 <= i <= count,
                count == self.words@.len(),
                forall|j: int| 1 <= j < i ==> #[trigger] self.words@[j] == STACK_PAINT,
            decreases count - i,
        {
            let val = self.words[i];
            if val != STACK_PAINT {
                let used = count - i;
                assert(used_words(self.contents(), used as int));
                return used;
            }
            i = i + 1;
        }
        count
    }

    /// Whether the canary at the bottom of the stack is intact.
    pub fn check_canary(&self) -> (r: bool)
        ensures
            r == (self.contents()[0] == STACK_CANARY),
            self.contents().len() > 0,
    {
        proof {
            use_type_invariant(self);
        }
        self.words[0] == STACK_CANARY
    }
}

} // verus!
