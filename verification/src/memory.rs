use vstd::prelude::*;
use crate::bitmap::{fill, free_run};
use crate::multi_bitmap::MultiBitmap;

verus! {

/// Allocation granularity in bytes.
pub const BLOCK_SIZE: usize = 1024;

/// Number of blocks in the heap (the heap size in kilobytes).
pub const MAX_BLOCKS: usize = 256;

/// Number of 64-bit words tracking the blocks.
pub const BITMAP_WORDS: usize = 4;

/// Size of the heap in bytes.
pub const TOTAL_BYTES: usize = 262144;

/// A stretch of memory given by its start address and size in bytes.
pub trait MemChunk {
    /// Start address.
    spec fn chunk_ptr(&self) -> usize;

    /// Size in bytes.
    spec fn chunk_size(&self) -> usize;

    /// Start address.
    fn ptr(&self) -> (r: usize)
        ensures
            r == self.chunk_ptr(),
    ;

    /// Size in bytes.
    fn size(&self) -> (r: usize)
        ensures
            r == self.chunk_size(),
    ;
}

/// Memory reserved outside the heap, such as the idle task's stack.
pub struct StaticMemory {
    ptr: usize,
    size: usize,
}

impl StaticMemory {
    /// The chunk of `size` bytes at address `ptr`.
    pub fn from_raw(ptr: usize, size: usize) -> (r: Self)
        ensures
            r.chunk_ptr() == ptr,
            r.chunk_size() == size,
    {
        StaticMemory { ptr, size }
    }
}

impl MemChunk for StaticMemory {
    closed spec fn chunk_ptr(&self) -> usize {
        self.ptr
    }

    closed spec fn chunk_size(&self) -> usize {
        self.size
    }

    fn ptr(&self) -> (r: usize) {
        self.ptr
    }

    fn size(&self) -> (r: usize) {
        self.size
    }
}

/// A chunk handed out by the heap; its size is a whole number of blocks.
pub struct AllocatedMemory {
    ptr: usize,
    size: usize,
}

impl MemChunk for AllocatedMemory {
    closed spec fn chunk_ptr(&self) -> usize {
        self.ptr
    }

    closed spec fn chunk_size(&self) -> usize {
        self.size
    }

    fn ptr(&self) -> (r: usize) {
        self.ptr
    }

    fn size(&self) -> (r: usize) {
        self.size
    }
}

/// Number of blocks a request of `size` bytes takes: `size` rounded up to
/// whole blocks.
pub open spec fn blocks_for(size: usize) -> int {
    (size as int + BLOCK_SIZE - 1) / (BLOCK_SIZE as int)
}

/// Whether the chunk at `ptr` of `size` bytes is a run of whole blocks of
/// the heap starting at `base`.
pub open spec fn chunk_in_heap(base: usize, ptr: usize, size: usize) -> bool {
    &&& base <= ptr
    &&& (ptr - base) % (BLOCK_SIZE as int) == 0
    &&& (size as int) % (BLOCK_SIZE as int) == 0
    &&& (ptr - base) / (BLOCK_SIZE as int) + (size as int) / (BLOCK_SIZE as int) <= MAX_BLOCKS
}

/// First block of a heap chunk.
pub open spec fn first_block(base: usize, ptr: usize) -> int {
    (ptr - base) / (BLOCK_SIZE as int)
}

/// A first-fit allocator of whole blocks over a heap starting at a fixed
/// address; one bit per block records whether it is handed out.
pub struct MemoryPool {
    base: usize,
    bitmap: MultiBitmap<BITMAP_WORDS>,
}

impl MemoryPool {
    #[verifier::type_invariant]
    spec fn addresses_fit(self) -> bool {
        &&& self.base + TOTAL_BYTES <= usize::MAX
        &&& self.base % 8 == 0
        &&& self.bitmap@.len() == MAX_BLOCKS
    }

    /// Start address of the heap.
    pub closed spec fn base(&self) -> usize {
        self.base
    }

    /// Which blocks are handed out.
    pub closed spec fn used(&self) -> Seq<bool> {
        self.bitmap@
    }

    /// Whether `m` is a run of whole blocks of this heap.
    pub open spec fn holds<M: MemChunk>(&self, m: &M) -> bool {
        chunk_in_heap(self.base(), m.chunk_ptr(), m.chunk_size())
    }

    /// An empty heap starting at `base`.
    pub fn new(base: usize) -> (r: Self)
        requires
            base + TOTAL_BYTES <= usize::MAX,
            base % 8 == 0,
        ensures
            r.base() == base,
            r.used() == Seq::new(MAX_BLOCKS as nat, |i: int| false),
    {
        let bitmap = MultiBitmap::<BITMAP_WORDS>::new();
        MemoryPool { base, bitmap }
    }

    /// The heap always has `MAX_BLOCKS` blocks and fits the address space.
    pub fn base_addr(&self) -> (r: usize)
        ensures
            r == self.base(),
            r + TOTAL_BYTES <= usize::MAX,
            r % 8 == 0,
            self.used().len() == MAX_BLOCKS,
    {
        proof {
            use_type_invariant(self);
        }
        self.base
    }

    /// Hands out the first run of free blocks large enough for `size`
    /// bytes. Fails when `size` is zero, larger than the heap, or when no
    /// such run is free.
    pub fn allocate(&mut self, size: usize) -> (r: Option<AllocatedMemory>)
        ensures
            final(self).base() == old(self).base(),
            r is None <==> (blocks_for(size) == 0 || blocks_for(size) > MAX_BLOCKS || forall|i: int|
                !#[trigger] free_run(old(self).used(), i, blocks_for(size))),
            r is None ==> final(self).used() == old(self).used(),
            r matches Some(m) ==> {
                let start = first_block(old(self).base(), m.chunk_ptr());
                &&& chunk_in_heap(old(self).base(), m.chunk_ptr(), m.chunk_size())
                &&& m.chunk_ptr() == old(self).base() + start * BLOCK_SIZE
                &&& m.chunk_ptr() % 8 == 0
                &&& m.chunk_ptr() + m.chunk_size() <= usize::MAX
                &&& m.chunk_size() == blocks_for(size) * BLOCK_SIZE
                &&& free_run(old(self).used(), start, blocks_for(size))
                &&& forall|k: int| 0 <= k < start ==> !#[trigger] free_run(old(self).used(), k, blocks_for(size))
                &&& final(self).used() == fill(old(self).used(), start, blocks_for(size), true)
            },
    {
        proof {
            use_type_invariant(&*self);
        }
        let blocks = size / BLOCK_SIZE + if size % BLOCK_SIZE != 0 { 1usize } else { 0usize };
        assert(blocks == blocks_for(size));
        if blocks == 0 || blocks > MAX_BLOCKS {
            return None;
        }
        match self.bitmap.find_first_fit(blocks) {
            Some(start) => {
                assert(free_run(self.used(), start as int, blocks_for(size)));
                let mut bitmap = self.bitmap;
                bitmap.set_range(start, blocks);
                self.bitmap = bitmap;
                let ptr = self.base + start * BLOCK_SIZE;
                proof {
                    vstd::arithmetic::div_mod::lemma_fundamental_div_mod_converse(
                        (start * BLOCK_SIZE) as int,
                        BLOCK_SIZE as int,
                        start as int,
                        0,
                    );
                    vstd::arithmetic::div_mod::lemma_fundamental_div_mod_converse(
                        (blocks * BLOCK_SIZE) as int,
                        BLOCK_SIZE as int,
                        blocks as int,
                        0,
                    );
                }
                Some(AllocatedMemory { ptr, size: blocks * BLOCK_SIZE })
            },
            None => None,
        }
    }

    /// Returns the blocks of `chunk` to the heap.
    pub fn dealloc(&mut self, chunk: AllocatedMemory)
        requires
            old(self).holds(&chunk),
        ensures
            final(self).base() == old(self).base(),
            final(self).used() == fill(
                old(self).used(),
                first_block(old(self).base(), chunk.chunk_ptr()),
                chunk.chunk_size() as int / (BLOCK_SIZE as int),
                false,
            ),
    {
        proof {
            use_type_invariant(&*self);
        }
        let start_bit = (chunk.ptr - self.base) / BLOCK_SIZE;
        let blocks = chunk.size / BLOCK_SIZE;
        let mut bitmap = self.bitmap;
        bitmap.clear_range(start_bit, blocks);
        self.bitmap = bitmap;
    }
}

/// Handing out blocks and returning the same blocks leaves the heap as it
/// was.
pub proof fn lemma_alloc_dealloc(used: Seq<bool>, start: int, blocks: int)
    requires
        free_run(used, start, blocks),
    ensures
        fill(fill(used, start, blocks, true), start, blocks, false) == used,
{
    assert(fill(fill(used, start, blocks, true), start, blocks, false) =~= used);
}

/// A freshly handed-out run overlaps no block that was in use before.
pub proof fn lemma_alloc_disjoint(used: Seq<bool>, start: int, blocks: int, i: int)
    requires
        free_run(used, start, blocks),
        0 <= i < used.len(),
        used[i],
    ensures
        !(start <= i < start + blocks),
        fill(used, start, blocks, true)[i],
{
}

} // verus!
