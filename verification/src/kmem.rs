//! Kernel heap allocator.
//!
//! A general-purpose byte allocator backed by whole page frames taken from
//! the frame allocator. The granted region is carved into blocks, each
//! preceded by a fixed-size descriptor; the allocator keeps the descriptor
//! list explicitly, one entry per block, in address order. Allocation is
//! first-fit with splitting, freeing coalesces a block with an immediately
//! following free block.

use vstd::prelude::*;

verus! {

use crate::PAGE_SIZE;
use crate::frame::FrameAllocator;
use crate::frame::fits;
use crate::frame::is_first_fit;
use crate::frame::lemma_fits_first_fit;
use crate::frame::mark_allocated;
use crate::frame::zero_range;

/// Bytes of bookkeeping in front of every block's data region.
pub const DESC_SIZE: u64 = 8;

/// One heap block: descriptor address, usable data size, and whether the
/// block is currently handed out.
#[derive(Clone, Copy, PartialEq, Eq, Structural, Debug)]
pub struct Block {
    pub addr: u64,
    pub size: u64,
    pub taken: bool,
}

/// The block list tiles the region `[start, start + mem_len)` exactly:
/// the first descriptor sits at `start`, each block is followed
/// immediately by the next descriptor, and the last block ends at the
/// region's end. Every block holds at least one byte.
pub open spec fn wf_blocks(bs: Seq<Block>, start: u64, mem_len: int) -> bool {
    &&& bs.len() >= 1
    &&& bs[0].addr == start
    &&& forall|i: int|
        0 <= i < bs.len() - 1 ==> bs[i + 1].addr == #[trigger] bs[i].addr + DESC_SIZE + bs[i].size
    &&& bs[bs.len() - 1].addr + DESC_SIZE + bs[bs.len() - 1].size == start + mem_len
    &&& forall|i: int| 0 <= i < bs.len() ==> #[trigger] bs[i].size >= 1
}

/// Requested sizes are rounded up to a multiple of eight bytes.
pub open spec fn align8(size: int) -> int {
    ((size + 7) / 8) * 8
}

/// `i` is the first free block large enough for an (aligned) request.
pub open spec fn is_heap_fit(bs: Seq<Block>, i: int, asize: int) -> bool {
    &&& 0 <= i < bs.len()
    &&& !bs[i].taken
    &&& bs[i].size >= asize
    &&& forall|k: int| 0 <= k < i ==> (#[trigger] bs[k].taken || bs[k].size < asize)
}

/// Some free block can hold an (aligned) request.
pub open spec fn heap_fits(bs: Seq<Block>, asize: int) -> bool {
    exists|i: int| 0 <= i < bs.len() && !(#[trigger] bs[i].taken) && bs[i].size >= asize
}

/// The block list after taking block `i` for an (aligned) request: the block
/// is split when the remainder can hold a descriptor and at least one data
/// byte, otherwise it is taken whole.
pub open spec fn take_block(bs: Seq<Block>, i: int, asize: int) -> Seq<Block> {
    if bs[i].size >= asize + DESC_SIZE + 1 {
        bs.update(i, Block { addr: bs[i].addr, size: asize as u64, taken: true }).insert(
            i + 1,
            Block {
                addr: (bs[i].addr + DESC_SIZE + asize) as u64,
                size: (bs[i].size - asize - DESC_SIZE) as u64,
                taken: false,
            },
        )
    } else {
        bs.update(i, Block { addr: bs[i].addr, size: bs[i].size, taken: true })
    }
}

/// The block list after freeing block `i`: it becomes free and absorbs an
/// immediately following free block, if any.
pub open spec fn free_block(bs: Seq<Block>, i: int) -> Seq<Block> {
    if i + 1 < bs.len() && !bs[i + 1].taken {
        bs.update(
            i,
            Block {
                addr: bs[i].addr,
                size: (bs[i].size + DESC_SIZE + bs[i + 1].size) as u64,
                taken: false,
            },
        ).remove(i + 1)
    } else {
        bs.update(i, Block { addr: bs[i].addr, size: bs[i].size, taken: false })
    }
}

/// `ptr` is a data pointer of the live block `i`.
pub open spec fn is_block_ptr(bs: Seq<Block>, i: int, ptr: u64) -> bool {
    &&& 0 <= i < bs.len()
    &&& bs[i].taken
    &&& ptr == bs[i].addr + DESC_SIZE
}

/// Kernel heap over the region `[start, start + mem.len())`. `mem` models
/// the region's bytes; `blocks` is the descriptor list.
pub struct KernelHeap {
    pub start: u64,
    pub blocks: Vec<Block>,
    pub mem: Vec<u8>,
}

/// Block addresses grow strictly along the list.
pub proof fn lemma_blocks_ordered(bs: Seq<Block>, start: u64, mem_len: int, i: int, j: int)
    requires
        wf_blocks(bs, start, mem_len),
        0 <= i < j < bs.len(),
    ensures
        bs[i].addr + DESC_SIZE + bs[i].size <= bs[j].addr,
    decreases j - i,
{
    if j == i + 1 {
    } else {
        lemma_blocks_ordered(bs, start, mem_len, i + 1, j);
    }
}

/// Every block lies inside the managed region.
pub proof fn lemma_block_in_region(bs: Seq<Block>, start: u64, mem_len: int, i: int)
    requires
        wf_blocks(bs, start, mem_len),
        0 <= i < bs.len(),
    ensures
        start <= bs[i].addr,
        bs[i].addr + DESC_SIZE + bs[i].size <= start + mem_len,
    decreases bs.len(),
{
    if i == bs.len() - 1 {
    } else {
        lemma_blocks_ordered(bs, start, mem_len, i, bs.len() - 1);
    }
    if i == 0 {
    } else {
        lemma_blocks_ordered(bs, start, mem_len, 0, i);
    }
}

impl KernelHeap {
    /// Well-formedness of the whole heap.
    pub open spec fn wf(self) -> bool {
        &&& wf_blocks(self.blocks@, self.start, self.mem@.len() as int)
        &&& self.start + self.mem@.len() <= u64::MAX
    }

    /// Initializes the heap: requests `pages` contiguous frames from the
    /// frame allocator and lays out one free block spanning the granted
    /// region minus the descriptor. Returns `None` exactly when the frame
    /// allocator has no run of `pages` free frames.
    pub fn init(fa: &mut FrameAllocator, pages: usize) -> (r: Option<KernelHeap>)
        requires
            old(fa).wf(),
            pages >= 1,
        ensures
            final(fa).wf(),
            final(fa).base == old(fa).base,
            final(fa).capacity() == old(fa).capacity(),
            match r {
                Some(h) => {
                    &&& fits(old(fa).states@, pages as int)
                    &&& h.wf()
                    &&& h.mem@.len() == pages * PAGE_SIZE
                    &&& h.blocks@.len() == 1
                    &&& h.blocks@[0] == Block {
                        addr: h.start,
                        size: (pages * PAGE_SIZE - DESC_SIZE) as u64,
                        taken: false,
                    }
                    &&& forall|j: int| 0 <= j < h.mem@.len() ==> h.mem@[j] == 0u8
                    &&& forall|i: int|
                        #[trigger] is_first_fit(old(fa).states@, i, pages as int) ==> {
                            &&& h.start == old(fa).frame_addr(i)
                            &&& final(fa).states@ == mark_allocated(
                                old(fa).states@,
                                i,
                                pages as int,
                            )
                            &&& final(fa).mem@ == zero_range(
                                old(fa).mem@,
                                i * PAGE_SIZE,
                                (i + pages) * PAGE_SIZE,
                            )
                        }
                },
                None => {
                    &&& !fits(old(fa).states@, pages as int)
                    &&& final(fa).states@ == old(fa).states@
                    &&& final(fa).mem@ == old(fa).mem@
                },
            },
    {
        let r = fa.allocate(pages);
        match r {
            None => None,
            Some(addr) => {
                let ghost nframes = old(fa).states@.len();
                let ghost flen = old(fa).mem@.len();
                assert(pages <= nframes);
                let bytes_u64: u64 = (pages as u64) * PAGE_SIZE;
                assert(pages * PAGE_SIZE <= flen) by (nonlinear_arith)
                    requires
                        flen == nframes * PAGE_SIZE,
                        pages <= nframes,
                ;
                let mut mem: Vec<u8> = Vec::new();
                let mut k: u64 = 0;
                while k < bytes_u64
                    invariant
                        k <= bytes_u64,
                        mem@.len() == k,
                        forall|j: int| 0 <= j < k ==> mem@[j] == 0u8,
                    decreases bytes_u64 - k,
                {
                    mem.push(0u8);
                    k = k + 1;
                }
                let mut blocks: Vec<Block> = Vec::new();
                blocks.push(Block { addr, size: bytes_u64 - DESC_SIZE, taken: false });
                let h = KernelHeap { start: addr, blocks, mem };
                proof {
                    lemma_fits_first_fit(old(fa).states@, pages as int);
                    let i = choose|i: int| is_first_fit(old(fa).states@, i, pages as int);
                    let ghost fbase = old(fa).base;
                    assert(is_first_fit(old(fa).states@, i, pages as int));
                    assert(addr == old(fa).frame_addr(i));
                    assert(old(fa).frame_addr(i) == fbase + i * PAGE_SIZE);
                    assert(addr + bytes_u64 <= u64::MAX) by (nonlinear_arith)
                        requires
                            addr == fbase + i * PAGE_SIZE,
                            0 <= i,
                            i + pages <= nframes,
                            bytes_u64 == pages * PAGE_SIZE,
                            fbase + nframes * PAGE_SIZE <= u64::MAX,
                    ;
                }
                Some(h)
            },
        }
    }

    /// First-fit allocation of at least `size` usable bytes.
    ///
    /// The request is rounded up to a multiple of eight; the first free
    /// block that can hold it is taken (split when worthwhile) and a pointer
    /// to its data region, `DESC_SIZE` bytes past its descriptor, is
    /// returned. Returns `None` exactly when no free block is big enough.
    /// The region's bytes are untouched either way.
    #[verifier::rlimit(100)]
    #[verifier::spinoff_prover]
    #[verifier::loop_isolation(false)]
    pub fn allocate(&mut self, size: u64) -> (r: Option<u64>)
        requires
            old(self).wf(),
            1 <= size <= u64::MAX - 7,
        ensures
            final(self).wf(),
            final(self).start == old(self).start,
            final(self).mem@ == old(self).mem@,
            match r {
                Some(p) => {
                    &&& heap_fits(old(self).blocks@, align8(size as int))
                    &&& forall|i: int|
                        #[trigger] is_heap_fit(old(self).blocks@, i, align8(size as int)) ==> {
                            &&& p == old(self).blocks@[i].addr + DESC_SIZE
                            &&& final(self).blocks@ == take_block(
                                old(self).blocks@,
                                i,
                                align8(size as int),
                            )
                            &&& final(self).blocks@[i].size >= size
                            &&& final(self).blocks@[i].taken
                        }
                },
                None => {
                    &&& !heap_fits(old(self).blocks@, align8(size as int))
                    &&& final(self).blocks@ == old(self).blocks@
                },
            },
    {
        let asize: u64 = ((size + 7) / 8) * 8;
        assert(asize == align8(size as int) && size <= asize && asize <= size + 7)
            by (nonlinear_arith)
            requires
                asize == ((size + 7) as int / 8) * 8,
                1 <= size <= u64::MAX - 7,
        ;
        let ghost bs0 = self.blocks@;
        let len = self.blocks.len();
        let mut i: usize = 0;
        while i < len
            invariant
                i <= len,
                len == bs0.len(),
                self.blocks@ == bs0,
                self.start == old(self).start,
                self.mem@ == old(self).mem@,
                forall|k: int| 0 <= k < i ==> (#[trigger] bs0[k].taken || bs0[k].size < asize),
            decreases len - i,
        {
            let b = self.blocks[i];
            if !b.taken && b.size >= asize {
                assert(is_heap_fit(bs0, i as int, asize as int));
                proof {
                    assert forall|i2: int| is_heap_fit(bs0, i2, asize as int) implies i2
                        == i as int by {}
                    lemma_block_in_region(bs0, self.start, self.mem@.len() as int, i as int);
                }
                if b.size >= asize + (DESC_SIZE + 1) {
                    // split: the tail becomes a new free block
                    self.blocks[i] = Block { addr: b.addr, size: asize, taken: true };
                    self.blocks.insert(
                        i + 1,
                        Block {
                            addr: b.addr + DESC_SIZE + asize,
                            size: b.size - asize - DESC_SIZE,
                            taken: false,
                        },
                    );
                    assert(self.blocks@ =~= take_block(bs0, i as int, asize as int));
                } else {
                    self.blocks[i] = Block { addr: b.addr, size: b.size, taken: true };
                    assert(self.blocks@ =~= take_block(bs0, i as int, asize as int));
                }
                return Some(b.addr + DESC_SIZE);
            }
            i = i + 1;
        }
        None
    }

    /// Frees the block whose data pointer is `ptr` and coalesces it with an
    /// immediately following free block.
    ///
    /// `ptr` must be a pointer this heap handed out whose block is still
    /// taken; the block becomes free, everything else is unchanged.
    #[verifier::loop_isolation(false)]
    pub fn deallocate(&mut self, ptr: u64)
        requires
            old(self).wf(),
            exists|i: int| is_block_ptr(old(self).blocks@, i, ptr),
        ensures
            final(self).wf(),
            final(self).start == old(self).start,
            final(self).mem@ == old(self).mem@,
            forall|i: int|
                #[trigger] is_block_ptr(old(self).blocks@, i, ptr) ==> final(self).blocks@ == free_block(
                    old(self).blocks@,
                    i,
                ),
    {
        let ghost bs0 = self.blocks@;
        let ghost iw = choose|i: int| is_block_ptr(bs0, i, ptr);
        let len = self.blocks.len();
        let mut i: usize = 0;
        while i < len
            invariant
                i <= len,
                len == bs0.len(),
                self.blocks@ == bs0,
                self.start == old(self).start,
                self.mem@ == old(self).mem@,
                forall|k: int| 0 <= k < i ==> !is_block_ptr(bs0, k, ptr),
            decreases len - i,
        {
            let b = self.blocks[i];
            if b.taken && b.addr + DESC_SIZE == ptr {
                assert(is_block_ptr(bs0, i as int, ptr));
                proof {
                    assert forall|i2: int| is_block_ptr(bs0, i2, ptr) implies i2 == i as int by {
                        if i2 < i as int {
                            lemma_blocks_ordered(
                                bs0,
                                self.start,
                                self.mem@.len() as int,
                                i2,
                                i as int,
                            );
                        } else if i2 > i as int {
                            lemma_blocks_ordered(
                                bs0,
                                self.start,
                                self.mem@.len() as int,
                                i as int,
                                i2,
                            );
                        }
                    }
                    lemma_block_in_region(bs0, self.start, self.mem@.len() as int, i as int);
                }
                let merge = if i + 1 < len {
                    let nb = self.blocks[i + 1];
                    !nb.taken
                } else {
                    false
                };
                if merge {
                    proof {
                        lemma_block_in_region(
                            bs0,
                            self.start,
                            self.mem@.len() as int,
                            i as int + 1,
                        );
                    }
                    let nb = self.blocks[i + 1];
                    self.blocks[i] = Block {
                        addr: b.addr,
                        size: b.size + DESC_SIZE + nb.size,
                        taken: false,
                    };
                    self.blocks.remove(i + 1);
                    assert(self.blocks@ =~= free_block(bs0, i as int));
                } else {
                    self.blocks[i] = Block { addr: b.addr, size: b.size, taken: false };
                    assert(self.blocks@ =~= free_block(bs0, i as int));
                }
                return ;
            }
            i = i + 1;
        }
        proof {
            assert(!is_block_ptr(bs0, iw, ptr));
            assert(false);
        }
    }

    /// Reads one byte of the heap region.
    pub fn read_byte(&self, addr: u64) -> (r: u8)
        requires
            self.wf(),
            self.start <= addr,
            addr - self.start < self.mem@.len(),
        ensures
            r == self.mem@[addr - self.start],
    {
        let mlen: usize = self.mem.len();
        assert(addr - self.start < mlen);
        self.mem[(addr - self.start) as usize]
    }

    /// Writes one byte of the heap region. Only the addressed byte changes,
    /// and it keeps its value until overwritten, whatever the block lists
    /// do around it.
    pub fn write_byte(&mut self, addr: u64, val: u8)
        requires
            old(self).wf(),
            old(self).start <= addr,
            addr - old(self).start < old(self).mem@.len(),
        ensures
            final(self).wf(),
            final(self).start == old(self).start,
            final(self).blocks@ == old(self).blocks@,
            final(self).mem@ == old(self).mem@.update(addr - old(self).start, val),
    {
        let mlen: usize = self.mem.len();
        assert(addr - self.start < mlen);
        self.mem[(addr - self.start) as usize] = val;
    }
}

/// Taking the first fitting block for a request and then freeing the
/// returned pointer restores the block list exactly: the split remainder is
/// coalesced back, so repeating an allocation of the same size is answered
/// with the same pointer. The one layout this does not cover is a request
/// that consumes a block whole while the block after it is already free:
/// the free then merges the two, which only enlarges the free block.
pub proof fn lemma_heap_round_trip(bs: Seq<Block>, start: u64, mem_len: int, i: int, asize: int)
    requires
        wf_blocks(bs, start, mem_len),
        is_heap_fit(bs, i, asize),
        asize >= 1,
        bs[i].size >= asize + DESC_SIZE + 1 || i + 1 == bs.len() || bs[i + 1].taken,
    ensures
        free_block(take_block(bs, i, asize), i) == bs,
{
    let t = take_block(bs, i, asize);
    if bs[i].size >= asize + DESC_SIZE + 1 {
        assert(!t[i + 1].taken);
        assert(free_block(t, i) =~= bs);
    } else {
        assert(free_block(t, i) =~= bs);
    }
}

} // verus!
