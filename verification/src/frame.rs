//! Physical frame allocator.
//!
//! Hands out fixed-size page frames from a reserved region of physical
//! memory. The leading part of the region is reserved for a per-frame state
//! table (one state per frame); the rest is the allocatable data area. The
//! allocator tracks, for every frame, whether it is free or taken, and marks
//! the first frame of each allocated run as the run's head so that a later
//! free call knows where a run begins.

use vstd::prelude::*;

verus! {

use crate::PAGE_SIZE;

/// Allocation state of one physical frame.
///
/// `Head` marks the first frame of an allocated run; `Taken` marks the
/// remaining frames of a run.
#[derive(Clone, Copy, PartialEq, Eq, Structural, Debug)]
pub enum FrameState {
    Free,
    Taken,
    Head,
}

/// Every run of taken frames begins with a `Head`: a plain `Taken` frame is
/// always preceded by another `Taken` frame or by a `Head`.
#[verifier::opaque]
pub open spec fn inv_runs(s: Seq<FrameState>) -> bool {
    &&& (s.len() > 0 ==> s[0] != FrameState::Taken)
    &&& forall|j: int|
        0 < j < s.len() && #[trigger] s[j] == FrameState::Taken ==> s[j - 1] != FrameState::Free
}

/// Frames `[i, i + n)` are all free in `s`.
pub open spec fn free_run(s: Seq<FrameState>, i: int, n: int) -> bool {
    forall|j: int| i <= j < i + n ==> 0 <= j < s.len() && s[j] == FrameState::Free
}

/// Some run of `n` consecutive free frames exists in `s`.
pub open spec fn fits(s: Seq<FrameState>, n: int) -> bool {
    exists|i: int| 0 <= i && i + n <= s.len() && free_run(s, i, n)
}

/// `i` is the first index at which a run of `n` free frames begins.
pub open spec fn is_first_fit(s: Seq<FrameState>, i: int, n: int) -> bool {
    &&& 0 <= i
    &&& i + n <= s.len()
    &&& free_run(s, i, n)
    &&& forall|k: int| 0 <= k < i ==> !free_run(s, k, n)
}

/// The state table after allocating the run `[i, i + n)`.
pub open spec fn mark_allocated(s: Seq<FrameState>, i: int, n: int) -> Seq<FrameState> {
    Seq::new(
        s.len(),
        |j: int|
            if j == i {
                FrameState::Head
            } else if i < j < i + n {
                FrameState::Taken
            } else {
                s[j]
            },
    )
}

/// End of the taken run that starts at `i`: the first index after `i` that is
/// not a plain `Taken` frame (the next run's head, a free frame, or the end
/// of the region).
pub open spec fn run_end(s: Seq<FrameState>, i: int) -> int
    decreases s.len() - i,
{
    if i + 1 >= s.len() {
        s.len() as int
    } else if s[i + 1] != FrameState::Taken {
        i + 1
    } else {
        run_end(s, i + 1)
    }
}

/// The state table after freeing the run headed at `i`.
pub open spec fn mark_freed(s: Seq<FrameState>, i: int) -> Seq<FrameState> {
    Seq::new(
        s.len(),
        |j: int|
            if i <= j < run_end(s, i) {
                FrameState::Free
            } else {
                s[j]
            },
    )
}

/// The byte sequence `m` with the range `[lo, hi)` cleared to zero.
pub open spec fn zero_range(m: Seq<u8>, lo: int, hi: int) -> Seq<u8> {
    Seq::new(m.len(), |j: int| if lo <= j < hi { 0u8 } else { m[j] })
}

/// Physical frame allocator over a contiguous managed region.
///
/// `base` is the address of the first allocatable frame (the per-frame state
/// table occupies the region in front of it), `states` holds one entry per
/// frame, and `mem` models the bytes of the allocatable area.
pub struct FrameAllocator {
    pub base: u64,
    pub states: Vec<FrameState>,
    pub mem: Vec<u8>,
}

impl FrameAllocator {
    /// Well-formedness: aligned base, one 4096-byte frame of modeled memory
    /// per state entry, the whole region addressable, and runs headed.
    pub open spec fn wf(self) -> bool {
        &&& self.base % PAGE_SIZE == 0
        &&& self.mem@.len() == self.states@.len() * PAGE_SIZE
        &&& self.base + self.mem@.len() <= u64::MAX
        &&& inv_runs(self.states@)
    }

    /// Number of frames this allocator manages.
    pub open spec fn capacity(self) -> int {
        self.states@.len() as int
    }

    /// Address of frame `i`.
    pub open spec fn frame_addr(self, i: int) -> int {
        self.base + i * PAGE_SIZE
    }

    /// Initializes an allocator over the region `[region_base, region_base + region_size)`.
    ///
    /// The leading frames of the region are reserved for the per-frame state
    /// table (one byte per frame, rounded up to whole frames); every remaining
    /// frame starts out free and zeroed.
    #[verifier::loop_isolation(false)]
    pub fn new(region_base: u64, region_size: u64) -> (r: FrameAllocator)
        requires
            region_base % PAGE_SIZE == 0,
            region_base + region_size <= u64::MAX,
        ensures
            r.wf(),
            ({
                let total = region_size as int / (PAGE_SIZE as int);
                let table_pages = (total + PAGE_SIZE - 1) / (PAGE_SIZE as int);
                &&& r.capacity() == if total >= table_pages { total - table_pages } else { 0 }
                &&& r.base == region_base + table_pages * PAGE_SIZE
            }),
            r.base + r.mem@.len() <= region_base + region_size,
            forall|j: int| 0 <= j < r.capacity() ==> r.states@[j] == FrameState::Free,
            forall|j: int| 0 <= j < r.mem@.len() ==> r.mem@[j] == 0u8,
    {
        let total: u64 = region_size / PAGE_SIZE;
        assert(total * PAGE_SIZE <= region_size && total + PAGE_SIZE <= u64::MAX) by (nonlinear_arith)
            requires
                total == region_size as int / (PAGE_SIZE as int),
                region_size <= u64::MAX,
        ;
        let table_pages: u64 = (total + (PAGE_SIZE - 1)) / PAGE_SIZE;
        assert((total >= 1 ==> table_pages <= total) && (total == 0 ==> table_pages == 0)
            && table_pages * PAGE_SIZE <= total * PAGE_SIZE + PAGE_SIZE) by (nonlinear_arith)
            requires
                table_pages == (total + PAGE_SIZE - 1) as int / (PAGE_SIZE as int),
                total >= 0,
        ;
        let n: u64 = if total >= table_pages {
            total - table_pages
        } else {
            0
        };
        assert(table_pages * PAGE_SIZE + n * PAGE_SIZE <= region_size) by (nonlinear_arith)
            requires
                n == if total >= table_pages { total - table_pages } else { 0 },
                total * PAGE_SIZE <= region_size,
                total >= 1 ==> table_pages <= total,
                total == 0 ==> table_pages == 0,
                table_pages >= 0,
                total >= 0,
        ;
        let base: u64 = region_base + table_pages * PAGE_SIZE;
        assert(base % PAGE_SIZE == 0) by (nonlinear_arith)
            requires
                region_base % PAGE_SIZE == 0,
                base == region_base + table_pages * PAGE_SIZE,
        ;
        let mut states: Vec<FrameState> = Vec::new();
        let mut i: u64 = 0;
        while i < n
            invariant
                i <= n,
                states@.len() == i,
                forall|j: int| 0 <= j < i ==> states@[j] == FrameState::Free,
            decreases n - i,
        {
            states.push(FrameState::Free);
            i = i + 1;
        }
        let bytes: u64 = n * PAGE_SIZE;
        let mut mem: Vec<u8> = Vec::new();
        let mut k: u64 = 0;
        while k < bytes
            invariant
                k <= bytes,
                mem@.len() == k,
                forall|j: int| 0 <= j < k ==> mem@[j] == 0u8,
            decreases bytes - k,
        {
            mem.push(0u8);
            k = k + 1;
        }
        proof {
            reveal(inv_runs);
        }
        FrameAllocator { base, states, mem }
    }

    /// First-fit allocation of `n` contiguous frames.
    ///
    /// On success the returned address is the page-aligned base of a run of
    /// `n` previously free frames, the run is marked taken with its first
    /// frame as head, and the run's memory is cleared to zero. Returns `None`
    /// exactly when no run of `n` consecutive free frames exists; the
    /// allocator is then unchanged.
    #[verifier::loop_isolation(false)]
    pub fn allocate(&mut self, n: usize) -> (r: Option<u64>)
        requires
            old(self).wf(),
            n >= 1,
        ensures
            final(self).wf(),
            final(self).base == old(self).base,
            final(self).capacity() == old(self).capacity(),
            match r {
                Some(addr) => {
                    &&& fits(old(self).states@, n as int)
                    &&& forall|i: int|
                        #[trigger] is_first_fit(old(self).states@, i, n as int) ==> {
                            &&& addr == old(self).frame_addr(i)
                            &&& addr % PAGE_SIZE == 0
                            &&& final(self).states@ == mark_allocated(old(self).states@, i, n as int)
                            &&& final(self).mem@ == zero_range(
                                old(self).mem@,
                                i * PAGE_SIZE,
                                (i + n) * PAGE_SIZE,
                            )
                        }
                },
                None => {
                    &&& !fits(old(self).states@, n as int)
                    &&& final(self).states@ == old(self).states@
                    &&& final(self).mem@ == old(self).mem@
                },
            },
    {
        let len = self.states.len();
        let ghost s0 = self.states@;
        if n > len {
            assert(!fits(s0, n as int)) by {
                assert forall|i: int| 0 <= i && i + n <= s0.len() implies !free_run(s0, i, n as int) by {}
            }
            return None;
        }
        let mut i: usize = 0;
        while i <= len - n
            invariant
                self.states@ == s0,
                self.base == old(self).base,
                self.mem@ == old(self).mem@,
                len == s0.len(),
                n >= 1,
                n <= len,
                i <= len - n + 1,
                forall|k: int| 0 <= k < i ==> !free_run(s0, k, n as int),
            decreases len - i,
        {
            // check whether frames [i, i + n) are all free
            let mut j: usize = 0;
            while j < n && matches!(self.states[i + j], FrameState::Free)
                invariant
                    self.states@ == s0,
                    len == s0.len(),
                    i + n <= len,
                    j <= n,
                    forall|t: int| i <= t < i + j ==> s0[t] == FrameState::Free,
                decreases n - j,
            {
                j = j + 1;
            }
            if j == n {
                // found the first fit at i
                assert(is_first_fit(s0, i as int, n as int));
                proof {
                    assert forall|i2: int| is_first_fit(s0, i2, n as int) implies i2 == i as int by {
                        lemma_first_fit_unique(s0, n as int, i as int, i2);
                    }
                    lemma_mark_allocated_inv(s0, i as int, n as int);
                }
                self.mark_run(i, n);
                self.zero_run(i, n);
                let ghost mlen = self.mem@.len();
                let ghost nframes = s0.len();
                let ghost b = self.base;
                assert((i + n) * PAGE_SIZE <= mlen && i * PAGE_SIZE <= mlen) by (nonlinear_arith)
                    requires
                        mlen == nframes * PAGE_SIZE,
                        i + n <= nframes,
                        n >= 1,
                ;
                let addr: u64 = self.base + (i as u64) * PAGE_SIZE;
                assert(addr % PAGE_SIZE == 0) by (nonlinear_arith)
                    requires
                        b % PAGE_SIZE == 0,
                        addr == b + i * PAGE_SIZE,
                ;
                return Some(addr);
            } else {
                assert(!free_run(s0, i as int, n as int)) by {
                    assert(s0[i + j] != FrameState::Free);
                }
                i = i + 1;
            }
        }
        assert(!fits(s0, n as int));
        None
    }


    /// Marks frames `[i, i + n)` as an allocated run headed at `i`.
    #[verifier::loop_isolation(false)]
    fn mark_run(&mut self, i: usize, n: usize)
        requires
            n >= 1,
            i + n <= old(self).states@.len(),
        ensures
            final(self).states@ == mark_allocated(old(self).states@, i as int, n as int),
            final(self).mem@ == old(self).mem@,
            final(self).base == old(self).base,
    {
        let ghost s0 = self.states@;
        let sl: usize = self.states.len();
        assert(i + n <= sl);
        self.states[i] = FrameState::Head;
        let mut j: usize = 1;
        while j < n
            invariant
                1 <= j <= n,
                self.states@.len() == s0.len(),
                self.base == old(self).base,
                self.mem@ == old(self).mem@,
                self.states@[i as int] == FrameState::Head,
                forall|t: int| i < t < i + j ==> self.states@[t] == FrameState::Taken,
                forall|t: int|
                    0 <= t < s0.len() && !(i <= t < i + j) ==> self.states@[t] == s0[t],
            decreases n - j,
        {
            self.states[i + j] = FrameState::Taken;
            j = j + 1;
        }
        assert(self.states@ =~= mark_allocated(s0, i as int, n as int));
    }

    /// Clears the bytes of frames `[i, i + n)` to zero.
    #[verifier::loop_isolation(false)]
    fn zero_run(&mut self, i: usize, n: usize)
        requires
            n >= 1,
            i + n <= old(self).states@.len(),
            old(self).mem@.len() == old(self).states@.len() * PAGE_SIZE,
        ensures
            final(self).mem@ == zero_range(old(self).mem@, i * PAGE_SIZE, (i + n) * PAGE_SIZE),
            final(self).states@ == old(self).states@,
            final(self).base == old(self).base,
    {
        let ghost m0 = self.mem@;
        let ghost nframes = self.states@.len();
        assert((i + n) * PAGE_SIZE <= m0.len() && i * PAGE_SIZE <= m0.len()) by (nonlinear_arith)
            requires
                m0.len() == nframes * PAGE_SIZE,
                i + n <= nframes,
                n >= 1,
        ;
        let mlen_e: usize = self.mem.len();
        let lo: usize = i * (PAGE_SIZE as usize);
        let hi: usize = (i + n) * (PAGE_SIZE as usize);
        assert(hi <= mlen_e);
        let mut k: usize = lo;
        while k < hi
            invariant
                lo <= k <= hi,
                hi <= self.mem@.len(),
                self.mem@.len() == m0.len(),
                self.base == old(self).base,
                self.states@ == old(self).states@,
                forall|t: int| lo <= t < k ==> self.mem@[t] == 0u8,
                forall|t: int| 0 <= t < m0.len() && !(lo <= t < k) ==> self.mem@[t] == m0[t],
            decreases hi - k,
        {
            self.mem[k] = 0u8;
            k = k + 1;
        }
        assert(self.mem@ =~= zero_range(m0, i * PAGE_SIZE, (i + n) * PAGE_SIZE));
    }

    /// Frees the run whose head frame is at `addr`.
    ///
    /// `addr` must be the address the allocator returned for a run that is
    /// still allocated. The head frame and every plain taken frame after it,
    /// up to the next run head, free frame, or the end of the region, become
    /// free; nothing else changes.
    #[verifier::rlimit(100)]
    #[verifier::loop_isolation(false)]
    pub fn deallocate(&mut self, addr: u64)
        requires
            old(self).wf(),
            addr >= old(self).base,
            (addr - old(self).base) % (PAGE_SIZE as int) == 0,
            (addr - old(self).base) / (PAGE_SIZE as int) < old(self).capacity(),
            old(self).states@[(addr - old(self).base) / (PAGE_SIZE as int)] == FrameState::Head,
        ensures
            final(self).wf(),
            final(self).base == old(self).base,
            final(self).capacity() == old(self).capacity(),
            final(self).states@ == mark_freed(
                old(self).states@,
                (addr - old(self).base) / (PAGE_SIZE as int),
            ),
            final(self).mem@ == old(self).mem@,
    {
        let ghost s0 = self.states@;
        let len = self.states.len();
        assert((addr - self.base) / (PAGE_SIZE as int) < len);
        let idx: usize = ((addr - self.base) / PAGE_SIZE) as usize;
        self.states[idx] = FrameState::Free;
        let mut j: usize = idx + 1;
        while j < len && matches!(self.states[j], FrameState::Taken)
            invariant
                idx < j <= len,
                len == s0.len(),
                self.base == old(self).base,
                self.mem@ == old(self).mem@,
                self.states@.len() == s0.len(),
                forall|t: int| idx <= t < j ==> self.states@[t] == FrameState::Free,
                forall|t: int| 0 <= t < s0.len() && !(idx <= t < j) ==> self.states@[t] == s0[t],
                forall|t: int| idx < t < j ==> s0[t] == FrameState::Taken,
            decreases len - j,
        {
            self.states[j] = FrameState::Free;
            j = j + 1;
        }
        proof {
            lemma_run_end_of(s0, idx as int, j as int);
            let sf = mark_freed(s0, idx as int);
            assert forall|t: int| 0 <= t < s0.len() implies self.states@[t] == sf[t] by {}
            assert(self.states@ =~= sf);
            lemma_mark_freed_inv(s0, idx as int);
        }
    }

    /// Reads one byte of the managed data area.
    pub fn read_byte(&self, addr: u64) -> (r: u8)
        requires
            self.wf(),
            self.base <= addr,
            addr - self.base < self.mem@.len(),
        ensures
            r == self.mem@[addr - self.base],
    {
        let mlen: usize = self.mem.len();
        assert(addr - self.base < mlen);
        self.mem[(addr - self.base) as usize]
    }

    /// Writes one byte of the managed data area.
    pub fn write_byte(&mut self, addr: u64, val: u8)
        requires
            old(self).wf(),
            old(self).base <= addr,
            addr - old(self).base < old(self).mem@.len(),
        ensures
            final(self).wf(),
            final(self).base == old(self).base,
            final(self).states@ == old(self).states@,
            final(self).mem@ == old(self).mem@.update(addr - old(self).base, val),
    {
        let mlen: usize = self.mem.len();
        assert(addr - self.base < mlen);
        self.mem[(addr - self.base) as usize] = val;
    }
}

/// Whenever some run of `n` free frames exists, there is a first one.
pub proof fn lemma_fits_first_fit(s: Seq<FrameState>, n: int)
    requires
        fits(s, n),
    ensures
        exists|i: int| is_first_fit(s, i, n),
{
    let w = choose|w: int| 0 <= w && w + n <= s.len() && free_run(s, w, n);
    lemma_first_fit_from(s, n, w);
}

proof fn lemma_first_fit_from(s: Seq<FrameState>, n: int, w: int)
    requires
        0 <= w,
        w + n <= s.len(),
        free_run(s, w, n),
    ensures
        exists|i: int| is_first_fit(s, i, n),
    decreases w,
{
    if forall|k: int| 0 <= k < w ==> !free_run(s, k, n) {
        assert(is_first_fit(s, w, n));
    } else {
        let k = choose|k: int| 0 <= k < w && free_run(s, k, n);
        assert(k + n <= s.len());
        lemma_first_fit_from(s, n, k);
    }
}

/// The first-fit position for a given request size is unique.
pub proof fn lemma_first_fit_unique(s: Seq<FrameState>, n: int, i: int, j: int)
    requires
        is_first_fit(s, i, n),
        is_first_fit(s, j, n),
    ensures
        i == j,
{
    if i < j {
        assert(!free_run(s, i, n));
    } else if j < i {
        assert(!free_run(s, j, n));
    }
}

/// Marking a free run allocated preserves the run-head invariant.
#[verifier::rlimit(30)]
proof fn lemma_mark_allocated_inv(s: Seq<FrameState>, i: int, n: int)
    requires
        inv_runs(s),
        n >= 1,
        is_first_fit(s, i, n),
    ensures
        inv_runs(mark_allocated(s, i, n)),
{
    reveal(inv_runs);
    let s1 = mark_allocated(s, i, n);
    assert forall|j: int| 0 < j < s1.len() && #[trigger] s1[j] == FrameState::Taken implies s1[j - 1]
        != FrameState::Free by {
        if j == i + n && s1[j] == FrameState::Taken {
            // the frame just past the run kept its old state; a plain taken
            // frame there would have needed a non-free predecessor in s,
            // but the run's last frame was free in s
            assert(s[j] == FrameState::Taken);
            assert(s[j - 1] == FrameState::Free);
        }
    }
}

/// Freeing a headed run preserves the run-head invariant.
#[verifier::rlimit(100)]
#[verifier::spinoff_prover]
proof fn lemma_mark_freed_inv(s: Seq<FrameState>, i: int)
    requires
        inv_runs(s),
        0 <= i < s.len(),
    ensures
        inv_runs(mark_freed(s, i)),
{
    lemma_run_end_bounds(s, i);
    let e = run_end(s, i);
    if e < s.len() {
        lemma_run_end_not_taken(s, i);
    }
    let s1 = mark_freed(s, i);
    assert(s1.len() == s.len());
    assert(forall|j: int| 0 <= j < s.len() ==> #[trigger] s1[j] == (if i <= j < e {
        FrameState::Free
    } else {
        s[j]
    }));
    assert(inv_runs(s1)) by {
        reveal(inv_runs);
        assert forall|j: int|
            0 < j < s1.len() && #[trigger] s1[j] == FrameState::Taken implies s1[j - 1]
            != FrameState::Free by {
            assert(s[j] == FrameState::Taken);
            assert(s[j - 1] != FrameState::Free);
            assert(j < i || j > e);
        }
    }
}

/// `run_end` stays within `(i, s.len()]` and the skipped frames are taken.
pub proof fn lemma_run_end_bounds(s: Seq<FrameState>, i: int)
    requires
        0 <= i < s.len(),
    ensures
        i < run_end(s, i) <= s.len(),
        forall|t: int| i < t < run_end(s, i) ==> s[t] == FrameState::Taken,
    decreases s.len() - i,
{
    if i + 1 >= s.len() {
    } else if s[i + 1] != FrameState::Taken {
    } else {
        lemma_run_end_bounds(s, i + 1);
    }
}

/// The frame at `run_end` (when inside the region) is not a plain taken frame.
proof fn lemma_run_end_not_taken(s: Seq<FrameState>, i: int)
    requires
        0 <= i < s.len(),
        run_end(s, i) < s.len(),
    ensures
        s[run_end(s, i)] != FrameState::Taken,
    decreases s.len() - i,
{
    if i + 1 >= s.len() {
    } else if s[i + 1] != FrameState::Taken {
    } else {
        lemma_run_end_not_taken(s, i + 1);
    }
}

/// Characterization of `run_end`: if everything strictly between `i` and `e`
/// is plain taken and `e` is the end of the region or not plain taken, then
/// the run headed at `i` ends exactly at `e`.
pub proof fn lemma_run_end_of(s: Seq<FrameState>, i: int, e: int)
    requires
        0 <= i < e <= s.len(),
        forall|t: int| i < t < e ==> s[t] == FrameState::Taken,
        e == s.len() || s[e] != FrameState::Taken,
    ensures
        run_end(s, i) == e,
    decreases e - i,
{
    if i + 1 == e {
    } else {
        lemma_run_end_of(s, i + 1, e);
    }
}

/// A granted run consists of frames that were free at the moment of the
/// grant, so it cannot overlap any run that was still allocated: taken
/// frames only return to circulation through an explicit free.
pub proof fn lemma_granted_run_was_free(s: Seq<FrameState>, i: int, n: int, j: int)
    requires
        is_first_fit(s, i, n),
        i <= j < i + n,
    ensures
        s[j] == FrameState::Free,
{
}

/// Allocating a run of `n` frames and then freeing it restores the state
/// table exactly: the free covers precisely the `n` frames of the run, so no
/// frame leaks and no neighbouring run is disturbed. Since allocation is
/// deterministic first-fit, a subsequent request of the same size is answered
/// with the same address.
#[verifier::rlimit(100)]
pub proof fn lemma_allocate_deallocate_restores(s: Seq<FrameState>, i: int, n: int)
    requires
        inv_runs(s),
        n >= 1,
        is_first_fit(s, i, n),
    ensures
        run_end(mark_allocated(s, i, n), i) == i + n,
        mark_freed(mark_allocated(s, i, n), i) == s,
{
    reveal(inv_runs);
    let s1 = mark_allocated(s, i, n);
    if i + n < s.len() && s1[i + n] == FrameState::Taken {
        // would contradict the run-head invariant of s
        assert(s[i + n] == FrameState::Taken);
        if n >= 1 {
            assert(s[i + n - 1] == FrameState::Free);
        }
        assert(false);
    }
    lemma_run_end_of(s1, i, i + n);
    assert(mark_freed(s1, i) =~= s);
}

} // verus!
