//! The double-ended region allocator.
//!
//! One contiguous address range `[start, end)` serves two needs: byte
//! allocations grow upward from `start` behind the frontier `b_pos`, page
//! allocations grow downward from `end` behind the frontier `p_pos`.  The
//! free area is always `[b_pos, p_pos)`.  Byte allocations are reclaimed in
//! bulk when the last one is released; page allocations are never reclaimed.

use vstd::prelude::*;
use vstd::arithmetic::power2::pow2;
use vstd::arithmetic::power2::lemma_pow2_unfold;
use vstd::arithmetic::power2::lemma_pow2_strictly_increases;
use crate::align::round_up;
use crate::align::round_down;
use crate::align::round_up_usize;
use crate::align::round_down_usize;
use crate::align::lemma_round_up;
use crate::align::lemma_round_down;
use crate::align::lemma_round_down_any;

verus! {

/// Why an allocation request was refused.
#[derive(Clone, Copy, Debug, PartialEq, Eq, Structural)]
pub enum AllocError {
    /// The requested extent does not fit between the two frontiers.
    NoMemory,
    /// A computed allocation address failed a sanity check (it was null).
    InvalidParam,
}

/// The mathematical state of a region allocator: the fixed bounds, the two
/// frontiers, the count of live byte allocations, and the page granularity.
pub ghost struct RegionModel {
    pub start: int,
    pub end: int,
    pub b_pos: int,
    pub p_pos: int,
    pub b_count: int,
    pub page_size: int,
}

impl RegionModel {
    /// Well-formedness: the frontiers sit between the bounds in order, every
    /// field fits in a machine word, the page granularity is positive, and a
    /// byte region with no live allocation is fully reclaimed.
    pub open spec fn wf(self) -> bool {
        &&& 0 <= self.start <= self.b_pos <= self.p_pos <= self.end <= usize::MAX
        &&& 0 <= self.b_count <= usize::MAX
        &&& self.page_size >= 1
        &&& self.b_count == 0 ==> self.b_pos == self.start
    }

    /// The address a byte allocation with this alignment would return.
    pub open spec fn byte_alloc_addr(self, align: int) -> int {
        round_up(self.b_pos, align)
    }

    /// Whether a byte allocation of `size` aligned to `align` fits below the
    /// page frontier.
    pub open spec fn byte_alloc_fits(self, size: int, align: int) -> bool {
        self.byte_alloc_addr(align) + size <= self.p_pos
    }

    /// The state after committing a byte allocation of `size` aligned to
    /// `align`.
    pub open spec fn byte_alloc_commit(self, size: int, align: int) -> RegionModel {
        RegionModel {
            b_pos: self.byte_alloc_addr(align) + size,
            b_count: self.b_count + 1,
            ..self
        }
    }

    /// The state after releasing one byte allocation: the count drops if it
    /// was positive, and the byte region is reclaimed in bulk when it
    /// reaches zero.
    pub open spec fn byte_dealloc_step(self) -> RegionModel {
        if self.b_count > 1 {
            RegionModel { b_count: self.b_count - 1, ..self }
        } else if self.b_count == 1 {
            RegionModel { b_count: 0, b_pos: self.start, ..self }
        } else {
            self
        }
    }

    /// The alignment, in bytes, of a page allocation with the given
    /// power-of-two page multiplier.
    pub open spec fn page_align(self, align_pow2: int) -> int {
        self.page_size * pow2(align_pow2 as nat)
    }

    /// The address a page allocation would return: the page frontier moved
    /// down by the requested extent, then rounded down to the alignment.
    pub open spec fn page_alloc_addr(self, num_pages: int, align_pow2: int) -> int {
        round_down(self.p_pos - num_pages * self.page_size, self.page_align(align_pow2))
    }

    /// The state after committing a page allocation at `addr`.
    pub open spec fn page_alloc_commit(self, addr: int) -> RegionModel {
        RegionModel { p_pos: addr, ..self }
    }
}

/// The double-ended region allocator over pages of `SIZE` bytes.
pub struct EarlyAllocator<const SIZE: usize> {
    start: usize,
    end: usize,
    b_pos: usize,
    p_pos: usize,
    b_count: usize,
}

impl<const SIZE: usize> View for EarlyAllocator<SIZE> {
    type V = RegionModel;

    closed spec fn view(&self) -> RegionModel {
        RegionModel {
            start: self.start as int,
            end: self.end as int,
            b_pos: self.b_pos as int,
            p_pos: self.p_pos as int,
            b_count: self.b_count as int,
            page_size: SIZE as int,
        }
    }
}

impl<const SIZE: usize> EarlyAllocator<SIZE> {
    /// Well-formedness of the concrete allocator, stated of its model.
    pub open spec fn wf(&self) -> bool {
        self@.wf()
    }

    /// A fresh, uninitialized allocator: every cursor is zero.
    pub fn new() -> (r: Self)
        ensures
            r@.start == 0,
            r@.end == 0,
            r@.b_pos == 0,
            r@.p_pos == 0,
            r@.b_count == 0,
            r@.page_size == SIZE as int,
            SIZE >= 1 ==> r.wf(),
    {
        Self { start: 0, end: 0, b_pos: 0, p_pos: 0, b_count: 0 }
    }

    /// Hands the allocator its one region `[start, start + size)`.  Both
    /// frontiers start at their own end of the range and no byte allocation
    /// is live.
    pub fn init(&mut self, start: usize, size: usize)
        requires
            start + size <= usize::MAX,
        ensures
            final(self)@.start == start as int,
            final(self)@.end == start + size,
            final(self)@.b_pos == start as int,
            final(self)@.p_pos == start + size,
            final(self)@.b_count == 0,
            final(self)@.page_size == SIZE as int,
            SIZE >= 1 ==> final(self).wf(),
    {
        self.start = start;
        self.end = start + size;
        self.b_pos = start;
        self.p_pos = start + size;
        self.b_count = 0;
    }

    /// The allocator owns exactly one region for its whole lifetime: adding
    /// memory always fails and changes nothing.
    pub fn add_memory(&mut self, _start: usize, _size: usize) -> (r: Result<(), AllocError>)
        ensures
            r == Err::<(), AllocError>(AllocError::NoMemory),
            final(self)@ == old(self)@,
    {
        Err(AllocError::NoMemory)
    }

    /// Allocates `size` bytes aligned to `align` at the low frontier.
    ///
    /// On success the returned address is the old frontier rounded up to
    /// `align`, the frontier moves just past the new allocation, and the
    /// live count rises by one.  If the extent would cross the page frontier
    /// the call fails with `NoMemory`; if the computed address is null it
    /// fails with `InvalidParam`; either failure leaves the state unchanged.
    pub fn alloc_bytes(&mut self, size: usize, align: usize) -> (r: Result<usize, AllocError>)
        requires
            old(self).wf(),
            align >= 1,
            old(self)@.b_count < usize::MAX,
        ensures
            final(self).wf(),
            ({
                let m = old(self)@;
                let addr = m.byte_alloc_addr(align as int);
                if !m.byte_alloc_fits(size as int, align as int) {
                    r == Err::<usize, AllocError>(AllocError::NoMemory) && final(self)@ == m
                } else if addr == 0 {
                    r == Err::<usize, AllocError>(AllocError::InvalidParam) && final(self)@ == m
                } else {
                    r == Ok::<usize, AllocError>(addr as usize)
                        && final(self)@ == m.byte_alloc_commit(size as int, align as int)
                }
            }),
            r matches Ok(a) ==> a as int % align as int == 0,
            r matches Ok(a) ==> a != 0usize && old(self)@.b_pos <= a as int,
            final(self)@.p_pos == old(self)@.p_pos,
            old(self)@.b_pos <= final(self)@.b_pos,
    {
        proof {
            lemma_round_up(self.b_pos as int, align as int);
        }
        let aligned = match round_up_usize(self.b_pos, align) {
            Some(v) => v,
            None => {
                return Err(AllocError::NoMemory);
            },
        };
        if size > usize::MAX - aligned {
            return Err(AllocError::NoMemory);
        }
        let new_b_pos = aligned + size;
        if new_b_pos > self.p_pos {
            return Err(AllocError::NoMemory);
        }
        if aligned == 0 {
            return Err(AllocError::InvalidParam);
        }
        self.b_pos = new_b_pos;
        self.b_count = self.b_count + 1;
        Ok(aligned)
    }

    /// Releases one byte allocation.  Individual addresses are not tracked:
    /// the live count drops if it was positive, and when it reaches zero the
    /// whole byte region is reclaimed by resetting the low frontier to
    /// `start`.  With no live allocation the call is a no-op.
    pub fn dealloc(&mut self, _pos: usize, _size: usize, _align: usize)
        requires
            old(self).wf(),
        ensures
            final(self).wf(),
            final(self)@ == old(self)@.byte_dealloc_step(),
            final(self)@.p_pos == old(self)@.p_pos,
    {
        if self.b_count > 0 {
            self.b_count = self.b_count - 1;
            if self.b_count == 0 {
                self.b_pos = self.start;
            }
        }
    }

    /// The size in bytes of the whole region.
    pub fn total_bytes(&self) -> (r: usize)
        requires
            self.wf(),
        ensures
            r == self@.end - self@.start,
    {
        self.end - self.start
    }

    /// The bytes between `start` and the byte frontier.
    pub fn used_bytes(&self) -> (r: usize)
        requires
            self.wf(),
        ensures
            r == self@.b_pos - self@.start,
    {
        self.b_pos - self.start
    }

    /// The bytes between the byte frontier and `end`.
    pub fn available_bytes(&self) -> (r: usize)
        requires
            self.wf(),
        ensures
            r == self@.end - self@.b_pos,
    {
        self.end - self.b_pos
    }

    /// Allocates `num_pages` pages aligned to `SIZE * 2^align_pow2` at the
    /// high frontier.
    ///
    /// The page frontier moves down by the requested extent and is then
    /// rounded down to the alignment; the result is both the new frontier
    /// and the returned address.  If it would cross the byte frontier the
    /// call fails with `NoMemory` and the state is unchanged.
    pub fn alloc_pages(&mut self, num_pages: usize, align_pow2: usize) -> (r: Result<
        usize,
        AllocError,
    >)
        requires
            old(self).wf(),
            num_pages * SIZE <= usize::MAX,
            SIZE * pow2(align_pow2 as nat) <= usize::MAX,
        ensures
            final(self).wf(),
            ({
                let m = old(self)@;
                let addr = m.page_alloc_addr(num_pages as int, align_pow2 as int);
                if addr < m.b_pos {
                    r == Err::<usize, AllocError>(AllocError::NoMemory) && final(self)@ == m
                } else {
                    r == Ok::<usize, AllocError>(addr as usize) && final(self)@
                        == m.page_alloc_commit(addr)
                }
            }),
            r matches Ok(a) ==> a as int % old(self)@.page_align(align_pow2 as int) == 0,
            final(self)@.p_pos <= old(self)@.p_pos,
            final(self)@.b_pos == old(self)@.b_pos,
            final(self)@.b_count == old(self)@.b_count,
    {
        proof {
            vstd::arithmetic::power2::lemma_pow2_pos(align_pow2 as nat);
            assert(pow2(align_pow2 as nat) <= SIZE * pow2(align_pow2 as nat) && SIZE <= SIZE
                * pow2(align_pow2 as nat)) by (nonlinear_arith)
                requires
                    SIZE >= 1,
                    pow2(align_pow2 as nat) >= 1,
            ;
        }
        let alloc_size = num_pages * SIZE;
        let align = SIZE * pow2_usize(align_pow2);
        if alloc_size > self.p_pos {
            proof {
                lemma_round_down_any(old(self)@.p_pos - alloc_size as int, align as int);
            }
            return Err(AllocError::NoMemory);
        }
        proof {
            lemma_round_down(old(self)@.p_pos - alloc_size as int, align as int);
        }
        let new_p_pos = round_down_usize(self.p_pos - alloc_size, align);
        if new_p_pos < self.b_pos {
            return Err(AllocError::NoMemory);
        }
        self.p_pos = new_p_pos;
        Ok(new_p_pos)
    }

    /// Page memory is never returned: releasing pages is a no-op.
    pub fn dealloc_pages(&mut self, _pos: usize, _num_pages: usize)
        ensures
            final(self)@ == old(self)@,
    {
    }

    /// The number of whole pages in the region.
    pub fn total_pages(&self) -> (r: usize)
        requires
            self.wf(),
        ensures
            r == (self@.end - self@.start) / self@.page_size,
    {
        (self.end - self.start) / SIZE
    }

    /// The number of whole pages between the page frontier and `end`: pages
    /// are used from the high end.
    pub fn used_pages(&self) -> (r: usize)
        requires
            self.wf(),
        ensures
            r == (self@.end - self@.p_pos) / self@.page_size,
    {
        (self.end - self.p_pos) / SIZE
    }

    /// The number of whole pages below the page frontier that remain to be
    /// consumed: page use is measured from the high end, so this counts
    /// down from `start`'s side.
    pub fn available_pages(&self) -> (r: usize)
        requires
            self.wf(),
        ensures
            r == (self@.p_pos - self@.start) / self@.page_size,
    {
        (self.p_pos - self.start) / SIZE
    }
}

/// `2^e` as a machine word.
pub fn pow2_usize(e: usize) -> (r: usize)
    requires
        pow2(e as nat) <= usize::MAX,
    ensures
        r == pow2(e as nat),
{
    let mut r: usize = 1;
    let mut i: usize = 0;
    proof {
        vstd::arithmetic::power2::lemma2_to64();
    }
    while i < e
        invariant
            i <= e,
            r == pow2(i as nat),
            pow2(e as nat) <= usize::MAX,
        decreases e - i,
    {
        proof {
            lemma_pow2_unfold((i + 1) as nat);
            if i + 1 < e {
                lemma_pow2_strictly_increases((i + 1) as nat, e as nat);
            }
        }
        r = r * 2;
        i = i + 1;
    }
    r
}

} // verus!
