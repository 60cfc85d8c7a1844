//! The bump allocator of kernel modules: memory is handed out upwards from
//! the start of the heap, aligned, until the heap's end, and never given back.
use vstd::prelude::*;

verus! {

/// `addr` rounded up to a multiple of `align`, for a power of two `align`.
pub open spec fn align_up(addr: usize, align: usize) -> usize {
    ((addr + align - 1) as usize) & !((align - 1) as usize)
}

/// `align` is a power of two.
pub open spec fn is_power_of_two(align: usize) -> bool {
    align > 0 && align & ((align - 1) as usize) == 0
}

/// Rounding up to a power of two gives a multiple of it at or above the
/// address, less than a whole alignment above.
pub proof fn lemma_align_up(addr: usize, align: usize)
    requires
        is_power_of_two(align),
        addr + align - 1 <= usize::MAX,
    ensures
        addr <= align_up(addr, align) < addr + align,
        align_up(addr, align) & ((align - 1) as usize) == 0,
{
    let top: usize = (addr + align - 1) as usize;
    assert(top == addr + align - 1);
    assert(top & !((align - 1) as usize) <= top && addr <= top & !((align - 1) as usize) && top - (top & !((align - 1) as usize)) < align && (top & !((
    align - 1) as usize)) & ((align - 1) as usize) == 0) by (bit_vector)
        requires
            align > 0,
            align & ((align - 1) as usize) == 0,
            top == addr + align - 1,
    ;
}

/// A bump allocator over the heap from `heap_start` to `heap_end`.
pub struct BumpAllocator {
    heap_start: usize,
    heap_end: usize,
    next: usize,
}

impl BumpAllocator {
    /// Where the next allocation may start.
    pub closed spec fn next(&self) -> usize {
        self.next
    }

    /// The end of the heap.
    pub closed spec fn heap_end(&self) -> usize {
        self.heap_end
    }

    /// The start of the heap.
    pub closed spec fn heap_start(&self) -> usize {
        self.heap_start
    }

    /// The allocator of a kernel module: a 63 MiB heap from 0x80100000 up to
    /// 0x84000000, nothing allocated yet.
    pub fn new() -> (a: Self)
        ensures
            a.heap_start() == 0x80100000,
            a.heap_end() == 0x84000000,
            a.next() == a.heap_start(),
    {
        BumpAllocator { heap_start: 0x80100000, heap_end: 0x84000000, next: 0x80100000 }
    }

    /// Allocate `size` bytes aligned to `align`: the block starts where the
    /// last one ended, rounded up; a block that would pass the heap's end is
    /// refused and nothing changes.
    pub fn allocate(&mut self, size: usize, align: usize) -> (r: Option<usize>)
        requires
            align > 0,
            old(self).next() + align - 1 <= usize::MAX,
            align_up(old(self).next(), align) + size <= usize::MAX,
        ensures
            final(self).heap_start() == old(self).heap_start(),
            final(self).heap_end() == old(self).heap_end(),
            align_up(old(self).next(), align) + size > old(self).heap_end() ==> r is None && final(self).next()
                == old(self).next(),
            align_up(old(self).next(), align) + size <= old(self).heap_end() ==> r == Some(
                align_up(old(self).next(), align),
            ) && final(self).next() == align_up(old(self).next(), align) + size,
    {
        let alloc_start = (self.next + (align - 1)) & !(align - 1);
        let alloc_end = alloc_start + size;
        if alloc_end > self.heap_end {
            None
        } else {
            self.next = alloc_end;
            Some(alloc_start)
        }
    }

    /// Giving memory back does nothing.
    pub fn dealloc(&self, ptr: usize, size: usize, align: usize) {
    }
}

/// Successive allocations do not overlap: a block granted after another
/// starts at or after the other's end, and each is aligned.
pub proof fn lemma_allocations_disjoint(next: usize, size1: usize, align1: usize, size2: usize, align2: usize)
    requires
        is_power_of_two(align1),
        is_power_of_two(align2),
        next + align1 - 1 <= usize::MAX,
        align_up(next, align1) + size1 + align2 - 1 <= usize::MAX,
    ensures
        align_up(next, align1) >= next,
        align_up(next, align1) & ((align1 - 1) as usize) == 0,
        align_up((align_up(next, align1) + size1) as usize, align2) >= align_up(next, align1) + size1,
        align_up((align_up(next, align1) + size1) as usize, align2) & ((align2 - 1) as usize) == 0,
{
    lemma_align_up(next, align1);
    lemma_align_up((align_up(next, align1) + size1) as usize, align2);
}

} // verus!
