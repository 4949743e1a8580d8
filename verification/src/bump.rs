//! Bump allocation over a single address range.
//!
//! An allocator of this kind hands out consecutive, aligned blocks of a
//! region `[start, end)` and never gives memory back: the start of the free
//! region only moves forward.  Addresses are plain integers here; the code that
//! owns the memory turns them into pointers.
use vstd::prelude::*;

verus! {

use vstd::arithmetic::div_mod::{lemma_fundamental_div_mod, lemma_mod_bound};

/// `n` is a power of two (1, 2, 4, ...).
pub open spec fn is_power_of_two(n: int) -> bool
    decreases n,
{
    if n <= 0 {
        false
    } else if n == 1 {
        true
    } else {
        n % 2 == 0 && is_power_of_two(n / 2)
    }
}

/// The distance from `addr` up to the next multiple of `align`
/// (zero when `addr` is already aligned).
pub open spec fn align_offset(addr: int, align: int) -> int {
    (align - addr % align) % align
}

/// The smallest multiple of `align` that is not below `addr`.
pub open spec fn align_up(addr: int, align: int) -> int {
    addr + align_offset(addr, align)
}

/// A block of `size` bytes aligned to `align` can be cut from the free region
/// `[start, end)`: the block, and the address just past it, stay below `end`.
pub open spec fn bump_fits(start: int, end: int, size: int, align: int) -> bool {
    align_up(start, align) + size < end
}

/// The free region left once a block of `size` bytes aligned to `align` has
/// been cut from the front of a region that starts at `start`.
pub open spec fn bump_next(start: int, size: int, align: int) -> int {
    align_up(start, align) + size
}

/// Facts about `align_up` for a positive alignment: it is aligned, not below
/// `addr`, and less than one alignment above it.
pub proof fn lemma_align_up(addr: int, align: int)
    requires
        align > 0,
    ensures
        align_up(addr, align) % align == 0,
        addr <= align_up(addr, align) < addr + align,
        addr % align == 0 ==> align_up(addr, align) == addr,
{
    lemma_mod_bound(addr, align);
    lemma_fundamental_div_mod(addr, align);
    let r = addr % align;
    let q = addr / align;
    if r == 0 {
        assert((align - r) % align == 0) by {
            vstd::arithmetic::div_mod::lemma_mod_self_0(align);
        }
        assert(align_up(addr, align) == addr);
    } else {
        assert((align - r) % align == align - r) by {
            vstd::arithmetic::div_mod::lemma_small_mod((align - r) as nat, align as nat);
        }
        assert(align_up(addr, align) == align * (q + 1)) by (nonlinear_arith)
            requires
                addr == align * q + r,
                align_up(addr, align) == addr + (align - r),
        ;
        assert((align * (q + 1)) % align == 0) by {
            vstd::arithmetic::div_mod::lemma_mod_multiples_basic(q + 1, align);
            vstd::arithmetic::mul::lemma_mul_is_commutative(q + 1, align);
        }
    }
}

/// A power of two is positive.
pub proof fn lemma_power_of_two_positive(n: int)
    requires
        is_power_of_two(n),
    ensures
        n > 0,
{
}

/// Two blocks cut one after the other from a region do not overlap: the
/// second starts at or after the end of the first, both are aligned, and both
/// lie inside the region.
pub proof fn law_successive_blocks_disjoint(
    start: int,
    end: int,
    size1: int,
    align1: int,
    size2: int,
    align2: int,
)
    requires
        is_power_of_two(align1),
        is_power_of_two(align2),
        size1 >= 0,
        size2 >= 0,
        bump_fits(start, end, size1, align1),
        bump_fits(bump_next(start, size1, align1), end, size2, align2),
    ensures
        ({
            let first = align_up(start, align1);
            let second = align_up(bump_next(start, size1, align1), align2);
            &&& start <= first
            &&& first + size1 <= second
            &&& second + size2 < end
            &&& first % align1 == 0
            &&& second % align2 == 0
        }),
{
    lemma_align_up(start, align1);
    lemma_align_up(bump_next(start, size1, align1), align2);
}

/// Cuts an aligned block from the front of the free region `[start, end)`:
/// the block starts at the first multiple of `align` not below `start`.
pub fn bump_alloc(start: usize, end: usize, size: usize, align: usize) -> (block: usize)
    requires
        is_power_of_two(align as int),
        bump_fits(start as int, end as int, size as int, align as int),
    ensures
        block == align_up(start as int, align as int),
        block + size == bump_next(start as int, size as int, align as int),
        block + size < end,
{
    proof {
        lemma_power_of_two_positive(align as int);
        lemma_align_up(start as int, align as int);
    }
    let rem = start % align;
    let offset = (align - rem) % align;
    start + offset
}

/// Whether `bump_alloc(start, end, size, align)` may be called: the aligned
/// block fits below `end`.
pub fn bump_can_alloc(start: usize, end: usize, size: usize, align: usize) -> (fits: bool)
    requires
        is_power_of_two(align as int),
    ensures
        fits == bump_fits(start as int, end as int, size as int, align as int),
{
    proof {
        lemma_power_of_two_positive(align as int);
        lemma_align_up(start as int, align as int);
    }
    let rem = start % align;
    let offset = (align - rem) % align;
    if start > usize::MAX - offset {
        return false;
    }
    let block = start + offset;
    if size > usize::MAX - block {
        return false;
    }
    block + size < end
}

/// A bump allocator over one memory region, which it never gives back.
pub struct StupidAlloc {
    start_addr: usize,
    end_addr: usize,
}

impl StupidAlloc {
    /// The first address of the free region.
    pub closed spec fn start(&self) -> int {
        self.start_addr as int
    }

    /// The address just past the free region.
    pub closed spec fn end(&self) -> int {
        self.end_addr as int
    }

    /// An allocator with an empty region at address zero: nothing fits until
    /// `init` hands it memory.
    pub fn new() -> (fresh: Self)
        ensures
            fresh.start() == 0,
            fresh.end() == 0,
    {
        StupidAlloc { start_addr: 0, end_addr: 0 }
    }

    /// Takes the buffer of `buf_len` bytes at `buf_addr` as the free region.
    pub fn init(&mut self, buf_addr: usize, buf_len: usize)
        requires
            buf_addr + buf_len <= usize::MAX,
        ensures
            final(self).start() == buf_addr,
            final(self).end() == buf_addr + buf_len,
    {
        self.start_addr = buf_addr;
        self.end_addr = buf_addr + buf_len;
    }

    /// Whether a block of `size` bytes aligned to `align` fits in the free region.
    pub fn can_alloc(&self, size: usize, align: usize) -> (fits: bool)
        requires
            is_power_of_two(align as int),
        ensures
            fits == bump_fits(self.start(), self.end(), size as int, align as int),
    {
        bump_can_alloc(self.start_addr, self.end_addr, size, align)
    }

    /// Hands out the address of a block of `size` bytes aligned to `align`:
    /// the first aligned address of the free region, which then begins just
    /// past the block.
    pub fn allocate(&mut self, size: usize, align: usize) -> (block: usize)
        requires
            is_power_of_two(align as int),
            bump_fits(old(self).start(), old(self).end(), size as int, align as int),
        ensures
            block == align_up(old(self).start(), align as int),
            (block as int) % (align as int) == 0,
            old(self).start() <= block,
            block + size < old(self).end(),
            final(self).start() == bump_next(old(self).start(), size as int, align as int),
            final(self).end() == old(self).end(),
    {
        proof {
            lemma_power_of_two_positive(align as int);
            lemma_align_up(self.start_addr as int, align as int);
        }
        let block = bump_alloc(self.start_addr, self.end_addr, size, align);
        self.start_addr = block + size;
        block
    }

    /// Giving a block back does nothing: the region never grows again.
    pub fn dealloc(&mut self, block: usize, size: usize, align: usize)
        ensures
            *final(self) == *old(self),
    {
    }
}

/// The bump allocator that a spin lock guards in a shared allocator; it
/// behaves exactly as `StupidAlloc`.
pub struct RawSimpleAlloc {
    start_addr: usize,
    end_addr: usize,
}

impl RawSimpleAlloc {
    /// The first address of the free region.
    pub closed spec fn start(&self) -> int {
        self.start_addr as int
    }

    /// The address just past the free region.
    pub closed spec fn end(&self) -> int {
        self.end_addr as int
    }

    /// An allocator with an empty region at address zero.
    pub fn new() -> (fresh: Self)
        ensures
            fresh.start() == 0,
            fresh.end() == 0,
    {
        RawSimpleAlloc { start_addr: 0, end_addr: 0 }
    }

    /// Takes the buffer of `buf_len` bytes at `buf_addr` as the free region.
    pub fn init(&mut self, buf_addr: usize, buf_len: usize)
        requires
            buf_addr + buf_len <= usize::MAX,
        ensures
            final(self).start() == buf_addr,
            final(self).end() == buf_addr + buf_len,
    {
        self.start_addr = buf_addr;
        self.end_addr = buf_addr + buf_len;
    }

    /// Whether a block of `size` bytes aligned to `align` fits in the free region.
    pub fn can_alloc(&self, size: usize, align: usize) -> (fits: bool)
        requires
            is_power_of_two(align as int),
        ensures
            fits == bump_fits(self.start(), self.end(), size as int, align as int),
    {
        bump_can_alloc(self.start_addr, self.end_addr, size, align)
    }

    /// Hands out the first aligned block of the free region, which then begins
    /// just past the block.
    pub fn allocate(&mut self, size: usize, align: usize) -> (block: usize)
        requires
            is_power_of_two(align as int),
            bump_fits(old(self).start(), old(self).end(), size as int, align as int),
        ensures
            block == align_up(old(self).start(), align as int),
            (block as int) % (align as int) == 0,
            old(self).start() <= block,
            block + size < old(self).end(),
            final(self).start() == bump_next(old(self).start(), size as int, align as int),
            final(self).end() == old(self).end(),
    {
        proof {
            lemma_power_of_two_positive(align as int);
            lemma_align_up(self.start_addr as int, align as int);
        }
        let block = bump_alloc(self.start_addr, self.end_addr, size, align);
        self.start_addr = block + size;
        block
    }

    /// Giving a block back does nothing.
    pub fn dealloc(&mut self, block: usize, size: usize, align: usize)
        ensures
            *final(self) == *old(self),
    {
    }
}

} // verus!
