//! The cache intruder: a core that keeps writing to a buffer so that its
//! lines land in a chosen subset of the shared cache's sets.
//!
//! The cache has 2^20 bytes in lines of 2^6 bytes and 2^4 ways, hence 2^10
//! sets.  The intruder walks its buffer in a scattered order and clears the
//! set-index bits of each address that the current set mask leaves out.
use vstd::prelude::*;

verus! {

/// log2 of the cache size in bytes.
pub const CACHE_SIZE_BITS: usize = 20;

/// log2 of the cache line size in bytes.
pub const CACHE_LINE_BITS: usize = 6;

/// log2 of the number of ways.
pub const CACHE_WAYS_BITS: usize = 4;

/// log2 of the number of sets.
pub const CACHE_SET_BITS: usize = 10;

/// The size of the intruder's buffer: one cache's worth of bytes.
pub const BUFFER_LEN: usize = 0x10_0000;

/// The multiplier of the intruder's walk over its buffer.
pub const WALK_STEP: usize = 1000003;

/// The set mask the intruder starts with: all sets.
pub const FULL_SET_MASK: usize = 0x3FF;

/// The mask of the address bits above the set index and the line offset.
pub open spec fn tag_mask() -> usize {
    (!0usize) << 16usize
}

/// The set mask that follows `mask` after each run: the intruder covers ever
/// fewer sets (all, then all but the lowest one, two, three, four), and then
/// starts over with all sets.
pub open spec fn spec_next_set_mask(mask: usize) -> usize {
    if mask == 0x3FF {
        0x3FE
    } else if mask == 0x3FE {
        0x3FC
    } else if mask == 0x3FC {
        0x3F8
    } else if mask == 0x3F8 {
        0x3F0
    } else {
        0x3FF
    }
}

/// The set mask for the next run.
pub fn next_set_mask(mask: usize) -> (next: usize)
    ensures
        next == spec_next_set_mask(mask),
{
    if mask == 0x3FF {
        0x3FE
    } else if mask == 0x3FE {
        0x3FC
    } else if mask == 0x3FC {
        0x3F8
    } else if mask == 0x3F8 {
        0x3F0
    } else {
        0x3FF
    }
}

/// The next position of the intruder's walk over its buffer.
pub open spec fn spec_next_index(i: int) -> int {
    ((i + 1) * WALK_STEP) % (BUFFER_LEN as int)
}

/// The next position of the walk; it always lies inside the buffer.
pub fn next_index(i: usize) -> (next: usize)
    requires
        (i + 1) * WALK_STEP <= usize::MAX,
    ensures
        next == spec_next_index(i as int),
        next == ((i + 1) * 1000003) % 1048576,
        next < BUFFER_LEN,
{
    ((i + 1) * WALK_STEP) % BUFFER_LEN
}

/// The walk is a multiplicative one: the first step from position 0 goes to
/// 1000003 modulo 2^20, and each next index lies 1000003 positions (modulo
/// the buffer length 2^20) past the index for the position before.
pub proof fn law_walk_steps(i: int)
    requires
        i >= 0,
    ensures
        spec_next_index(0) == 1000003,
        spec_next_index(i + 1) == (spec_next_index(i) + 1000003) % 1048576,
        0 <= spec_next_index(i) < 1048576,
{
    let m: int = 1048576;
    assert(((i + 2) * 1000003) == ((i + 1) * 1000003) + 1000003) by (nonlinear_arith);
    vstd::arithmetic::div_mod::lemma_add_mod_noop((i + 1) * 1000003, 1000003, m);
    vstd::arithmetic::div_mod::lemma_small_mod(1000003nat, 1048576nat);
    vstd::arithmetic::div_mod::lemma_mod_bound((i + 1) * 1000003, m);
    assert(1000003int % m == 1000003);
    assert((spec_next_index(i) + 1000003) % m == ((spec_next_index(i) % m) + (1000003int % m)) % m)
        by {
        vstd::arithmetic::div_mod::lemma_add_mod_noop(spec_next_index(i), 1000003, m);
        vstd::arithmetic::div_mod::lemma_mod_twice((i + 1) * 1000003, m);
    }
    vstd::arithmetic::div_mod::lemma_mod_twice((i + 1) * 1000003, m);
}

/// The address the intruder writes for `addr` under `set_mask`: the tag bits
/// are kept, the set-index bits outside the mask and the line offset cleared.
pub open spec fn spec_target_address(addr: usize, set_mask: usize) -> usize {
    addr & (tag_mask() | (set_mask << 6usize))
}

/// The address to write for buffer address `addr` under `set_mask`.
pub fn target_address(addr: usize, set_mask: usize) -> (target: usize)
    ensures
        target == spec_target_address(addr, set_mask),
        target >> 16usize == addr >> 16usize,
        (target >> 6usize) & 0x3FFusize == (addr >> 6usize) & set_mask & 0x3FFusize,
        target & 0x3Fusize == 0,
{
    let target = addr & (((!0usize) << 16usize) | (set_mask << 6usize));
    assert(target >> 16usize == addr >> 16usize) by (bit_vector)
        requires
            target == addr & (((!0usize) << 16usize) | (set_mask << 6usize)),
    ;
    assert((target >> 6usize) & 0x3FFusize == (addr >> 6usize) & set_mask & 0x3FFusize)
        by (bit_vector)
        requires
            target == addr & (((!0usize) << 16usize) | (set_mask << 6usize)),
    ;
    assert(target & 0x3Fusize == 0) by (bit_vector)
        requires
            target == addr & (((!0usize) << 16usize) | (set_mask << 6usize)),
    ;
    target
}

/// The address the intruder writes on its step at position `i` of a buffer
/// that starts at `base`: the buffer address masked by `target_address`.  For
/// a buffer aligned to its own size, the address always lies inside the
/// buffer.
pub fn step_target(base: usize, i: usize, set_mask: usize) -> (target: usize)
    requires
        base & 0xF_FFFFusize == 0,
        i < BUFFER_LEN,
        base + BUFFER_LEN <= usize::MAX,
    ensures
        target == spec_target_address((base + i) as usize, set_mask),
        base <= target < base + BUFFER_LEN,
{
    let addr = base + i;
    let target = target_address(addr, set_mask);
    assert(base <= target && target < base + 0x10_0000usize) by (bit_vector)
        requires
            base & 0xF_FFFFusize == 0,
            i < 0x10_0000usize,
            addr == base + i,
            target == addr & (((!0usize) << 16usize) | (set_mask << 6usize)),
    ;
    target
}

/// The masks the intruder cycles through, in order.
pub open spec fn set_mask_cycle() -> Seq<usize> {
    seq![0x3FFusize, 0x3FE, 0x3FC, 0x3F8, 0x3F0]
}

/// Whatever mask the intruder starts from, the next one is in its cycle, and
/// from a mask in the cycle five steps lead back to it.
pub proof fn law_set_mask_cycle(mask: usize)
    ensures
        set_mask_cycle().contains(spec_next_set_mask(mask)),
        set_mask_cycle().contains(mask) ==> spec_next_set_mask(
            spec_next_set_mask(
                spec_next_set_mask(spec_next_set_mask(spec_next_set_mask(mask))),
            ),
        ) == mask,
{
    let c = set_mask_cycle();
    assert(c[0] == 0x3FF && c[1] == 0x3FE && c[2] == 0x3FC && c[3] == 0x3F8 && c[4] == 0x3F0);
    if set_mask_cycle().contains(mask) {
        let k = choose|k: int| 0 <= k < c.len() && c[k] == mask;
        assert(0 <= k < 5);
    }
}

/// The masks of the cycle keep ever fewer sets: each is contained in the one
/// before it.
pub proof fn law_set_masks_shrink(mask: usize)
    requires
        mask != 0x3F0,
        set_mask_cycle().contains(mask),
    ensures
        spec_next_set_mask(mask) & mask == spec_next_set_mask(mask),
        spec_next_set_mask(mask) != mask,
{
    let c = set_mask_cycle();
    let k = choose|k: int| 0 <= k < c.len() && c[k] == mask;
    assert(0 <= k < 5);
    assert(0x3FEusize & 0x3FFusize == 0x3FEusize) by (bit_vector);
    assert(0x3FCusize & 0x3FEusize == 0x3FCusize) by (bit_vector);
    assert(0x3F8usize & 0x3FCusize == 0x3F8usize) by (bit_vector);
    assert(0x3F0usize & 0x3F8usize == 0x3F0usize) by (bit_vector);
}

} // verus!
