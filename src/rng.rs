use vstd::prelude::*;

verus! {

/// One step of Marsaglia's xorshift32 generator (shifts 13, 17, 5).
pub open spec fn xorshift32_step(x: u32) -> u32 {
    let a = x ^ (x << 13u32);
    let b = a ^ (a >> 17u32);
    b ^ (b << 5u32)
}

/// Advances `state` by one xorshift32 step and returns the new state.
pub fn xorshift32(state: &mut u32) -> (r: u32)
    ensures
        r == xorshift32_step(*old(state)),
        *final(state) == r,
{
    let x = *state;
    let a = x ^ (x << 13u32);
    let b = a ^ (a >> 17u32);
    let c = b ^ (b << 5u32);
    *state = c;
    c
}

/// A non-zero state never steps to zero, so a generator seeded with a
/// non-zero value never gets stuck.
pub proof fn lemma_xorshift32_nonzero(x: u32)
    requires
        x != 0,
    ensures
        xorshift32_step(x) != 0,
{
    assert(x != 0u32 ==> xorshift32_step(x) != 0u32) by (bit_vector);
}

} // verus!
