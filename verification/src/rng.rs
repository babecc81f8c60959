//! The xorshift64 generator that seeds neurons, stars and sparks.
use vstd::prelude::*;

verus! {

/// One xorshift64 step with the shifts 13, 7 and 17.
pub open spec fn xorshift(s: u64) -> u64 {
    let a = s ^ (s << 13u64);
    let b = a ^ (a >> 7u64);
    b ^ (b << 17u64)
}

/// The 53 high bits of a state: the numerator of a fraction of 2^53.
pub open spec fn mantissa(s: u64) -> u64 {
    s >> 11u64
}

/// Advances the generator one step and returns the 53 high bits of the new
/// state; divided by 2^53 they give a fraction in [0, 1).
pub fn next_random(state: &mut u64) -> (r: u64)
    ensures
        *final(state) == xorshift(*old(state)),
        r == mantissa(*final(state)),
        r < 0x20_0000_0000_0000u64,
{
    let s = *state;
    let a = s ^ (s << 13u64);
    let b = a ^ (a >> 7u64);
    let c = b ^ (b << 17u64);
    *state = c;
    let r = c >> 11u64;
    assert(c >> 11u64 < 0x20_0000_0000_0000u64) by (bit_vector);
    r
}

/// Multiplier with which the starfield stirs the frame number into its
/// generator state.
pub const STIR: u64 = 6364136223846793005;

/// Stirs the frame number into the generator state, so that the sparks of
/// each frame differ: the state plus `frame` times `STIR`, both wrapping.
pub fn stir(state: u64, frame: u64) -> (s: u64)
    ensures
        s == (state + (frame * STIR) % 0x1_0000_0000_0000_0000) % 0x1_0000_0000_0000_0000,
{
    state.wrapping_add(frame.wrapping_mul(STIR))
}

/// A nonzero state never steps to zero, so the generator never gets stuck.
pub proof fn lemma_xorshift_nonzero(s: u64)
    requires
        s != 0,
    ensures
        xorshift(s) != 0,
{
    assert(s != 0 ==> (s ^ (s << 13u64)) != 0) by (bit_vector);
    let a = s ^ (s << 13u64);
    assert(a != 0 ==> (a ^ (a >> 7u64)) != 0) by (bit_vector);
    let b = a ^ (a >> 7u64);
    assert(b != 0 ==> (b ^ (b << 17u64)) != 0) by (bit_vector);
}

} // verus!
