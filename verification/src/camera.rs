use vstd::prelude::*;

verus! {

/// The odd multiplier that spreads a render seed over all 64 bits.
pub const SEED_SPREAD: u64 = 0x9E37_79B9_7F4A_7C15;

/// The seed of the random generator for scanline `row` of a render with
/// seed `seed`: the seed times [`SEED_SPREAD`] modulo 2^64, xor one more
/// than the row index.
pub open spec fn row_seed_spec(seed: u64, row: u32) -> u64 {
    (((seed as int) * (SEED_SPREAD as int)) % 0x1_0000_0000_0000_0000) as u64 ^ ((row as u64) + 1) as u64
}

/// Seeds the generator of one scanline. It depends on the render seed and
/// the row index alone, so a render comes out the same however its rows are
/// scheduled across threads.
pub fn row_seed(seed: u64, row: u32) -> (r: u64)
    ensures
        r == row_seed_spec(seed, row),
{
    seed.wrapping_mul(SEED_SPREAD) ^ ((row as u64) + 1)
}

/// Two different scanlines of one render never share a generator seed.
pub proof fn lemma_row_seeds_distinct(seed: u64, a: u32, b: u32)
    requires
        a != b,
    ensures
        row_seed_spec(seed, a) != row_seed_spec(seed, b),
{
    let m = (((seed as int) * (SEED_SPREAD as int)) % 0x1_0000_0000_0000_0000) as u64;
    let x = ((a as u64) + 1) as u64;
    let y = ((b as u64) + 1) as u64;
    assert(x != y);
    assert(m ^ x != m ^ y) by (bit_vector)
        requires
            x != y,
    ;
}

/// Whether the progress line is redrawn once `done` of `height` rows are
/// finished: every sixteenth row, and after the last one.
pub fn progress_due(done: usize, height: usize) -> (r: bool)
    ensures
        r == (done % 16 == 0 || done == height),
{
    done % 16 == 0 || done == height
}

} // verus!
