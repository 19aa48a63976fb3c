//! Cheap deterministic noise for the map's decorations: a xorshift generator for
//! wildlife and ripples, and an integer hash that varies each wave crest.

use vstd::prelude::*;
use vstd::wrapping::u32_specs::wrapping_mul;

verus! {

/// One xorshift step (shifts 13, 7, 17) of a 64-bit state.
pub open spec fn xorshift(state: u64) -> u64 {
    let a = state ^ ((state << 13u64) as u64);
    let b = a ^ (a >> 7u64);
    b ^ ((b << 17u64) as u64)
}

/// Advances the generator `state` and returns a fresh 24-bit sample (its top bits).
/// A state that would fall to zero is kept at one, so the generator never sticks.
pub fn next_random_bits(state: &mut u64) -> (sample: u32)
    ensures
        *final(state) == if xorshift(*old(state)) == 0 {
            1u64
        } else {
            xorshift(*old(state))
        },
        sample == *final(state) >> 40u64,
        sample < 0x100_0000,
{
    let mut value = *state;
    value = value ^ (value << 13u64);
    value = value ^ (value >> 7u64);
    value = value ^ (value << 17u64);
    *state = if value == 0 {
        1
    } else {
        value
    };
    let top = *state >> 40u64;
    assert(top < 0x100_0000) by (bit_vector)
        requires
            top == *state >> 40u64,
    ;
    top as u32
}

/// Integer hash of a crest's `seed`, its life `cycle` and a colour `channel`.
pub open spec fn crest_hash(seed: u32, cycle: u32, channel: u32) -> u32 {
    let v0 = seed ^ wrapping_mul(cycle, 0x9e37_79b9u32) ^ wrapping_mul(
        (channel + 1) as u32,
        0x85eb_ca6bu32,
    );
    let v1 = v0 ^ (v0 >> 16u32);
    let v2 = wrapping_mul(v1, 0x7feb_352du32);
    let v3 = v2 ^ (v2 >> 15u32);
    let v4 = wrapping_mul(v3, 0x846c_a68bu32);
    v4 ^ (v4 >> 16u32)
}

/// Three 24-bit variations (one per channel) of a crest's shape for one life cycle.
pub fn crest_variation_bits(seed: u32, cycle: u32) -> (bits: [u32; 3])
    ensures
        forall|channel: int|
            0 <= channel < 3 ==> #[trigger] bits@[channel] == crest_hash(seed, cycle, channel as u32)
                >> 8u32,
{
    let b0 = crest_channel(seed, cycle, 0);
    let b1 = crest_channel(seed, cycle, 1);
    let b2 = crest_channel(seed, cycle, 2);
    let bits = [b0, b1, b2];
    assert(bits@ =~= seq![b0, b1, b2]);
    bits
}

fn crest_channel(seed: u32, cycle: u32, channel: u32) -> (bits: u32)
    requires
        channel < 3,
    ensures
        bits == crest_hash(seed, cycle, channel) >> 8u32,
{
    let mut value = seed ^ cycle.wrapping_mul(0x9e37_79b9) ^ (channel + 1).wrapping_mul(
        0x85eb_ca6b,
    );
    value = value ^ (value >> 16u32);
    value = value.wrapping_mul(0x7feb_352d);
    value = value ^ (value >> 15u32);
    value = value.wrapping_mul(0x846c_a68b);
    value = value ^ (value >> 16u32);
    value >> 8u32
}

/// Triangle indices covering a grid of `columns` by `rows` vertices stored row by row:
/// two triangles per cell, lower-left, lower-right, upper-right and lower-left,
/// upper-right, upper-left.
pub open spec fn grid_cell_index(columns: int, cell: int, corner: int) -> int {
    let row = cell / (columns - 1);
    let column = cell % (columns - 1);
    let bottom_left = row * columns + column;
    let top_left = bottom_left + columns;
    if corner == 0 || corner == 3 {
        bottom_left
    } else if corner == 1 {
        bottom_left + 1
    } else if corner == 2 || corner == 4 {
        top_left + 1
    } else {
        top_left
    }
}

/// Index list of the triangles of a water grid of `columns` by `rows` vertices.
pub fn grid_triangles(columns: usize, rows: usize) -> (indices: Vec<u32>)
    requires
        columns >= 1,
        rows >= 1,
        columns * rows <= 0x1_0000_0000,
    ensures
        indices@.len() == 6 * (columns - 1) * (rows - 1),
        forall|k: int|
            0 <= k < indices@.len() ==> #[trigger] indices@[k] == grid_cell_index(
                columns as int,
                k / 6,
                k % 6,
            ),
{
    let mut indices: Vec<u32> = Vec::new();
    let mut row: usize = 0;
    while row < rows - 1
        invariant
            columns >= 1,
            rows >= 1,
            columns * rows <= 0x1_0000_0000,
            row <= rows - 1,
            indices@.len() == 6 * (columns - 1) * row,
            forall|k: int|
                0 <= k < indices@.len() ==> #[trigger] indices@[k] == grid_cell_index(
                    columns as int,
                    k / 6,
                    k % 6,
                ),
        decreases rows - 1 - row,
    {
        let mut column: usize = 0;
        assert(6 * ((columns - 1) * row + column) == 6 * (columns - 1) * row) by (nonlinear_arith)
            requires
                column == 0,
        ;
        while column < columns - 1
            invariant
                columns >= 1,
                rows >= 1,
                columns * rows <= 0x1_0000_0000,
                row < rows - 1,
                column <= columns - 1,
                indices@.len() == 6 * ((columns - 1) * row + column),
                forall|k: int|
                    0 <= k < indices@.len() ==> #[trigger] indices@[k] == grid_cell_index(
                        columns as int,
                        k / 6,
                        k % 6,
                    ),
            decreases columns - 1 - column,
        {
            proof {
                assert(row * columns + column + columns + 1 < columns * rows) by (nonlinear_arith)
                    requires
                        row < rows - 1,
                        column < columns - 1,
                        columns >= 1,
                ;
            }
            let bottom_left = (row * columns + column) as u32;
            let top_left = bottom_left + columns as u32;
            let ghost cell = (columns - 1) * row + column;
            let ghost start = indices@.len() as int;
            indices.push(bottom_left);
            indices.push(bottom_left + 1);
            indices.push(top_left + 1);
            indices.push(bottom_left);
            indices.push(top_left + 1);
            indices.push(top_left);
            proof {
                assert(start == 6 * cell) by (nonlinear_arith)
                    requires
                        start == 6 * ((columns - 1) * row + column),
                        cell == (columns - 1) * row + column,
                ;
                assert(cell / (columns - 1) == row && cell % (columns - 1) == column) by (nonlinear_arith)
                    requires
                        cell == (columns - 1) * row + column,
                        column < columns - 1,
                ;
                assert forall|k: int| 0 <= k < indices@.len() implies #[trigger] indices@[k]
                    == grid_cell_index(columns as int, k / 6, k % 6) by {
                    if k >= start {
                        assert(k / 6 == cell && k % 6 == k - start) by (nonlinear_arith)
                            requires
                                start == 6 * cell,
                                start <= k < start + 6,
                        ;
                    }
                }
            }
            column = column + 1;
        }
        proof {
            assert(6 * ((columns - 1) * row + (columns - 1)) == 6 * (columns - 1) * (row + 1)) by (nonlinear_arith);
        }
        row = row + 1;
    }
    proof {
        assert(6 * (columns - 1) * (rows - 1) == 6 * (columns - 1) * (rows - 1));
    }
    indices
}

} // verus!
