use vstd::prelude::*;

verus! {

/// Pixels per grid cell when coordinates are mapped to the screen.
pub const BLOCK_SIZE: u32 = 25;

/// A grid coordinate scaled to pixels and clamped into `u32`: negative
/// coordinates land on 0, overly large ones on `u32::MAX`.
pub open spec fn scaled_coord(c: int) -> int {
    if c < 0 {
        0
    } else if c * (BLOCK_SIZE as int) > u32::MAX as int {
        u32::MAX as int
    } else {
        c * (BLOCK_SIZE as int)
    }
}

/// Converts a grid coordinate to a pixel coordinate, saturating at the bounds
/// of `u32`.
pub fn to_coord_u32(game_coord: i32) -> (r: u32)
    ensures
        r as int == scaled_coord(game_coord as int),
{
    if game_coord <= 0 {
        0
    } else {
        proof {
            assert(game_coord as u64 <= 2147483647u64);
            assert((game_coord as u64) * (BLOCK_SIZE as u64) <= 2147483647u64 * 25) by (nonlinear_arith)
                requires
                    game_coord as u64 <= 2147483647u64,
                    BLOCK_SIZE == 25,
            ;
        }
        let wide: u64 = (game_coord as u64) * (BLOCK_SIZE as u64);
        if wide > u32::MAX as u64 {
            u32::MAX
        } else {
            wide as u32
        }
    }
}

} // verus!
