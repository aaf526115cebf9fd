use vstd::prelude::*;

verus! {

/// Which of the two materials of a chequerboard covers the cube with rounded
/// coordinates `(x, y, z)` (each coordinate divided by the tile size):
/// the first where their sum is even, the second where it is odd.
pub open spec fn first_tile(x: int, y: int, z: int) -> bool {
    (x + y + z) % 2 == 0
}

/// Whether the cube with rounded coordinates `(x, y, z)` takes the first material.
pub fn is_first_tile(x: i64, y: i64, z: i64) -> (r: bool)
    ensures
        r == first_tile(x as int, y as int, z as int),
{
    let sum: i128 = x as i128 + y as i128 + z as i128;
    sum.checked_rem_euclid(2) == Some(0i128)
}

} // verus!
