//! Sizes and lookup tables shared by the table, the hash and the evaluators.

use vstd::prelude::*;

verus! {

/// Number of distinct entries of the permutation table.
pub const PERMUTATION_TABLE_SIZE: usize = 256;

/// Number of gradients in one dimension.
pub const GRADIENT_LUT_1D_SIZE: usize = 2;

/// Number of gradients in two dimensions.
pub const GRADIENT_LUT_2D_SIZE: usize = 4;

/// Number of gradients in three dimensions.
pub const GRADIENT_LUT_3D_SIZE: usize = 12;

/// The two middle corners of the simplex for each comparison code, as
/// `[i1, j1, k1, i2, j2, k2]`. Codes 1 and 6 stand for no ordering of three
/// numbers; their rows are padding.
pub const SIMPLEX_TRAVERSAL_LUT_3D: [[usize; 6]; 8] = [
    [0, 0, 1, 0, 1, 1],
    [0, 0, 0, 0, 0, 0],
    [0, 1, 0, 0, 1, 1],
    [0, 1, 0, 1, 1, 0],
    [0, 0, 1, 1, 0, 1],
    [1, 0, 0, 1, 0, 1],
    [0, 0, 0, 0, 0, 0],
    [1, 0, 0, 1, 1, 0],
];

/// The gradients in one dimension.
pub const GRADIENT_LUT_1D: [i8; 2] = [1, -1];

/// The gradients in two dimensions: the four diagonals of the unit square.
pub const GRADIENT_LUT_2D: [[i8; 2]; 4] = [[-1, -1], [1, -1], [-1, 1], [1, 1]];

/// The gradients in three dimensions: from the centre of a cube to the
/// midpoints of its twelve edges.
pub const GRADIENT_LUT_3D: [[i8; 3]; 12] = [
    [1, 1, 0],
    [-1, 1, 0],
    [1, -1, 0],
    [-1, -1, 0],
    [1, 0, 1],
    [-1, 0, 1],
    [1, 0, -1],
    [-1, 0, -1],
    [0, 1, 1],
    [0, -1, 1],
    [0, 1, -1],
    [0, -1, -1],
];

} // verus!
