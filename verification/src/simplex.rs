//! The integer side of simplex noise: the cache of the permutation table, the
//! layered gradient hash, and the simplex corners of a lattice cell with the
//! gradient chosen for each.

use crate::constants::{
    GRADIENT_LUT_1D_SIZE, GRADIENT_LUT_2D_SIZE, GRADIENT_LUT_3D_SIZE, PERMUTATION_TABLE_SIZE,
    SIMPLEX_TRAVERSAL_LUT_3D,
};
use crate::ptable::{
    build_permutation_table, is_permutation_table, lemma_permutation_table_valid,
    permutation_table,
};
use vstd::prelude::*;

verus! {

/// The extended permutation table that every evaluation on `seed` reads.
pub open spec fn table_of(seed: u64) -> Seq<usize> {
    permutation_table(seed, PERMUTATION_TABLE_SIZE as nat, true)
}

/// What a cache holds: the seed last built for, and the table built for it.
pub struct CacheState {
    pub seed: Option<u64>,
    pub table: Option<Seq<usize>>,
}

/// A cache is either empty or holds a seed together with that seed's table.
pub open spec fn state_is_valid(state: CacheState) -> bool {
    match state.seed {
        Some(seed) => state.table == Some(table_of(seed)),
        None => state.table.is_none(),
    }
}

/// The cache after a request for `seed`: untouched when it already holds
/// `seed`, replaced wholesale otherwise.
pub open spec fn after_request(state: CacheState, seed: u64) -> CacheState {
    if state.seed == Some(seed) {
        state
    } else {
        CacheState { seed: Some(seed), table: Some(table_of(seed)) }
    }
}

/// The cache after each of `seeds` has been requested in turn.
pub open spec fn after_requests(state: CacheState, seeds: Seq<u64>) -> CacheState
    decreases seeds.len(),
{
    if seeds.len() == 0 {
        state
    } else {
        after_request(after_requests(state, seeds.drop_last()), seeds.last())
    }
}

/// A single-slot cache of the permutation table, keyed by seed.
///
/// The cache is an owned value: a caller that shares it between threads puts
/// it behind a lock, and the exclusive borrow that a request takes rules out
/// a reader that sees a table half built.
pub struct PermutationTableCache {
    seed: Option<u64>,
    table: Option<Vec<usize>>,
}

impl PermutationTableCache {
    /// The seed and table that the cache holds.
    pub closed spec fn state(&self) -> CacheState {
        CacheState {
            seed: self.seed,
            table: match self.table {
                Some(t) => Some(t@),
                None => None,
            },
        }
    }

    /// The cache is empty, or its table is the one of its seed.
    pub open spec fn wf(&self) -> bool {
        state_is_valid(self.state())
    }

    /// An empty cache.
    pub fn new() -> (cache: Self)
        ensures
            cache.wf(),
            cache.state() == (CacheState { seed: None, table: None }),
    {
        PermutationTableCache { seed: None, table: None }
    }

    /// The seed that the cache holds a table for, if any.
    pub fn cached_seed(&self) -> (seed: Option<u64>)
        ensures
            seed == self.state().seed,
    {
        self.seed
    }

    /// The table of `seed`. It is built only when the cache is empty or holds
    /// another seed; a request for the seed already held leaves the cache as it is.
    pub fn get_permutation_table(&mut self, seed: u64) -> (table: &Vec<usize>)
        requires
            old(self).wf(),
        ensures
            final(self).wf(),
            final(self).state() == after_request(old(self).state(), seed),
            old(self).state().seed == Some(seed) ==> *final(self) == *old(self),
            table@ == table_of(seed),
            is_permutation_table(table@, PERMUTATION_TABLE_SIZE as nat, true),
    {
        let stale: bool = match self.seed {
            Some(held) => held != seed,
            None => true,
        };
        if stale {
            let built: Vec<usize> = build_permutation_table(seed, PERMUTATION_TABLE_SIZE, true);
            self.seed = Some(seed);
            self.table = Some(built);
        }
        proof {
            lemma_permutation_table_valid(seed, PERMUTATION_TABLE_SIZE as nat, true);
        }
        self.table.as_ref().unwrap()
    }
}

/// Requests are answered by seed alone: whatever a valid cache held before,
/// and whichever other seeds were asked for in between, a cache that has
/// answered a request for `seed` holds that seed's table, and so does a later
/// request for the same seed.
pub proof fn lemma_same_seed_same_table(state: CacheState, seed: u64, between: Seq<u64>)
    requires
        state_is_valid(state),
    ensures
        state_is_valid(after_requests(after_request(state, seed), between)),
        after_request(state, seed).table == Some(table_of(seed)),
        after_request(
            after_requests(after_request(state, seed), between),
            seed,
        ).table == after_request(state, seed).table,
{
    lemma_requests_keep_validity(after_request(state, seed), between);
}

/// A valid cache stays valid through any run of requests.
pub proof fn lemma_requests_keep_validity(state: CacheState, seeds: Seq<u64>)
    requires
        state_is_valid(state),
    ensures
        state_is_valid(after_requests(state, seeds)),
    decreases seeds.len(),
{
    if seeds.len() > 0 {
        lemma_requests_keep_validity(state, seeds.drop_last());
    }
}

/// What a request returns depends on the seed alone, not on what the cache
/// held before: two valid caches answer a request for one seed with one table.
pub proof fn lemma_table_independent_of_history(a: CacheState, b: CacheState, seed: u64)
    requires
        state_is_valid(a),
        state_is_valid(b),
    ensures
        after_request(a, seed).table == after_request(b, seed).table,
        after_request(a, seed).seed == after_request(b, seed).seed,
{
}

/// One lookup: the table entry at `i`.
pub open spec fn spec_hash1d(table: Seq<usize>, i: int) -> int {
    table[i] as int
}

/// Two layered lookups: `j` is folded in first, then `i`.
pub open spec fn spec_hash2d(table: Seq<usize>, i: int, j: int) -> int {
    table[i + table[j]] as int
}

/// Three layered lookups: `k` is folded in first, then `j`, then `i`.
pub open spec fn spec_hash3d(table: Seq<usize>, i: int, j: int, k: int) -> int {
    table[i + table[j + table[k]]] as int
}

/// Hash of one lattice coordinate, reduced modulo the table size and then
/// offset by at most the table size.
pub fn hash1d(cache: &mut PermutationTableCache, seed: u64, i: usize) -> (hash: usize)
    requires
        old(cache).wf(),
        i <= PERMUTATION_TABLE_SIZE,
    ensures
        final(cache).wf(),
        final(cache).state() == after_request(old(cache).state(), seed),
        hash == spec_hash1d(table_of(seed), i as int),
        hash < PERMUTATION_TABLE_SIZE,
{
    let perm = cache.get_permutation_table(seed);
    perm[i]
}

/// Hash of two lattice coordinates, each reduced modulo the table size and
/// then offset by at most the table size.
pub fn hash2d(cache: &mut PermutationTableCache, seed: u64, i: usize, j: usize) -> (hash: usize)
    requires
        old(cache).wf(),
        i <= PERMUTATION_TABLE_SIZE,
        j <= PERMUTATION_TABLE_SIZE,
    ensures
        final(cache).wf(),
        final(cache).state() == after_request(old(cache).state(), seed),
        hash == spec_hash2d(table_of(seed), i as int, j as int),
        hash < PERMUTATION_TABLE_SIZE,
{
    let perm = cache.get_permutation_table(seed);
    perm[i + perm[j]]
}

/// Hash of three lattice coordinates, each reduced modulo the table size and
/// then offset by at most the table size.
pub fn hash3d(cache: &mut PermutationTableCache, seed: u64, i: usize, j: usize, k: usize) -> (hash:
    usize)
    requires
        old(cache).wf(),
        i <= PERMUTATION_TABLE_SIZE,
        j <= PERMUTATION_TABLE_SIZE,
        k <= PERMUTATION_TABLE_SIZE,
    ensures
        final(cache).wf(),
        final(cache).state() == after_request(old(cache).state(), seed),
        hash == spec_hash3d(table_of(seed), i as int, j as int, k as int),
        hash < PERMUTATION_TABLE_SIZE,
{
    let perm = cache.get_permutation_table(seed);
    perm[i + perm[j + perm[k]]]
}

/// A lattice coordinate brought into the range of the table: its remainder
/// modulo the table size, which is never negative.
pub open spec fn reduced(coordinate: int) -> int {
    coordinate % (PERMUTATION_TABLE_SIZE as int)
}

/// Reduces a lattice coordinate of either sign modulo the table size. The
/// cells below zero continue the pattern of those above: cell `-1` reads the
/// table where cell `255` does.
pub fn reduce(coordinate: i64) -> (index: usize)
    ensures
        index == reduced(coordinate as int),
        index < PERMUTATION_TABLE_SIZE,
{
    let size: u64 = PERMUTATION_TABLE_SIZE as u64;
    if coordinate >= 0 {
        ((coordinate as u64) % size) as usize
    } else {
        let beyond: u64 = (-(coordinate + 1)) as u64;
        (size - 1 - beyond % size) as usize
    }
}

/// The gradient index of the lattice point `i` in one dimension.
pub open spec fn spec_gradient1d(table: Seq<usize>, i: int) -> int {
    spec_hash1d(table, reduced(i)) % (GRADIENT_LUT_1D_SIZE as int)
}

/// The gradient index of the lattice point `(i, j)` in two dimensions.
pub open spec fn spec_gradient2d(table: Seq<usize>, i: int, j: int) -> int {
    spec_hash2d(table, reduced(i), reduced(j)) % (GRADIENT_LUT_2D_SIZE as int)
}

/// The gradient index of the lattice point `(i, j, k)` in three dimensions.
pub open spec fn spec_gradient3d(table: Seq<usize>, i: int, j: int, k: int) -> int {
    spec_hash3d(table, reduced(i), reduced(j), reduced(k)) % (GRADIENT_LUT_3D_SIZE as int)
}

/// In an extended table an offset may be added before or after the
/// coordinate is reduced: the second copy of the permutation stands where
/// the reduction would have wrapped.
pub proof fn lemma_offset_before_or_after_reduction(table: Seq<usize>, a: int, d: int, v: int)
    requires
        is_permutation_table(table, PERMUTATION_TABLE_SIZE as nat, true),
        0 <= d <= 1,
        0 <= v < PERMUTATION_TABLE_SIZE,
    ensures
        0 <= reduced(a) + d + v < table.len(),
        table[reduced(a) + d + v] == table[reduced(a + d) + v],
        table[reduced(a) + d + v] < PERMUTATION_TABLE_SIZE,
{
    if reduced(a) + d >= PERMUTATION_TABLE_SIZE {
        assert(reduced(a + d) == 0);
        assert(table[PERMUTATION_TABLE_SIZE + v] == table[v]);
    } else {
        assert(reduced(a + d) == reduced(a) + d);
    }
}

/// A lattice point has one gradient hash in one dimension, from whichever
/// cell it is reached: as the corner at offset `d` of the cell at `i`, or as
/// the origin of the cell at `i + d`.
pub proof fn lemma_corner_hash_1d(seed: u64, i: int, d: int)
    requires
        0 <= d <= 1,
    ensures
        spec_hash1d(table_of(seed), reduced(i) + d) == spec_hash1d(table_of(seed), reduced(i + d)),
{
    let table = table_of(seed);
    lemma_permutation_table_valid(seed, PERMUTATION_TABLE_SIZE as nat, true);
    lemma_offset_before_or_after_reduction(table, i, d, 0);
}

/// A lattice point has one gradient hash in two dimensions, from whichever
/// cell it is reached.
pub proof fn lemma_corner_hash_2d(seed: u64, i: int, j: int, di: int, dj: int)
    requires
        0 <= di <= 1,
        0 <= dj <= 1,
    ensures
        spec_hash2d(table_of(seed), reduced(i) + di, reduced(j) + dj) == spec_hash2d(
            table_of(seed),
            reduced(i + di),
            reduced(j + dj),
        ),
{
    let table = table_of(seed);
    lemma_permutation_table_valid(seed, PERMUTATION_TABLE_SIZE as nat, true);
    lemma_offset_before_or_after_reduction(table, j, dj, 0);
    let v: int = table[reduced(j) + dj] as int;
    lemma_offset_before_or_after_reduction(table, i, di, v);
}

/// A lattice point has one gradient hash in three dimensions, from whichever
/// cell it is reached.
pub proof fn lemma_corner_hash_3d(seed: u64, i: int, j: int, k: int, di: int, dj: int, dk: int)
    requires
        0 <= di <= 1,
        0 <= dj <= 1,
        0 <= dk <= 1,
    ensures
        spec_hash3d(table_of(seed), reduced(i) + di, reduced(j) + dj, reduced(k) + dk)
            == spec_hash3d(table_of(seed), reduced(i + di), reduced(j + dj), reduced(k + dk)),
{
    let table = table_of(seed);
    lemma_permutation_table_valid(seed, PERMUTATION_TABLE_SIZE as nat, true);
    lemma_offset_before_or_after_reduction(table, k, dk, 0);
    let w: int = table[reduced(k) + dk] as int;
    lemma_offset_before_or_after_reduction(table, j, dj, w);
    let v: int = table[reduced(j) + dj + w] as int;
    lemma_offset_before_or_after_reduction(table, i, di, v);
}

/// The gradients of the two corners of a cell in one dimension.
#[derive(Clone, Copy, Debug, PartialEq, Eq)]
pub struct Lattice1d {
    /// Gradient index of the cell's origin.
    pub gi0: usize,
    /// Gradient index of the corner one step on.
    pub gi1: usize,
}

/// The corners of the cell at lattice coordinate `i0` and their gradients, read from `table`.
pub open spec fn spec_lattice1d(table: Seq<usize>, i0: int) -> Lattice1d {
    let i: int = reduced(i0);
    Lattice1d {
        gi0: (spec_hash1d(table, i) % (GRADIENT_LUT_1D_SIZE as int)) as usize,
        gi1: (spec_hash1d(table, i + 1) % (GRADIENT_LUT_1D_SIZE as int)) as usize,
    }
}

/// Hashes the two corners of the cell whose origin is the lattice coordinate
/// `i0`, of either sign, to their gradients. A corner's gradient is that of
/// its lattice point, whichever cell it is reached from.
pub fn lattice1d(cache: &mut PermutationTableCache, seed: u64, i0: i64) -> (cell: Lattice1d)
    requires
        old(cache).wf(),
    ensures
        final(cache).wf(),
        final(cache).state() == after_request(old(cache).state(), seed),
        cell == spec_lattice1d(table_of(seed), i0 as int),
        cell.gi0 == spec_gradient1d(table_of(seed), i0 as int),
        cell.gi1 == spec_gradient1d(table_of(seed), i0 + 1),
        cell.gi0 < GRADIENT_LUT_1D_SIZE,
        cell.gi1 < GRADIENT_LUT_1D_SIZE,
{
    proof {
        lemma_corner_hash_1d(seed, i0 as int, 1);
    }
    let i: usize = reduce(i0);
    let gi0: usize = hash1d(cache, seed, i) % GRADIENT_LUT_1D_SIZE;
    let gi1: usize = hash1d(cache, seed, i + 1) % GRADIENT_LUT_1D_SIZE;
    Lattice1d { gi0, gi1 }
}

/// The middle corner of the triangle that covers a point at `(x0, y0)` from
/// the cell's origin: `(0, 1)` where `x0 < y0`, otherwise `(1, 0)`, a tie included.
pub open spec fn spec_middle_corner_2d(x_below_y: bool) -> (usize, usize) {
    if x_below_y {
        (0, 1)
    } else {
        (1, 0)
    }
}

/// The middle corner of a triangle, and the gradients of its three corners.
#[derive(Clone, Copy, Debug, PartialEq, Eq)]
pub struct Lattice2d {
    /// Offset of the middle corner along the first axis.
    pub i1: usize,
    /// Offset of the middle corner along the second axis.
    pub j1: usize,
    /// Gradient index of the cell's origin.
    pub gi0: usize,
    /// Gradient index of the middle corner.
    pub gi1: usize,
    /// Gradient index of the far corner `(1, 1)`.
    pub gi2: usize,
}

/// The triangle of the cell at `(is, js)` that the comparison selects, with
/// the gradient of each corner read from `table`.
pub open spec fn spec_lattice2d(table: Seq<usize>, is: int, js: int, x_below_y: bool) -> Lattice2d {
    let i: int = reduced(is);
    let j: int = reduced(js);
    let (i1, j1) = spec_middle_corner_2d(x_below_y);
    let size: int = GRADIENT_LUT_2D_SIZE as int;
    Lattice2d {
        i1,
        j1,
        gi0: (spec_hash2d(table, i, j) % size) as usize,
        gi1: (spec_hash2d(table, i + i1, j + j1) % size) as usize,
        gi2: (spec_hash2d(table, i + 1, j + 1) % size) as usize,
    }
}

/// Picks the triangle that covers a point of the cell with origin `(is, js)`
/// and hashes its corners to their gradients. `x_below_y` says whether the
/// point's offset from the origin is strictly smaller along the first axis
/// than along the second.
pub fn lattice2d(
    cache: &mut PermutationTableCache,
    seed: u64,
    is: i64,
    js: i64,
    x_below_y: bool,
) -> (cell: Lattice2d)
    requires
        old(cache).wf(),
    ensures
        final(cache).wf(),
        final(cache).state() == after_request(old(cache).state(), seed),
        cell == spec_lattice2d(table_of(seed), is as int, js as int, x_below_y),
        cell.i1 + cell.j1 == 1,
        cell.gi0 == spec_gradient2d(table_of(seed), is as int, js as int),
        cell.gi1 == spec_gradient2d(table_of(seed), is + cell.i1, js + cell.j1),
        cell.gi2 == spec_gradient2d(table_of(seed), is + 1, js + 1),
        cell.gi0 < GRADIENT_LUT_2D_SIZE,
        cell.gi1 < GRADIENT_LUT_2D_SIZE,
        cell.gi2 < GRADIENT_LUT_2D_SIZE,
{
    let mut i1: usize = 1;
    let mut j1: usize = 0;
    if x_below_y {
        i1 = 0;
        j1 = 1;
    }
    proof {
        lemma_corner_hash_2d(seed, is as int, js as int, i1 as int, j1 as int);
        lemma_corner_hash_2d(seed, is as int, js as int, 1, 1);
    }
    let i: usize = reduce(is);
    let j: usize = reduce(js);
    let gi0: usize = hash2d(cache, seed, i, j) % GRADIENT_LUT_2D_SIZE;
    let gi1: usize = hash2d(cache, seed, i + i1, j + j1) % GRADIENT_LUT_2D_SIZE;
    let gi2: usize = hash2d(cache, seed, i + 1, j + 1) % GRADIENT_LUT_2D_SIZE;
    Lattice2d { i1, j1, gi0, gi1, gi2 }
}

/// The two middle corners of a tetrahedron, as offsets from the cell's origin.
#[derive(Clone, Copy, Debug, PartialEq, Eq)]
pub struct Traversal3d {
    pub i1: usize,
    pub j1: usize,
    pub k1: usize,
    pub i2: usize,
    pub j2: usize,
    pub k2: usize,
}

/// The three comparisons folded into one code: `x0 > y0` counts 4, `y0 > z0`
/// counts 2, `x0 > z0` counts 1.
pub open spec fn comparison_code(x_above_y: bool, y_above_z: bool, x_above_z: bool) -> int {
    let high: int = if x_above_y { 4 } else { 0 };
    let middle: int = if y_above_z { 2 } else { 0 };
    let low: int = if x_above_z { 1 } else { 0 };
    high + middle + low
}

/// Whether three numbers exist that compare in this way: `x > y > z` forces
/// `x > z`, and `x <= y <= z` forbids it.
pub open spec fn is_ordering(x_above_y: bool, y_above_z: bool, x_above_z: bool) -> bool {
    &&& (x_above_y && y_above_z) ==> x_above_z
    &&& (!x_above_y && !y_above_z) ==> !x_above_z
}

/// `1` for true and `0` for false.
pub open spec fn unit(flag: bool) -> usize {
    if flag {
        1
    } else {
        0
    }
}

/// The path from the origin of a cube to its far corner that covers a point
/// whose offsets compare as given: the first step runs along the axis of the
/// largest offset, the second adds the axis of the next largest, and among
/// equal offsets the later axis goes first. Comparisons that no three numbers
/// show select no path, and both corners stay at the origin.
pub open spec fn spec_traversal_3d(
    x_above_y: bool,
    y_above_z: bool,
    x_above_z: bool,
) -> Traversal3d {
    if is_ordering(x_above_y, y_above_z, x_above_z) {
        Traversal3d {
            i1: unit(x_above_y && x_above_z),
            j1: unit(!x_above_y && y_above_z),
            k1: unit(!y_above_z && !x_above_z),
            i2: unit(x_above_y || x_above_z),
            j2: unit(!x_above_y || y_above_z),
            k2: unit(!y_above_z || !x_above_z),
        }
    } else {
        Traversal3d { i1: 0, j1: 0, k1: 0, i2: 0, j2: 0, k2: 0 }
    }
}

/// Looks up the two middle corners of the tetrahedron for the given comparisons
/// of a point's offsets `x0`, `y0`, `z0` from the cell's origin.
pub fn simplex_traversal_3d(x_above_y: bool, y_above_z: bool, x_above_z: bool) -> (path:
    Traversal3d)
    ensures
        path == spec_traversal_3d(x_above_y, y_above_z, x_above_z),
        is_ordering(x_above_y, y_above_z, x_above_z) ==> {
            &&& path.i1 + path.j1 + path.k1 == 1
            &&& path.i2 + path.j2 + path.k2 == 2
            &&& path.i1 <= path.i2 && path.j1 <= path.j2 && path.k1 <= path.k2
        },
{
    let mut idx: usize = 0;
    if x_above_y {
        idx += 4;
    }
    if y_above_z {
        idx += 2;
    }
    if x_above_z {
        idx += 1;
    }
    assert(idx == comparison_code(x_above_y, y_above_z, x_above_z));
    Traversal3d {
        i1: SIMPLEX_TRAVERSAL_LUT_3D[idx][0],
        j1: SIMPLEX_TRAVERSAL_LUT_3D[idx][1],
        k1: SIMPLEX_TRAVERSAL_LUT_3D[idx][2],
        i2: SIMPLEX_TRAVERSAL_LUT_3D[idx][3],
        j2: SIMPLEX_TRAVERSAL_LUT_3D[idx][4],
        k2: SIMPLEX_TRAVERSAL_LUT_3D[idx][5],
    }
}

/// For offsets `x`, `y`, `z` of any point, the path selected by their
/// comparisons steps first along an axis of the largest offset and last along
/// an axis of the smallest.
pub proof fn lemma_traversal_follows_order(x: int, y: int, z: int)
    ensures
        is_ordering(x > y, y > z, x > z),
        ({
            let path = spec_traversal_3d(x > y, y > z, x > z);
            &&& path.i1 == 1 ==> x > y && x > z
            &&& path.j1 == 1 ==> y >= x && y > z
            &&& path.k1 == 1 ==> z >= x && z >= y
            &&& path.i2 == 0 ==> x <= y && x <= z
            &&& path.j2 == 0 ==> y < x && y <= z
            &&& path.k2 == 0 ==> z < x && z < y
            &&& path.i1 + path.j1 + path.k1 == 1
            &&& path.i2 + path.j2 + path.k2 == 2
        }),
{
}

/// The middle corners of a tetrahedron, and the gradients of its four corners.
#[derive(Clone, Copy, Debug, PartialEq, Eq)]
pub struct Lattice3d {
    /// Offsets of the two middle corners.
    pub path: Traversal3d,
    /// Gradient index of the cell's origin.
    pub gi0: usize,
    /// Gradient index of the first middle corner.
    pub gi1: usize,
    /// Gradient index of the second middle corner.
    pub gi2: usize,
    /// Gradient index of the far corner `(1, 1, 1)`.
    pub gi3: usize,
}

/// The tetrahedron of the cell at `(is, js, ks)` that the comparisons select,
/// with the gradient of each corner read from `table`.
pub open spec fn spec_lattice3d(
    table: Seq<usize>,
    is: int,
    js: int,
    ks: int,
    x_above_y: bool,
    y_above_z: bool,
    x_above_z: bool,
) -> Lattice3d {
    let i: int = reduced(is);
    let j: int = reduced(js);
    let k: int = reduced(ks);
    let path: Traversal3d = spec_traversal_3d(x_above_y, y_above_z, x_above_z);
    let size: int = GRADIENT_LUT_3D_SIZE as int;
    Lattice3d {
        path,
        gi0: (spec_hash3d(table, i, j, k) % size) as usize,
        gi1: (spec_hash3d(table, i + path.i1, j + path.j1, k + path.k1) % size) as usize,
        gi2: (spec_hash3d(table, i + path.i2, j + path.j2, k + path.k2) % size) as usize,
        gi3: (spec_hash3d(table, i + 1, j + 1, k + 1) % size) as usize,
    }
}

/// Picks the tetrahedron that covers a point of the cell with origin
/// `(is, js, ks)` and hashes its corners to their gradients. The three flags
/// hold the strict comparisons `x0 > y0`, `y0 > z0` and `x0 > z0` of the
/// point's offsets from the origin.
pub fn lattice3d(
    cache: &mut PermutationTableCache,
    seed: u64,
    is: i64,
    js: i64,
    ks: i64,
    x_above_y: bool,
    y_above_z: bool,
    x_above_z: bool,
) -> (cell: Lattice3d)
    requires
        old(cache).wf(),
    ensures
        final(cache).wf(),
        final(cache).state() == after_request(old(cache).state(), seed),
        cell == spec_lattice3d(
            table_of(seed),
            is as int,
            js as int,
            ks as int,
            x_above_y,
            y_above_z,
            x_above_z,
        ),
        cell.gi0 == spec_gradient3d(table_of(seed), is as int, js as int, ks as int),
        cell.gi1 == spec_gradient3d(
            table_of(seed),
            is + cell.path.i1,
            js + cell.path.j1,
            ks + cell.path.k1,
        ),
        cell.gi2 == spec_gradient3d(
            table_of(seed),
            is + cell.path.i2,
            js + cell.path.j2,
            ks + cell.path.k2,
        ),
        cell.gi3 == spec_gradient3d(table_of(seed), is + 1, js + 1, ks + 1),
        cell.gi0 < GRADIENT_LUT_3D_SIZE,
        cell.gi1 < GRADIENT_LUT_3D_SIZE,
        cell.gi2 < GRADIENT_LUT_3D_SIZE,
        cell.gi3 < GRADIENT_LUT_3D_SIZE,
{
    let path: Traversal3d = simplex_traversal_3d(x_above_y, y_above_z, x_above_z);
    proof {
        let (i, j, k) = (is as int, js as int, ks as int);
        lemma_corner_hash_3d(seed, i, j, k, path.i1 as int, path.j1 as int, path.k1 as int);
        lemma_corner_hash_3d(seed, i, j, k, path.i2 as int, path.j2 as int, path.k2 as int);
        lemma_corner_hash_3d(seed, i, j, k, 1, 1, 1);
    }
    let i: usize = reduce(is);
    let j: usize = reduce(js);
    let k: usize = reduce(ks);
    let gi0: usize = hash3d(cache, seed, i, j, k) % GRADIENT_LUT_3D_SIZE;
    let gi1: usize = hash3d(cache, seed, i + path.i1, j + path.j1, k + path.k1)
        % GRADIENT_LUT_3D_SIZE;
    let gi2: usize = hash3d(cache, seed, i + path.i2, j + path.j2, k + path.k2)
        % GRADIENT_LUT_3D_SIZE;
    let gi3: usize = hash3d(cache, seed, i + 1, j + 1, k + 1) % GRADIENT_LUT_3D_SIZE;
    Lattice3d { path, gi0, gi1, gi2, gi3 }
}

} // verus!
