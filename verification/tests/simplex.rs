use simplex_noise::constants::{
    GRADIENT_LUT_1D, GRADIENT_LUT_1D_SIZE, GRADIENT_LUT_2D, GRADIENT_LUT_2D_SIZE, GRADIENT_LUT_3D,
    GRADIENT_LUT_3D_SIZE, PERMUTATION_TABLE_SIZE, SIMPLEX_TRAVERSAL_LUT_3D,
};
use simplex_noise::ptable::build_permutation_table;
use simplex_noise::simplex::{
    hash1d, hash2d, hash3d, lattice1d, lattice2d, lattice3d, simplex_traversal_3d, Lattice1d,
    reduce, Lattice2d, Lattice3d, PermutationTableCache, Traversal3d,
};

fn path(row: [usize; 6]) -> Traversal3d {
    Traversal3d { i1: row[0], j1: row[1], k1: row[2], i2: row[3], j2: row[4], k2: row[5] }
}

#[test]
fn constants_have_the_documented_sizes() {
    assert_eq!(PERMUTATION_TABLE_SIZE, 256);
    assert_eq!(GRADIENT_LUT_1D.len(), GRADIENT_LUT_1D_SIZE);
    assert_eq!(GRADIENT_LUT_2D.len(), GRADIENT_LUT_2D_SIZE);
    assert_eq!(GRADIENT_LUT_3D.len(), GRADIENT_LUT_3D_SIZE);
    assert_eq!(SIMPLEX_TRAVERSAL_LUT_3D.len(), 8);
}

#[test]
fn gradients_in_three_dimensions_are_edge_midpoints() {
    for (n, g) in GRADIENT_LUT_3D.iter().enumerate() {
        assert_eq!(g.iter().filter(|&&c| c == 0).count(), 1);
        assert!(g.iter().all(|&c| c == -1 || c == 0 || c == 1));
        for h in GRADIENT_LUT_3D.iter().skip(n + 1) {
            assert_ne!(g, h);
        }
    }
}

#[test]
fn new_cache_is_empty() {
    let cache = PermutationTableCache::new();
    assert_eq!(cache.cached_seed(), None);
}

#[test]
fn cache_builds_the_extended_table_of_the_seed() {
    let mut cache = PermutationTableCache::new();
    let table = cache.get_permutation_table(42).clone();
    assert_eq!(table, build_permutation_table(42, PERMUTATION_TABLE_SIZE, true));
    assert_eq!(table.len(), 512);
    assert_eq!(cache.cached_seed(), Some(42));
}

#[test]
fn cache_keeps_the_table_while_the_seed_stays() {
    let mut cache = PermutationTableCache::new();
    let first = cache.get_permutation_table(5).clone();
    let second = cache.get_permutation_table(5).clone();
    assert_eq!(first, second);
    assert_eq!(cache.cached_seed(), Some(5));
}

#[test]
fn cache_reproduces_a_table_under_seed_churn() {
    let mut cache = PermutationTableCache::new();
    let first = cache.get_permutation_table(1).clone();
    for other in [2u64, 3, 2, u64::MAX, 0] {
        let between = cache.get_permutation_table(other).clone();
        assert_eq!(between, build_permutation_table(other, PERMUTATION_TABLE_SIZE, true));
        assert_eq!(cache.cached_seed(), Some(other));
        let again = cache.get_permutation_table(1).clone();
        assert_eq!(again, first);
        assert_eq!(cache.cached_seed(), Some(1));
    }
}

#[test]
fn cache_holds_seed_zero_like_any_other() {
    let mut cache = PermutationTableCache::new();
    let table = cache.get_permutation_table(0).clone();
    assert_eq!(cache.cached_seed(), Some(0));
    assert_eq!(table, build_permutation_table(0, PERMUTATION_TABLE_SIZE, true));
}

#[test]
fn hashes_are_layered_lookups() {
    let table = build_permutation_table(42, PERMUTATION_TABLE_SIZE, true);
    let mut cache = PermutationTableCache::new();
    for i in [0usize, 1, 100, 255, 256] {
        assert_eq!(hash1d(&mut cache, 42, i), table[i]);
        for j in [0usize, 7, 255, 256] {
            assert_eq!(hash2d(&mut cache, 42, i, j), table[i + table[j]]);
            for k in [0usize, 31, 256] {
                assert_eq!(hash3d(&mut cache, 42, i, j, k), table[i + table[j + table[k]]]);
            }
        }
    }
}

#[test]
fn hashes_of_seed_forty_two() {
    let mut cache = PermutationTableCache::new();
    assert_eq!(hash1d(&mut cache, 42, 0), 149);
    assert_eq!(hash1d(&mut cache, 42, 256), 149);
    assert_eq!(hash2d(&mut cache, 42, 1, 2), 40);
    assert_eq!(hash2d(&mut cache, 42, 256, 256), 187);
    assert_eq!(hash3d(&mut cache, 42, 1, 2, 3), 68);
    assert_eq!(hash3d(&mut cache, 42, 256, 256, 256), 223);
}

#[test]
fn hash_follows_the_seed_asked_for() {
    let mut cache = PermutationTableCache::new();
    let a = build_permutation_table(42, PERMUTATION_TABLE_SIZE, true);
    let b = build_permutation_table(7, PERMUTATION_TABLE_SIZE, true);
    for i in 0..=256usize {
        assert_eq!(hash1d(&mut cache, 42, i), a[i]);
        assert_eq!(hash1d(&mut cache, 7, i), b[i]);
    }
}

#[test]
fn lattice_in_one_dimension() {
    let mut cache = PermutationTableCache::new();
    assert_eq!(lattice1d(&mut cache, 42, 0), Lattice1d { gi0: 1, gi1: 0 });
    assert_eq!(lattice1d(&mut cache, 42, 1), Lattice1d { gi0: 0, gi1: 0 });
    assert_eq!(lattice1d(&mut cache, 42, 255), Lattice1d { gi0: 1, gi1: 1 });
    assert_eq!(lattice1d(&mut cache, 42, 1000), Lattice1d { gi0: 1, gi1: 1 });
}

#[test]
fn neighbouring_cells_share_a_corner() {
    let mut cache = PermutationTableCache::new();
    for i0 in -300..300i64 {
        let here = lattice1d(&mut cache, 9, i0);
        let next = lattice1d(&mut cache, 9, i0 + 1);
        assert_eq!(here.gi1, next.gi0);
    }
}

#[test]
fn lattice_coordinates_wrap_at_the_table_size() {
    let mut cache = PermutationTableCache::new();
    assert_eq!(lattice1d(&mut cache, 3, 256), lattice1d(&mut cache, 3, 0));
    assert_eq!(lattice1d(&mut cache, 3, i64::MAX), lattice1d(&mut cache, 3, 255));
    assert_eq!(lattice1d(&mut cache, 3, i64::MIN), lattice1d(&mut cache, 3, 0));
    assert_eq!(lattice1d(&mut cache, 3, -256), lattice1d(&mut cache, 3, 0));
    assert_eq!(lattice1d(&mut cache, 3, -1), lattice1d(&mut cache, 3, 255));
    assert_eq!(
        lattice2d(&mut cache, 3, 256 + 3, 512 + 4, true),
        lattice2d(&mut cache, 3, 3, 4, true)
    );
    assert_eq!(
        lattice3d(&mut cache, 3, i64::MAX, 257, -1024, true, false, true),
        lattice3d(&mut cache, 3, 255, 1, 0, true, false, true)
    );
}

#[test]
fn lattice_in_two_dimensions_goes_right_first_on_a_tie() {
    let mut cache = PermutationTableCache::new();
    assert_eq!(
        lattice2d(&mut cache, 42, 3, 4, false),
        Lattice2d { i1: 1, j1: 0, gi0: 1, gi1: 1, gi2: 0 }
    );
}

#[test]
fn lattice_in_two_dimensions_goes_up_first_below_the_diagonal() {
    let mut cache = PermutationTableCache::new();
    assert_eq!(
        lattice2d(&mut cache, 42, 3, 4, true),
        Lattice2d { i1: 0, j1: 1, gi0: 1, gi1: 2, gi2: 0 }
    );
}

#[test]
fn lattice_in_two_dimensions_at_the_last_cell() {
    let mut cache = PermutationTableCache::new();
    assert_eq!(
        lattice2d(&mut cache, 42, 255, 255, false),
        Lattice2d { i1: 1, j1: 0, gi0: 1, gi1: 2, gi2: 3 }
    );
    assert_eq!(
        lattice2d(&mut cache, 42, 255, 255, true),
        Lattice2d { i1: 0, j1: 1, gi0: 1, gi1: 1, gi2: 3 }
    );
}

#[test]
fn traversal_follows_the_order_of_the_offsets() {
    assert_eq!(simplex_traversal_3d(true, true, true), path([1, 0, 0, 1, 1, 0]));
    assert_eq!(simplex_traversal_3d(true, false, true), path([1, 0, 0, 1, 0, 1]));
    assert_eq!(simplex_traversal_3d(true, false, false), path([0, 0, 1, 1, 0, 1]));
    assert_eq!(simplex_traversal_3d(false, true, true), path([0, 1, 0, 1, 1, 0]));
    assert_eq!(simplex_traversal_3d(false, true, false), path([0, 1, 0, 0, 1, 1]));
    assert_eq!(simplex_traversal_3d(false, false, false), path([0, 0, 1, 0, 1, 1]));
}

#[test]
fn traversal_of_impossible_comparisons_stays_at_the_origin() {
    assert_eq!(simplex_traversal_3d(false, false, true), path([0, 0, 0, 0, 0, 0]));
    assert_eq!(simplex_traversal_3d(true, true, false), path([0, 0, 0, 0, 0, 0]));
}

#[test]
fn traversal_reads_the_lookup_table() {
    for code in 0..8usize {
        let found = simplex_traversal_3d(code & 4 != 0, code & 2 != 0, code & 1 != 0);
        assert_eq!(found, path(SIMPLEX_TRAVERSAL_LUT_3D[code]));
    }
}

#[test]
fn lattice_in_three_dimensions() {
    let mut cache = PermutationTableCache::new();
    assert_eq!(
        lattice3d(&mut cache, 42, 1, 2, 3, true, true, true),
        Lattice3d { path: path([1, 0, 0, 1, 1, 0]), gi0: 8, gi1: 1, gi2: 1, gi3: 1 }
    );
    assert_eq!(
        lattice3d(&mut cache, 42, 255, 255, 255, false, false, false),
        Lattice3d { path: path([0, 0, 1, 0, 1, 1]), gi0: 5, gi1: 1, gi2: 7, gi3: 7 }
    );
}

#[test]
fn lattice_in_three_dimensions_matches_the_table() {
    let table = build_permutation_table(77, PERMUTATION_TABLE_SIZE, true);
    let hash = |i: usize, j: usize, k: usize| table[i + table[j + table[k]]] % 12;
    let mut cache = PermutationTableCache::new();
    for code in [0usize, 2, 3, 4, 5, 7] {
        let p = path(SIMPLEX_TRAVERSAL_LUT_3D[code]);
        for (is, js, ks) in [(0usize, 0usize, 0usize), (10, 200, 255), (255, 0, 128)] {
            let (x, y, z) = (is as i64, js as i64 - 512, ks as i64 + 256);
            let cell =
                lattice3d(&mut cache, 77, x, y, z, code & 4 != 0, code & 2 != 0, code & 1 != 0);
            assert_eq!(cell.path, p);
            assert_eq!(cell.gi0, hash(is, js, ks));
            assert_eq!(cell.gi1, hash(is + p.i1, js + p.j1, ks + p.k1));
            assert_eq!(cell.gi2, hash(is + p.i2, js + p.j2, ks + p.k2));
            assert_eq!(cell.gi3, hash(is + 1, js + 1, ks + 1));
        }
    }
}

#[test]
fn lattice_does_not_depend_on_what_the_cache_held() {
    let mut fresh = PermutationTableCache::new();
    let mut used = PermutationTableCache::new();
    used.get_permutation_table(1);
    used.get_permutation_table(2);
    for seed in [1u64, 2, 3] {
        assert_eq!(lattice1d(&mut fresh, seed, 17), lattice1d(&mut used, seed, 17));
        assert_eq!(
            lattice2d(&mut fresh, seed, 17, 18, true),
            lattice2d(&mut used, seed, 17, 18, true)
        );
        assert_eq!(
            lattice3d(&mut fresh, seed, 17, 18, 19, false, true, false),
            lattice3d(&mut used, seed, 17, 18, 19, false, true, false)
        );
    }
}

#[test]
fn gradient_indices_stay_inside_the_gradient_tables() {
    let mut cache = PermutationTableCache::new();
    for c in -300..300i64 {
        let one = lattice1d(&mut cache, 1234, c);
        assert!(one.gi0 < 2 && one.gi1 < 2);
        let two = lattice2d(&mut cache, 1234, c, 299 - c, c % 2 == 0);
        assert!(two.gi0 < 4 && two.gi1 < 4 && two.gi2 < 4);
        let three = lattice3d(&mut cache, 1234, c, 2 * c, 3 * c, true, true, true);
        assert!(three.gi0 < 12 && three.gi1 < 12 && three.gi2 < 12 && three.gi3 < 12);
    }
}

#[test]
fn far_corner_is_the_origin_of_the_next_cell() {
    let mut cache = PermutationTableCache::new();
    for c in [0i64, 5, 254, 255, 256, 511, 1000, -1, -2, -128, -255, -256, -257, -1000] {
        let here = lattice2d(&mut cache, 21, c, 2 * c, true);
        let next = lattice2d(&mut cache, 21, c + 1, 2 * c + 1, false);
        assert_eq!(here.gi2, next.gi0);
        let here = lattice3d(&mut cache, 21, c, 2 * c, 3 * c, true, true, true);
        let next = lattice3d(&mut cache, 21, c + 1, 2 * c + 1, 3 * c + 1, false, false, false);
        assert_eq!(here.gi3, next.gi0);
    }
}

#[test]
fn middle_corner_is_the_origin_of_the_cell_beside() {
    let mut cache = PermutationTableCache::new();
    for c in [0i64, 100, 255, 767, -1, -2, -256, -513] {
        let right = lattice2d(&mut cache, 8, c, c, false);
        assert_eq!(right.gi1, lattice2d(&mut cache, 8, c + 1, c, false).gi0);
        let up = lattice2d(&mut cache, 8, c, c, true);
        assert_eq!(up.gi1, lattice2d(&mut cache, 8, c, c + 1, false).gi0);
        let cell = lattice3d(&mut cache, 8, c, c, c, true, false, true);
        assert_eq!(cell.gi1, lattice3d(&mut cache, 8, c + 1, c, c, true, true, true).gi0);
        assert_eq!(cell.gi2, lattice3d(&mut cache, 8, c + 1, c, c + 1, true, true, true).gi0);
    }
}

#[test]
fn reduction_is_the_remainder_that_is_never_negative() {
    assert_eq!(reduce(0), 0);
    assert_eq!(reduce(1), 1);
    assert_eq!(reduce(255), 255);
    assert_eq!(reduce(256), 0);
    assert_eq!(reduce(1000), 232);
    assert_eq!(reduce(-1), 255);
    assert_eq!(reduce(-2), 254);
    assert_eq!(reduce(-255), 1);
    assert_eq!(reduce(-256), 0);
    assert_eq!(reduce(-257), 255);
    assert_eq!(reduce(-1000), 24);
    assert_eq!(reduce(i64::MAX), 255);
    assert_eq!(reduce(i64::MIN), 0);
    assert_eq!(reduce(i64::MIN + 1), 1);
}

#[test]
fn reduction_agrees_with_the_euclidean_remainder() {
    for c in -1000..1000i64 {
        assert_eq!(reduce(c) as i64, c.rem_euclid(256));
    }
}

#[test]
fn cell_below_zero_shares_its_corner_with_cell_zero() {
    let mut cache = PermutationTableCache::new();
    for seed in [0u64, 1, 42, u64::MAX] {
        let below = lattice1d(&mut cache, seed, -1);
        let zero = lattice1d(&mut cache, seed, 0);
        assert_eq!(below.gi1, zero.gi0);
    }
}

#[test]
fn lattice_below_zero_in_one_dimension() {
    let mut cache = PermutationTableCache::new();
    assert_eq!(lattice1d(&mut cache, 42, -1), Lattice1d { gi0: 1, gi1: 1 });
    assert_eq!(lattice1d(&mut cache, 42, -2), Lattice1d { gi0: 0, gi1: 1 });
}

#[test]
fn lattice_below_zero_in_two_dimensions() {
    let mut cache = PermutationTableCache::new();
    assert_eq!(
        lattice2d(&mut cache, 42, -1, -3, false),
        Lattice2d { i1: 1, j1: 0, gi0: 2, gi1: 0, gi2: 2 }
    );
    assert_eq!(
        lattice2d(&mut cache, 42, -2, 1, true),
        Lattice2d { i1: 0, j1: 1, gi0: 2, gi1: 0, gi2: 3 }
    );
}

#[test]
fn lattice_below_zero_in_three_dimensions() {
    let mut cache = PermutationTableCache::new();
    assert_eq!(
        lattice3d(&mut cache, 42, -1, -1, -1, true, true, true),
        Lattice3d { path: path([1, 0, 0, 1, 1, 0]), gi0: 5, gi1: 7, gi2: 6, gi3: 7 }
    );
    assert_eq!(
        lattice3d(&mut cache, 42, -2, -1, -1, false, false, false),
        Lattice3d { path: path([0, 0, 1, 0, 1, 1]), gi0: 7, gi1: 4, gi2: 10, gi3: 7 }
    );
}

#[test]
fn cells_on_both_sides_of_a_face_below_zero_agree_on_the_shared_points() {
    let mut cache = PermutationTableCache::new();
    for seed in [1u64, 42] {
        // the lattice point (-1, 0, 0), reached from the cells at (-1, -1, -1) and (-2, -1, -1)
        let point = lattice3d(&mut cache, seed, -1, 0, 0, true, true, true).gi0;
        let near = lattice3d(&mut cache, seed, -1, -1, -1, false, true, false);
        assert_eq!(near.path, path([0, 1, 0, 0, 1, 1]));
        assert_eq!(near.gi2, point);
        let far = lattice3d(&mut cache, seed, -2, -1, -1, true, true, true);
        assert_eq!(far.gi3, point);
        // the lattice point (-1, -1, -1): origin of one cell, first step of the other
        let far = lattice3d(&mut cache, seed, -2, -1, -1, true, false, true);
        assert_eq!(far.path, path([1, 0, 0, 1, 0, 1]));
        assert_eq!(far.gi1, near.gi0);
    }
}
