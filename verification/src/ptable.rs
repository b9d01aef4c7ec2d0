//! The seeded permutation table: a shuffle of `0..size`, optionally written
//! out twice so that an index plus an offset of up to `size` needs no wraparound.

use vstd::prelude::*;

verus! {

/// Increment of the generator's counter (the 64-bit golden ratio).
pub const GENERATOR_INCREMENT: u64 = 0x9E37_79B9_7F4A_7C15;

/// First multiplier of the output mixer.
pub const MIX_MULTIPLIER_A: u64 = 0xBF58_476D_1CE4_E5B9;

/// Second multiplier of the output mixer.
pub const MIX_MULTIPLIER_B: u64 = 0x94D0_49BB_1331_11EB;

/// The generator's counter after one more step.
pub open spec fn next_state(state: u64) -> u64 {
    state.wrapping_add(GENERATOR_INCREMENT)
}

/// The 64 bits that the generator hands out for a counter value.
pub open spec fn mix(state: u64) -> u64 {
    let a: u64 = (state ^ (state >> 30)).wrapping_mul(MIX_MULTIPLIER_A);
    let b: u64 = (a ^ (a >> 27)).wrapping_mul(MIX_MULTIPLIER_B);
    b ^ (b >> 31)
}

/// The generator's counter after `n` steps from `seed`.
pub open spec fn state_after(seed: u64, n: nat) -> u64
    decreases n,
{
    if n == 0 {
        seed
    } else {
        next_state(state_after(seed, (n - 1) as nat))
    }
}

/// The `n`-th number drawn from the generator seeded with `seed` (counting from 1).
pub open spec fn draw(seed: u64, n: nat) -> u64 {
    mix(state_after(seed, n))
}

/// `0, 1, .., size - 1` in order.
pub open spec fn identity_table(size: nat) -> Seq<usize> {
    Seq::new(size, |i: int| i as usize)
}

/// `s` with the entries at `i` and `j` exchanged.
pub open spec fn swapped(s: Seq<usize>, i: int, j: int) -> Seq<usize> {
    s.update(i, s[j]).update(j, s[i])
}

/// The position that trades places with position `i` in step `i + 1` of the shuffle.
pub open spec fn partner(seed: u64, size: nat, i: nat) -> int {
    i + (draw(seed, i + 1) as int) % (size - i)
}

/// The table after the first `steps` positions of the shuffle have been settled:
/// position `i` trades places with a drawn position in `i..size`.
pub open spec fn shuffled_prefix(seed: u64, size: nat, steps: nat) -> Seq<usize>
    decreases steps,
{
    if steps == 0 {
        identity_table(size)
    } else {
        let i: nat = (steps - 1) as nat;
        swapped(shuffled_prefix(seed, size, i), i as int, partner(seed, size, i))
    }
}

/// The permutation table of `seed`: the fully shuffled `0..size`, followed by
/// a second copy of itself when `extended` is asked for.
pub open spec fn permutation_table(seed: u64, size: nat, extended: bool) -> Seq<usize> {
    let base: Seq<usize> = shuffled_prefix(seed, size, size);
    if extended {
        base + base
    } else {
        base
    }
}

/// `v` stands somewhere in `s`.
pub open spec fn occurs(s: Seq<usize>, v: int) -> bool {
    exists|i: int| 0 <= i < s.len() && #[trigger] s[i] == v
}

/// `s` holds each of `0..s.len()` exactly once.
pub open spec fn is_permutation(s: Seq<usize>) -> bool {
    &&& forall|i: int| 0 <= i < s.len() ==> 0 <= #[trigger] s[i] < s.len()
    &&& forall|i: int, j: int| 0 <= i < j < s.len() ==> s[i] != s[j]
    &&& forall|v: int| 0 <= v < s.len() ==> #[trigger] occurs(s, v)
}

/// `s` is a table over `0..size`: a permutation of it, alone or followed by its own copy.
pub open spec fn is_permutation_table(s: Seq<usize>, size: nat, extended: bool) -> bool {
    &&& s.len() == if extended { 2 * size } else { size }
    &&& is_permutation(s.subrange(0, size as int))
    &&& forall|i: int| 0 <= i < s.len() ==> 0 <= #[trigger] s[i] < size
    &&& extended ==> forall|i: int| 0 <= i < size ==> #[trigger] s[size + i] == s[i]
}

/// `inv` sends each value of `s` back to the position that holds it.
pub open spec fn inverse_of(s: Seq<usize>, inv: Seq<int>) -> bool {
    &&& inv.len() == s.len()
    &&& forall|i: int| 0 <= i < s.len() ==> 0 <= #[trigger] s[i] < s.len() && inv[s[i] as int] == i
    &&& forall|v: int| 0 <= v < s.len() ==> 0 <= #[trigger] inv[v] < s.len() && s[inv[v]] == v
}

/// A sequence with an inverse is a permutation.
pub proof fn lemma_inverse_gives_permutation(s: Seq<usize>, inv: Seq<int>)
    requires
        inverse_of(s, inv),
    ensures
        is_permutation(s),
{
    assert forall|i: int, j: int| 0 <= i < j < s.len() implies s[i] != s[j] by {
        assert(inv[s[i] as int] == i);
        assert(inv[s[j] as int] == j);
    }
    assert forall|v: int| 0 <= v < s.len() implies #[trigger] occurs(s, v) by {
        let i = inv[v];
        assert(0 <= i < s.len() && s[i] == v);
    }
}

/// Every stage of the shuffle has an inverse.
pub proof fn lemma_shuffle_has_inverse(seed: u64, size: nat, steps: nat) -> (inv: Seq<int>)
    requires
        steps <= size <= usize::MAX,
    ensures
        shuffled_prefix(seed, size, steps).len() == size,
        inverse_of(shuffled_prefix(seed, size, steps), inv),
    decreases steps,
{
    if steps == 0 {
        let inv = Seq::new(size, |v: int| v);
        let s = identity_table(size);
        assert forall|i: int| 0 <= i < s.len() implies 0 <= #[trigger] s[i] < s.len()
            && inv[s[i] as int] == i by {
            assert(s[i] == i as usize);
        }
        inv
    } else {
        let i: nat = (steps - 1) as nat;
        let prev = shuffled_prefix(seed, size, i);
        let prev_inv = lemma_shuffle_has_inverse(seed, size, i);
        let j = partner(seed, size, i);
        assert(i <= j < size) by {
            lemma_partner_in_range(seed, size, i);
        }
        let s = swapped(prev, i as int, j);
        let inv = prev_inv.update(prev[j] as int, i as int).update(prev[i as int] as int, j);
        assert(0 <= prev[j] < size && prev_inv[prev[j] as int] == j);
        assert(0 <= prev[i as int] < size && prev_inv[prev[i as int] as int] == i);
        assert forall|p: int| 0 <= p < s.len() implies 0 <= #[trigger] s[p] < s.len()
            && inv[s[p] as int] == p by {
            assert(0 <= prev[p] < size && prev_inv[prev[p] as int] == p);
        }
        assert forall|v: int| 0 <= v < s.len() implies 0 <= #[trigger] inv[v] < s.len()
            && s[inv[v]] == v by {
            assert(0 <= prev_inv[v] < size && prev[prev_inv[v]] == v);
        }
        inv
    }
}

/// The drawn partner of position `i` lies in `i..size`.
pub proof fn lemma_partner_in_range(seed: u64, size: nat, i: nat)
    requires
        i < size,
    ensures
        i <= partner(seed, size, i) < size,
{
    let span: int = size - i;
    let d: int = draw(seed, i + 1) as int;
    assert(0 <= d % span < span) by (nonlinear_arith)
        requires
            0 <= d,
            0 < span,
    ;
}

/// The table of every seed is a permutation table: each of `0..size` stands
/// exactly once among the first `size` entries, and the extended half repeats them.
pub proof fn lemma_permutation_table_valid(seed: u64, size: nat, extended: bool)
    requires
        size <= usize::MAX,
    ensures
        is_permutation_table(permutation_table(seed, size, extended), size, extended),
{
    let base = shuffled_prefix(seed, size, size);
    let inv = lemma_shuffle_has_inverse(seed, size, size);
    lemma_inverse_gives_permutation(base, inv);
    let t = permutation_table(seed, size, extended);
    assert(t.subrange(0, size as int) =~= base);
    assert forall|i: int| 0 <= i < t.len() implies 0 <= #[trigger] t[i] < size by {
        if i < size {
            assert(t[i] == base[i]);
        } else {
            assert(t[i] == base[i - size]);
        }
    }
}

fn advance(state: u64) -> (next: u64)
    ensures
        next == next_state(state),
{
    state.wrapping_add(GENERATOR_INCREMENT)
}

fn scramble(state: u64) -> (bits: u64)
    ensures
        bits == mix(state),
{
    let a: u64 = (state ^ (state >> 30)).wrapping_mul(MIX_MULTIPLIER_A);
    let b: u64 = (a ^ (a >> 27)).wrapping_mul(MIX_MULTIPLIER_B);
    b ^ (b >> 31)
}

/// Builds the permutation table of `seed` over `0..size`. With `extended` the
/// table is written out twice, so that `table[i + d]` is in bounds for every
/// `i < size` and every offset `d <= size`.
pub fn build_permutation_table(seed: u64, size: usize, extended: bool) -> (table: Vec<usize>)
    requires
        extended ==> 2 * size <= usize::MAX,
    ensures
        table@ == permutation_table(seed, size as nat, extended),
        is_permutation_table(table@, size as nat, extended),
{
    let mut table: Vec<usize> = Vec::new();
    let mut n: usize = 0;
    while n < size
        invariant
            n <= size,
            table@ =~= identity_table(n as nat),
        decreases size - n,
    {
        table.push(n);
        n += 1;
    }
    let mut state: u64 = seed;
    let mut i: usize = 0;
    while i < size
        invariant
            i <= size,
            table@.len() == size,
            table@ == shuffled_prefix(seed, size as nat, i as nat),
            state == state_after(seed, i as nat),
        decreases size - i,
    {
        state = advance(state);
        let bits: u64 = scramble(state);
        let span: u64 = (size - i) as u64;
        let j: usize = i + (bits % span) as usize;
        proof {
            lemma_partner_in_range(seed, size as nat, i as nat);
            assert(j == partner(seed, size as nat, i as nat));
        }
        let at_i: usize = table[i];
        let at_j: usize = table[j];
        table.set(i, at_j);
        table.set(j, at_i);
        i += 1;
    }
    let ghost base = table@;
    if extended {
        let mut k: usize = 0;
        while k < size
            invariant
                k <= size,
                2 * size <= usize::MAX,
                base.len() == size,
                table@ =~= base + base.subrange(0, k as int),
            decreases size - k,
        {
            let v: usize = table[k];
            table.push(v);
            k += 1;
        }
        assert(base.subrange(0, size as int) =~= base);
    }
    proof {
        lemma_permutation_table_valid(seed, size as nat, extended);
    }
    table
}

} // verus!
