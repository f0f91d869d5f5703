use vstd::prelude::*;
use vstd::arithmetic::div_mod::{
    lemma_add_mod_noop, lemma_fundamental_div_mod, lemma_mod_bound, lemma_mod_self_0, lemma_small_mod,
};
use vstd::wrapping::u64_specs;

verus! {

/// Multiplier of the linear congruential generator that drives the shuffle.
pub const LCG_MULTIPLIER: u64 = 6364136223846793005u64;

/// One step of the generator: `seed * LCG_MULTIPLIER + 1`, modulo 2^64.
pub open spec fn lcg_next(seed: u64) -> u64 {
    ((seed as nat * LCG_MULTIPLIER as nat + 1) % 0x1_0000_0000_0000_0000nat) as u64
}

/// `s` with the elements at `a` and `b` exchanged.
pub open spec fn seq_swap<T>(s: Seq<T>, a: int, b: int) -> Seq<T> {
    s.update(a, s[b]).update(b, s[a])
}

/// The Fisher-Yates pass over positions `i, i - 1, ..., 1` of `s`, where the
/// generator is advanced once before each position and the position is swapped
/// with the one that the generator's value selects modulo `i + 1`.
pub open spec fn shuffle_from<T>(s: Seq<T>, i: nat, seed: u64) -> Seq<T>
    decreases i,
{
    if i == 0 {
        s
    } else {
        let next = lcg_next(seed);
        let j = (next as nat % (i + 1)) as int;
        shuffle_from(seq_swap(s, i as int, j), (i - 1) as nat, next)
    }
}

/// The result of shuffling `s` with `seed`.
pub open spec fn shuffle_spec<T>(s: Seq<T>, seed: u64) -> Seq<T> {
    if s.len() <= 1 {
        s
    } else {
        shuffle_from(s, (s.len() - 1) as nat, seed)
    }
}


/// Exchanging two positions keeps the length and the multiset of elements.
pub proof fn lemma_swap_is_permutation<T>(s: Seq<T>, a: int, b: int)
    requires
        0 <= a < s.len(),
        0 <= b < s.len(),
    ensures
        seq_swap(s, a, b).len() == s.len(),
        seq_swap(s, a, b).to_multiset() == s.to_multiset(),
{
    broadcast use vstd::seq_lib::to_multiset_update;
    broadcast use vstd::multiset::group_multiset_axioms;
    broadcast use vstd::multiset::group_multiset_properties;
    broadcast use vstd::seq_lib::to_multiset_contains;

    let s1 = s.update(a, s[b]);
    assert(s1[b] == s[b]);
    assert(s1.to_multiset() == s.to_multiset().insert(s[b]).remove(s[a]));
    assert(seq_swap(s, a, b).to_multiset() == s1.to_multiset().insert(s[a]).remove(s[b]));
    assert(seq_swap(s, a, b).to_multiset() =~= s.to_multiset());
}

/// Each pass of the shuffle only exchanges elements.
pub proof fn lemma_shuffle_from_is_permutation<T>(s: Seq<T>, i: nat, seed: u64)
    requires
        i < s.len(),
    ensures
        shuffle_from(s, i, seed).len() == s.len(),
        shuffle_from(s, i, seed).to_multiset() == s.to_multiset(),
    decreases i,
{
    if i > 0 {
        let next = lcg_next(seed);
        let j = (next as nat % (i + 1)) as int;
        lemma_swap_is_permutation(s, i as int, j);
        lemma_shuffle_from_is_permutation(seq_swap(s, i as int, j), (i - 1) as nat, next);
    }
}

/// Law: shuffling rearranges the elements and does nothing else. The result
/// has the same length and holds each element as many times as the input.
pub proof fn lemma_shuffle_is_permutation<T>(s: Seq<T>, seed: u64)
    ensures
        shuffle_spec(s, seed).len() == s.len(),
        shuffle_spec(s, seed).to_multiset() == s.to_multiset(),
{
    if s.len() > 1 {
        lemma_shuffle_from_is_permutation(s, (s.len() - 1) as nat, seed);
    }
}

/// Each pass of the shuffle moves positions, not values: shuffling the
/// images of the elements under `f` gives the images of the shuffled elements.
proof fn lemma_shuffle_from_map<A, B>(s: Seq<A>, f: spec_fn(A) -> B, i: nat, seed: u64)
    requires
        i < s.len(),
    ensures
        shuffle_from(s.map_values(f), i, seed) == shuffle_from(s, i, seed).map_values(f),
    decreases i,
{
    if i > 0 {
        let next = lcg_next(seed);
        let j = (next as nat % (i + 1)) as int;
        assert(seq_swap(s.map_values(f), i as int, j) == seq_swap(s, i as int, j).map_values(f));
        lemma_shuffle_from_map(seq_swap(s, i as int, j), f, (i - 1) as nat, next);
    }
}

/// Law: the reordering that a shuffle makes depends only on the length and
/// the seed, never on the elements: shuffling `s` gives the elements of `s` at
/// the positions that shuffling the positions `0, 1, ..., len - 1` gives.
pub proof fn lemma_shuffle_reorders_positions<T>(s: Seq<T>, seed: u64)
    ensures
        shuffle_spec(s, seed) == shuffle_spec(Seq::new(s.len(), |k: int| k), seed).map_values(
            |k: int| s[k],
        ),
{
    let positions = Seq::new(s.len(), |k: int| k);
    let f = |k: int| s[k];
    assert(positions.map_values(f) == s);
    if s.len() > 1 {
        lemma_shuffle_from_map(positions, f, (s.len() - 1) as nat, seed);
    }
}

/// `<[T]>::swap`: exchanges two elements of a slice; panics when either index
/// is out of bounds.
pub assume_specification<SliceElem>[ <[SliceElem]>::swap ](s: &mut [SliceElem], a: usize, b: usize)
    requires
        a < old(s)@.len(),
        b < old(s)@.len(),
    ensures
        final(s)@ == seq_swap(old(s)@, a as int, b as int),
;

/// The generator step as the executable code computes it, with wrapping `u64`
/// multiplication followed by a wrapping increment, is `lcg_next`.
proof fn lemma_wrapping_step(seed: u64)
    ensures
        u64_specs::wrapping_add(u64_specs::wrapping_mul(seed, LCG_MULTIPLIER), 1) == lcg_next(seed),
{
    let m: int = 0x1_0000_0000_0000_0000;
    let a: int = seed as int * LCG_MULTIPLIER as int;
    assert(0 <= a) by (nonlinear_arith)
        requires a == seed as int * LCG_MULTIPLIER as int;
    lemma_add_mod_noop(a, 1, m);
    lemma_small_mod(1nat, m as nat);
    lemma_fundamental_div_mod(a, m);
    assert(0 <= a % m < m) by {
        lemma_mod_bound(a, m);
    }
    let r = a % m;
    if r + 1 < m {
        lemma_small_mod((r + 1) as nat, m as nat);
    } else {
        assert(r + 1 == m);
        lemma_mod_self_0(m);
    }
}

/// deterministic pseudo random shuffle. a Linear Congruential Generator drives
/// a Knuth (Fisher-Yates) shuffle, from the last position down to the second.
pub fn shuffle<T>(v: &mut [T], seed: u64)
    ensures
        final(v)@ == shuffle_spec(old(v)@, seed),
{
    let len = v.len();
    if len <= 1 {
        return;
    }
    let ghost initial = v@;
    let ghost seed0 = seed;
    let mut i: usize = len - 1;
    let mut seed = seed;
    while i >= 1
        invariant
            1 <= len,
            i < len,
            v@.len() == len,
            initial.len() == len,
            shuffle_from(v@, i as nat, seed) == shuffle_spec(initial, seed0),
        decreases i,
    {
        proof {
            lemma_wrapping_step(seed);
        }
        seed = seed.wrapping_mul(LCG_MULTIPLIER).wrapping_add(1);
        let j = (seed % (i as u64 + 1)) as usize;
        v.swap(i, j);
        i = i - 1;
    }
}

} // verus!
