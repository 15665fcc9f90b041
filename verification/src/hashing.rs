//! The pinned integer hash behind every cut-plane direction, and the seed arithmetic around it.

use vstd::prelude::*;

verus! {

/// `2^32`, the modulus of every wrapping `u32` operation here.
pub open spec fn modulus() -> int {
    0x1_0000_0000
}

/// `a mod 2^32`, as a `u32`.
pub open spec fn wrap32(a: int) -> u32 {
    (a % modulus()) as u32
}

/// The hash, stated over integers: a multiply-add, a data-dependent shift-xor and a multiply,
/// then a fixed shift-xor, each product taken modulo `2^32`.
pub open spec fn hash_spec(x: u32) -> u32 {
    let h1 = wrap32(x * 747_796_405int + 2_891_336_453int);
    let h2 = wrap32(((h1 >> ((h1 >> 28u32) + 4u32)) ^ h1) * 277_803_737int);
    (h2 >> 22u32) ^ h2
}

/// Undo one middle step `h ↦ (h >> ((h >> 28) + 4)) ^ h`. The step never touches the top four
/// bits (it shifts by at least four), so the shift can be read back off the result, and three
/// doubling xor-shifts then cancel the rest.
pub open spec fn unshift_xor(m: u32) -> u32 {
    let k = (m >> 28u32) + 4u32;
    let z1 = m ^ (m >> k);
    let z2 = z1 ^ (z1 >> (2u32 * k));
    z2 ^ (z2 >> (4u32 * k))
}

/// The inverse hash: undo the final shift-xor, multiply by the inverse of `277_803_737` modulo
/// `2^32` (`2_897_767_785`), undo the data-dependent shift-xor, subtract `2_891_336_453` and
/// multiply by the inverse of `747_796_405` (`3_425_435_293`).
pub open spec fn unhash_spec(y: u32) -> u32 {
    let h2 = y ^ (y >> 22u32);
    let m = wrap32(h2 * 2_897_767_785int);
    let h1 = unshift_xor(m);
    wrap32((h1 + 1_403_630_843int) * 3_425_435_293int)
}

proof fn lemma_wrapping_add_is_wrap32(x: u32, y: u32)
    ensures
        vstd::wrapping::u32_specs::wrapping_add(x, y) == wrap32(x + y),
{
    if x + y > u32::MAX {
        assert((x + y) % modulus() == x + y - modulus()) by {
            vstd::arithmetic::div_mod::lemma_fundamental_div_mod_converse(
                x + y,
                modulus(),
                1,
                x + y - modulus(),
            );
        }
    } else {
        vstd::arithmetic::div_mod::lemma_small_mod((x + y) as nat, modulus() as nat);
    }
}

proof fn lemma_wrap32_of_wrap32_sum(a: int, b: int)
    ensures
        wrap32(wrap32(a) + b) == wrap32(a + b),
{
    vstd::arithmetic::div_mod::lemma_add_mod_noop(a, b, modulus());
    vstd::arithmetic::div_mod::lemma_mod_twice(b, modulus());
    vstd::arithmetic::div_mod::lemma_add_mod_noop(a % modulus(), b, modulus());
    vstd::arithmetic::div_mod::lemma_mod_bound(a, modulus());
}

/// The crate's only source of variation: a 32-bit integer hash.
///
/// Pinned on purpose: every cut-plane direction is derived from these bits, so the same seed gives
/// the same fracture on every machine. Mapping the result into `[0, 1)` is a division by
/// `u32::MAX` in floating point, which the caller does.
pub fn hash_bits(x: u32) -> (h: u32)
    ensures
        h == hash_spec(x),
        unhash_spec(h) == x,
{
    proof {
        lemma_hash_is_a_permutation(x, 0);
    }
    let a = x.wrapping_mul(747_796_405);
    let h1 = a.wrapping_add(2_891_336_453);
    proof {
        lemma_wrapping_add_is_wrap32(a, 2_891_336_453);
        lemma_wrap32_of_wrap32_sum(x * 747_796_405int, 2_891_336_453int);
        assert(h1 == wrap32(x * 747_796_405int + 2_891_336_453int));
    }
    let top = h1 >> 28u32;
    assert(top <= 15) by (bit_vector)
        requires
            top == h1 >> 28u32,
    ;
    let shift = top + 4;
    let h2 = ((h1 >> shift) ^ h1).wrapping_mul(277_803_737);
    let h3 = (h2 >> 22u32) ^ h2;
    h3
}

proof fn lemma_wrap32_value(a: int)
    ensures
        wrap32(a) as int == a % modulus(),
        0 <= a % modulus() < modulus(),
{
    vstd::arithmetic::div_mod::lemma_mod_bound(a, modulus());
}

/// The seed of cut number `cut_index` when `pieces` fragments exist: the caller's seed, plus the
/// cut index times the golden-ratio constant `2654435761`, plus the current piece count, all
/// modulo `2^32`. The plane sequence is a function of both, so it never changes under a caller.
pub open spec fn cut_seed_spec(seed: u32, cut_index: int, pieces: int) -> u32 {
    wrap32(seed + cut_index * 2_654_435_761int + pieces)
}

/// Seed for one cut plane; see [`cut_seed_spec`]. The cut index and piece count enter as their
/// low 32 bits, which is the same thing modulo `2^32`.
pub fn cut_seed(seed: u32, cut_index: usize, pieces: usize) -> (s: u32)
    ensures
        s == cut_seed_spec(seed, cut_index as int, pieces as int),
{
    broadcast use vstd::arithmetic::div_mod::lemma_mod_bound;

    let ci = ((cut_index as u64) % 0x1_0000_0000u64) as u32;
    let pc = ((pieces as u64) % 0x1_0000_0000u64) as u32;
    let step = ci.wrapping_mul(2_654_435_761);
    let s1 = seed.wrapping_add(step);
    let s2 = s1.wrapping_add(pc);
    proof {
        let m = modulus();
        assert(ci as int == cut_index as int % m);
        assert(pc as int == pieces as int % m);
        lemma_wrap32_value(ci * 2_654_435_761int);
        vstd::arithmetic::div_mod::lemma_mul_mod_noop_left(cut_index as int, 2_654_435_761int, m);
        assert(step as int == (cut_index * 2_654_435_761int) % m);
        lemma_wrapping_add_is_wrap32(seed, step);
        lemma_wrap32_value(seed + step);
        lemma_wrap32_of_wrap32_sum(cut_index * 2_654_435_761int, seed as int);
        assert(s1 == wrap32(seed + cut_index * 2_654_435_761int));
        lemma_wrapping_add_is_wrap32(s1, pc);
        lemma_wrap32_of_wrap32_sum(seed + cut_index * 2_654_435_761int, pc as int);
        vstd::arithmetic::div_mod::lemma_add_mod_noop_right(
            seed + cut_index * 2_654_435_761int,
            pieces as int,
            m,
        );
    }
    s2
}

/// The two hashes a random plane direction is drawn from: the seed offset by `0x1234_5678` and by
/// `0x9E37_79B9`, each hashed with [`hash_bits`].
pub fn direction_hashes(seed: u32) -> (r: (u32, u32))
    ensures
        r.0 == hash_spec(wrap32(seed + 0x1234_5678int)),
        r.1 == hash_spec(wrap32(seed + 0x9E37_79B9int)),
{
    let a = seed.wrapping_add(0x1234_5678);
    let b = seed.wrapping_add(0x9E37_79B9);
    proof {
        lemma_wrapping_add_is_wrap32(seed, 0x1234_5678);
        lemma_wrapping_add_is_wrap32(seed, 0x9E37_79B9);
    }
    (hash_bits(a), hash_bits(b))
}

/// The pinned hash is a permutation of the 32-bit integers, and [`unhash_spec`] is its inverse:
/// unhashing a hash gives the input back, and hashing an unhash gives the value back. So distinct
/// seeds never share a hash, and the hash is exactly the function that `unhash_spec` undoes.
pub proof fn lemma_hash_is_a_permutation(x: u32, y: u32)
    ensures
        unhash_spec(hash_spec(x)) == x,
        hash_spec(unhash_spec(y)) == y,
{
    lemma_unhash_hash(x);
    lemma_hash_unhash(y);
}

proof fn lemma_affine_round_trip(x: u32, h: u32)
    by (bit_vector)
    ensures
        wrap32((wrap32(x * 747_796_405int + 2_891_336_453int) + 1_403_630_843int) * 3_425_435_293int)
            == x,
        wrap32(wrap32((h + 1_403_630_843int) * 3_425_435_293int) * 747_796_405int + 2_891_336_453int)
            == h,
{
}

proof fn lemma_scale_round_trip(a: u32)
    by (bit_vector)
    ensures
        wrap32(wrap32(a * 277_803_737int) * 2_897_767_785int) == a,
        wrap32(wrap32(a * 2_897_767_785int) * 277_803_737int) == a,
{
}

proof fn lemma_shift_xor_round_trip(h: u32, m: u32)
    by (bit_vector)
    ensures
        unshift_xor((h >> ((h >> 28u32) + 4u32)) ^ h) == h,
        (unshift_xor(m) >> ((unshift_xor(m) >> 28u32) + 4u32)) ^ unshift_xor(m) == m,
{
}

proof fn lemma_final_round_trip(h: u32, y: u32)
    by (bit_vector)
    ensures
        ((h >> 22u32) ^ h) ^ (((h >> 22u32) ^ h) >> 22u32) == h,
        ((y ^ (y >> 22u32)) >> 22u32) ^ (y ^ (y >> 22u32)) == y,
{
}

proof fn lemma_unhash_hash(x: u32)
    ensures
        unhash_spec(hash_spec(x)) == x,
{
    let h1 = wrap32(x * 747_796_405int + 2_891_336_453int);
    let mid = (h1 >> ((h1 >> 28u32) + 4u32)) ^ h1;
    let h2 = wrap32(mid * 277_803_737int);
    lemma_final_round_trip(h2, 0);
    lemma_scale_round_trip(mid);
    lemma_shift_xor_round_trip(h1, 0);
    lemma_affine_round_trip(x, 0);
}

proof fn lemma_hash_unhash(y: u32)
    ensures
        hash_spec(unhash_spec(y)) == y,
{
    let h2 = y ^ (y >> 22u32);
    let m = wrap32(h2 * 2_897_767_785int);
    let h1 = unshift_xor(m);
    let x = wrap32((h1 + 1_403_630_843int) * 3_425_435_293int);
    lemma_affine_round_trip(0, h1);
    lemma_shift_xor_round_trip(0, m);
    lemma_scale_round_trip(h2);
    lemma_final_round_trip(0, y);
}

/// Distinct inputs hash to distinct values.
pub proof fn lemma_hash_injective(a: u32, b: u32)
    ensures
        hash_spec(a) == hash_spec(b) ==> a == b,
{
    lemma_hash_is_a_permutation(a, b);
    lemma_hash_is_a_permutation(b, a);
}

/// How plane seeds move along a fracture: the first cut of a fracture that starts with no piece
/// uses the caller's seed itself; one more piece adds one, and one more attempt adds
/// `2654435761`, modulo `2^32`. These three facts determine every seed.
pub proof fn lemma_cut_seed_steps(seed: u32, cut_index: int, pieces: int)
    ensures
        cut_seed_spec(seed, 0, 0) == seed,
        cut_seed_spec(seed, cut_index, pieces + 1) == wrap32(cut_seed_spec(seed, cut_index, pieces)
            + 1),
        cut_seed_spec(seed, cut_index + 1, pieces) == wrap32(
            cut_seed_spec(seed, cut_index, pieces) + 2_654_435_761int,
        ),
{
    vstd::arithmetic::div_mod::lemma_small_mod(seed as nat, modulus() as nat);
    let base = seed + cut_index * 2_654_435_761int + pieces;
    lemma_wrap32_of_wrap32_sum(base, 1);
    lemma_wrap32_of_wrap32_sum(base, 2_654_435_761int);
    assert(seed + (cut_index + 1) * 2_654_435_761int + pieces == base + 2_654_435_761int);
}

} // verus!
