use autogib::hashing::{cut_seed, direction_hashes, hash_bits};

/// The float the fracture draws from: the hash mapped into `[0, 1)`.
fn hash_f32(x: u32) -> f32 {
    (hash_bits(x) as f32) / (u32::MAX as f32)
}

#[test]
fn hash_f32_is_frozen() {
    let got: Vec<u32> = (0..8u32).map(|i| hash_f32(i).to_bits()).collect();
    assert_eq!(
        got,
        [1022846460, 1059634922, 1056243097, 1056841197, 1042407458, 1057018071, 1064390834, 1056755236],
        "the fracture RNG moved. Every cut plane's direction comes from these bits, so a change \
         here re-partitions every mesh this crate has ever fractured."
    );
    for i in 0..1024u32 {
        let v = hash_f32(i);
        assert!((0.0..1.0).contains(&v), "hash_f32({i}) = {v} escaped [0, 1)");
    }
}

#[test]
fn hash_bits_is_frozen() {
    let got: Vec<u32> = (0..8u32).map(hash_bits).collect();
    assert_eq!(
        got,
        [129708002, 2831084092, 2055130248, 2131687100, 678955108, 2161170183, 4048597412, 2120684060]
    );
}

#[test]
fn hash_bits_is_deterministic() {
    for i in [0u32, 1, 77, 0xDEAD_BEEF, u32::MAX] {
        assert_eq!(hash_bits(i), hash_bits(i));
    }
}

#[test]
fn cut_seed_mixes_index_and_piece_count() {
    assert_eq!(cut_seed(7, 0, 1), 8);
    assert_eq!(cut_seed(7, 1, 1), 2654435769);
    assert_eq!(cut_seed(0xABCD_1234, 3, 2), 2255716169);
    // Wraps modulo 2^32.
    assert_eq!(cut_seed(0xFFFF_FFFF, 5, 9), 387276925);
}

#[test]
fn direction_hashes_offset_the_seed_before_hashing() {
    assert_eq!(direction_hashes(0), (2572358369, 2419168863));
    let (a, b) = direction_hashes(41);
    assert_eq!(a, hash_bits(41u32.wrapping_add(0x1234_5678)));
    assert_eq!(b, hash_bits(41u32.wrapping_add(0x9E37_79B9)));
    assert_ne!(a, b);
}
