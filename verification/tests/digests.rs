use lnpbp::lnpbps::digest::filler_digest;
use lnpbp::lnpbps::digest::hash_entropy;
use lnpbp::lnpbps::digest::hash_filler;
use lnpbp::lnpbps::digest::same_digest;
use lnpbp::lnpbps::lnpbp4::Lnpbp4Hash;

fn engine_filler(index: u64, entropy: u64) -> Lnpbp4Hash {
    let seed: bitcoin::hashes::sha256::Hash = bitcoin::hashes::Hash::hash(&entropy.to_le_bytes());
    let mut engine = bitcoin::hashes::sha256::HashEngine::default();
    bitcoin::hashes::HashEngine::input(&mut engine, &index.to_le_bytes());
    bitcoin::hashes::HashEngine::input(&mut engine, &seed[..]);
    let hash: bitcoin::hashes::sha256::Hash = bitcoin::hashes::Hash::from_engine(engine);
    bitcoin::hashes::Hash::to_byte_array(hash)
}

#[test]
fn entropy_digest_of_zero() {
    let expected: Lnpbp4Hash = [
        0xaf, 0x55, 0x70, 0xf5, 0xa1, 0x81, 0x0b, 0x7a, 0xf7, 0x8c, 0xaf, 0x4b, 0xc7, 0x0a, 0x66,
        0x0f, 0x0d, 0xf5, 0x1e, 0x42, 0xba, 0xf9, 0x1d, 0x4d, 0xe5, 0xb2, 0x32, 0x8d, 0xe0, 0xe8,
        0x3d, 0xfc,
    ];
    assert_eq!(hash_entropy(0), expected);
}

#[test]
fn entropy_digest_takes_the_lowest_byte_first() {
    let expected: Lnpbp4Hash = [
        0xa8, 0x5b, 0xa2, 0xb3, 0x62, 0x61, 0xd0, 0xdc, 0xa4, 0xb6, 0xcb, 0xbc, 0x84, 0x0f, 0xa8,
        0xa4, 0x41, 0xec, 0x95, 0x20, 0x0a, 0xbb, 0xa5, 0xc5, 0x62, 0x3e, 0x7d, 0xda, 0xde, 0xff,
        0x99, 0xe5,
    ];
    assert_eq!(hash_entropy(0x0123_4567_89ab_cdef), expected);
}

#[test]
fn filler_of_slot_zero_with_entropy_zero() {
    let expected: Lnpbp4Hash = [
        0x76, 0x5b, 0x3f, 0x4a, 0x9d, 0xc9, 0x54, 0x4f, 0x1a, 0x1b, 0x15, 0x47, 0x38, 0x14, 0x68,
        0x71, 0xf7, 0x4d, 0xa5, 0x8f, 0xa1, 0x1f, 0x7e, 0x8a, 0x87, 0xbd, 0xd3, 0x9f, 0x9a, 0x59,
        0x62, 0xbf,
    ];
    assert_eq!(filler_digest(0, 0), expected);
}

#[test]
fn filler_of_slot_one_with_entropy_42() {
    let expected: Lnpbp4Hash = [
        0xb7, 0xdc, 0xeb, 0x78, 0x1c, 0x24, 0x59, 0xd0, 0x32, 0x15, 0x4b, 0x9a, 0x42, 0x6c, 0x60,
        0x33, 0xb8, 0x0d, 0xdc, 0x65, 0xc7, 0x68, 0x58, 0xf9, 0xe2, 0x72, 0xcd, 0xed, 0xb3, 0xa7,
        0x41, 0x5c,
    ];
    assert_eq!(filler_digest(1, 42), expected);
}

#[test]
fn filler_of_a_wide_index() {
    let expected: Lnpbp4Hash = [
        0xe7, 0xe8, 0xc9, 0x18, 0xcf, 0x50, 0xa7, 0xaa, 0xb4, 0x53, 0x84, 0x99, 0x87, 0x60, 0x1e,
        0x08, 0x3d, 0x81, 0x92, 0xcb, 0x47, 0xf5, 0x72, 0xa0, 0x07, 0x1c, 0x22, 0xfc, 0x0b, 0x9c,
        0x71, 0x2c,
    ];
    assert_eq!(filler_digest(258, 0x0123_4567_89ab_cdef), expected);
}

#[test]
fn filler_is_the_hash_of_index_then_entropy_digest() {
    let seed = hash_entropy(7);
    assert_eq!(hash_filler(3, &seed), filler_digest(3, 7));
    assert_eq!(filler_digest(3, 7), engine_filler(3, 7));
    assert_eq!(filler_digest(u64::MAX, u64::MAX), engine_filler(u64::MAX, u64::MAX));
}

#[test]
fn filler_differs_by_index_and_by_entropy() {
    assert_ne!(filler_digest(0, 7), filler_digest(1, 7));
    assert_ne!(filler_digest(0, 7), filler_digest(0, 8));
    assert_ne!(filler_digest(0, 7), hash_entropy(7));
}

#[test]
fn same_digest_compares_every_byte() {
    let a: Lnpbp4Hash = [5; 32];
    let mut b: Lnpbp4Hash = [5; 32];
    assert!(same_digest(&a, &b));
    b[31] = 6;
    assert!(!same_digest(&a, &b));
    b[31] = 5;
    b[0] = 4;
    assert!(!same_digest(&a, &b));
}
