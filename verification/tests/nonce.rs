use pw_vault::error::VaultError;
use pw_vault::nonce::{Counter, NONCE_LEN, NONCE_SPACE};

#[test]
fn fresh_counter_starts_at_zero() {
    let counter = Counter::new();
    assert_eq!(counter.counter, 0);
}

#[test]
fn first_nonce_is_all_zero() {
    let mut counter = Counter::new();
    assert_eq!(counter.advance(), Ok([0u8; NONCE_LEN]));
    assert_eq!(counter.counter, 1);
}

#[test]
fn nonces_count_upwards_in_little_endian() {
    let mut counter = Counter::new();
    let first = counter.advance().unwrap();
    let second = counter.advance().unwrap();
    let third = counter.advance().unwrap();
    assert_eq!(first, [0, 0, 0, 0, 0, 0, 0, 0, 0, 0, 0, 0]);
    assert_eq!(second, [1, 0, 0, 0, 0, 0, 0, 0, 0, 0, 0, 0]);
    assert_eq!(third, [2, 0, 0, 0, 0, 0, 0, 0, 0, 0, 0, 0]);
    assert_eq!(counter.counter, 3);
}

#[test]
fn nonce_carries_into_higher_bytes() {
    let mut counter = Counter { counter: 256 };
    assert_eq!(counter.advance(), Ok([0, 1, 0, 0, 0, 0, 0, 0, 0, 0, 0, 0]));
    let mut counter = Counter { counter: 0x0c0b_0a09_0807_0605_0403_0201 };
    assert_eq!(counter.advance(), Ok([1, 2, 3, 4, 5, 6, 7, 8, 9, 10, 11, 12]));
    assert_eq!(counter.counter, 0x0c0b_0a09_0807_0605_0403_0202);
}

#[test]
fn nonce_matches_the_low_bytes_of_the_counter() {
    let mut counter = Counter { counter: 0x0123_4567_89ab_cdef_1122_3344 };
    let expected = 0x0123_4567_89ab_cdef_1122_3344u128.to_le_bytes();
    let nonce = counter.advance().unwrap();
    assert_eq!(&nonce[..], &expected[..12]);
}

#[test]
fn last_nonce_is_all_ones_and_then_the_counter_is_exhausted() {
    let mut counter = Counter { counter: NONCE_SPACE - 1 };
    assert_eq!(counter.advance(), Ok([0xff; NONCE_LEN]));
    assert_eq!(counter.counter, NONCE_SPACE);
    assert_eq!(counter.advance(), Err(VaultError::NonceExhausted));
    assert_eq!(counter.counter, NONCE_SPACE);
    assert_eq!(counter.advance(), Err(VaultError::NonceExhausted));
}

#[test]
fn counter_beyond_the_nonce_space_is_exhausted() {
    let mut counter = Counter { counter: u128::MAX };
    assert_eq!(counter.advance(), Err(VaultError::NonceExhausted));
    assert_eq!(counter.counter, u128::MAX);
}

#[test]
fn successive_nonces_differ() {
    let mut counter = Counter::new();
    let mut seen: Vec<[u8; NONCE_LEN]> = Vec::new();
    for _ in 0..600 {
        let nonce = counter.advance().unwrap();
        assert!(!seen.contains(&nonce));
        seen.push(nonce);
    }
}

#[test]
fn nonce_space_is_two_to_the_ninety_six() {
    assert_eq!(NONCE_SPACE, 1u128 << 96);
    assert_eq!(NONCE_LEN, 12);
}
