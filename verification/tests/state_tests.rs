use noiisseur::error::Error;
use noiisseur::state::{generate_state, state_from, validate};

#[test]
fn state_of_zero_bytes_is_known() {
    let seed = vec![0u8; 32];
    let value = vec![0u8; 64];
    assert_eq!(
        state_from(&seed, &value),
        Ok("TAMObHBV5m7bpGVfjsd5_BBaFjoXg32MjT99GZG3ErAAAAAAAAAAAAAAAAAAAAAAAAAAAAAAAAAAAAAA\
            AAAAAAAAAAAAAAAAAAAAAAAAAAAAAAAAAAAAAAAAAAAAAAAA"
            .to_string())
    );
}

#[test]
fn state_of_counting_bytes_is_known() {
    let seed: Vec<u8> = (0u8..32).collect();
    let value: Vec<u8> = (0u8..64).collect();
    assert_eq!(
        state_from(&seed, &value),
        Ok("a-pNoTZmeB3El0Y809wfYJU-X6EMBdwF0AGF2gDyy3gAAQIDBAUGBwgJCgsMDQ4PEBESExQVFhcYGRob\
            HB0eHyAhIiMkJSYnKCkqKywtLi8wMTIzNDU2Nzg5Ojs8PT4_"
            .to_string())
    );
}

#[test]
fn state_needs_seed_and_value_of_the_right_length() {
    assert_eq!(state_from(&vec![0u8; 31], &vec![0u8; 64]), Err(Error::Auth));
    assert_eq!(state_from(&vec![0u8; 32], &vec![0u8; 63]), Err(Error::Auth));
    assert_eq!(state_from(&vec![], &vec![]), Err(Error::Auth));
}

#[test]
fn generated_states_are_fresh() {
    let first = generate_state().unwrap();
    let second = generate_state().unwrap();
    assert_eq!(first.len(), 128);
    assert_eq!(second.len(), 128);
    assert_ne!(first, second);
}

#[test]
fn validate_is_exact_equality() {
    assert!(validate("abc", "abc"));
    assert!(!validate("abc", "abd"));
    assert!(!validate("abc", "abcd"));
    assert!(!validate("", "abc"));
    assert!(validate("", ""));
    assert!(!validate("ABC", "abc"));
}
