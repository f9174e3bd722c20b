use chainbounty::validation::{
    compute_fee_split, count_chars, mul_div, require_future_deadline, require_non_empty_string, require_not_expired,
    require_positive_amount, require_valid_fee, require_valid_split, MAX_FEE_BPS, MIN_TITLE_LEN,
};
use chainbounty::types::{bytes_equal, Address, ContractError};

#[test]
fn valid_fee_up_to_ten_percent() {
    assert_eq!(require_valid_fee(0), Ok(()));
    assert_eq!(require_valid_fee(MAX_FEE_BPS), Ok(()));
    assert_eq!(require_valid_fee(1001), Err(ContractError::InvalidFee));
    assert_eq!(require_valid_fee(u32::MAX), Err(ContractError::InvalidFee));
}

#[test]
fn positive_amount() {
    assert_eq!(require_positive_amount(1), Ok(()));
    assert_eq!(require_positive_amount(0), Err(ContractError::InvalidAmount));
    assert_eq!(require_positive_amount(-5), Err(ContractError::InvalidAmount));
    assert_eq!(require_positive_amount(i128::MAX), Ok(()));
}

#[test]
fn deadlines() {
    assert_eq!(require_future_deadline(100, 101), Ok(()));
    assert_eq!(require_future_deadline(100, 100), Err(ContractError::InvalidDeadline));
    assert_eq!(require_future_deadline(100, 99), Err(ContractError::InvalidDeadline));
    assert_eq!(require_not_expired(100, 100), Ok(()));
    assert_eq!(require_not_expired(101, 100), Err(ContractError::DeadlineExpired));
}

#[test]
fn string_min_length() {
    assert_eq!(MIN_TITLE_LEN, 3);
    assert_eq!(require_non_empty_string(&b"abc".to_vec()), Ok(()));
    assert_eq!(require_non_empty_string(&b"ab".to_vec()), Err(ContractError::InvalidInput));
    assert_eq!(require_non_empty_string(&Vec::new()), Err(ContractError::InvalidInput));
}

#[test]
fn split_percentage() {
    assert_eq!(require_valid_split(0), Ok(()));
    assert_eq!(require_valid_split(100), Ok(()));
    assert_eq!(require_valid_split(101), Err(ContractError::InvalidSplit));
}

#[test]
fn fee_split_exact_values() {
    assert_eq!(compute_fee_split(100_000, 500), (95_000, 5_000));
    assert_eq!(compute_fee_split(19_999, 1000), (18_000, 1_999));
    assert_eq!(compute_fee_split(9, 1000), (9, 0));
    assert_eq!(compute_fee_split(0, 1000), (0, 0));
    assert_eq!(compute_fee_split(12_345, 0), (12_345, 0));
}

#[test]
fn fee_split_never_overflows() {
    let big = i128::MAX;
    let (payout, fee) = compute_fee_split(big, 1000);
    // i128::MAX = 170141183460469231731687303715884105727
    assert_eq!(fee, 17014118346046923173168730371588410572);
    assert_eq!(payout + fee, big);
    assert_eq!(mul_div(big, 100, 100), big);
    assert_eq!(mul_div(big, 60, 100), 102084710076281539039012382229530463436);
    assert_eq!(mul_div(7, 1, 2), 3);
}

#[test]
fn addresses_compare_by_bytes() {
    let a = Address::new(b"GABC".to_vec());
    let b = Address::new(b"GABC".to_vec());
    let c = Address::new(b"GABD".to_vec());
    assert_eq!(a, b);
    assert_ne!(a, c);
    assert_ne!(a, Address::new(b"GAB".to_vec()));
    assert!(bytes_equal(&b"xy".to_vec(), &b"xy".to_vec()));
    assert!(!bytes_equal(&b"xy".to_vec(), &b"xyz".to_vec()));
    assert_eq!(a.clone(), a);
}

#[test]
fn string_length_counts_characters() {
    // "éé" is 2 characters in 4 bytes.
    assert_eq!(require_non_empty_string(&"éé".as_bytes().to_vec()), Err(ContractError::InvalidInput));
    assert_eq!(require_non_empty_string(&"ééé".as_bytes().to_vec()), Ok(()));
    assert_eq!(require_non_empty_string(&"日本".as_bytes().to_vec()), Err(ContractError::InvalidInput));
    assert_eq!(require_non_empty_string(&"a😀b".as_bytes().to_vec()), Ok(()));
    assert_eq!(count_chars(&"héllo😀".as_bytes().to_vec()), 6);
    assert_eq!(count_chars(&Vec::new()), 0);
}
