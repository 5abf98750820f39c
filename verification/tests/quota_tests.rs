use passclip::quota::{
    resolve_quota, DEFAULT_DIGIT, DEFAULT_LENGTH, DEFAULT_SPECIAL, DEFAULT_UPPER,
};

#[test]
fn resolves_defaults_to_ten_lowercase() {
    let q = resolve_quota(DEFAULT_LENGTH, DEFAULT_UPPER, DEFAULT_DIGIT, DEFAULT_SPECIAL);
    assert_eq!(q.lower, 10);
    assert_eq!(q.upper, 2);
    assert_eq!(q.digit, 2);
    assert_eq!(q.special, 2);
    assert_eq!(q.lower + q.upper + q.digit + q.special, 16);
}

#[test]
fn components_sum_to_requested_length() {
    let q = resolve_quota(20, 3, 4, 5);
    assert_eq!(q.lower, 8);
    assert_eq!(q.lower + q.upper + q.digit + q.special, 20);
}

#[test]
fn explicit_counts_raise_short_length() {
    let q = resolve_quota(4, 2, 2, 2);
    assert_eq!(q.lower, 0);
    assert_eq!(q.upper, 2);
    assert_eq!(q.digit, 2);
    assert_eq!(q.special, 2);
    assert_eq!(q.lower + q.upper + q.digit + q.special, 6);
}

#[test]
fn zero_length_with_explicit_counts() {
    let q = resolve_quota(0, 1, 1, 1);
    assert_eq!(q.lower, 0);
    assert_eq!(q.lower + q.upper + q.digit + q.special, 3);
}

#[test]
fn all_zero_quota_is_empty() {
    let q = resolve_quota(0, 0, 0, 0);
    assert_eq!(q.lower, 0);
    assert_eq!(q.lower + q.upper + q.digit + q.special, 0);
}

#[test]
fn exact_fit_leaves_no_lowercase() {
    let q = resolve_quota(6, 2, 2, 2);
    assert_eq!(q.lower, 0);
    assert_eq!(q.lower + q.upper + q.digit + q.special, 6);
}
