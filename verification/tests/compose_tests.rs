use passclip::charset::{digit_set, lower_set, special_set, upper_set};
use passclip::compose::{compose, gen_chars};

fn is_special(c: char) -> bool {
    ")(*&^%$#@!~".contains(c)
}

#[test]
fn gen_chars_has_requested_length() {
    let set = lower_set();
    for len in [0usize, 1, 2, 16, 100] {
        let s = gen_chars(len, &set);
        assert_eq!(s.chars().count(), len);
    }
}

#[test]
fn gen_chars_draws_from_the_set() {
    let set = digit_set();
    let s = gen_chars(200, &set);
    assert!(s.chars().all(|c| c.is_ascii_digit()));
}

#[test]
fn gen_chars_zero_count_is_empty() {
    let set = upper_set();
    assert_eq!(gen_chars(0, &set), "");
}

#[test]
fn compose_has_summed_length() {
    let s = compose(3, 4, 5, 6);
    assert_eq!(s.chars().count(), 18);
}

#[test]
fn compose_groups_classes_in_order() {
    let s = compose(3, 2, 4, 2);
    let chars: Vec<char> = s.chars().collect();
    assert_eq!(chars.len(), 11);
    assert!(chars[0..3].iter().all(|c| c.is_ascii_lowercase()));
    assert!(chars[3..5].iter().all(|c| c.is_ascii_uppercase()));
    assert!(chars[5..9].iter().all(|c| c.is_ascii_digit()));
    assert!(chars[9..11].iter().all(|c| is_special(*c)));
}

#[test]
fn compose_all_zero_is_empty() {
    assert_eq!(compose(0, 0, 0, 0), "");
}

#[test]
fn special_set_matches_fixed_characters() {
    let set = special_set();
    let fixed: Vec<char> = ")(*&^%$#@!~".chars().collect();
    assert_eq!(set, fixed);
}

#[test]
fn class_sets_have_expected_sizes() {
    assert_eq!(lower_set().len(), 26);
    assert_eq!(upper_set().len(), 26);
    assert_eq!(digit_set().len(), 10);
    assert_eq!(special_set().len(), 11);
}

#[test]
fn each_digit_appears_with_roughly_uniform_frequency() {
    let set = digit_set();
    let s = gen_chars(5000, &set);
    let mut counts = [0usize; 10];
    for c in s.chars() {
        counts[c.to_digit(10).unwrap() as usize] += 1;
    }
    // Expected 500 per digit; allow a wide margin so the test cannot be flaky.
    for count in counts {
        assert!(count > 250 && count < 1000, "digit frequency far from uniform: {}", count);
    }
}

#[test]
fn every_lowercase_letter_eventually_appears() {
    let set = lower_set();
    let s = gen_chars(5000, &set);
    for c in 'a'..='z' {
        assert!(s.contains(c), "letter {} never drawn", c);
    }
}
