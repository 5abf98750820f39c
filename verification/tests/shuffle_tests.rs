use passclip::shuffle::shuffle_str;
use unicode_segmentation::UnicodeSegmentation;

fn sorted_graphemes(s: &str) -> Vec<String> {
    let mut v: Vec<String> = s.graphemes(true).map(|g| g.to_string()).collect();
    v.sort();
    v
}

#[test]
fn shuffle_preserves_character_multiset() {
    let input = "abcdefgh012345";
    let output = shuffle_str(input);
    let mut a: Vec<char> = input.chars().collect();
    let mut b: Vec<char> = output.chars().collect();
    a.sort();
    b.sort();
    assert_eq!(a, b);
}

#[test]
fn shuffle_preserves_grapheme_multiset() {
    let input = "a\u{310}e\u{301}o\u{308}\u{332}xyz";
    let output = shuffle_str(input);
    assert_eq!(sorted_graphemes(input), sorted_graphemes(&output));
}

#[test]
fn shuffle_keeps_combining_sequences_intact() {
    // One base letter with a combining accent: the two code points must
    // survive as a single grapheme cluster wherever the shuffle puts them.
    let input = "e\u{301}abc";
    let output = shuffle_str(input);
    assert_eq!(output.graphemes(true).count(), 4);
    assert!(output.graphemes(true).any(|g| g == "e\u{301}"));
    assert!(!output.graphemes(true).any(|g| g == "e"));
}

#[test]
fn shuffle_preserves_grapheme_count() {
    for input in ["", "a", "ab", "a\u{310}e\u{301}o\u{308}\u{332}", "hello world"] {
        let output = shuffle_str(input);
        assert_eq!(input.graphemes(true).count(), output.graphemes(true).count());
    }
}

#[test]
fn shuffle_of_empty_string_is_empty() {
    assert_eq!(shuffle_str(""), "");
}

#[test]
fn shuffle_of_one_cluster_is_identity() {
    assert_eq!(shuffle_str("x"), "x");
    assert_eq!(shuffle_str("o\u{308}\u{332}"), "o\u{308}\u{332}");
}

#[test]
fn shuffle_reorders_clusters() {
    // Two clusters land in either order with equal chance: over 100 runs
    // both orders appear, unless the permutation were not random at all.
    let mut seen_ab = false;
    let mut seen_ba = false;
    for _ in 0..100 {
        match shuffle_str("ab").as_str() {
            "ab" => seen_ab = true,
            "ba" => seen_ba = true,
            other => panic!("unexpected shuffle result: {}", other),
        }
    }
    assert!(seen_ab && seen_ba);
}
