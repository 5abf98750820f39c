//! The four fixed character classes a password is drawn from.

use vstd::prelude::*;

verus! {

/// The lowercase class: the letters `a` through `z`.
pub open spec fn lower_chars() -> Seq<char> {
    seq![
        'a', 'b', 'c', 'd', 'e', 'f', 'g', 'h', 'i', 'j', 'k', 'l', 'm', 'n', 'o', 'p', 'q', 'r',
        's', 't', 'u', 'v', 'w', 'x', 'y', 'z',
    ]
}

/// The uppercase class: the letters `A` through `Z`.
pub open spec fn upper_chars() -> Seq<char> {
    seq![
        'A', 'B', 'C', 'D', 'E', 'F', 'G', 'H', 'I', 'J', 'K', 'L', 'M', 'N', 'O', 'P', 'Q', 'R',
        'S', 'T', 'U', 'V', 'W', 'X', 'Y', 'Z',
    ]
}

/// The digit class: `0` through `9`.
pub open spec fn digit_chars() -> Seq<char> {
    seq!['0', '1', '2', '3', '4', '5', '6', '7', '8', '9']
}

/// The special class: the fixed set of punctuation characters.
pub open spec fn special_chars() -> Seq<char> {
    seq![')', '(', '*', '&', '^', '%', '$', '#', '@', '!', '~']
}

/// Membership in a character class, as a predicate on characters.
pub open spec fn class_pred(class: Seq<char>) -> spec_fn(char) -> bool {
    |c: char| class.contains(c)
}

/// How many characters of `s` belong to the class `class`.
pub open spec fn class_count(s: Seq<char>, class: Seq<char>) -> nat {
    s.filter(class_pred(class)).len()
}

/// The four classes are pairwise disjoint: no character belongs to two
/// of them.
pub proof fn lemma_classes_disjoint()
    ensures
        forall|c: char| !(lower_chars().contains(c) && upper_chars().contains(c)),
        forall|c: char| !(lower_chars().contains(c) && digit_chars().contains(c)),
        forall|c: char| !(lower_chars().contains(c) && special_chars().contains(c)),
        forall|c: char| !(upper_chars().contains(c) && digit_chars().contains(c)),
        forall|c: char| !(upper_chars().contains(c) && special_chars().contains(c)),
        forall|c: char| !(digit_chars().contains(c) && special_chars().contains(c)),
{
}

/// A class whose count in `s` is zero contributes no character to `s`.
pub proof fn lemma_zero_class_count(s: Seq<char>, class: Seq<char>)
    requires
        class_count(s, class) == 0,
    ensures
        forall|i: int| 0 <= i < s.len() ==> !class.contains(#[trigger] s[i]),
{
    assert forall|i: int| 0 <= i < s.len() implies !class.contains(#[trigger] s[i]) by {
        if class.contains(s[i]) {
            s.lemma_filter_contains(class_pred(class), i);
            let f = s.filter(class_pred(class));
            let j = choose|j: int| 0 <= j < f.len() && f[j] == s[i];
            assert(f.len() > 0);
        }
    }
}

/// A class whose count in `s` is the whole length of `s` supplies every
/// character of `s`.
pub proof fn lemma_full_class_count(s: Seq<char>, class: Seq<char>)
    requires
        class_count(s, class) == s.len(),
    ensures
        forall|i: int| 0 <= i < s.len() ==> class.contains(#[trigger] s[i]),
    decreases s.len(),
{
    reveal(Seq::filter);
    if s.len() > 0 {
        let pred = class_pred(class);
        s.drop_last().lemma_filter_len(pred);
        assert(pred(s.last()));
        assert(s.drop_last().filter(pred).len() == s.drop_last().len());
        lemma_full_class_count(s.drop_last(), class);
        assert forall|i: int| 0 <= i < s.len() implies class.contains(#[trigger] s[i]) by {
            if i < s.len() - 1 {
                assert(s.drop_last()[i] == s[i]);
            }
        }
    }
}

/// The lowercase class as an executable vector.
pub fn lower_set() -> (v: Vec<char>)
    ensures
        v@ == lower_chars(),
{
    let v: Vec<char> = vec![
        'a', 'b', 'c', 'd', 'e', 'f', 'g', 'h', 'i', 'j', 'k', 'l', 'm', 'n', 'o', 'p', 'q', 'r',
        's', 't', 'u', 'v', 'w', 'x', 'y', 'z',
    ];
    proof {
        assert(v@ =~= lower_chars());
    }
    v
}

/// The uppercase class as an executable vector.
pub fn upper_set() -> (v: Vec<char>)
    ensures
        v@ == upper_chars(),
{
    let v: Vec<char> = vec![
        'A', 'B', 'C', 'D', 'E', 'F', 'G', 'H', 'I', 'J', 'K', 'L', 'M', 'N', 'O', 'P', 'Q', 'R',
        'S', 'T', 'U', 'V', 'W', 'X', 'Y', 'Z',
    ];
    proof {
        assert(v@ =~= upper_chars());
    }
    v
}

/// The digit class as an executable vector.
pub fn digit_set() -> (v: Vec<char>)
    ensures
        v@ == digit_chars(),
{
    let v: Vec<char> = vec!['0', '1', '2', '3', '4', '5', '6', '7', '8', '9'];
    proof {
        assert(v@ =~= digit_chars());
    }
    v
}

/// The special class as an executable vector.
pub fn special_set() -> (v: Vec<char>)
    ensures
        v@ == special_chars(),
{
    let v: Vec<char> = vec![')', '(', '*', '&', '^', '%', '$', '#', '@', '!', '~'];
    proof {
        assert(v@ =~= special_chars());
    }
    v
}

} // verus!
