//! The password pipeline: compose by class, then shuffle.

use crate::charset::{class_count, class_pred, digit_chars, lower_chars, special_chars, upper_chars};
use crate::compose::{compose, composed_ok, lemma_composed_class_counts, lemma_filter_len_multiset};
use crate::shuffle::{concat_all, grapheme_split, shuffle_str};
use vstd::prelude::*;

verus! {

/// Generates a password with the given number of lowercase, uppercase,
/// digit and special characters: the classes are drawn and concatenated
/// in class order, and the result is shuffled over grapheme clusters so
/// the grouping leaves no trace. The result always holds exactly
/// `lowernum + uppernum + digitnum + specialnum` characters — the quota
/// of each class and not one character more, every one from the four
/// class sets — being a character-preserving rearrangement of the
/// grapheme clusters of a class-grouped composition with those counts.
pub fn gen_passw(lowernum: usize, uppernum: usize, digitnum: usize, specialnum: usize) -> (r:
    String)
    ensures
        r@.len() == lowernum + uppernum + digitnum + specialnum,
        class_count(r@, lower_chars()) == lowernum,
        class_count(r@, upper_chars()) == uppernum,
        class_count(r@, digit_chars()) == digitnum,
        class_count(r@, special_chars()) == specialnum,
        forall|i: int|
            0 <= i < r@.len() ==> lower_chars().contains(#[trigger] r@[i])
                || upper_chars().contains(r@[i]) || digit_chars().contains(r@[i])
                || special_chars().contains(r@[i]),
        exists|c: Seq<char>, p: Seq<Seq<char>>|
            #![trigger composed_ok(c, lowernum as int, uppernum as int, digitnum as int, specialnum as int), p.to_multiset()]
            composed_ok(c, lowernum as int, uppernum as int, digitnum as int, specialnum as int)
                && concat_all(grapheme_split(c)) == c && r@.to_multiset() == c.to_multiset()
                && p.to_multiset() == grapheme_split(c).to_multiset() && r@ == concat_all(p),
{
    let composed = compose(lowernum, uppernum, digitnum, specialnum);
    let r = shuffle_str(composed.as_str());
    proof {
        broadcast use vstd::seq_lib::group_to_multiset_ensures;

        let c = composed@;
        let p = choose|p: Seq<Seq<char>>|
            p.to_multiset() == grapheme_split(c).to_multiset() && r@ == concat_all(p);
        assert(composed_ok(
            c,
            lowernum as int,
            uppernum as int,
            digitnum as int,
            specialnum as int,
        ) && concat_all(grapheme_split(c)) == c && r@.to_multiset() == c.to_multiset()
            && p.to_multiset() == grapheme_split(c).to_multiset() && r@ == concat_all(p));
        lemma_composed_class_counts(
            c,
            lowernum as int,
            uppernum as int,
            digitnum as int,
            specialnum as int,
        );
        lemma_filter_len_multiset(r@, c, class_pred(lower_chars()));
        lemma_filter_len_multiset(r@, c, class_pred(upper_chars()));
        lemma_filter_len_multiset(r@, c, class_pred(digit_chars()));
        lemma_filter_len_multiset(r@, c, class_pred(special_chars()));
        assert forall|i: int|
            0 <= i < r@.len() implies lower_chars().contains(#[trigger] r@[i])
            || upper_chars().contains(r@[i]) || digit_chars().contains(r@[i])
            || special_chars().contains(r@[i]) by {
            assert(r@.contains(r@[i]));
            assert(r@.to_multiset().count(r@[i]) > 0);
            assert(c.to_multiset().count(r@[i]) > 0);
            assert(c.contains(r@[i]));
            let k = choose|k: int| 0 <= k < c.len() && c[k] == r@[i];
            assert(lower_chars().contains(c[k]) || upper_chars().contains(c[k])
                || digit_chars().contains(c[k]) || special_chars().contains(c[k]));
        }
    }
    r
}

} // verus!
