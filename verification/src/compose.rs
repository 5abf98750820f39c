//! Drawing random characters per class and concatenating the classes.

use crate::charset::{
    class_count, class_pred, digit_chars, digit_set, lemma_classes_disjoint, lower_chars,
    lower_set, special_chars, special_set, upper_chars, upper_set,
};
use crate::rng::rand_below;
use vstd::prelude::*;

verus! {

use vstd::string::StringExecFns;

/// Relies on String's FromIterator over characters: collecting an
/// iterator of characters yields the string of exactly those characters
/// in order.
#[verifier::external_body]
fn chars_to_string(chars: &Vec<char>) -> (r: String)
    ensures
        r@ == chars@,
{
    chars.iter().collect()
}

/// Draws `len` characters independently and uniformly at random, with
/// replacement, from the non-empty set `set`.
pub fn gen_chars(len: usize, set: &Vec<char>) -> (r: String)
    requires
        set@.len() > 0,
    ensures
        r@.len() == len,
        forall|i: int| 0 <= i < r@.len() ==> set@.contains(#[trigger] r@[i]),
{
    let mut chars: Vec<char> = Vec::new();
    let mut k: usize = 0;
    while k < len
        invariant
            k <= len,
            set@.len() > 0,
            chars@.len() == k,
            forall|i: int| 0 <= i < chars@.len() ==> set@.contains(#[trigger] chars@[i]),
        decreases len - k,
    {
        let idx = rand_below(set.len());
        chars.push(set[idx]);
        k = k + 1;
    }
    chars_to_string(&chars)
}

/// What it means for `c` to be a class-grouped composition: the requested
/// count of characters from each class, concatenated in the fixed order
/// lowercase, uppercase, digits, specials.
pub open spec fn composed_ok(
    c: Seq<char>,
    lowers: int,
    uppers: int,
    digits: int,
    specials: int,
) -> bool {
    &&& c.len() == lowers + uppers + digits + specials
    &&& (forall|i: int| 0 <= i < lowers ==> lower_chars().contains(#[trigger] c[i]))
    &&& (forall|i: int| lowers <= i < lowers + uppers ==> upper_chars().contains(#[trigger] c[i]))
    &&& (forall|i: int|
        lowers + uppers <= i < lowers + uppers + digits ==> digit_chars().contains(
            #[trigger] c[i],
        ))
    &&& (forall|i: int|
        lowers + uppers + digits <= i < lowers + uppers + digits + specials
            ==> special_chars().contains(#[trigger] c[i]))
}

/// A filter keeps everything when every element satisfies the predicate.
proof fn lemma_filter_len_all(s: Seq<char>, pred: spec_fn(char) -> bool)
    requires
        forall|i: int| 0 <= i < s.len() ==> pred(#[trigger] s[i]),
    ensures
        s.filter(pred).len() == s.len(),
    decreases s.len(),
{
    reveal(Seq::filter);
    if s.len() > 0 {
        lemma_filter_len_all(s.drop_last(), pred);
    }
}

/// A filter keeps nothing when no element satisfies the predicate.
proof fn lemma_filter_len_none(s: Seq<char>, pred: spec_fn(char) -> bool)
    requires
        forall|i: int| 0 <= i < s.len() ==> !pred(#[trigger] s[i]),
    ensures
        s.filter(pred).len() == 0,
    decreases s.len(),
{
    reveal(Seq::filter);
    if s.len() > 0 {
        lemma_filter_len_none(s.drop_last(), pred);
    }
}

/// Removing one element removes exactly its own contribution to a
/// filter's length.
proof fn lemma_filter_remove(s: Seq<char>, pred: spec_fn(char) -> bool, j: int)
    requires
        0 <= j < s.len(),
    ensures
        s.filter(pred).len() == s.remove(j).filter(pred).len() + (if pred(s[j]) {
            1int
        } else {
            0int
        }),
    decreases s.len(),
{
    reveal(Seq::filter);
    if j == s.len() - 1 {
        assert(s.remove(j) =~= s.drop_last());
    } else {
        let q = s.remove(j);
        assert(q.drop_last() =~= s.drop_last().remove(j));
        assert(q.last() == s.last());
        lemma_filter_remove(s.drop_last(), pred, j);
    }
}

/// Sequences with equal multisets keep equally many elements under any
/// filter: the count of a class survives any permutation.
pub(crate) proof fn lemma_filter_len_multiset(a: Seq<char>, b: Seq<char>, pred: spec_fn(
    char,
) -> bool)
    requires
        a.to_multiset() == b.to_multiset(),
    ensures
        a.filter(pred).len() == b.filter(pred).len(),
    decreases a.len(),
{
    broadcast use vstd::seq_lib::group_to_multiset_ensures;

    if a.len() == 0 {
        assert(a.to_multiset().len() == a.len());
        assert(b.to_multiset().len() == b.len());
        assert(b.len() == 0);
        assert(a =~= b);
        reveal(Seq::filter);
    } else {
        let i = a.len() - 1;
        let x = a[i];
        assert(a.contains(x));
        assert(b.to_multiset().count(x) > 0);
        assert(b.contains(x));
        let j = choose|j: int| 0 <= j < b.len() && b[j] == x;
        assert(a.remove(i).to_multiset() == a.to_multiset().remove(x));
        assert(b.remove(j).to_multiset() == b.to_multiset().remove(x));
        lemma_filter_len_multiset(a.remove(i), b.remove(j), pred);
        lemma_filter_remove(a, pred, i);
        lemma_filter_remove(b, pred, j);
    }
}

/// A class-grouped composition holds exactly the quota of each class:
/// each zone contributes its whole length to its own class's count and,
/// the classes being pairwise disjoint, nothing to any other.
pub proof fn lemma_composed_class_counts(
    c: Seq<char>,
    lowers: int,
    uppers: int,
    digits: int,
    specials: int,
)
    requires
        lowers >= 0,
        uppers >= 0,
        digits >= 0,
        specials >= 0,
        composed_ok(c, lowers, uppers, digits, specials),
    ensures
        class_count(c, lower_chars()) == lowers,
        class_count(c, upper_chars()) == uppers,
        class_count(c, digit_chars()) == digits,
        class_count(c, special_chars()) == specials,
{
    lemma_classes_disjoint();
    let za = c.subrange(0, lowers);
    let zb = c.subrange(lowers, lowers + uppers);
    let zc = c.subrange(lowers + uppers, lowers + uppers + digits);
    let zd = c.subrange(lowers + uppers + digits, lowers + uppers + digits + specials);
    assert(c =~= za + zb + zc + zd);
    assert forall|i: int| 0 <= i < za.len() implies lower_chars().contains(#[trigger] za[i]) by {
        assert(za[i] == c[i]);
    }
    assert forall|i: int| 0 <= i < zb.len() implies upper_chars().contains(#[trigger] zb[i]) by {
        assert(zb[i] == c[lowers + i]);
    }
    assert forall|i: int| 0 <= i < zc.len() implies digit_chars().contains(#[trigger] zc[i]) by {
        assert(zc[i] == c[lowers + uppers + i]);
    }
    assert forall|i: int| 0 <= i < zd.len() implies special_chars().contains(#[trigger] zd[i]) by {
        assert(zd[i] == c[lowers + uppers + digits + i]);
    }
    let pl = class_pred(lower_chars());
    Seq::filter_distributes_over_add(za + zb + zc, zd, pl);
    Seq::filter_distributes_over_add(za + zb, zc, pl);
    Seq::filter_distributes_over_add(za, zb, pl);
    lemma_filter_len_all(za, pl);
    lemma_filter_len_none(zb, pl);
    lemma_filter_len_none(zc, pl);
    lemma_filter_len_none(zd, pl);
    let pu = class_pred(upper_chars());
    Seq::filter_distributes_over_add(za + zb + zc, zd, pu);
    Seq::filter_distributes_over_add(za + zb, zc, pu);
    Seq::filter_distributes_over_add(za, zb, pu);
    lemma_filter_len_none(za, pu);
    lemma_filter_len_all(zb, pu);
    lemma_filter_len_none(zc, pu);
    lemma_filter_len_none(zd, pu);
    let pd = class_pred(digit_chars());
    Seq::filter_distributes_over_add(za + zb + zc, zd, pd);
    Seq::filter_distributes_over_add(za + zb, zc, pd);
    Seq::filter_distributes_over_add(za, zb, pd);
    lemma_filter_len_none(za, pd);
    lemma_filter_len_none(zb, pd);
    lemma_filter_len_all(zc, pd);
    lemma_filter_len_none(zd, pd);
    let ps = class_pred(special_chars());
    Seq::filter_distributes_over_add(za + zb + zc, zd, ps);
    Seq::filter_distributes_over_add(za + zb, zc, ps);
    Seq::filter_distributes_over_add(za, zb, ps);
    lemma_filter_len_none(za, ps);
    lemma_filter_len_none(zb, ps);
    lemma_filter_len_none(zc, ps);
    lemma_filter_len_all(zd, ps);
}
/// and concatenates the draws in the fixed class order.
pub fn compose(lowers: usize, uppers: usize, digits: usize, specials: usize) -> (r: String)
    ensures
        composed_ok(r@, lowers as int, uppers as int, digits as int, specials as int),
{
    let lset = lower_set();
    let uset = upper_set();
    let dset = digit_set();
    let sset = special_set();
    let mut r = gen_chars(lowers, &lset);
    let up = gen_chars(uppers, &uset);
    let di = gen_chars(digits, &dset);
    let sp = gen_chars(specials, &sset);
    r.append(up.as_str());
    r.append(di.as_str());
    r.append(sp.as_str());
    r
}

} // verus!
