//! Shuffling a string over its Unicode grapheme clusters.
//!
//! The string is split into grapheme clusters — the smallest units a
//! reader perceives as one character, which may span several code points —
//! the clusters are permuted uniformly at random, and the permuted
//! clusters are concatenated again. A multi-code-point cluster therefore
//! moves as one unit and is never split.

use crate::rng::rand_below;
use unicode_segmentation::UnicodeSegmentation;
use vstd::prelude::*;

verus! {

use vstd::seq_lib::group_to_multiset_ensures;
use vstd::multiset::group_multiset_axioms;
use vstd::string::StringExecFns;

/// The grapheme-cluster segmentation of a string: a function of the
/// characters alone, named rather than written out.
pub uninterp spec fn grapheme_split(s: Seq<char>) -> Seq<Seq<char>>;

/// The concatenation of a sequence of character sequences, in order and
/// with no separators.
pub open spec fn concat_all(parts: Seq<Seq<char>>) -> Seq<char>
    decreases parts.len(),
{
    if parts.len() == 0 {
        Seq::empty()
    } else {
        concat_all(parts.drop_last()) + parts.last()
    }
}

/// The views of a vector of owned grapheme clusters.
pub open spec fn views_of(parts: Seq<String>) -> Seq<Seq<char>> {
    parts.map_values(|g: String| g@)
}

/// Relies on unicode_segmentation::UnicodeSegmentation::graphemes with
/// extended cluster boundaries: the pieces are the string's consecutive
/// grapheme clusters, their concatenation is the string itself, and the
/// segmentation depends on the characters alone.
#[verifier::external_body]
fn split_graphemes(s: &str) -> (r: Vec<String>)
    ensures
        views_of(r@) == grapheme_split(s@),
        concat_all(views_of(r@)) == s@,
{
    s.graphemes(true).map(|g| g.to_string()).collect()
}

/// Removing one part removes exactly its characters from the
/// concatenation's multiset.
proof fn lemma_concat_all_multiset_remove(parts: Seq<Seq<char>>, j: int)
    requires
        0 <= j < parts.len(),
    ensures
        concat_all(parts).to_multiset() == concat_all(parts.remove(j)).to_multiset().add(
            parts[j].to_multiset(),
        ),
    decreases parts.len(),
{
    broadcast use group_multiset_axioms;
    broadcast use vstd::seq_lib::lemma_multiset_commutative;

    assert(concat_all(parts) == concat_all(parts.drop_last()) + parts.last());
    if j == parts.len() - 1 {
        assert(parts.remove(j) =~= parts.drop_last());
        assert(concat_all(parts).to_multiset() =~= concat_all(parts.drop_last()).to_multiset().add(
            parts[j].to_multiset(),
        ));
    } else {
        let q = parts.remove(j);
        assert(q.drop_last() =~= parts.drop_last().remove(j));
        assert(concat_all(q) == concat_all(q.drop_last()) + q.last());
        lemma_concat_all_multiset_remove(parts.drop_last(), j);
        assert(concat_all(parts).to_multiset() =~= concat_all(q).to_multiset().add(
            parts[j].to_multiset(),
        ));
    }
}

/// Two sequences of parts with the same multiset concatenate to the same
/// multiset of characters: a permutation moves the parts but neither adds
/// nor loses a character.
proof fn lemma_concat_all_multiset_perm(a: Seq<Seq<char>>, b: Seq<Seq<char>>)
    requires
        a.to_multiset() == b.to_multiset(),
    ensures
        concat_all(a).to_multiset() == concat_all(b).to_multiset(),
    decreases a.len(),
{
    broadcast use group_to_multiset_ensures;
    broadcast use group_multiset_axioms;

    if a.len() == 0 {
        assert(a.to_multiset().len() == a.len());
        assert(b.to_multiset().len() == b.len());
        assert(b.len() == 0);
        assert(a =~= b);
    } else {
        let i = a.len() - 1;
        let x = a[i];
        assert(a.contains(x));
        assert(b.to_multiset().count(x) > 0);
        assert(b.contains(x));
        let j = choose|j: int| 0 <= j < b.len() && b[j] == x;
        assert(a.remove(i).to_multiset() == a.to_multiset().remove(x));
        assert(b.remove(j).to_multiset() == b.to_multiset().remove(x));
        lemma_concat_all_multiset_perm(a.remove(i), b.remove(j));
        lemma_concat_all_multiset_remove(a, i);
        lemma_concat_all_multiset_remove(b, j);
        assert(concat_all(a).to_multiset() =~= concat_all(b).to_multiset());
    }
}

/// Permutes the grapheme clusters uniformly at random: each step draws one
/// of the remaining clusters without replacement. The output holds exactly
/// the clusters of the input, as a multiset.
pub fn shuffle_graphemes(v: Vec<String>) -> (out: Vec<String>)
    ensures
        views_of(out@).to_multiset() == views_of(v@).to_multiset(),
        out@.len() == v@.len(),
{
    broadcast use group_to_multiset_ensures;
    broadcast use group_multiset_axioms;

    let ghost all = views_of(v@);
    let mut rest = v;
    let mut out: Vec<String> = Vec::new();
    proof {
        assert(views_of(out@) =~= Seq::<Seq<char>>::empty());
        assert(views_of(out@).to_multiset().add(views_of(rest@).to_multiset()) =~= all.to_multiset());
    }
    while rest.len() > 0
        invariant
            views_of(out@).to_multiset().add(views_of(rest@).to_multiset()) == all.to_multiset(),
            out@.len() + rest@.len() == all.len(),
        decreases rest@.len(),
    {
        let ghost prev_rest = rest@;
        let ghost prev_out = out@;
        let j = rand_below(rest.len());
        let g = rest.swap_remove(j);
        out.push(g);
        proof {
            broadcast use group_to_multiset_ensures;
            broadcast use group_multiset_axioms;

            let rv = views_of(prev_rest);
            let u = rv.update(j as int, rv.last());
            assert(views_of(rest@) =~= u.drop_last());
            assert(u.drop_last() =~= u.remove(u.len() - 1));
            assert(u.to_multiset() == rv.to_multiset().insert(rv.last()).remove(rv[j as int]));
            assert(u[u.len() - 1] == rv.last());
            assert(u.remove(u.len() - 1).to_multiset() == u.to_multiset().remove(rv.last()));
            assert(rv.to_multiset().count(rv[j as int]) > 0);
            assert(views_of(rest@).to_multiset() =~= rv.to_multiset().remove(rv[j as int]));
            assert(views_of(out@) =~= views_of(prev_out).push(rv[j as int]));
            assert(views_of(out@).to_multiset() == views_of(prev_out).to_multiset().insert(
                rv[j as int],
            ));
            assert(views_of(out@).to_multiset().add(views_of(rest@).to_multiset())
                =~= views_of(prev_out).to_multiset().add(rv.to_multiset()));
        }
    }
    proof {
        assert(views_of(rest@) =~= Seq::<Seq<char>>::empty());
        assert(views_of(out@).to_multiset() =~= all.to_multiset());
        assert(out@.len() == all.len());
    }
    out
}

/// Concatenates the clusters in their current order, with no separators.
pub fn join_graphemes(parts: &Vec<String>) -> (r: String)
    ensures
        r@ == concat_all(views_of(parts@)),
{
    let mut r = String::new();
    let mut i: usize = 0;
    while i < parts.len()
        invariant
            i <= parts@.len(),
            r@ == concat_all(views_of(parts@).take(i as int)),
        decreases parts@.len() - i,
    {
        r.append(parts[i].as_str());
        proof {
            let vs = views_of(parts@);
            assert(vs.take(i + 1).drop_last() =~= vs.take(i as int));
            assert(vs.take(i + 1).last() == vs[i as int]);
            assert(r@ == concat_all(vs.take(i + 1)));
        }
        i = i + 1;
    }
    proof {
        assert(views_of(parts@).take(parts@.len() as int) =~= views_of(parts@));
    }
    r
}

/// Returns a uniformly random permutation of the input's grapheme
/// clusters: the output is the concatenation of a rearrangement of the
/// clusters of the input, and so holds exactly the characters of the
/// input, as a multiset.
pub fn shuffle_str(s: &str) -> (r: String)
    ensures
        r@.len() == s@.len(),
        r@.to_multiset() == s@.to_multiset(),
        concat_all(grapheme_split(s@)) == s@,
        exists|p: Seq<Seq<char>>|
            p.to_multiset() == grapheme_split(s@).to_multiset() && r@ == concat_all(p),
{
    let parts = split_graphemes(s);
    let shuffled = shuffle_graphemes(parts);
    let r = join_graphemes(&shuffled);
    proof {
        broadcast use group_to_multiset_ensures;

        let p = views_of(shuffled@);
        assert(p.to_multiset() == grapheme_split(s@).to_multiset());
        assert(r@ == concat_all(p));
        lemma_concat_all_multiset_perm(p, grapheme_split(s@));
        assert(r@.to_multiset() == s@.to_multiset());
        assert(r@.to_multiset().len() == r@.len());
        assert(s@.to_multiset().len() == s@.len());
    }
    r
}

} // verus!
