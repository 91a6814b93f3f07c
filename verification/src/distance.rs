//! Edit distance between two words, counted in grapheme clusters.

use crate::segment::{grapheme_clusters, segment, texts};
use vstd::prelude::*;

verus! {

/// The least of three numbers.
pub open spec fn min3(x: nat, y: nat, z: nat) -> nat {
    if x <= y && x <= z {
        x
    } else if y <= z {
        y
    } else {
        z
    }
}

/// What it costs to put `y` where `x` stands.
pub open spec fn replace_cost<T>(x: T, y: T) -> nat {
    if x == y {
        0
    } else {
        1
    }
}

/// The least number of insertions, deletions and replacements of single
/// items that turn `a` into `b`.
pub open spec fn edit_distance<T>(a: Seq<T>, b: Seq<T>) -> nat
    decreases a.len() + b.len(),
{
    if a.len() == 0 {
        b.len()
    } else if b.len() == 0 {
        a.len()
    } else {
        min3(
            edit_distance(a.drop_last(), b.drop_last()) + replace_cost(a.last(), b.last()),
            edit_distance(a.drop_last(), b) + 1,
            edit_distance(a, b.drop_last()) + 1,
        )
    }
}

/// The distance between two words, each read as its sequence of clusters.
pub open spec fn word_distance(word1: Seq<char>, word2: Seq<char>) -> nat {
    edit_distance(grapheme_clusters(word1), grapheme_clusters(word2))
}

/// The distance lies between the difference of the two lengths and the
/// greater of them.
pub proof fn lemma_distance_bounds<T>(a: Seq<T>, b: Seq<T>)
    ensures
        edit_distance(a, b) >= a.len() - b.len(),
        edit_distance(a, b) >= b.len() - a.len(),
        edit_distance(a, b) <= a.len() || edit_distance(a, b) <= b.len(),
    decreases a.len() + b.len(),
{
    if a.len() > 0 && b.len() > 0 {
        lemma_distance_bounds(a.drop_last(), b.drop_last());
        lemma_distance_bounds(a.drop_last(), b);
        lemma_distance_bounds(a, b.drop_last());
    }
}

/// One more item at the end of either sequence moves the distance up by at
/// most one.
proof fn lemma_distance_push<T>(a: Seq<T>, b: Seq<T>, x: T)
    ensures
        edit_distance(a.push(x), b) <= edit_distance(a, b) + 1,
        edit_distance(a, b.push(x)) <= edit_distance(a, b) + 1,
    decreases a.len() + b.len(),
{
    assert(a.push(x).drop_last() =~= a);
    assert(b.push(x).drop_last() =~= b);
    if b.len() == 0 {
        lemma_distance_bounds(a, b);
    }
    if a.len() == 0 {
        lemma_distance_bounds(a, b);
    }
}

/// The distance does not depend on which of the two sequences comes first.
pub proof fn lemma_distance_symmetric<T>(a: Seq<T>, b: Seq<T>)
    ensures
        edit_distance(a, b) == edit_distance(b, a),
    decreases a.len() + b.len(),
{
    if a.len() > 0 && b.len() > 0 {
        lemma_distance_symmetric(a.drop_last(), b.drop_last());
        lemma_distance_symmetric(a.drop_last(), b);
        lemma_distance_symmetric(a, b.drop_last());
    }
}

/// The distance is zero for equal sequences and for no others.
pub proof fn lemma_distance_zero<T>(a: Seq<T>, b: Seq<T>)
    ensures
        edit_distance(a, b) == 0 <==> a == b,
    decreases a.len() + b.len(),
{
    if a.len() > 0 && b.len() > 0 {
        lemma_distance_zero(a.drop_last(), b.drop_last());
        if a.drop_last() == b.drop_last() && a.last() == b.last() {
            assert(a =~= a.drop_last().push(a.last()));
            assert(b =~= b.drop_last().push(b.last()));
        }
    } else if a.len() == 0 && b.len() == 0 {
        assert(a =~= b);
    }
}

/// Going from `a` to `c` by way of `b` is never shorter than going straight.
pub proof fn lemma_distance_triangle<T>(a: Seq<T>, b: Seq<T>, c: Seq<T>)
    ensures
        edit_distance(a, c) <= edit_distance(a, b) + edit_distance(b, c),
    decreases a.len() + b.len() + c.len(),
{
    if a.len() == 0 || c.len() == 0 || b.len() == 0 {
        lemma_distance_bounds(a, b);
        lemma_distance_bounds(b, c);
        lemma_distance_bounds(a, c);
    } else {
        let a1 = a.drop_last();
        let b1 = b.drop_last();
        let c1 = c.drop_last();
        let ab = edit_distance(a, b);
        let bc = edit_distance(b, c);
        if ab == edit_distance(a1, b) + 1 {
            lemma_distance_triangle(a1, b, c);
            lemma_distance_push(a1, c, a.last());
        } else if bc == edit_distance(b, c1) + 1 {
            lemma_distance_triangle(a, b, c1);
            lemma_distance_push(a, c1, c.last());
        } else if ab == edit_distance(a, b1) + 1 {
            if bc == edit_distance(b1, c) + 1 {
                lemma_distance_triangle(a, b1, c);
            } else {
                lemma_distance_triangle(a, b1, c1);
                lemma_distance_push(a, c1, c.last());
            }
        } else {
            if bc == edit_distance(b1, c) + 1 {
                lemma_distance_triangle(a1, b1, c);
                lemma_distance_push(a1, c, a.last());
            } else {
                lemma_distance_triangle(a1, b1, c1);
            }
        }
    }
}

/// Calls `strsim::generic_levenshtein` on the two sequences, whose items it
/// compares as strings. The contract claims that it returns the edit
/// distance: its row-by-row table fills in the recurrence that
/// `edit_distance` writes down.
#[verifier::external_body]
fn levenshtein(a: &Vec<String>, b: &Vec<String>) -> (d: usize)
    ensures
        d == edit_distance(texts(a@), texts(b@)),
{
    strsim::generic_levenshtein(a, b)
}

/// The edit distance between two words that are already cut into clusters.
pub fn dist_entities(ents1: &Vec<String>, ents2: &Vec<String>) -> (d: usize)
    ensures
        d == edit_distance(texts(ents1@), texts(ents2@)),
        d <= ents1.len() || d <= ents2.len(),
{
    proof {
        lemma_distance_bounds(texts(ents1@), texts(ents2@));
    }
    levenshtein(ents1, ents2)
}

/// The edit distance between two words, where one step inserts, deletes or
/// replaces a whole grapheme cluster. The words are taken as they come:
/// clusters that are no Tamil entities count like any others.
pub fn dist_word(word1: &str, word2: &str) -> (d: usize)
    ensures
        d == word_distance(word1@, word2@),
        d == 0 <==> word1@ == word2@,
{
    let ents1 = segment(word1);
    let ents2 = segment(word2);
    proof {
        lemma_distance_zero(texts(ents1@), texts(ents2@));
    }
    dist_entities(&ents1, &ents2)
}

/// The distance between two words is the same in both directions.
pub proof fn lemma_word_distance_symmetric(word1: Seq<char>, word2: Seq<char>)
    ensures
        word_distance(word1, word2) == word_distance(word2, word1),
{
    lemma_distance_symmetric(grapheme_clusters(word1), grapheme_clusters(word2));
}

/// The distance between two words is zero exactly when both are cut into the
/// same clusters; so it is zero between a word and itself.
pub proof fn lemma_word_distance_zero(word1: Seq<char>, word2: Seq<char>)
    ensures
        word_distance(word1, word2) == 0 <==> grapheme_clusters(word1) == grapheme_clusters(word2),
        word_distance(word1, word1) == 0,
{
    lemma_distance_zero(grapheme_clusters(word1), grapheme_clusters(word2));
    lemma_distance_zero(grapheme_clusters(word1), grapheme_clusters(word1));
}

/// The distance between two words is at most the sum of their distances to
/// a third.
pub proof fn lemma_word_distance_triangle(word1: Seq<char>, word2: Seq<char>, word3: Seq<char>)
    ensures
        word_distance(word1, word3) <= word_distance(word1, word2) + word_distance(word2, word3),
{
    lemma_distance_triangle(
        grapheme_clusters(word1),
        grapheme_clusters(word2),
        grapheme_clusters(word3),
    );
}

} // verus!
