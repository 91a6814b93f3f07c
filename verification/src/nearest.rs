//! The least distance from a word to the words of a list.

use crate::distance::{
    dist_entities, edit_distance, lemma_distance_bounds, lemma_distance_zero, word_distance,
};
use crate::segment::{grapheme_clusters, segment, texts};
use vstd::prelude::*;

verus! {

/// What the search returns when the list holds no word: no distance, but the
/// sign that nothing was found.
pub open spec fn no_candidate() -> usize {
    usize::MAX
}

/// The least edit distance from `query` to one of `candidates`, all of them
/// already cut into clusters. For an empty list the result is
/// `no_candidate()`.
pub fn nearest_entities(query: &Vec<String>, candidates: &Vec<Vec<String>>) -> (best: usize)
    ensures
        candidates.len() == 0 ==> best == no_candidate(),
        forall|i: int|
            0 <= i < candidates.len() ==> best <= #[trigger] edit_distance(
                texts(query@),
                texts(candidates[i]@),
            ),
        candidates.len() > 0 ==> exists|i: int|
            0 <= i < candidates.len() && best == #[trigger] edit_distance(
                texts(query@),
                texts(candidates[i]@),
            ),
{
    let mut best: usize = usize::MAX;
    let mut k: usize = 0;
    while k < candidates.len()
        invariant
            k <= candidates.len(),
            k == 0 ==> best == usize::MAX,
            forall|i: int|
                0 <= i < k ==> best <= #[trigger] edit_distance(
                    texts(query@),
                    texts(candidates[i]@),
                ),
            k > 0 ==> exists|i: int|
                0 <= i < k && best == #[trigger] edit_distance(
                    texts(query@),
                    texts(candidates[i]@),
                ),
        decreases candidates.len() - k,
    {
        let d: usize = dist_entities(query, &candidates[k]);
        if d < best {
            best = d;
        }
        k = k + 1;
    }
    best
}

/// The least distance from `word` to a word of `wordlist`, and
/// `no_candidate()` for an empty list. Which word lies nearest is not told.
/// A list that holds `word` itself gives zero.
pub fn dist_word_to_wordlist(word: &str, wordlist: &Vec<String>) -> (best: usize)
    ensures
        wordlist.len() == 0 ==> best == no_candidate(),
        forall|i: int|
            0 <= i < wordlist.len() ==> best <= #[trigger] word_distance(word@, wordlist[i]@),
        wordlist.len() > 0 ==> exists|i: int|
            0 <= i < wordlist.len() && best == #[trigger] word_distance(word@, wordlist[i]@),
        forall|i: int|
            0 <= i < wordlist.len() ==> best <= grapheme_clusters(word@).len() || best
                <= (#[trigger] grapheme_clusters(wordlist[i]@)).len(),
        (exists|i: int| 0 <= i < wordlist.len() && (#[trigger] wordlist[i])@ == word@) ==> best
            == 0,
{
    let query = segment(word);
    let mut best: usize = usize::MAX;
    let mut k: usize = 0;
    while k < wordlist.len()
        invariant
            k <= wordlist.len(),
            texts(query@) == grapheme_clusters(word@),
            k == 0 ==> best == usize::MAX,
            forall|i: int|
                0 <= i < k ==> best <= #[trigger] word_distance(word@, wordlist[i]@),
            k > 0 ==> exists|i: int|
                0 <= i < k && best == #[trigger] word_distance(word@, wordlist[i]@),
        decreases wordlist.len() - k,
    {
        let candidate = segment(wordlist[k].as_str());
        let d: usize = dist_entities(&query, &candidate);
        assert(d == word_distance(word@, wordlist[k as int]@));
        if d < best {
            best = d;
        }
        k = k + 1;
    }
    proof {
        assert forall|i: int| 0 <= i < wordlist.len() implies best <= grapheme_clusters(
            word@,
        ).len() || best <= (#[trigger] grapheme_clusters(wordlist[i]@)).len() by {
            lemma_distance_bounds(grapheme_clusters(word@), grapheme_clusters(wordlist[i]@));
            assert(best <= word_distance(word@, wordlist[i]@));
        }
        if exists|i: int| 0 <= i < wordlist.len() && (#[trigger] wordlist[i])@ == word@ {
            let j = choose|i: int| 0 <= i < wordlist.len() && (#[trigger] wordlist[i])@ == word@;
            lemma_distance_zero(grapheme_clusters(word@), grapheme_clusters(wordlist[j]@));
            assert(best <= word_distance(word@, wordlist[j]@));
        }
    }
    best
}

} // verus!
