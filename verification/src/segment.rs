//! Segmentation of a string into extended grapheme clusters.

use unicode_segmentation::UnicodeSegmentation;
use vstd::prelude::*;

verus! {

/// The extended grapheme clusters of a text, from left to right.
pub uninterp spec fn grapheme_clusters(text: Seq<char>) -> Seq<Seq<char>>;

/// The texts that a sequence of strings holds.
pub open spec fn texts(ents: Seq<String>) -> Seq<Seq<char>> {
    ents.map_values(|e: String| e@)
}

/// `parts` cuts `text` into pieces: none is empty, and read one after the
/// other they spell `text`.
pub open spec fn cuts(parts: Seq<Seq<char>>, text: Seq<char>) -> bool {
    &&& parts.flatten() == text
    &&& forall|i: int| 0 <= i < parts.len() ==> (#[trigger] parts[i]).len() > 0
}

/// Calls `UnicodeSegmentation::graphemes` with extended clusters switched on,
/// and copies each cluster into a `String`. The contract names the sequence
/// of clusters, and claims of it what the iterator's `next` shows: each
/// cluster is the non-empty slice between one boundary and the next, the
/// first starts where the text starts and the last ends where it ends.
#[verifier::external_body]
fn graphemes(s: &str) -> (ents: Vec<String>)
    ensures
        texts(ents@) == grapheme_clusters(s@),
        cuts(texts(ents@), s@),
{
    s.graphemes(true).map(|g| g.to_string()).collect()
}

/// The extended grapheme clusters of `word`, from left to right. Every
/// string can be cut, the empty one into no cluster at all; no cluster is
/// empty, and together they spell `word`.
pub fn segment(word: &str) -> (ents: Vec<String>)
    ensures
        texts(ents@) == grapheme_clusters(word@),
        cuts(texts(ents@), word@),
        ents.len() <= word@.len(),
        ents.len() == 0 <==> word@.len() == 0,
{
    let ents = graphemes(word);
    proof {
        lemma_cuts_length(texts(ents@), word@);
    }
    ents
}

/// A text has no more pieces than characters, and no piece only if it has
/// no character.
pub proof fn lemma_cuts_length(parts: Seq<Seq<char>>, text: Seq<char>)
    requires
        cuts(parts, text),
    ensures
        parts.len() <= text.len(),
        parts.len() == 0 <==> text.len() == 0,
    decreases parts.len(),
{
    if parts.len() > 0 {
        let front = parts.drop_last();
        assert(parts =~= front.push(parts.last()));
        front.lemma_flatten_push(parts.last());
        assert forall|i: int| 0 <= i < front.len() implies (#[trigger] front[i]).len() > 0 by {}
        lemma_cuts_length(front, front.flatten());
    }
}

} // verus!
