//! Counting the entities of a string that holds nothing else.

use crate::classify::{
    conjunct_ksha, conjunct_sra, consonant_char, entity, is_tamil_entity, mark_char,
    marked_consonant, vowel_char,
};
use crate::segment::{cuts, grapheme_clusters, segment, texts};
use crate::word::{
    all_well_placed, lemma_well_placed_concat, lemma_word_by_characters, script_letter,
    tamil_word, well_placed,
};
use vstd::prelude::*;

verus! {

/// Each of the clusters is an entity.
pub open spec fn all_entities(parts: Seq<Seq<char>>) -> bool {
    forall|i: int| 0 <= i < parts.len() ==> entity(#[trigger] parts[i])
}

/// The number of clusters where each is an entity, and zero where one is
/// not. An empty sequence gives zero as well.
pub open spec fn entity_count(parts: Seq<Seq<char>>) -> nat {
    if all_entities(parts) {
        parts.len()
    } else {
        0
    }
}

/// Each cluster that counts as a marked consonant is a consonant with one
/// mark, and that mark is no space.
pub open spec fn singly_marked(parts: Seq<Seq<char>>) -> bool {
    forall|i: int|
        0 <= i < parts.len() && marked_consonant(#[trigger] parts[i]) ==> parts[i].len() == 2
            && parts[i][1] != ' '
}

/// Where a text is cut into entities, and none of them carries a space or
/// more than one mark, the text is a word.
pub proof fn lemma_entities_spell_word(parts: Seq<Seq<char>>, text: Seq<char>)
    requires
        parts.flatten() == text,
        all_entities(parts),
        singly_marked(parts),
    ensures
        tamil_word(text),
    decreases parts.len(),
{
    lemma_word_by_characters(text);
    if parts.len() > 0 {
        let front = parts.drop_last();
        let g = parts.last();
        assert(parts =~= front.push(g));
        front.lemma_flatten_push(g);
        assert forall|i: int| 0 <= i < front.len() implies entity(#[trigger] front[i]) && (
        marked_consonant(front[i]) ==> front[i].len() == 2 && front[i][1] != ' ') by {}
        lemma_entities_spell_word(front, front.flatten());
        lemma_word_by_characters(front.flatten());
        assert(all_well_placed(g)) by {
            assert forall|i: int| 0 <= i < g.len() implies well_placed(g, i) by {}
        }
        lemma_well_placed_concat(front.flatten(), g);
    }
}

/// Each character is one that the classifier knows: a vowel letter, a
/// consonant letter or a mark.
pub open spec fn known_characters(text: Seq<char>) -> bool {
    forall|k: int|
        0 <= k < text.len() ==> vowel_char(#[trigger] text[k]) || consonant_char(text[k])
            || mark_char(text[k])
}

/// Each cluster opens with a letter of the script and holds no letter after
/// it, and a vowel letter stands alone.
pub open spec fn letter_led(parts: Seq<Seq<char>>) -> bool {
    forall|i: int|
        0 <= i < parts.len() ==> {
            &&& script_letter((#[trigger] parts[i])[0])
            &&& forall|j: int| 0 < j < parts[i].len() ==> !script_letter(#[trigger] parts[i][j])
            &&& vowel_char(parts[i][0]) ==> parts[i].len() == 1
        }
}

/// Where a word of known characters is cut into clusters that are led by
/// their letters, each cluster is an entity, and a consonant with one mark
/// where it is a marked consonant.
pub proof fn lemma_word_is_entities(parts: Seq<Seq<char>>, text: Seq<char>)
    requires
        cuts(parts, text),
        tamil_word(text),
        known_characters(text),
        letter_led(parts),
    ensures
        all_entities(parts),
        singly_marked(parts),
    decreases parts.len(),
{
    lemma_word_by_characters(text);
    if parts.len() > 0 {
        let front = parts.drop_last();
        let g = parts.last();
        let head = front.flatten();
        assert(parts =~= front.push(g));
        front.lemma_flatten_push(g);
        assert forall|i: int| 0 <= i < front.len() implies (#[trigger] front[i]).len() > 0 by {}
        assert(letter_led(front)) by {
            assert forall|i: int| 0 <= i < front.len() implies {
                &&& script_letter((#[trigger] front[i])[0])
                &&& forall|j: int|
                    0 < j < front[i].len() ==> !script_letter(#[trigger] front[i][j])
                &&& vowel_char(front[i][0]) ==> front[i].len() == 1
            } by {}
        }
        assert(all_well_placed(head)) by {
            assert forall|k: int| 0 <= k < head.len() implies well_placed(head, k) by {
                assert(well_placed(text, k));
            }
        }
        assert(known_characters(head)) by {
            assert forall|k: int| 0 <= k < head.len() implies vowel_char(#[trigger] head[k])
                || consonant_char(head[k]) || mark_char(head[k]) by {
                assert(head[k] == text[k]);
            }
        }
        lemma_word_by_characters(head);
        lemma_word_is_entities(front, head);
        let off = head.len() as int;
        assert forall|j: int| 0 <= j < g.len() implies g[j] == text[off + j] && well_placed(
            text,
            off + j,
        ) && (vowel_char(g[j]) || consonant_char(g[j]) || mark_char(g[j])) by {}
        if g.len() > 2 {
            assert(well_placed(text, off + 2));
        }
        assert forall|i: int| 0 <= i < parts.len() implies entity(#[trigger] parts[i]) by {}
        assert forall|i: int|
            0 <= i < parts.len() && marked_consonant(#[trigger] parts[i]) implies parts[i].len()
            == 2 && parts[i][1] != ' ' by {}
    }
}

/// How many entities `ents` holds, where it holds nothing else; zero where
/// one of its strings is no entity.
pub fn count_entities(ents: &Vec<String>) -> (n: usize)
    ensures
        n == entity_count(texts(ents@)),
{
    let mut k: usize = 0;
    while k < ents.len()
        invariant
            k <= ents.len(),
            forall|i: int| 0 <= i < k ==> entity(#[trigger] texts(ents@)[i]),
        decreases ents.len() - k,
    {
        if !is_tamil_entity(ents[k].as_str()) {
            assert(!entity(texts(ents@)[k as int]));
            return 0;
        }
        k = k + 1;
    }
    ents.len()
}

/// The number of grapheme clusters of `string`, where each of them is a
/// vowel, a consonant or a marked consonant. A string that holds anything
/// else gives zero, and so does the empty string.
pub fn nb_valid_tamil_entities(string: &str) -> (n: usize)
    ensures
        n == entity_count(grapheme_clusters(string@)),
        n > 0 <==> string@.len() > 0 && all_entities(grapheme_clusters(string@)),
        n > 0 && singly_marked(grapheme_clusters(string@)) ==> tamil_word(string@),
        string@.len() > 0 && tamil_word(string@) && known_characters(string@) && letter_led(
            grapheme_clusters(string@),
        ) ==> n > 0,
{
    let ents = segment(string);
    proof {
        let parts = texts(ents@);
        if all_entities(parts) && singly_marked(parts) {
            lemma_entities_spell_word(parts, string@);
        }
        if tamil_word(string@) && known_characters(string@) && letter_led(parts) {
            lemma_word_is_entities(parts, string@);
        }
    }
    count_entities(&ents)
}

} // verus!
