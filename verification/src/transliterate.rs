//! Transliteration of a word, one grapheme cluster at a time.

use crate::rules::RuleMap;
use crate::segment::{grapheme_clusters, segment, texts};
use vstd::prelude::*;
use vstd::string::StringExecFns;

verus! {

/// The table has a rule for each of the clusters.
pub open spec fn all_ruled(parts: Seq<Seq<char>>, table: Map<Seq<char>, Seq<char>>) -> bool {
    forall|i: int| 0 <= i < parts.len() ==> table.contains_key(#[trigger] parts[i])
}

/// Each cluster replaced by what the table gives for it.
pub open spec fn substituted(parts: Seq<Seq<char>>, table: Map<Seq<char>, Seq<char>>) -> Seq<
    Seq<char>,
> {
    parts.map_values(|g: Seq<char>| table[g])
}

/// The substitutes of all clusters in a row, and nothing where the table
/// lacks a rule for one of them.
pub open spec fn transliteration(
    parts: Seq<Seq<char>>,
    table: Map<Seq<char>, Seq<char>>,
) -> Option<Seq<char>> {
    if all_ruled(parts, table) {
        Some(substituted(parts, table).flatten())
    } else {
        None
    }
}

/// What `unigram_auto` hands out for a result: the text itself, and the
/// empty text in place of nothing.
pub open spec fn or_empty(result: Option<Seq<char>>) -> Seq<char> {
    match result {
        Some(text) => text,
        None => Seq::empty(),
    }
}

/// The transliteration of a word that is already cut into clusters: the
/// substitutes in the order of the clusters, or `None` as soon as the table
/// lacks a rule for a cluster.
pub fn transliterate_entities(ents: &Vec<String>, rules: &RuleMap) -> (out: Option<String>)
    ensures
        out is Some <==> all_ruled(texts(ents@), rules@),
        out matches Some(text) ==> Some(text@) == transliteration(texts(ents@), rules@),
{
    let mut res = String::new();
    let mut k: usize = 0;
    while k < ents.len()
        invariant
            k <= ents.len(),
            all_ruled(texts(ents@).take(k as int), rules@),
            res@ == substituted(texts(ents@).take(k as int), rules@).flatten(),
        decreases ents.len() - k,
    {
        let ghost parts = texts(ents@);
        match rules.get(&ents[k]) {
            Some(value) => {
                proof {
                    let done = substituted(parts.take(k as int), rules@);
                    assert(substituted(parts.take(k + 1), rules@) =~= done.push(value@));
                    done.lemma_flatten_push(value@);
                    assert forall|i: int| 0 <= i < k + 1 implies rules@.contains_key(
                        #[trigger] parts.take(k + 1)[i],
                    ) by {}
                }
                res.append(value.as_str());
            },
            None => {
                assert(!rules@.contains_key(parts[k as int]));
                return None;
            },
        }
        k = k + 1;
    }
    assert(texts(ents@).take(k as int) =~= texts(ents@));
    Some(res)
}

/// The transliteration of `word` by the rules of `rules`: each grapheme
/// cluster gives way to the string that the table holds for it. Where the
/// table lacks a rule for one of the clusters the result is the empty
/// string, which an empty word gives too.
pub fn unigram_auto(word: &str, rules: &RuleMap) -> (out: String)
    ensures
        out@ == or_empty(transliteration(grapheme_clusters(word@), rules@)),
        rules@ == Map::<Seq<char>, Seq<char>>::empty() ==> out@ == Seq::<char>::empty(),
        (forall|g: Seq<char>| #[trigger]
            grapheme_clusters(word@).contains(g) ==> rules@.contains_key(g) && rules@[g] == g)
            ==> out@ == word@,
{
    let ents = segment(word);
    let ghost parts = texts(ents@);
    proof {
        if forall|g: Seq<char>| #[trigger]
            parts.contains(g) ==> rules@.contains_key(g) && rules@[g] == g {
            assert forall|i: int| 0 <= i < parts.len() implies rules@.contains_key(
                #[trigger] parts[i],
            ) && rules@[parts[i]] == parts[i] by {
                assert(parts.contains(parts[i]));
            }
            assert(substituted(parts, rules@) =~= parts);
        }
    }
    match transliterate_entities(&ents, rules) {
        Some(text) => text,
        None => String::new(),
    }
}

} // verus!
