//! Text analysis for Tamil words, one grapheme cluster at a time: entity
//! classification, word validation, edit distance between words, nearest
//! candidate search, rule-based transliteration and entity deduplication.

pub mod classify;
pub mod count;
pub mod dedup;
pub mod distance;
pub mod nearest;
pub mod order;
pub mod rules;
pub mod segment;
pub mod transliterate;
pub mod word;

pub use crate::classify::{
    classify, is_consonant, is_mark, is_marked_consonant, is_tamil_entity, is_vowel,
    EntityCategory,
};
pub use crate::count::{count_entities, nb_valid_tamil_entities};
pub use crate::dedup::{join_entities, sorted_unique, unique_sorted_entities};
pub use crate::distance::{dist_entities, dist_word};
pub use crate::nearest::{dist_word_to_wordlist, nearest_entities};
pub use crate::rules::RuleMap;
pub use crate::transliterate::{transliterate_entities, unigram_auto};
pub use crate::word::is_tamil_word;
