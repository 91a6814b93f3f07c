//! Classification of a single grapheme cluster by the fixed letter inventory.

use vstd::prelude::*;
use vstd::string::StrSliceExecFns;

verus! {

/// The category of a grapheme cluster.
#[derive(Clone, Copy, Debug, PartialEq, Eq, Structural)]
pub enum EntityCategory {
    Vowel,
    Consonant,
    MarkedConsonant,
    Mark,
    Invalid,
}

/// The twelve independent vowel letters and the aytham.
pub open spec fn vowel_char(c: char) -> bool {
    ||| c == '\u{0B83}'
    ||| '\u{0B85}' <= c <= '\u{0B8A}'
    ||| '\u{0B8E}' <= c <= '\u{0B90}'
    ||| '\u{0B92}' <= c <= '\u{0B94}'
}

/// The base consonant letters, the four grantha letters among them.
pub open spec fn consonant_char(c: char) -> bool {
    ||| c == '\u{0B95}'
    ||| '\u{0B99}' <= c <= '\u{0B9A}'
    ||| c == '\u{0B9C}'
    ||| '\u{0B9E}' <= c <= '\u{0B9F}'
    ||| '\u{0BA3}' <= c <= '\u{0BA4}'
    ||| '\u{0BA8}' <= c <= '\u{0BAA}'
    ||| '\u{0BAE}' <= c <= '\u{0BB5}'
    ||| '\u{0BB7}' <= c <= '\u{0BB9}'
}

/// The vowel signs, the pulli, and the space that stands in for a sign.
pub open spec fn mark_char(c: char) -> bool {
    ||| c == ' '
    ||| '\u{0BBE}' <= c <= '\u{0BC2}'
    ||| '\u{0BC6}' <= c <= '\u{0BC8}'
    ||| '\u{0BCA}' <= c <= '\u{0BCD}'
}

/// The conjunct `sa, pulli, ra`, counted as one consonant.
pub open spec fn conjunct_sra() -> Seq<char> {
    seq!['\u{0BB8}', '\u{0BCD}', '\u{0BB0}']
}

/// The conjunct `ka, pulli, ssa`, counted as one consonant.
pub open spec fn conjunct_ksha() -> Seq<char> {
    seq!['\u{0B95}', '\u{0BCD}', '\u{0BB7}']
}

/// The cluster is one vowel letter.
pub open spec fn vowel(g: Seq<char>) -> bool {
    g.len() == 1 && vowel_char(g[0])
}

/// The cluster is one consonant letter or one of the two conjuncts.
pub open spec fn consonant(g: Seq<char>) -> bool {
    ||| g.len() == 1 && consonant_char(g[0])
    ||| g == conjunct_sra()
    ||| g == conjunct_ksha()
}

/// The cluster is one mark.
pub open spec fn mark(g: Seq<char>) -> bool {
    g.len() == 1 && mark_char(g[0])
}

/// A cluster that opens with a consonant letter and closes with a mark.
/// Whatever stands between the two is not looked at.
pub open spec fn marked_consonant(g: Seq<char>) -> bool {
    g.len() >= 1 && consonant_char(g.first()) && mark_char(g.last())
}

/// The clusters that count as entities of a word. A mark alone is none.
pub open spec fn entity(g: Seq<char>) -> bool {
    vowel(g) || consonant(g) || marked_consonant(g)
}

/// The category of a cluster. The four valid categories exclude each other,
/// so the order of the tests decides nothing.
pub open spec fn category(g: Seq<char>) -> EntityCategory {
    if vowel(g) {
        EntityCategory::Vowel
    } else if consonant(g) {
        EntityCategory::Consonant
    } else if mark(g) {
        EntityCategory::Mark
    } else if marked_consonant(g) {
        EntityCategory::MarkedConsonant
    } else {
        EntityCategory::Invalid
    }
}

/// Tests a character against the vowel letters.
fn is_vowel_char(c: char) -> (b: bool)
    ensures
        b == vowel_char(c),
{
    c == '\u{0B83}' || ('\u{0B85}' <= c && c <= '\u{0B8A}') || ('\u{0B8E}' <= c && c <= '\u{0B90}')
        || ('\u{0B92}' <= c && c <= '\u{0B94}')
}

/// Tests a character against the consonant letters.
fn is_consonant_char(c: char) -> (b: bool)
    ensures
        b == consonant_char(c),
{
    c == '\u{0B95}' || ('\u{0B99}' <= c && c <= '\u{0B9A}') || c == '\u{0B9C}' || ('\u{0B9E}' <= c
        && c <= '\u{0B9F}') || ('\u{0BA3}' <= c && c <= '\u{0BA4}') || ('\u{0BA8}' <= c && c
        <= '\u{0BAA}') || ('\u{0BAE}' <= c && c <= '\u{0BB5}') || ('\u{0BB7}' <= c && c
        <= '\u{0BB9}')
}

/// Tests a character against the marks.
fn is_mark_char(c: char) -> (b: bool)
    ensures
        b == mark_char(c),
{
    c == ' ' || ('\u{0BBE}' <= c && c <= '\u{0BC2}') || ('\u{0BC6}' <= c && c <= '\u{0BC8}') || (
    '\u{0BCA}' <= c && c <= '\u{0BCD}')
}

/// Whether `c` is exactly one vowel letter.
pub fn is_vowel(c: &str) -> (b: bool)
    ensures
        b == vowel(c@),
{
    let n: usize = c.unicode_len();
    n == 1 && is_vowel_char(c.get_char(0))
}

/// Whether `c` is exactly one consonant letter or one of the two conjuncts.
pub fn is_consonant(c: &str) -> (b: bool)
    ensures
        b == consonant(c@),
{
    let n: usize = c.unicode_len();
    if n == 1 {
        is_consonant_char(c.get_char(0))
    } else if n == 3 {
        let c0: char = c.get_char(0);
        let c1: char = c.get_char(1);
        let c2: char = c.get_char(2);
        let sra: bool = c0 == '\u{0BB8}' && c1 == '\u{0BCD}' && c2 == '\u{0BB0}';
        let ksha: bool = c0 == '\u{0B95}' && c1 == '\u{0BCD}' && c2 == '\u{0BB7}';
        assert(sra == (c@ =~= conjunct_sra()));
        assert(ksha == (c@ =~= conjunct_ksha()));
        sra || ksha
    } else {
        false
    }
}

/// Whether `c` is exactly one mark.
pub fn is_mark(c: &str) -> (b: bool)
    ensures
        b == mark(c@),
{
    let n: usize = c.unicode_len();
    n == 1 && is_mark_char(c.get_char(0))
}

/// Whether `en` opens with a consonant letter and closes with a mark.
pub fn is_marked_consonant(en: &str) -> (b: bool)
    ensures
        b == marked_consonant(en@),
{
    let n: usize = en.unicode_len();
    n >= 1 && is_consonant_char(en.get_char(0)) && is_mark_char(en.get_char(n - 1))
}

/// Whether `e` is a vowel, a consonant or a marked consonant.
pub fn is_tamil_entity(e: &str) -> (b: bool)
    ensures
        b == entity(e@),
{
    is_vowel(e) || is_consonant(e) || is_marked_consonant(e)
}

/// The category of the cluster `g`.
pub fn classify(g: &str) -> (cat: EntityCategory)
    ensures
        cat == category(g@),
{
    if is_vowel(g) {
        EntityCategory::Vowel
    } else if is_consonant(g) {
        EntityCategory::Consonant
    } else if is_mark(g) {
        EntityCategory::Mark
    } else if is_marked_consonant(g) {
        EntityCategory::MarkedConsonant
    } else {
        EntityCategory::Invalid
    }
}

/// No cluster falls under two of the four valid categories, and a cluster is
/// an entity exactly when its category is one of the three that count.
pub proof fn lemma_categories_disjoint(g: Seq<char>)
    ensures
        !(vowel(g) && consonant(g)),
        !(vowel(g) && mark(g)),
        !(vowel(g) && marked_consonant(g)),
        !(consonant(g) && mark(g)),
        !(consonant(g) && marked_consonant(g)),
        !(mark(g) && marked_consonant(g)),
        entity(g) <==> (category(g) == EntityCategory::Vowel || category(g)
            == EntityCategory::Consonant || category(g) == EntityCategory::MarkedConsonant),
{
}

} // verus!
