//! Words written in Tamil letters alone, each with at most one sign.

use vstd::prelude::*;

verus! {

/// A letter of the Tamil script: a vowel, a consonant, the aytham or the om.
/// These are the characters that Unicode gives the script Tamil and the
/// general category Letter.
pub open spec fn script_letter(c: char) -> bool {
    ||| c == '\u{0B83}'
    ||| '\u{0B85}' <= c <= '\u{0B8A}'
    ||| '\u{0B8E}' <= c <= '\u{0B90}'
    ||| '\u{0B92}' <= c <= '\u{0B95}'
    ||| '\u{0B99}' <= c <= '\u{0B9A}'
    ||| c == '\u{0B9C}'
    ||| '\u{0B9E}' <= c <= '\u{0B9F}'
    ||| '\u{0BA3}' <= c <= '\u{0BA4}'
    ||| '\u{0BA8}' <= c <= '\u{0BAA}'
    ||| '\u{0BAE}' <= c <= '\u{0BB9}'
    ||| c == '\u{0BD0}'
}

/// A combining mark of the Tamil script: the anusvara, a vowel sign, the
/// pulli or the au length mark. These are the characters that Unicode gives
/// the script Tamil and the general category Mark.
pub open spec fn script_mark(c: char) -> bool {
    ||| c == '\u{0B82}'
    ||| '\u{0BBE}' <= c <= '\u{0BC2}'
    ||| '\u{0BC6}' <= c <= '\u{0BC8}'
    ||| '\u{0BCA}' <= c <= '\u{0BCD}'
    ||| c == '\u{0BD7}'
}

/// One letter, alone or followed by one mark.
pub open spec fn letter_unit(u: Seq<char>) -> bool {
    ||| u.len() == 1 && script_letter(u[0])
    ||| u.len() == 2 && script_letter(u[0]) && script_mark(u[1])
}

/// Each item is a letter unit.
pub open spec fn letter_units(units: Seq<Seq<char>>) -> bool {
    forall|i: int| 0 <= i < units.len() ==> letter_unit(#[trigger] units[i])
}

/// A word is any run of letter units, the empty run among them.
pub open spec fn tamil_word(text: Seq<char>) -> bool {
    exists|units: Seq<Seq<char>>| letter_units(units) && #[trigger] units.flatten() == text
}

/// The character at `i` is a letter, or a mark that directly follows one.
pub open spec fn well_placed(text: Seq<char>, i: int) -> bool {
    script_letter(text[i]) || (script_mark(text[i]) && i > 0 && script_letter(text[i - 1]))
}

/// Each character of the text is well placed.
pub open spec fn all_well_placed(text: Seq<char>) -> bool {
    forall|i: int| 0 <= i < text.len() ==> well_placed(text, i)
}

/// The units that a text of well placed characters falls into.
spec fn units_of(text: Seq<char>) -> Seq<Seq<char>>
    decreases text.len(),
{
    if text.len() == 0 {
        Seq::empty()
    } else if script_letter(text.last()) || text.len() == 1 {
        units_of(text.drop_last()).push(seq![text.last()])
    } else {
        units_of(text.subrange(0, text.len() - 2)).push(
            seq![text[text.len() - 2], text[text.len() - 1]],
        )
    }
}

/// Two runs of well placed characters, one after the other, are one such
/// run.
pub proof fn lemma_well_placed_concat(a: Seq<char>, b: Seq<char>)
    requires
        all_well_placed(a),
        all_well_placed(b),
    ensures
        all_well_placed(a + b),
{
    let ab = a + b;
    assert forall|i: int| 0 <= i < ab.len() implies well_placed(ab, i) by {
        if i < a.len() {
            assert(well_placed(a, i));
        } else {
            assert(well_placed(b, i - a.len()));
        }
    }
}

/// In a run of letter units each character is well placed.
proof fn lemma_units_well_placed(units: Seq<Seq<char>>)
    requires
        letter_units(units),
    ensures
        all_well_placed(units.flatten()),
    decreases units.len(),
{
    if units.len() > 0 {
        let front = units.drop_last();
        let u = units.last();
        assert(units =~= front.push(u));
        front.lemma_flatten_push(u);
        assert forall|i: int| 0 <= i < front.len() implies letter_unit(#[trigger] front[i]) by {}
        lemma_units_well_placed(front);
        assert(all_well_placed(u)) by {
            assert forall|i: int| 0 <= i < u.len() implies well_placed(u, i) by {}
        }
        lemma_well_placed_concat(front.flatten(), u);
    }
}

/// A text of well placed characters is the run of its units.
proof fn lemma_units_of(text: Seq<char>)
    requires
        all_well_placed(text),
    ensures
        letter_units(units_of(text)),
        units_of(text).flatten() == text,
    decreases text.len(),
{
    if text.len() > 0 {
        let n = text.len() as int;
        assert(well_placed(text, n - 1));
        let (front, u) = if script_letter(text.last()) || n == 1 {
            (text.drop_last(), seq![text.last()])
        } else {
            (text.subrange(0, n - 2), seq![text[n - 2], text[n - 1]])
        };
        assert forall|i: int| 0 <= i < front.len() implies well_placed(front, i) by {
            assert(well_placed(text, i));
        }
        lemma_units_of(front);
        let units = units_of(front);
        units.lemma_flatten_push(u);
        assert forall|i: int| 0 <= i < units.push(u).len() implies letter_unit(
            #[trigger] units.push(u)[i],
        ) by {}
    }
}

/// A text is a word exactly when each of its characters is well placed.
pub proof fn lemma_word_by_characters(text: Seq<char>)
    ensures
        tamil_word(text) <==> all_well_placed(text),
{
    if tamil_word(text) {
        let units = choose|units: Seq<Seq<char>>|
            letter_units(units) && #[trigger] units.flatten() == text;
        lemma_units_well_placed(units);
    }
    if all_well_placed(text) {
        lemma_units_of(text);
    }
}

/// Letters of the script, each alone or with one mark, spell a word.
pub proof fn lemma_letter_units_spell_word(units: Seq<Seq<char>>)
    requires
        letter_units(units),
    ensures
        tamil_word(units.flatten()),
{
}

/// A word stops being one when a character that is neither a letter nor a
/// mark of the script is put into it, wherever that is; and no text that
/// holds such a character is a word.
pub proof fn lemma_foreign_character_rejected(text: Seq<char>, at: int, c: char)
    requires
        0 <= at <= text.len(),
        !script_letter(c),
        !script_mark(c),
    ensures
        !tamil_word(text.insert(at, c)),
{
    let spoilt = text.insert(at, c);
    lemma_word_by_characters(spoilt);
    assert(!well_placed(spoilt, at));
}

/// Tests a character against the letters of the script.
fn is_script_letter(c: char) -> (b: bool)
    ensures
        b == script_letter(c),
{
    c == '\u{0B83}' || ('\u{0B85}' <= c && c <= '\u{0B8A}') || ('\u{0B8E}' <= c && c <= '\u{0B90}')
        || ('\u{0B92}' <= c && c <= '\u{0B95}') || ('\u{0B99}' <= c && c <= '\u{0B9A}') || c
        == '\u{0B9C}' || ('\u{0B9E}' <= c && c <= '\u{0B9F}') || ('\u{0BA3}' <= c && c
        <= '\u{0BA4}') || ('\u{0BA8}' <= c && c <= '\u{0BAA}') || ('\u{0BAE}' <= c && c
        <= '\u{0BB9}') || c == '\u{0BD0}'
}

/// Tests a character against the marks of the script.
fn is_script_mark(c: char) -> (b: bool)
    ensures
        b == script_mark(c),
{
    c == '\u{0B82}' || ('\u{0BBE}' <= c && c <= '\u{0BC2}') || ('\u{0BC6}' <= c && c <= '\u{0BC8}')
        || ('\u{0BCA}' <= c && c <= '\u{0BCD}') || c == '\u{0BD7}'
}

/// Whether `word` is written in letters of the script alone, each followed
/// by at most one mark of the script. The empty string is such a word.
pub fn is_tamil_word(word: &str) -> (b: bool)
    ensures
        b == tamil_word(word@),
{
    proof {
        lemma_word_by_characters(word@);
    }
    let mut after_letter: bool = false;
    for c in it: word.chars()
        invariant
            it.seq() == word@,
            forall|i: int| 0 <= i < it.index() ==> well_placed(word@, i),
            after_letter == (it.index() > 0 && script_letter(word@[it.index() - 1])),
    {
        if is_script_letter(c) {
            after_letter = true;
        } else if after_letter && is_script_mark(c) {
            after_letter = false;
        } else {
            proof {
                lemma_word_by_characters(word@);
                assert(!well_placed(word@, it.index() as int));
            }
            return false;
        }
    }
    true
}

} // verus!
