use tamilcharutils::{
    classify, is_consonant, is_mark, is_marked_consonant, is_tamil_entity, is_vowel,
    EntityCategory,
};

const VOWELS: &str = "அஆஇஈஉஊஎஏஐஒஓஔஃ";
const CONSONANTS: &str = "கசடதபறயரலவழளஞஙனநமணஸஷஹஜ";
const MARKS: &str = " ்ாிீுூெேைொோௌ";

#[test]
fn every_vowel_letter_is_a_vowel() {
    assert_eq!(VOWELS.chars().count(), 13);
    for c in VOWELS.chars() {
        let g = c.to_string();
        assert!(is_vowel(&g), "{g}");
        assert!(!is_consonant(&g), "{g}");
        assert!(!is_mark(&g), "{g}");
        assert!(!is_marked_consonant(&g), "{g}");
        assert!(is_tamil_entity(&g), "{g}");
        assert_eq!(classify(&g), EntityCategory::Vowel);
    }
}

#[test]
fn every_consonant_letter_is_a_consonant() {
    assert_eq!(CONSONANTS.chars().count(), 22);
    for c in CONSONANTS.chars() {
        let g = c.to_string();
        assert!(is_consonant(&g), "{g}");
        assert!(!is_vowel(&g), "{g}");
        assert!(!is_mark(&g), "{g}");
        assert!(!is_marked_consonant(&g), "{g}");
        assert!(is_tamil_entity(&g), "{g}");
        assert_eq!(classify(&g), EntityCategory::Consonant);
    }
}

#[test]
fn every_sign_is_a_mark_and_no_entity() {
    assert_eq!(MARKS.chars().count(), 13);
    for c in MARKS.chars() {
        let g = c.to_string();
        assert!(is_mark(&g), "{g:?}");
        assert!(!is_vowel(&g), "{g:?}");
        assert!(!is_consonant(&g), "{g:?}");
        assert!(!is_marked_consonant(&g), "{g:?}");
        assert!(!is_tamil_entity(&g), "{g:?}");
        assert_eq!(classify(&g), EntityCategory::Mark);
    }
}

#[test]
fn the_letter_sets_hold_nothing_else() {
    let mut vowels = 0;
    let mut consonants = 0;
    let mut marks = 0;
    for code in 0u32..0x11_0000 {
        if let Some(c) = char::from_u32(code) {
            let g = c.to_string();
            assert_eq!(is_vowel(&g), VOWELS.contains(c), "{code:X}");
            assert_eq!(is_consonant(&g), CONSONANTS.contains(c), "{code:X}");
            assert_eq!(is_mark(&g), MARKS.contains(c), "{code:X}");
            vowels += is_vowel(&g) as u32;
            consonants += is_consonant(&g) as u32;
            marks += is_mark(&g) as u32;
        }
    }
    assert_eq!((vowels, consonants, marks), (13, 22, 13));
}

#[test]
fn the_two_conjuncts_are_consonants() {
    for g in ["ஸ்ர", "க்ஷ"] {
        assert!(is_consonant(g));
        assert!(is_tamil_entity(g));
        assert!(!is_marked_consonant(g));
        assert_eq!(classify(g), EntityCategory::Consonant);
    }
    assert!(!is_consonant("க்ர"));
    assert!(!is_consonant("ஸ்"));
    assert!(!is_consonant("ஸ்ரீ"));
}

#[test]
fn membership_is_exact() {
    assert!(!is_vowel(""));
    assert!(!is_consonant(""));
    assert!(!is_mark(""));
    assert!(!is_marked_consonant(""));
    assert!(!is_tamil_entity(""));
    assert_eq!(classify(""), EntityCategory::Invalid);
    assert!(!is_vowel("அஆ"));
    assert!(!is_consonant("கச"));
    assert!(!is_mark("்ா"));
}

#[test]
fn a_consonant_with_a_sign_is_a_marked_consonant() {
    for c in CONSONANTS.chars() {
        for m in MARKS.chars() {
            let g = format!("{c}{m}");
            assert!(is_marked_consonant(&g), "{g:?}");
            assert!(is_tamil_entity(&g), "{g:?}");
            assert_eq!(classify(&g), EntityCategory::MarkedConsonant);
        }
    }
}

#[test]
fn a_space_counts_as_a_sign() {
    assert!(is_mark(" "));
    assert!(is_marked_consonant("க "));
    assert_eq!(classify("க "), EntityCategory::MarkedConsonant);
    assert!(!is_marked_consonant(" க"));
}

#[test]
fn two_stacked_signs_are_accepted() {
    assert!(is_marked_consonant("கா்"));
    assert!(is_marked_consonant("கx்"));
    assert_eq!(classify("கா்"), EntityCategory::MarkedConsonant);
}

#[test]
fn only_the_first_and_the_last_character_decide() {
    assert!(!is_marked_consonant("அா"));
    assert!(!is_marked_consonant("காக"));
    assert!(!is_marked_consonant("xா"));
    assert!(!is_marked_consonant("க"));
    assert!(!is_marked_consonant("ா"));
}

#[test]
fn other_text_is_invalid() {
    for g in ["x", "1", "ab", "\r\n", "ஶ", "ௐ", "ஂ", "ௗ", "௧", "அா", "क"] {
        assert_eq!(classify(g), EntityCategory::Invalid, "{g:?}");
        assert!(!is_tamil_entity(g), "{g:?}");
    }
}
