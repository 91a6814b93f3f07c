use tamilcharutils::segment::segment;

fn strings(items: &[&str]) -> Vec<String> {
    items.iter().map(|s| s.to_string()).collect()
}

#[test]
fn a_letter_keeps_its_signs() {
    assert_eq!(segment("கா"), strings(&["கா"]));
    assert_eq!(segment("தமிழ்"), strings(&["த", "மி", "ழ்"]));
    assert_eq!(segment("வணக்கம்"), strings(&["வ", "ண", "க்", "க", "ம்"]));
    assert_eq!(segment("கா்"), strings(&["கா்"]));
}

#[test]
fn a_conjunct_is_cut_after_its_pulli() {
    assert_eq!(segment("க்ஷ"), strings(&["க்", "ஷ"]));
    assert_eq!(segment("ஸ்ரீ"), strings(&["ஸ்", "ரீ"]));
}

#[test]
fn a_space_is_a_cluster_of_its_own() {
    assert_eq!(segment("க "), strings(&["க", " "]));
    assert_eq!(segment(" க"), strings(&[" ", "க"]));
}

#[test]
fn the_empty_string_has_no_cluster() {
    assert_eq!(segment(""), Vec::<String>::new());
}

#[test]
fn clusters_of_other_scripts() {
    assert_eq!(
        segment("a\u{310}e\u{301}o\u{308}\u{332}"),
        strings(&["a\u{310}", "e\u{301}", "o\u{308}\u{332}"])
    );
    assert_eq!(segment("a\r\nb🇷🇺🇸🇹"), strings(&["a", "\r\n", "b", "🇷🇺", "🇸🇹"]));
    assert_eq!(segment("abc"), strings(&["a", "b", "c"]));
}

#[test]
fn clusters_spell_the_string_and_none_is_empty() {
    for w in ["தமிழ் மொழி", "க்ஷ", "a\r\nb🇷🇺🇸🇹", "\u{301}ab", "x", "அம்மா", "👨‍👩‍👧"] {
        let ents = segment(w);
        assert_eq!(ents.concat(), w);
        assert!(ents.iter().all(|e| !e.is_empty()));
        assert!(ents.len() <= w.chars().count());
        assert!(!ents.is_empty());
    }
}
