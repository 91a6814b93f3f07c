use tamilcharutils::{dist_entities, dist_word, dist_word_to_wordlist, nearest_entities};

fn strings(items: &[&str]) -> Vec<String> {
    items.iter().map(|s| s.to_string()).collect()
}

const WORDS: [&str; 9] = ["", "க", "கா", "கல்", "கள்", "தமிழ்", "அம்மா", "வணக்கம்", "கல்வி"];

#[test]
fn one_consonant_apart() {
    assert_eq!(dist_word("கல்", "கள்"), 1);
}

#[test]
fn a_cluster_is_one_unit() {
    assert_eq!(dist_word("க", "கா"), 1);
    assert_eq!(dist_word("கா", "கி"), 1);
    assert_eq!(dist_word("தமிழ்", "தமிழ"), 1);
    assert_eq!(dist_word("கல்வி", "கல்"), 1);
    assert_eq!(dist_word("அம்மா", "அப்பா"), 2);
    assert_eq!(dist_word("e\u{301}", "e"), 1);
}

#[test]
fn distance_to_the_empty_word_is_the_number_of_clusters() {
    assert_eq!(dist_word("", ""), 0);
    assert_eq!(dist_word("", "தமிழ்"), 3);
    assert_eq!(dist_word("வணக்கம்", ""), 5);
}

#[test]
fn distance_of_plain_letters() {
    assert_eq!(dist_word("kitten", "sitting"), 3);
    assert_eq!(dist_word("flaw", "lawn"), 2);
    assert_eq!(dist_word("abc", "cba"), 2);
    assert_eq!(dist_word("saturday", "sunday"), 3);
}

#[test]
fn dist_entities_compares_whole_strings() {
    assert_eq!(dist_entities(&strings(&["ab", "c"]), &strings(&["a", "bc"])), 2);
    assert_eq!(dist_entities(&strings(&["ab", "c"]), &strings(&["ab", "c"])), 0);
    assert_eq!(dist_entities(&strings(&["a", "b", "c"]), &strings(&["a", "c"])), 1);
    assert_eq!(dist_entities(&strings(&[]), &strings(&["a", "c"])), 2);
    assert_eq!(dist_entities(&strings(&["x", "y", "z"]), &strings(&[])), 3);
}

#[test]
fn distance_is_symmetric() {
    for a in WORDS {
        for b in WORDS {
            assert_eq!(dist_word(a, b), dist_word(b, a), "{a} {b}");
        }
    }
}

#[test]
fn distance_is_zero_for_the_same_word_only() {
    for a in WORDS {
        for b in WORDS {
            assert_eq!(dist_word(a, b) == 0, a == b, "{a} {b}");
        }
    }
}

#[test]
fn distance_obeys_the_triangle_inequality() {
    for a in WORDS {
        for b in WORDS {
            for c in WORDS {
                assert!(dist_word(a, c) <= dist_word(a, b) + dist_word(b, c), "{a} {b} {c}");
            }
        }
    }
}

#[test]
fn nearest_is_the_least_distance() {
    let list = strings(&["தமிழ்", "கள்", "கல்வி", "அம்மா"]);
    assert_eq!(dist_word_to_wordlist("கல்", &list), 1);
    assert_eq!(dist_word_to_wordlist("அம்மா", &list), 0);
    assert_eq!(dist_word_to_wordlist("", &list), 2);
    assert_eq!(dist_word_to_wordlist("வணக்கம்", &list), 4);
}

#[test]
fn nearest_of_an_empty_list_is_the_greatest_number() {
    assert_eq!(dist_word_to_wordlist("கல்", &Vec::new()), usize::MAX);
    assert_eq!(nearest_entities(&strings(&["க"]), &Vec::new()), usize::MAX);
}

#[test]
fn nearest_is_zero_where_the_list_holds_the_word() {
    for (k, w) in WORDS.iter().enumerate() {
        let list = strings(&WORDS[..=k]);
        assert_eq!(dist_word_to_wordlist(w, &list), 0, "{w}");
    }
}

#[test]
fn nearest_is_at_most_each_distance() {
    let list = strings(&WORDS);
    for w in ["கல", "மா", "தமிழ்நாடு", "x"] {
        let best = dist_word_to_wordlist(w, &list);
        assert!(WORDS.iter().all(|c| best <= dist_word(w, c)), "{w}");
        assert!(WORDS.iter().any(|c| best == dist_word(w, c)), "{w}");
    }
}

#[test]
fn nearest_entities_takes_the_clusters_as_given() {
    let query = strings(&["a", "b"]);
    let candidates = vec![strings(&["x", "y", "z"]), strings(&["a", "c"]), strings(&["ab"])];
    assert_eq!(nearest_entities(&query, &candidates), 1);
    assert_eq!(nearest_entities(&query, &candidates[..1].to_vec()), 3);
}
