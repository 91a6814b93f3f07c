use tamilcharutils::{transliterate_entities, unigram_auto, RuleMap};

fn strings(items: &[&str]) -> Vec<String> {
    items.iter().map(|s| s.to_string()).collect()
}

fn table(rules: &[(&str, &str)]) -> RuleMap {
    let mut table = RuleMap::new();
    for (key, value) in rules {
        table.insert(key.to_string(), value.to_string());
    }
    table
}

#[test]
fn one_rule_for_one_letter() {
    let rules = table(&[("க", "ka")]);
    assert_eq!(unigram_auto("க", &rules), "ka");
    assert_eq!(unigram_auto("கx", &rules), "");
}

#[test]
fn substitutes_follow_the_order_of_the_clusters() {
    let rules = table(&[("மி", "mi"), ("த", "tha"), ("ழ்", "zh"), ("கா", "kaa"), ("க", "ka")]);
    assert_eq!(unigram_auto("தமிழ்", &rules), "thamizh");
    assert_eq!(unigram_auto("காக", &rules), "kaaka");
    assert_eq!(unigram_auto("ககா", &rules), "kakaa");
}

#[test]
fn a_key_is_a_whole_cluster() {
    let rules = table(&[("க", "ka"), ("ா", "a")]);
    assert_eq!(unigram_auto("கா", &rules), "");
    let rules = table(&[("கா", "kaa")]);
    assert_eq!(unigram_auto("க", &rules), "");
    assert_eq!(unigram_auto("கா", &rules), "kaa");
}

#[test]
fn an_unmapped_cluster_discards_what_was_gathered() {
    let rules = table(&[("த", "tha"), ("மி", "mi")]);
    assert_eq!(unigram_auto("தமிழ்", &rules), "");
    assert_eq!(transliterate_entities(&strings(&["த", "மி", "ழ்"]), &rules), None);
}

#[test]
fn an_empty_table_gives_the_empty_string() {
    let rules = RuleMap::new();
    for w in ["க", "தமிழ்", "x", " "] {
        assert_eq!(unigram_auto(w, &rules), "");
    }
}

#[test]
fn the_empty_word_gives_the_empty_string() {
    assert_eq!(unigram_auto("", &RuleMap::new()), "");
    assert_eq!(unigram_auto("", &table(&[("க", "ka")])), "");
    assert_eq!(transliterate_entities(&Vec::new(), &RuleMap::new()), Some(String::new()));
}

#[test]
fn a_table_that_maps_each_cluster_to_itself_gives_the_word() {
    for w in ["தமிழ்", "வணக்கம்", "கல்வி", "e\u{301}a", "க"] {
        let mut rules = RuleMap::new();
        for code in 0x0B80u32..0x0C00 {
            if let Some(c) = char::from_u32(code) {
                rules.insert(c.to_string(), c.to_string());
                for sign in "்ாிீுூெேைொோௌ".chars() {
                    rules.insert(format!("{c}{sign}"), format!("{c}{sign}"));
                }
            }
        }
        rules.insert("e\u{301}".to_string(), "e\u{301}".to_string());
        rules.insert("a".to_string(), "a".to_string());
        assert_eq!(unigram_auto(w, &rules), w);
    }
}

#[test]
fn a_substitute_may_be_empty() {
    let rules = table(&[("க", ""), ("ா", "")]);
    assert_eq!(transliterate_entities(&strings(&["க", "க"]), &rules), Some(String::new()));
    assert_eq!(transliterate_entities(&strings(&["க", "x"]), &rules), None);
}

#[test]
fn transliterate_entities_takes_the_clusters_as_given() {
    let rules = table(&[("ab", "1"), ("c", "2"), ("", "0")]);
    assert_eq!(transliterate_entities(&strings(&["ab", "c", "ab"]), &rules), Some("121".to_string()));
    assert_eq!(transliterate_entities(&strings(&["", "c"]), &rules), Some("02".to_string()));
    assert_eq!(transliterate_entities(&strings(&["a", "b", "c"]), &rules), None);
}

#[test]
fn a_later_rule_replaces_an_earlier_one() {
    let mut rules = table(&[("க", "ka"), ("ச", "sa")]);
    assert_eq!(rules.get(&"க".to_string()), Some(&"ka".to_string()));
    rules.insert("க".to_string(), "ga".to_string());
    assert_eq!(rules.get(&"க".to_string()), Some(&"ga".to_string()));
    assert_eq!(rules.get(&"ச".to_string()), Some(&"sa".to_string()));
    assert_eq!(rules.get(&"ட".to_string()), None);
    assert!(rules.contains(&"ச".to_string()));
    assert!(!rules.contains(&"கா".to_string()));
    assert_eq!(unigram_auto("கச", &rules), "gasa");
}
