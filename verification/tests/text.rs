use couch_unifi_protect::text::{characters, comes_before, same_text};

const SAMPLES: [&str; 12] = [
    "", "a", "aa", "ab", "b", "Z", "é", "e\u{301}", "\u{ffff}", "\u{10000}", "日本", "a\0",
];

#[test]
fn the_order_of_texts_is_that_of_the_standard_library() {
    for a in SAMPLES {
        for b in SAMPLES {
            assert_eq!(comes_before(a, b), a < b);
            assert_eq!(same_text(a, b), a == b);
        }
    }
}

#[test]
fn characters_are_taken_one_by_one() {
    assert_eq!(characters("aé日"), vec!['a', 'é', '日']);
    assert!(characters("").is_empty());
}
