use awake::instances::{other_instances, process_ids};

fn owned(words: &[&str]) -> Vec<String> {
    words.iter().map(|word| word.to_string()).collect()
}

#[test]
fn listing_of_one_id_per_line() {
    assert_eq!(process_ids("101\n2002\n33\n"), vec!["101", "2002", "33"]);
}

#[test]
fn listing_without_final_newline() {
    assert_eq!(process_ids("101\n2002"), vec!["101", "2002"]);
    assert_eq!(process_ids("7"), vec!["7"]);
}

#[test]
fn empty_listing_has_no_ids() {
    assert_eq!(process_ids(""), Vec::<String>::new());
    assert_eq!(process_ids("\n"), Vec::<String>::new());
    assert_eq!(process_ids(" \t\r\n  "), Vec::<String>::new());
}

#[test]
fn runs_of_white_space_separate_once() {
    assert_eq!(process_ids("  1 \t 22\r\n\n333  "), vec!["1", "22", "333"]);
}

#[test]
fn words_are_kept_as_they_are() {
    assert_eq!(process_ids("abc d\u{e9}f 12-3"), vec!["abc", "d\u{e9}f", "12-3"]);
}

#[test]
fn listing_is_split_as_the_standard_library_splits() {
    for listing in [
        "1\u{0b}2\u{0c}3",
        "1\u{85}2\u{a0}3",
        "1\u{1680}2\u{2000}3\u{200a}4",
        "1\u{2028}2\u{2029}3\u{202f}4\u{205f}5\u{3000}6",
        "1\u{200b}2\u{feff}3\u{180e}4",
        "\u{3000}\u{3000}x\u{3000}",
        "a\u{1f}b\u{1c}c\u{08}d\u{0e}e",
    ] {
        let expected: Vec<&str> = listing.split_whitespace().collect();
        assert_eq!(process_ids(listing), expected);
    }
}

#[test]
fn white_space_is_what_the_standard_library_takes_for_it() {
    let mut spaces = 0;
    for code in 0..=0x10FFFFu32 {
        if let Some(c) = char::from_u32(code) {
            let listing = format!("a{}b", c);
            let parts = process_ids(&listing);
            if c.is_whitespace() {
                spaces += 1;
                assert_eq!(parts, vec!["a", "b"], "U+{:04X}", code);
            } else {
                assert_eq!(parts, vec![listing], "U+{:04X}", code);
            }
        }
    }
    assert_eq!(spaces, 25);
}

#[test]
fn own_id_is_left_out() {
    assert_eq!(other_instances(&owned(&["101", "2002", "33"]), "2002"), vec!["101", "33"]);
}

#[test]
fn own_id_is_left_out_wherever_it_stands() {
    assert_eq!(other_instances(&owned(&["5", "6", "7"]), "5"), vec!["6", "7"]);
    assert_eq!(other_instances(&owned(&["5", "6", "7"]), "7"), vec!["5", "6"]);
    assert_eq!(other_instances(&owned(&["5", "6", "5", "5"]), "5"), vec!["6"]);
    assert_eq!(other_instances(&owned(&["5"]), "5"), Vec::<String>::new());
}

#[test]
fn every_id_stays_where_own_is_not_listed() {
    assert_eq!(other_instances(&owned(&["1", "2", "3"]), "4"), vec!["1", "2", "3"]);
    assert_eq!(other_instances(&owned(&["1", "2", "3"]), ""), vec!["1", "2", "3"]);
    assert_eq!(other_instances(&owned(&[]), "4"), Vec::<String>::new());
}

#[test]
fn ids_are_compared_as_texts() {
    assert_eq!(other_instances(&owned(&["12", "123", "012", "1"]), "12"), vec!["123", "012", "1"]);
}

#[test]
fn listing_to_others() {
    let pids = process_ids("314\n2718\n161\n");
    assert_eq!(other_instances(&pids, "2718"), vec!["314", "161"]);
}
