use acs_scraper::text::{
    clean_text, clearance_level_conversion, extract_string_after_colon,
    is_valid_containment_class, level_from_match,
};

#[test]
fn test_clearance_level_conversion() {
    const TEST_STRINGS: [(&str, &str); 12] = [
        ("LEVEL 3/EE-7372", "LEVEL 3"),
        ("CLASS 5/PL-046", "LEVEL 5"),
        ("DANGER 1 - 3719", "LEVEL 1"),
        ("4/3787", "LEVEL 4"),
        ("Level 0 (For Official Use Only)", "LEVEL 0"),
        ("Level 1 (Confidential)", "LEVEL 1"),
        ("Level 2 (Restricted)", "LEVEL 2"),
        ("Level 3 (Secret)", "LEVEL 3"),
        ("Level 4 (Top Secret)", "LEVEL 4"),
        ("Level 4/2317", "LEVEL 4"),
        ("Level 5 (Thaumiel)", "LEVEL 5"),
        ("Clearance Level 6", "LEVEL 6"),
    ];

    for (input, expected) in TEST_STRINGS {
        let result = clearance_level_conversion(input);
        assert_eq!(
            result.as_str(),
            expected,
            "Expected '{}' for input '{}', but got '{}'",
            expected,
            input,
            result
        );
    }
}

#[test]
fn test_extract_string_after_colon() {
    const TEST_STRINGS: [(&str, &str); 8] = [
        ("containment class: keter\n", "keter"),
        ("disruption class: amida\n", "amida"),
        ("risk class: critical\n", "critical"),
        ("secondary class: foo bar\n", "foo bar"),
        (
            "containment class: {field left blank}\n",
            "{field left blank}",
        ),
        ("no colon here\n", ""),
        ("", ""),
        ("containment class: ", ""),
    ];

    for (input, expected) in TEST_STRINGS {
        let result = extract_string_after_colon(input);
        assert_eq!(
            result.as_str(),
            expected,
            "Expected '{}' for input '{}', but got '{}'",
            expected,
            input,
            result
        );
    }
}

#[test]
fn test_clean_text() {
    const TEST_STRINGS: [(&str, &str); 6] = [
        ("Containment Class: Keter", "Keter"),
        ("Secondary Class: {FIELD LEFT BLANK}", "{FIELD LEFT BLANK}"),
        ("{$secondary-class}", ""),
        ("2/Vlam", "Vlam"),
        ("None", ""),
        ("N/A", "N/A"),
    ];

    for (input, expected) in TEST_STRINGS {
        let result = clean_text(input);
        assert_eq!(
            result.as_str(),
            expected,
            "Expected '{}' for input '{}', but got '{}'",
            expected,
            input,
            result
        );
    }
}

#[test]
fn clearance_without_a_digit_is_unchanged() {
    assert_eq!(clearance_level_conversion("no digits here"), "no digits here");
    assert_eq!(clearance_level_conversion(""), "");
}

#[test]
fn level_from_match_uses_the_digit_given() {
    assert_eq!(level_from_match("Level 3", Some("3".to_string())), "LEVEL 3");
    assert_eq!(level_from_match("Level 3", None), "Level 3");
}

#[test]
fn clean_trims_and_applies_rules_in_order() {
    assert_eq!(clean_text("  Keter \n"), "Keter");
    assert_eq!(clean_text("a: b/c"), "b/c");
    assert_eq!(clean_text("x/y/z"), "y/z");
    assert_eq!(clean_text("n/a"), "n/a");
    assert_eq!(clean_text("pending n/a recall/now"), "pending n/a recall/now");
    assert_eq!(clean_text("NONE"), "");
    assert_eq!(clean_text("  none  "), "");
    assert_eq!(clean_text("nonesuch"), "nonesuch");
    assert_eq!(clean_text("a {$b} c: d"), "");
    assert_eq!(clean_text("first: one\nsecond: two"), "one");
    assert_eq!(clean_text(""), "");
    assert_eq!(clean_text("\u{a0}Safe\u{2003}"), "Safe");
}

#[test]
fn clean_is_idempotent_on_settled_results() {
    for input in [
        "Containment Class: Keter",
        "{$secondary-class}",
        "2/Vlam",
        "None",
        "N/A",
        "  euclid ",
        "",
    ] {
        let once = clean_text(input);
        let twice = clean_text(once.as_str());
        assert_eq!(once, twice, "input '{}'", input);
    }
}

#[test]
fn clean_twice_differs_where_a_rule_fires_again() {
    assert_eq!(clean_text("a:b:c"), "b:c");
    assert_eq!(clean_text("b:c"), "c");
}

#[test]
fn containment_vocabulary() {
    for class in ["safe", "Euclid", "KETER", "neutralized", "Pending", "explained", "esoteric"] {
        assert!(is_valid_containment_class(class), "{}", class);
    }
    for class in ["", "thaumiel", "safe ", "keter!", "apollyon"] {
        assert!(!is_valid_containment_class(class), "{}", class);
    }
}

#[test]
fn white_space_in_and_above_the_ascii_range() {
    for blank in [" ", "\t", "\n", "\u{b}", "\u{c}", "\r", "\u{85}", "\u{a0}", "\u{3000}"] {
        let text = format!("{}x{}", blank, blank);
        assert_eq!(clean_text(&text), "x", "{:?}", blank);
    }
    for other in ["\u{8}", "\u{e}", "\u{1f}", "\u{7f}", "_", "\u{200b}"] {
        let text = format!("{}x{}", other, other);
        assert_eq!(clean_text(&text), text, "{:?}", other);
    }
}
