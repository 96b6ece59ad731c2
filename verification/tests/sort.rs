use acs_scraper::record::{Acs, SCPInfo, Strategy};
use acs_scraper::sort_json::{extract_scp_number, lex_less, sort, try_sort, SortKey, SortableField};
use acs_scraper::chars::chars_of;

fn info(number: &str, name: &str) -> SCPInfo {
    SCPInfo {
        actual_number: number.to_string(),
        display_number: number.to_string(),
        name: name.to_string(),
        url: format!("https://example.org/{}", name),
    }
}

fn record(number: &str, name: &str, fragment: bool) -> Acs {
    Acs {
        name: name.to_string(),
        actual_number: number.to_string(),
        display_number: String::new(),
        clearance: "LEVEL 2".to_string(),
        clearance_text: "Restricted".to_string(),
        contain: "keter".to_string(),
        secondary: String::new(),
        disrupt: "vlam".to_string(),
        risk: "notice".to_string(),
        url: "https://example.org".to_string(),
        fragment,
        scraper: Strategy::Bar,
    }
}

fn numbers(entries: &[SCPInfo]) -> Vec<&str> {
    entries.iter().map(|e| e.actual_number.as_str()).collect()
}

fn names(entries: &[SCPInfo]) -> Vec<&str> {
    entries.iter().map(|e| e.name.as_str()).collect()
}

#[test]
fn sort_orders_identifiers_by_number() {
    let mut entries = vec![info("SCP-9", "a"), info("SCP-100", "b"), info("SCP-10", "c")];
    sort(&mut entries, "actual_number");
    assert_eq!(numbers(&entries), ["SCP-9", "SCP-10", "SCP-100"]);
}

#[test]
fn sort_puts_numbers_before_texts_and_texts_in_dictionary_order() {
    let mut entries = vec![
        info("zeta", "a"),
        info("SCP-3000", "b"),
        info("", "c"),
        info("SCP-002", "d"),
        info("Alpha", "e"),
        info("scp-0100", "f"),
        info("alpha", "g"),
        info("SCP-", "h"),
    ];
    sort(&mut entries, "actual_number");
    assert_eq!(
        numbers(&entries),
        ["SCP-002", "scp-0100", "SCP-3000", "", "Alpha", "SCP-", "alpha", "zeta"]
    );
}

#[test]
fn sort_keeps_the_order_of_entries_that_sort_alike() {
    let mut entries = vec![
        info("SCP-007", "first"),
        info("SCP-001", "x"),
        info("scp-7", "second"),
        info("SCP-0007-J", "third"),
        info("SCP-001", "y"),
    ];
    sort(&mut entries, "actual_number");
    assert_eq!(names(&entries), ["x", "y", "first", "second", "third"]);
}

#[test]
fn sort_by_another_field() {
    let mut entries = vec![info("SCP-3", "pear"), info("SCP-1", "fig"), info("SCP-2", "apple")];
    sort(&mut entries, "name");
    assert_eq!(names(&entries), ["apple", "fig", "pear"]);
    let mut none: Vec<SCPInfo> = Vec::new();
    sort(&mut none, "name");
    assert!(none.is_empty());
}

#[test]
fn sort_records_by_fragment_flag_text() {
    let mut entries = vec![record("SCP-2", "b", true), record("SCP-1", "a", false)];
    sort(&mut entries, "fragment");
    assert_eq!(entries[0].name, "a");
    assert_eq!(entries[1].name, "b");
}

#[test]
fn try_sort_refuses_an_unknown_field() {
    let mut entries = vec![info("SCP-9", "a"), info("SCP-1", "b")];
    assert!(!try_sort(&mut entries, "clearance"));
    assert_eq!(numbers(&entries), ["SCP-9", "SCP-1"]);
    assert!(try_sort(&mut entries, "actual_number"));
    assert_eq!(numbers(&entries), ["SCP-1", "SCP-9"]);
}

#[test]
fn extract_scp_number_reads_the_digits_after_the_prefix() {
    assert_eq!(extract_scp_number("SCP-173"), Some(173));
    assert_eq!(extract_scp_number("scp-049"), Some(49));
    assert_eq!(extract_scp_number("ScP-9"), Some(9));
    assert_eq!(extract_scp_number("SCP-10"), Some(10));
    assert_eq!(extract_scp_number("SCP-173-J"), Some(173));
    assert_eq!(extract_scp_number("SCP-65535"), Some(65535));
}

#[test]
fn extract_scp_number_is_none_without_prefix_or_number() {
    assert_eq!(extract_scp_number(""), None);
    assert_eq!(extract_scp_number("SCP"), None);
    assert_eq!(extract_scp_number("SCP-"), None);
    assert_eq!(extract_scp_number("SCP-J"), None);
    assert_eq!(extract_scp_number("SCP-65536"), None);
    assert_eq!(extract_scp_number("XSCP-173"), None);
    assert_eq!(extract_scp_number("173"), None);
}

#[test]
fn dictionary_order_of_texts() {
    assert!(lex_less(&chars_of(""), &chars_of("a")));
    assert!(lex_less(&chars_of("a"), &chars_of("ab")));
    assert!(lex_less(&chars_of("ab"), &chars_of("b")));
    assert!(lex_less(&chars_of("Z"), &chars_of("a")));
    assert!(!lex_less(&chars_of("a"), &chars_of("a")));
    assert!(!lex_less(&chars_of("b"), &chars_of("ab")));
    assert!(!lex_less(&chars_of(""), &chars_of("")));
}

#[test]
fn sort_key_order() {
    let nine = SortKey::new("SCP-9");
    let ten = SortKey::new("SCP-10");
    let text = SortKey::new("Another");
    assert_eq!(nine.number, Some(9));
    assert_eq!(text.number, None);
    assert!(nine.sorts_before(&ten));
    assert!(!ten.sorts_before(&nine));
    assert!(ten.sorts_before(&text));
    assert!(!text.sorts_before(&nine));
    assert!(!nine.sorts_before(&nine));
}

#[test]
fn records_give_their_fields_by_name() {
    let r = record("SCP-173", "The Sculpture", true);
    assert_eq!(r.get_field("name"), "The Sculpture");
    assert_eq!(r.get_field("actual_number"), "SCP-173");
    assert_eq!(r.get_field("clearance"), "LEVEL 2");
    assert_eq!(r.get_field("clearance_text"), "Restricted");
    assert_eq!(r.get_field("contain"), "keter");
    assert_eq!(r.get_field("disrupt"), "vlam");
    assert_eq!(r.get_field("risk"), "notice");
    assert_eq!(r.get_field("fragment"), "true");
    assert_eq!(r.get_field("scraper"), "ACS Bar");
    assert!(r.knows_field("url"));
    assert!(!r.knows_field("number"));
    assert!(r.lookup("nothing").is_none());
    let i = info("SCP-1", "one");
    assert_eq!(i.get_field("display_number"), "SCP-1");
    assert!(!i.knows_field("fragment"));
}
