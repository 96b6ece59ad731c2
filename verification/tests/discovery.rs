use acs_scraper::backlinks::{
    breadcrumb_of, breadcrumb_page, extract_scp_number, get_scp_name, is_excluded, is_skipped,
    link_entry, links_of, name_from_url,
};
use acs_scraper::catalog::{
    add_series_page, catalog_entry, finish_catalog, item_name, link_number, page_address,
    ListedItem, ListedLink,
};
use acs_scraper::record::SCPInfo;

fn catalog() -> Vec<SCPInfo> {
    vec![
        SCPInfo {
            actual_number: "SCP-173".to_string(),
            display_number: "SCP-173".to_string(),
            name: "The Sculpture".to_string(),
            url: "https://scp-wiki.wikidot.com/scp-173".to_string(),
        },
        SCPInfo {
            actual_number: "SCP-049".to_string(),
            display_number: "SCP-049".to_string(),
            name: "Plague Doctor".to_string(),
            url: "https://scp-wiki.wikidot.com/scp-049".to_string(),
        },
    ]
}

#[test]
fn identifier_at_the_end_of_an_address() {
    assert_eq!(extract_scp_number("/scp-173"), Some(173));
    assert_eq!(extract_scp_number("/SCP-049"), Some(49));
    assert_eq!(extract_scp_number("/fragment:scp-6"), Some(6));
    assert_eq!(extract_scp_number("SCP-9999"), Some(9999));
    assert_eq!(extract_scp_number("/scp-173-j"), None);
    assert_eq!(extract_scp_number("/scp-10000"), None);
    assert_eq!(extract_scp_number("/xscp-173"), None);
    assert_eq!(extract_scp_number("/scp-173/"), None);
    assert_eq!(extract_scp_number(""), None);
}

#[test]
fn links_that_lead_to_no_entry() {
    for t in [
        "http://example.org",
        "/component:anomaly-class-bar",
        "Style Guide",
        "/AUTHOR:someone",
        "a memo",
        "/acs-icons",
        "Personnel File",
        "art:gallery",
        "Resource list",
        "/theme:dark",
    ] {
        assert!(is_excluded(t), "{}", t);
    }
    for t in ["/scp-173", "The Sculpture", "", "/fragment:part-two", "artful"] {
        assert!(!is_excluded(t), "{}", t);
    }
    assert!(is_skipped("/scp-173", "  A Guide  "));
    assert!(is_skipped("/guide-hub", "Hub"));
    assert!(!is_skipped("/scp-173", "SCP-173"));
}

#[test]
fn names_from_addresses() {
    assert_eq!(name_from_url("/the-great-hippo"), "The Great Hippo");
    assert_eq!(name_from_url("/tales/the-great-hippo"), "The Great Hippo");
    assert_eq!(name_from_url("the-great-hippo"), "The Great Hippo");
    assert_eq!(name_from_url("/fragment:old-man"), titlecase::titlecase("old man"));
    assert_eq!(name_from_url("/part-ii"), titlecase::titlecase("part II"));
    assert_eq!(name_from_url("/kings-sword"), titlecase::titlecase("kings'sword"));
    assert_eq!(name_from_url("/"), "");
    assert_eq!(name_from_url(""), "");
}

#[test]
fn catalogue_names() {
    let c = catalog();
    assert_eq!(get_scp_name(&c, "SCP-173"), "The Sculpture");
    assert_eq!(get_scp_name(&c, "SCP-999"), "SCP-999");
}

#[test]
fn a_link_to_an_entry_takes_number_and_name_from_the_catalogue() {
    let c = catalog();
    let e = link_entry("/scp-173", " SCP-173 ", &c, None).expect("not passed over");
    assert_eq!(e.actual_number, "SCP-173");
    assert_eq!(e.name, "The Sculpture");
    assert_eq!(e.url, "https://scp-wiki.wikidot.com/scp-173");
    assert!(!e.fragment);
    let unlisted = link_entry("/scp-7", "seven", &c, None).expect("not passed over");
    assert_eq!(unlisted.actual_number, "SCP-007");
    assert_eq!(unlisted.name, "SCP-007");
}

#[test]
fn a_link_to_another_page_keeps_its_text() {
    let c = catalog();
    let e = link_entry("/some-tale", "Some Tale (/some-tale)", &c, Some("ignored")).expect("not passed over");
    assert_eq!(e.actual_number, "");
    assert_eq!(e.name, "Some Tale");
    assert_eq!(e.url, "https://scp-wiki.wikidot.com/some-tale");
    let short = link_entry("/the-great-hippo", " ", &c, None).expect("not passed over");
    assert_eq!(short.name, "The Great Hippo");
    let one = link_entry("/the-great-hippo", "é", &c, None).expect("not passed over");
    assert_eq!(one.name, "é");
    assert!(link_entry("/some-guide", "Some Tale", &c, None).is_none());
    assert!(link_entry("/some-tale", "By the author", &c, None).is_none());
}

#[test]
fn a_fragment_takes_its_entry_from_the_breadcrumb() {
    let c = catalog();
    let by_number = link_entry("/fragment:part-two", "Part Two", &c, Some("SCP-049")).expect("not passed over");
    assert!(by_number.fragment);
    assert_eq!(by_number.actual_number, "SCP-049");
    assert_eq!(by_number.name, "Plague Doctor");
    assert_eq!(by_number.url, "https://scp-wiki.wikidot.com/fragment:part-two");
    let by_text = link_entry("/fragment:part-two", "Part Two", &c, Some("Hub Page")).expect("not passed over");
    assert_eq!(by_text.actual_number, "");
    assert_eq!(by_text.name, "Hub Page");
    let without = link_entry("/fragment:part-two", "Part Two", &c, None).expect("not passed over");
    assert_eq!(without.name, "Part Two");
    let own = link_entry("/fragment:scp-173", "Part", &c, None).expect("not passed over");
    assert_eq!(own.actual_number, "");
    assert_eq!(own.name, "Part");
}

#[test]
fn a_proposal_belongs_to_the_first_entry() {
    let c = catalog();
    assert_eq!(link_entry("/dr-x-proposal", "Something", &c, None).map(|e| e.actual_number), Some("SCP-001".to_string()));
    assert_eq!(link_entry("/dr-x", "Dr X's PROPOSAL", &c, None).map(|e| e.actual_number), Some("SCP-001".to_string()));
    assert_eq!(link_entry("/dr-x", "Something", &c, None).map(|e| e.actual_number), Some(String::new()));
}

#[test]
fn fragments_need_their_breadcrumb_page() {
    assert_eq!(
        breadcrumb_page("/fragment:part-two", "Part Two"),
        Some("https://scp-wiki.wikidot.com/fragment:part-two/norender/true".to_string())
    );
    assert_eq!(breadcrumb_page("/scp-173", "SCP-173"), None);
    assert_eq!(breadcrumb_page("/fragment:guide", "Guide"), None);
}

#[test]
fn links_and_breadcrumbs_of_a_page() {
    let page = r#"<html><body><div id="breadcrumbs"><a href="/">Home</a> &raquo; <a href="/scp-049">SCP-049</a></div>
<ul><li><a href="/scp-173">SCP-173</a> <a href="/second">second</a></li><li><a>no <b>address</b></a></li></ul>
<ol><li><a href="/not-in-ul">x</a></li></ol></body></html>"#;
    assert_eq!(
        links_of(page),
        [
            ("/scp-173".to_string(), "SCP-173".to_string()),
            (String::new(), "no address".to_string()),
        ]
    );
    assert_eq!(breadcrumb_of(page), Some("SCP-049".to_string()));
    assert_eq!(breadcrumb_of("<p></p>"), None);
    assert!(links_of("").is_empty());
}

#[test]
fn numbers_of_series_links() {
    assert_eq!(link_number("/scp-173", "SCP-173"), "SCP-173");
    assert_eq!(link_number("/scp-049", "anything"), "SCP-049");
    assert_eq!(link_number("/scp-49", "SCP-049"), "");
    assert_eq!(link_number("/taboo", "SCP-4000"), "SCP-4000");
    assert_eq!(link_number("/taboo", "an SCP-4000"), "");
    assert_eq!(link_number("/decomm-231", "Old"), "SCP-231");
    assert_eq!(link_number("/page", "Old"), "");
    assert_eq!(item_name("<a href=\"/scp-173\">SCP-173</a> - The Sculpture - The First"), "The Sculpture - The First");
    assert_eq!(item_name("<a href=\"/scp-173\">SCP-173</a>"), "");
    assert_eq!(page_address("/scp-173"), "https://scp-wiki.wikidot.com/scp-173");
    assert_eq!(page_address("http://scp-wiki.wikidot.com/scp-173"), "http://scp-wiki.wikidot.com/scp-173");
}

#[test]
fn entries_of_series_items() {
    let item = |class: Option<&str>, href: Option<&str>| ListedItem {
        html: "<a>SCP-002</a> - The \"Living\" Room".to_string(),
        link: Some(ListedLink {
            class: class.map(String::from),
            href: href.map(String::from),
            html: "SCP-002".to_string(),
        }),
    };
    let e = catalog_entry(&item(None, Some("/scp-002"))).expect("a page that exists");
    assert_eq!(e.actual_number, "SCP-002");
    assert_eq!(e.display_number, "SCP-002");
    assert_eq!(e.name, "The \"Living\" Room");
    assert_eq!(e.url, "https://scp-wiki.wikidot.com/scp-002");
    assert!(catalog_entry(&item(Some("newpage"), Some("/scp-002"))).is_none());
    assert!(catalog_entry(&item(Some("newpage big"), Some("/scp-002"))).is_some());
    let bare = catalog_entry(&item(None, None)).expect("a link without an address still counts");
    assert_eq!(bare.actual_number, "SCP-002");
    assert_eq!(bare.url, "https://scp-wiki.wikidot.com");
    assert!(catalog_entry(&ListedItem { html: "text".to_string(), link: None }).is_none());
}

#[test]
fn a_series_page_fills_the_catalogue() {
    let page = r#"<html><body><h1 id="toc0">Intro</h1><ul><li><a href="/about">About</a> - skipped</li></ul>
<h1 id="toc1">001 to 099</h1><ul>
<li><a href="/scp-010">SCP-010</a> - Collars of Control</li>
<li><a class="newpage" href="/scp-011">SCP-011</a> - [ACCESS DENIED]</li>
<li><a href="/scp-002">SCP-002</a> - The "Living" Room</li>
<li>no link here</li>
</ul></body></html>"#;
    let mut c = catalog();
    add_series_page(&mut c, page);
    let numbers: Vec<&str> = c.iter().map(|e| e.actual_number.as_str()).collect();
    assert_eq!(numbers, ["SCP-173", "SCP-049", "SCP-010", "SCP-002"]);
    assert_eq!(c[2].name, "Collars of Control");
    assert_eq!(c[3].name, "The \"Living\" Room");
    assert_eq!(c[3].url, "https://scp-wiki.wikidot.com/scp-002");
    finish_catalog(&mut c);
    let sorted: Vec<&str> = c.iter().map(|e| e.actual_number.as_str()).collect();
    assert_eq!(sorted, ["SCP-002", "SCP-010", "SCP-049", "SCP-173"]);
}

#[test]
fn the_prefix_is_found_in_any_case() {
    assert_eq!(link_number("/Scp-173", "x"), "SCP-173");
    assert_eq!(link_number("/taboo", "scp-4000"), "SCP-4000");
    assert_eq!(link_number("/é-scp-173", "x"), "SCP-173");
}

#[test]
fn only_the_letter_s_in_either_case_begins_the_prefix() {
    for code in 32u8..127 {
        let c = code as char;
        let html = format!("{}cp-173", c);
        let expected = if c == 's' || c == 'S' { "SCP-173" } else { "" };
        assert_eq!(link_number("/none", &html), expected, "U+{:04X}", code);
    }
}

#[test]
fn the_breadcrumb_is_looked_for_over_the_whole_page() {
    let page = r#"<html><body><div id="breadcrumbs"><a>first</a><a>last</a></div>
<div id="breadcrumbs"><a>other</a></div></body></html>"#;
    assert_eq!(breadcrumb_of(page), Some("last".to_string()));
    assert_eq!(breadcrumb_of("<div id=\"breadcrumbs\"><b>no link</b></div>"), None);
    assert_eq!(breadcrumb_of(""), None);
}
