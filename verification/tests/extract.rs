use acs_scraper::extract::{
    backup_acs_function, backup_from_text, choose_strategy, demote, detect_markers,
    discard_placeholder, extract, get_acs_bar, get_acs_hybrid_bar, get_aim_header,
    get_flops_header, level_from_token, Markers,
};
use acs_scraper::page::{extract_class, extract_text, trimmed};
use acs_scraper::record::{RawAcs, Strategy};

const BAR_PAGE: &str = r#"<html><body>
<div class="anom-bar-container">
  <div class="top-right-box"><div class="level"> Level 3 </div><div class="clearance">Secret</div></div>
  <div class="contain-class"><div class="class-category">Containment Class:</div><div class="class-text">Keter</div></div>
  <div class="second-class"><div class="class-text">{$secondary-class}</div></div>
  <div class="disrupt-class"><div class="class-text">3/<b>Keneq</b></div></div>
  <div class="risk-class"><div class="class-text">Risk Class: Danger</div></div>
</div>
</body></html>"#;

const HYBRID_PAGE: &str = r#"<html><body>
<div class="acs-hybrid-text-bar">
  <div class="acs-clear"><strong>CLEARANCE 4</strong><span class="clearance-level-text">Clearance</span></div>
  <div class="acs-contain"><div class="acs-text"><span>Containment</span><span>Euclid</span></div></div>
  <div class="acs-secondary"><div class="acs-text"><span>Secondary</span><span>none</span></div></div>
  <div class="acs-disrupt"><div class="acs-text">Disruption Class: Vlam</div></div>
  <div class="acs-risk"><div class="acs-text">Risk Class: Notice</div></div>
</div>
</body></html>"#;

const BOTH_BARS_PAGE: &str = r#"<html><body>
<div class="acs-hybrid-text-bar">
  <div class="acs-contain"><div class="acs-text"><span>Containment</span><span>Euclid</span></div></div>
</div>
<div class="anom-bar-container">
  <div class="contain-class"><div class="class-text">Safe</div></div>
</div>
</body></html>"#;

const FLOPS_PAGE: &str = r#"<html><body>
<table class="itemInfo darkbox"><tbody>
<tr><td>Item#: 4999</td><td><span>Level 4</span></td></tr>
<tr><td>Containment Class: Thaumiel</td><td><span>Top Secret</span></td></tr>
</tbody></table><p><a class="disruptionHeader">Disruption Class: Ekhi</a></p>
</body></html>"#;

const AIM_PAGE: &str = r#"<html><body>
<div class="desktop-aim"><div class="w-container"><div><div class="cell-container-image"></div><div><p><span><span class="three">3</span></span></p></div><div><p>Containment Class: Safe</p></div><div><p>Disruption Class: Dark</p></div></div></div></div>
</body></html>"#;

fn fields(raw: &RawAcs) -> (&str, &str, &str, Strategy) {
    let shared = match raw {
        RawAcs::Bar { shared, .. } => shared,
        RawAcs::Flops { shared, .. } => shared,
        RawAcs::Aim { shared, .. } => shared,
        RawAcs::Backup { shared, .. } => shared,
    };
    (shared.contain.as_str(), shared.secondary.as_str(), shared.disrupt.as_str(), shared.scraper)
}

#[test]
fn markers_of_each_layout() {
    let none = Markers { bar: false, lite_bar: false, hybrid_bar: false, flops_header: false, aim_header: false };
    assert_eq!(detect_markers(BAR_PAGE), Markers { bar: true, ..none });
    assert_eq!(detect_markers(HYBRID_PAGE), Markers { hybrid_bar: true, ..none });
    assert_eq!(detect_markers(FLOPS_PAGE), Markers { flops_header: true, ..none });
    assert_eq!(detect_markers(AIM_PAGE), Markers { aim_header: true, ..none });
    assert_eq!(detect_markers("<p>plain</p>"), none);
    assert_eq!(
        detect_markers(r#"<div class="anom-lite-bar-container"></div>"#),
        Markers { lite_bar: true, ..none }
    );
}

#[test]
fn strategy_follows_the_fixed_order() {
    let all = Markers { bar: true, lite_bar: true, hybrid_bar: true, flops_header: true, aim_header: true };
    assert_eq!(choose_strategy(all), Strategy::Bar);
    assert_eq!(choose_strategy(Markers { bar: false, ..all }), Strategy::Bar);
    assert_eq!(choose_strategy(Markers { bar: false, lite_bar: false, ..all }), Strategy::HybridBar);
    assert_eq!(
        choose_strategy(Markers { bar: false, lite_bar: false, hybrid_bar: false, ..all }),
        Strategy::FlopsHeader
    );
    assert_eq!(
        choose_strategy(Markers { bar: false, lite_bar: false, hybrid_bar: false, flops_header: false, aim_header: true }),
        Strategy::AimHeader
    );
    assert_eq!(
        choose_strategy(Markers { bar: false, lite_bar: false, hybrid_bar: false, flops_header: false, aim_header: false }),
        Strategy::HeuristicText
    );
}

#[test]
fn bar_wins_over_hybrid_bar() {
    let m = detect_markers(BOTH_BARS_PAGE);
    assert!(m.bar && m.hybrid_bar);
    let raw = extract(BOTH_BARS_PAGE).expect("a bar always yields a record");
    let (contain, _, _, strategy) = fields(&raw);
    assert_eq!(strategy, Strategy::Bar);
    assert_eq!(contain, "Safe");
}

#[test]
fn bar_fields() {
    match get_acs_bar(BAR_PAGE) {
        RawAcs::Bar { shared, clearance, clearance_text, risk } => {
            assert_eq!(clearance, "LEVEL 3");
            assert_eq!(clearance_text, "Secret");
            assert_eq!(shared.contain, "Keter");
            assert_eq!(shared.secondary, "");
            assert_eq!(shared.disrupt, "Keneq");
            assert_eq!(risk, "Danger");
            assert_eq!(shared.scraper, Strategy::Bar);
        }
        _ => panic!("a bar yields a bar record"),
    }
}

#[test]
fn hybrid_bar_fields_and_placeholder() {
    match get_acs_hybrid_bar(HYBRID_PAGE) {
        RawAcs::Bar { shared, clearance, clearance_text, risk } => {
            assert_eq!(clearance, "LEVEL 4");
            assert_eq!(clearance_text, "");
            assert_eq!(shared.contain, "Euclid");
            assert_eq!(shared.secondary, "");
            assert_eq!(shared.disrupt, "Vlam");
            assert_eq!(risk, "Notice");
            assert_eq!(shared.scraper, Strategy::HybridBar);
        }
        _ => panic!("a hybrid bar yields a bar record"),
    }
    assert_eq!(discard_placeholder("Clearance".to_string()), "");
    assert_eq!(discard_placeholder("Top Secret".to_string()), "Top Secret");
    assert_eq!(discard_placeholder("Clearance 2".to_string()), "Clearance 2");
}

#[test]
fn flops_header_demotes_an_unknown_containment_class() {
    match get_flops_header(FLOPS_PAGE) {
        RawAcs::Flops { shared, clearance, clearance_text } => {
            assert_eq!(clearance, "LEVEL 4");
            assert_eq!(clearance_text, "Top Secret");
            assert_eq!(shared.contain, "esoteric");
            assert_eq!(shared.secondary, "Thaumiel");
            assert_eq!(shared.disrupt, "Ekhi");
            assert_eq!(shared.scraper, Strategy::FlopsHeader);
        }
        _ => panic!("a Flops header yields a Flops record"),
    }
}

#[test]
fn aim_header_fields() {
    match get_aim_header(AIM_PAGE) {
        RawAcs::Aim { shared, clearance } => {
            assert_eq!(clearance, "LEVEL 3");
            assert_eq!(shared.contain, "Safe");
            assert_eq!(shared.secondary, "");
            assert_eq!(shared.disrupt, "Dark");
            assert_eq!(shared.scraper, Strategy::AimHeader);
        }
        _ => panic!("an AIM header yields an AIM record"),
    }
    let unknown = AIM_PAGE.replace("Containment Class: Safe", "Containment Class: Archon");
    match get_aim_header(&unknown) {
        RawAcs::Aim { shared, .. } => {
            assert_eq!(shared.contain, "esoteric");
            assert_eq!(shared.secondary, "Archon");
        }
        _ => panic!("an AIM header yields an AIM record"),
    }
}

#[test]
fn demotion_of_containment_values() {
    assert_eq!(demote("Keter".to_string()), ("Keter".to_string(), String::new()));
    assert_eq!(demote("ESOTERIC".to_string()), ("ESOTERIC".to_string(), String::new()));
    assert_eq!(demote("Thaumiel".to_string()), ("esoteric".to_string(), "Thaumiel".to_string()));
    assert_eq!(demote(String::new()), ("esoteric".to_string(), String::new()));
}

#[test]
fn aim_level_tokens() {
    for (token, level) in [
        ("one", "LEVEL 1"),
        ("two", "LEVEL 2"),
        ("three", "LEVEL 3"),
        ("four", "LEVEL 4"),
        ("five", "LEVEL 5"),
        ("six", "LEVEL 6"),
        ("seven", ""),
        ("One", ""),
        ("", ""),
    ] {
        assert_eq!(level_from_token(token), level, "{}", token);
    }
}

#[test]
fn free_text_with_a_labelled_disruption_class() {
    let page = "<html><body><p>disruption class: vlam</p></body></html>";
    let raw = extract(page).expect("the label yields a record");
    match raw {
        RawAcs::Backup { shared, risk } => {
            assert_eq!(shared.scraper, Strategy::HeuristicText);
            assert_eq!(shared.disrupt, "vlam");
            assert_eq!(shared.contain, "");
            assert_eq!(shared.secondary, "");
            assert_eq!(risk, "");
        }
        _ => panic!("free text yields a backup record"),
    }
}

#[test]
fn free_text_keyword_wins_over_label() {
    let raw = backup_from_text("containment class: keter\ndisruption class: dark\nit is very amida indeed\n")
        .expect("a keyword yields a record");
    let (contain, secondary, disrupt, strategy) = fields(&raw);
    assert_eq!(contain, "keter");
    assert_eq!(secondary, "");
    assert_eq!(disrupt, "amida");
    assert_eq!(strategy, Strategy::HeuristicText);
    let first = backup_from_text("an ekhi and a vlam here").expect("a keyword yields a record");
    assert_eq!(fields(&first).2, "vlam");
}

#[test]
fn free_text_reads_labels_in_lower_case() {
    let page = "<html><body><p>Containment Class: Keter\n</p><p>Risk Class: Critical\nSecondary Class: Apollyon</p></body></html>";
    match backup_acs_function(page).expect("labels yield a record") {
        RawAcs::Backup { shared, risk } => {
            assert_eq!(shared.contain, "keter");
            assert_eq!(risk, "critical");
            assert_eq!(shared.secondary, "apollyon");
            assert_eq!(shared.disrupt, "");
        }
        _ => panic!("free text yields a backup record"),
    }
}

#[test]
fn free_text_without_classes_yields_nothing() {
    assert!(backup_from_text("nothing of note").is_none());
    assert!(backup_from_text("").is_none());
    assert!(backup_from_text("containment class: keter").is_none());
    assert!(backup_from_text("risk class: none\n").is_none());
    assert!(extract("<html><body><p>Containment Class: Safe</p></body></html>").is_none());
}

#[test]
fn selected_text_is_trimmed() {
    let page = "<html><body><div id=\"a\">\n  spaced <i>out</i> \n</div><div class=\"k big\" id=\"b\"></div></body></html>";
    assert_eq!(extract_text(page, "#a"), Some("spaced out".to_string()));
    assert_eq!(extract_text(page, "#b"), Some(String::new()));
    assert_eq!(extract_text(page, "#c"), None);
    assert_eq!(extract_text(page, "div"), Some("spaced out".to_string()));
    assert_eq!(extract_text(page, "<<<"), None);
    assert_eq!(extract_class(page, "#b"), Some("k big".to_string()));
    assert_eq!(extract_class(page, "#a"), None);
    assert_eq!(extract_class(page, "span"), None);
    assert_eq!(trimmed(Some("  x  ".to_string())), Some("x".to_string()));
    assert_eq!(trimmed(None), None);
}

#[test]
fn pages_that_are_hardly_pages() {
    for page in ["", "<", "<!-- only a comment -->", "plain text", "</html>", "<html"] {
        assert_eq!(extract_text(page, "div"), None, "{:?}", page);
        assert_eq!(extract_class(page, "div"), None, "{:?}", page);
        assert!(backup_acs_function(page).is_none(), "{:?}", page);
        assert!(extract(page).is_none(), "{:?}", page);
        assert!(!detect_markers(page).bar, "{:?}", page);
    }
    assert_eq!(extract_text("plain text", "body"), Some("plain text".to_string()));
    assert_eq!(extract_text("plain text", "html"), None);
}

#[test]
fn free_text_is_read_in_lower_case_whatever_its_case() {
    let ascii = backup_acs_function("<p>DISRUPTION CLASS: VLAM</p>").expect("the label yields a record");
    assert_eq!(fields(&ascii).2, "vlam");
    let wide = backup_acs_function("<p>Disruption Class: ÉKHI Ünder</p>").expect("the label yields a record");
    assert_eq!(fields(&wide).2, "ékhi ünder");
}

#[test]
fn ascii_white_space_is_the_blank_and_five_controls() {
    for code in 0u8..128 {
        let c = code as char;
        let text = format!("{}x{}", c, c);
        let expected = if c == ' ' || ('\u{9}'..='\u{d}').contains(&c) { "x".to_string() } else { text.clone() };
        assert_eq!(trimmed(Some(text)), Some(expected), "U+{:04X}", code);
    }
}

#[test]
fn ascii_text_is_lowered_letter_by_letter() {
    for code in 32u8..127 {
        let c = code as char;
        if "<&:/".contains(c) {
            continue;
        }
        let page = format!("<p>Disruption Class: x{}x</p>", c);
        let raw = backup_acs_function(&page).expect("the label yields a record");
        let lowered = if c.is_ascii_uppercase() { (code + 32) as char } else { c };
        assert_eq!(fields(&raw).2, format!("x{}x", lowered), "U+{:04X}", code);
    }
}

#[test]
fn hybrid_bar_clearance_is_converted_from_the_text_as_selected() {
    for (text, level) in [
        ("4/3787", "LEVEL 4"),
        ("LEVEL 3/EE-7372", "LEVEL 3"),
        ("Level 4/2317", "LEVEL 4"),
        ("Clearance 2: see 5", "LEVEL 2"),
        ("none", "none"),
        ("", ""),
    ] {
        let page = HYBRID_PAGE.replace("CLEARANCE 4", text);
        match get_acs_hybrid_bar(&page) {
            RawAcs::Bar { clearance, .. } => assert_eq!(clearance, level, "{:?}", text),
            _ => panic!("a hybrid bar yields a bar record"),
        }
    }
}

#[test]
fn bar_clearance_is_converted_from_the_cleaned_text() {
    let page = BAR_PAGE.replace(" Level 3 ", "4/3787");
    match get_acs_bar(&page) {
        RawAcs::Bar { clearance, .. } => assert_eq!(clearance, "LEVEL 3"),
        _ => panic!("a bar yields a bar record"),
    }
}
