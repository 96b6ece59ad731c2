use acs_scraper::record::{RawAcs, SharedAcs, Strategy};
use acs_scraper::sort_json::SortableField;

fn shared(strategy: Strategy) -> SharedAcs {
    SharedAcs {
        contain: "keter".to_string(),
        secondary: "thaumiel".to_string(),
        disrupt: "vlam".to_string(),
        scraper: strategy,
    }
}

#[test]
fn layouts_are_read_back_from_their_labels() {
    for (strategy, label) in [
        (Strategy::Bar, "ACS Bar"),
        (Strategy::HybridBar, "ACS Hybrid Bar"),
        (Strategy::FlopsHeader, "Flops Header"),
        (Strategy::AimHeader, "AIM Header"),
        (Strategy::HeuristicText, "Backup"),
    ] {
        assert_eq!(strategy.label(), label);
        assert_eq!(Strategy::from_label(label), Some(strategy));
    }
    assert_eq!(Strategy::from_label("acs bar"), None);
    assert_eq!(Strategy::from_label(""), None);
}

#[test]
fn shared_fields_by_name() {
    let s = shared(Strategy::FlopsHeader);
    assert_eq!(s.get_shared_field("contain").as_deref(), Some("keter"));
    assert_eq!(s.get_shared_field("secondary").as_deref(), Some("thaumiel"));
    assert_eq!(s.get_shared_field("disrupt").as_deref(), Some("vlam"));
    assert_eq!(s.get_shared_field("scraper").as_deref(), Some("Flops Header"));
    assert_eq!(s.get_shared_field("risk"), None);
    assert_eq!(s.get_shared_field("Contain"), None);
}

#[test]
fn raw_records_have_the_fields_of_their_layout() {
    let bar = RawAcs::Bar {
        shared: shared(Strategy::Bar),
        clearance: "LEVEL 1".to_string(),
        clearance_text: "Unrestricted".to_string(),
        risk: "notice".to_string(),
    };
    let flops = RawAcs::Flops {
        shared: shared(Strategy::FlopsHeader),
        clearance: "LEVEL 2".to_string(),
        clearance_text: "Restricted".to_string(),
    };
    let aim = RawAcs::Aim { shared: shared(Strategy::AimHeader), clearance: "LEVEL 3".to_string() };
    let backup = RawAcs::Backup { shared: shared(Strategy::HeuristicText), risk: "danger".to_string() };

    assert_eq!(bar.get_field("clearance"), "LEVEL 1");
    assert_eq!(bar.get_field("clearance_text"), "Unrestricted");
    assert_eq!(bar.get_field("risk"), "notice");
    assert_eq!(bar.get_field("contain"), "keter");
    assert!(!bar.knows_field("name"));

    assert_eq!(flops.get_field("clearance_text"), "Restricted");
    assert_eq!(flops.get_field("scraper"), "Flops Header");
    assert!(!flops.knows_field("risk"));

    assert_eq!(aim.get_field("clearance"), "LEVEL 3");
    assert!(!aim.knows_field("clearance_text"));
    assert!(!aim.knows_field("risk"));

    assert_eq!(backup.get_field("risk"), "danger");
    assert_eq!(backup.get_field("disrupt"), "vlam");
    assert!(!backup.knows_field("clearance"));
    assert!(backup.lookup("url").is_none());
}
