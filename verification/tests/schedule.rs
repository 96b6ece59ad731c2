use acs_scraper::fetch::{Cause, HarvestError};
use acs_scraper::record::{Acs, SCPInfo, Strategy};
use acs_scraper::schedule::{
    after_attempt, attempt_of, attempt_of_entry, backoff_secs, targets_in_range, Action, Attempt,
    Harvest, Slot, Step, Verdict, THROTTLE_MILLIS,
};

fn record(number: &str) -> Acs {
    Acs {
        name: String::new(),
        actual_number: number.to_string(),
        display_number: String::new(),
        clearance: String::new(),
        clearance_text: String::new(),
        contain: String::new(),
        secondary: String::new(),
        disrupt: String::new(),
        risk: String::new(),
        url: String::new(),
        fragment: false,
        scraper: Strategy::Bar,
    }
}

#[test]
fn backoff_doubles_and_saturates() {
    assert_eq!(backoff_secs(0), 1);
    assert_eq!(backoff_secs(1), 2);
    assert_eq!(backoff_secs(2), 4);
    assert_eq!(backoff_secs(3), 8);
    assert_eq!(backoff_secs(10), 1024);
    assert_eq!(backoff_secs(63), 1u64 << 63);
    assert_eq!(backoff_secs(64), u64::MAX);
    assert_eq!(backoff_secs(65535), u64::MAX);
    assert_eq!(THROTTLE_MILLIS, 1000);
}

#[test]
fn steps_after_an_attempt() {
    assert!(matches!(after_attempt(0, 5, Attempt::Record(record("SCP-1"))), Step::Keep(_)));
    assert!(matches!(after_attempt(0, 5, Attempt::Nothing), Step::Drop));
    assert!(matches!(after_attempt(5, 5, Attempt::Nothing), Step::Drop));
    assert!(matches!(after_attempt(0, 5, Attempt::Failed), Step::Retry { wait_secs: 2 }));
    assert!(matches!(after_attempt(1, 5, Attempt::Failed), Step::Retry { wait_secs: 4 }));
    assert!(matches!(after_attempt(4, 5, Attempt::Failed), Step::Retry { wait_secs: 32 }));
    assert!(matches!(after_attempt(5, 5, Attempt::Failed), Step::Drop));
    assert!(matches!(after_attempt(0, 0, Attempt::Failed), Step::Drop));
}

#[test]
fn results_become_attempts() {
    assert!(matches!(attempt_of(Ok(Some(record("SCP-1")))), Attempt::Record(_)));
    assert!(matches!(attempt_of(Ok(None)), Attempt::Nothing));
    assert!(matches!(attempt_of(Err(Cause::Status(500))), Attempt::Failed));
    assert!(matches!(attempt_of_entry(Ok(record("SCP-1"))), Attempt::Record(_)));
    assert!(matches!(attempt_of_entry(Err(HarvestError::NoData)), Attempt::Nothing));
    assert!(matches!(
        attempt_of_entry(Err(HarvestError::Fetch(Cause::Transport("reset".to_string())))),
        Attempt::Failed
    ));
}

#[test]
fn a_target_that_always_fails_is_attempted_once_more_than_the_ceiling() {
    for ceiling in [0u16, 1, 5, 12] {
        let mut h = Harvest::new(1, 3, ceiling);
        assert_eq!(h.next_action(), Action::Start(0));
        let mut attempts: u32 = 0;
        loop {
            attempts += 1;
            match h.finish_attempt(0, Attempt::Failed) {
                Verdict::Retry { wait_secs } => assert_eq!(wait_secs, 1u64 << attempts),
                Verdict::Dropped => break,
                Verdict::Kept => panic!("a failure keeps nothing"),
            }
        }
        assert_eq!(attempts, ceiling as u32 + 1);
        assert_eq!(h.slot(0), Some(Slot::Finished));
        assert_eq!(h.slot(1), None);
        assert!(!h.is_running(0));
        assert_eq!(h.in_flight(), 0);
        assert_eq!(h.next_action(), Action::Finished);
        assert!(h.into_records().is_empty());
    }
}

#[test]
fn the_number_in_flight_never_exceeds_the_limit() {
    let total = 25;
    let limit = 4;
    let mut h = Harvest::new(total, limit, 2);
    let mut running: Vec<usize> = Vec::new();
    let mut peak = 0;
    let mut turn = 0usize;
    loop {
        match h.next_action() {
            Action::Start(i) => {
                assert_eq!(i + 1, h.started());
                assert!(h.is_running(i));
                running.push(i);
            }
            Action::Wait => {
                turn += 1;
                let target = running.remove(turn % running.len());
                let outcome = match target % 3 {
                    0 => Attempt::Record(record(&format!("SCP-{}", target))),
                    1 => Attempt::Nothing,
                    _ => Attempt::Failed,
                };
                if let Verdict::Retry { .. } = h.finish_attempt(target, outcome) {
                    running.push(target);
                }
            }
            Action::Finished => break,
        }
        assert_eq!(h.in_flight(), running.len());
        assert!(h.in_flight() <= limit);
        peak = peak.max(h.in_flight());
    }
    assert_eq!(peak, limit);
    assert_eq!(h.limit(), limit);
    assert_eq!(h.started(), total);
    assert_eq!(h.total(), total);
    assert!((0..total).all(|i| h.slot(i) == Some(Slot::Finished)));
    assert_eq!(h.kept(), 9);
    let kept: Vec<String> = h.into_records().into_iter().map(|r| r.actual_number).collect();
    assert_eq!(kept.len(), 9);
    assert!(kept.contains(&"SCP-24".to_string()));
}

#[test]
fn a_harvest_without_slots_or_targets_is_finished() {
    assert_eq!(Harvest::new(0, 10, 5).next_action(), Action::Finished);
    assert_eq!(Harvest::new(10, 0, 5).next_action(), Action::Finished);
    let mut one = Harvest::new(2, 1, 0);
    assert_eq!(one.next_action(), Action::Start(0));
    assert_eq!(one.next_action(), Action::Wait);
    assert_eq!(one.finish_attempt(0, Attempt::Record(record("SCP-5"))), Verdict::Kept);
    assert_eq!(one.next_action(), Action::Start(1));
    assert_eq!(one.finish_attempt(1, Attempt::Nothing), Verdict::Dropped);
    assert_eq!(one.next_action(), Action::Finished);
    assert_eq!(one.kept(), 1);
    assert_eq!(one.into_records()[0].actual_number, "SCP-5");
}

#[test]
fn targets_are_the_listed_numbers_of_the_range() {
    let catalog: Vec<SCPInfo> = [("SCP-003", "c"), ("SCP-001", "a"), ("SCP-100", "x"), ("SCP-003", "again")]
        .iter()
        .map(|(n, u)| SCPInfo {
            actual_number: n.to_string(),
            display_number: String::new(),
            name: String::new(),
            url: u.to_string(),
        })
        .collect();
    let t: Vec<(String, String)> =
        targets_in_range(&catalog, 1, 100).into_iter().map(|t| (t.actual_number, t.url)).collect();
    assert_eq!(
        t,
        [
            ("SCP-001".to_string(), "a".to_string()),
            ("SCP-003".to_string(), "c".to_string()),
            ("SCP-100".to_string(), "x".to_string()),
        ]
    );
    assert_eq!(targets_in_range(&catalog, 2, 3).len(), 1);
    assert!(targets_in_range(&catalog, 4, 99).is_empty());
    assert!(targets_in_range(&catalog, 100, 1).is_empty());
    assert!(targets_in_range(&catalog, 65535, 65535).is_empty());
    assert_eq!(targets_in_range(&catalog, 0, 65535).len(), 3);
}
