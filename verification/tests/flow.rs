use branch_picker::catalog::{BranchEntry, CommitStamp};
use branch_picker::flow::{advance, begin, Action, Event, Failure, Outcome, Stage};
use branch_picker::guard::{is_clean, status_query};
use branch_picker::time::ClockReading;

const CLOCK: i64 = 1_700_000_000;

fn reported(name: &str, seconds: i64) -> BranchEntry {
    BranchEntry {
        name: Some(name.to_string()),
        head: Some(CommitStamp { id: vec![7; 20], seconds, offset_minutes: 0 }),
    }
}

fn listing() -> Event {
    Event::BranchesListed {
        entries: vec![reported("feature-old", CLOCK - 90_000), reported("feature", CLOCK - 600)],
        now: ClockReading::new(CLOCK, 0).unwrap(),
    }
}

fn at_the_picker() -> (Stage, String) {
    let (stage, _) = begin();
    let (stage, _) = advance(stage, Event::StatusRead { pending_changes: 0 });
    match advance(stage, listing()) {
        (stage, Action::Pick { block }) => (stage, block),
        other => panic!("{:?}", other),
    }
}

fn outcome_of(stage: &Stage) -> &Outcome {
    match stage {
        Stage::Finished { outcome } => outcome,
        other => panic!("not finished: {:?}", other),
    }
}

#[test]
fn tree_without_changes_is_clean() {
    assert!(is_clean(0));
}

#[test]
fn tree_with_a_change_is_not_clean() {
    assert!(!is_clean(1));
    assert!(!is_clean(usize::MAX));
}

#[test]
fn status_is_asked_without_ignored_files() {
    assert!(!status_query().include_ignored);
    assert_eq!(begin(), (Stage::AwaitingStatus, Action::ReadStatus { include_ignored: false }));
}

#[test]
fn dirty_tree_ends_the_run_before_any_listing() {
    let (stage, action) = begin();
    assert_eq!(action, Action::ReadStatus { include_ignored: false });
    let (stage, action) = advance(stage, Event::StatusRead { pending_changes: 1 });
    assert_eq!(action, Action::Stop);
    assert_eq!(stage, Stage::Finished { outcome: Outcome::Failed(Failure::DirtyWorkingTree) });
    assert_eq!(outcome_of(&stage).exit_code(), 1);
    assert_eq!(outcome_of(&stage).diagnostic(), Some("Not clean".to_string()));
    // a listing reported all the same builds no catalog
    let (stage, action) = advance(stage, listing());
    assert_eq!(action, Action::Stop);
    assert_eq!(stage, Stage::Finished { outcome: Outcome::Failed(Failure::DirtyWorkingTree) });
}

#[test]
fn clean_tree_leads_to_the_listing() {
    let (stage, _) = begin();
    let (stage, action) = advance(stage, Event::StatusRead { pending_changes: 0 });
    assert_eq!(stage, Stage::AwaitingBranches);
    assert_eq!(action, Action::ListBranches);
}

#[test]
fn listing_leads_to_the_picker_with_the_block() {
    let (stage, block) = at_the_picker();
    assert_eq!(
        block,
        "feature     | 10 minutes (2023-11-14 22:03:20)\n\
         feature-old | 1 days     (2023-11-13 21:13:20)"
    );
    match stage {
        Stage::AwaitingPick { catalog } => {
            assert_eq!(catalog.len(), 2);
            assert_eq!(*catalog.get(0).unwrap().name(), "feature");
        },
        other => panic!("{:?}", other),
    }
}

#[test]
fn picked_line_leads_to_the_checkout_of_its_branch() {
    let (stage, block) = at_the_picker();
    let line = block.split('\n').next().unwrap().to_string();
    let (stage, action) = advance(stage, Event::Picked { line: Some(line) });
    assert_eq!(action, Action::Checkout { branch: "feature".to_string() });
    assert_eq!(stage, Stage::AwaitingCheckout { branch: "feature".to_string() });
    let (stage, action) = advance(stage, Event::CheckedOut);
    assert_eq!(action, Action::Stop);
    let outcome = outcome_of(&stage);
    assert_eq!(*outcome, Outcome::Switched { branch: "feature".to_string() });
    assert_eq!(outcome.exit_code(), 0);
    assert_eq!(outcome.diagnostic(), None);
}

#[test]
fn second_line_leads_to_the_longer_name() {
    let (stage, block) = at_the_picker();
    let line = block.split('\n').nth(1).unwrap().to_string();
    let (_, action) = advance(stage, Event::Picked { line: Some(line) });
    assert_eq!(action, Action::Checkout { branch: "feature-old".to_string() });
}

#[test]
fn leaving_the_picker_cancels_the_run() {
    let (stage, _) = at_the_picker();
    let (stage, action) = advance(stage, Event::Picked { line: None });
    assert_eq!(action, Action::Stop);
    let outcome = outcome_of(&stage);
    assert_eq!(*outcome, Outcome::Cancelled);
    assert_eq!(outcome.exit_code(), 1);
    assert_eq!(outcome.diagnostic(), Some("No selection made".to_string()));
}

#[test]
fn picker_that_could_not_run_cancels_the_run() {
    let (stage, _) = at_the_picker();
    let (stage, action) = advance(stage, Event::Failed { message: "no terminal".to_string() });
    assert_eq!(action, Action::Stop);
    assert_eq!(*outcome_of(&stage), Outcome::Cancelled);
}

#[test]
fn line_of_no_branch_fails_the_run() {
    let (stage, _) = at_the_picker();
    let (stage, action) = advance(stage, Event::Picked { line: Some("trunk | x".to_string()) });
    assert_eq!(action, Action::Stop);
    let outcome = outcome_of(&stage);
    assert_eq!(*outcome, Outcome::Failed(Failure::NoMatchingBranch));
    assert_eq!(outcome.exit_code(), 1);
    assert_eq!(outcome.diagnostic(), Some("No matching branch".to_string()));
}

#[test]
fn line_that_was_not_shown_fails_the_run() {
    let (stage, _) = at_the_picker();
    let line = "feature-new | 10 minutes (2023-11-14 22:03:20)".to_string();
    let (stage, action) = advance(stage, Event::Picked { line: Some(line) });
    assert_eq!(action, Action::Stop);
    assert_eq!(*outcome_of(&stage), Outcome::Failed(Failure::NoMatchingBranch));
}

#[test]
fn failed_checkout_fails_the_run_with_its_message() {
    let (stage, block) = at_the_picker();
    let line = block.split('\n').next().unwrap().to_string();
    let (stage, _) = advance(stage, Event::Picked { line: Some(line) });
    let (stage, action) = advance(stage, Event::Failed { message: "exit status: 1".to_string() });
    assert_eq!(action, Action::Stop);
    let outcome = outcome_of(&stage);
    assert_eq!(
        *outcome,
        Outcome::Failed(Failure::CheckoutFailure { message: "exit status: 1".to_string() })
    );
    assert_eq!(outcome.exit_code(), 1);
    assert_eq!(outcome.diagnostic(), Some("exit status: 1".to_string()));
}

#[test]
fn status_that_could_not_be_read_fails_the_run() {
    let (stage, _) = begin();
    let (stage, action) = advance(stage, Event::Failed { message: "not a repository".to_string() });
    assert_eq!(action, Action::Stop);
    let outcome = outcome_of(&stage);
    assert_eq!(
        *outcome,
        Outcome::Failed(Failure::Repository { message: "not a repository".to_string() })
    );
    assert_eq!(outcome.diagnostic(), Some("not a repository".to_string()));
    assert_eq!(outcome.exit_code(), 1);
}

#[test]
fn branches_that_could_not_be_listed_fail_the_run() {
    let (stage, _) = begin();
    let (stage, _) = advance(stage, Event::StatusRead { pending_changes: 0 });
    let (stage, action) = advance(stage, Event::Failed { message: "bad ref".to_string() });
    assert_eq!(action, Action::Stop);
    assert_eq!(
        *outcome_of(&stage),
        Outcome::Failed(Failure::Repository { message: "bad ref".to_string() })
    );
}

#[test]
fn faulty_branch_fails_the_run() {
    let (stage, _) = begin();
    let (stage, _) = advance(stage, Event::StatusRead { pending_changes: 0 });
    let mut unborn = reported("unborn", 0);
    unborn.head = None;
    let event = Event::BranchesListed {
        entries: vec![reported("main", 5), unborn],
        now: ClockReading::new(CLOCK, 0).unwrap(),
    };
    let (stage, action) = advance(stage, event);
    assert_eq!(action, Action::Stop);
    let outcome = outcome_of(&stage);
    assert_eq!(*outcome, Outcome::Failed(Failure::UnresolvableBranch { position: 1 }));
    assert_eq!(outcome.diagnostic(), Some("No commit for branch at position 1".to_string()));
    assert_eq!(outcome.exit_code(), 1);
}

#[test]
fn branch_without_a_text_name_fails_the_run() {
    let (stage, _) = begin();
    let (stage, _) = advance(stage, Event::StatusRead { pending_changes: 0 });
    let mut nameless = reported("x", 0);
    nameless.name = None;
    let mut entries = Vec::new();
    for i in 0..12 {
        entries.push(reported(&format!("b{}", i), i));
    }
    entries.push(nameless);
    let event = Event::BranchesListed { entries, now: ClockReading::new(CLOCK, 0).unwrap() };
    let (stage, _) = advance(stage, event);
    let outcome = outcome_of(&stage);
    assert_eq!(*outcome, Outcome::Failed(Failure::InvalidBranchName { position: 12 }));
    assert_eq!(outcome.diagnostic(), Some("Invalid branch name at position 12".to_string()));
}

#[test]
fn event_out_of_turn_fails_the_run() {
    let (stage, _) = begin();
    let (stage, action) = advance(stage, Event::CheckedOut);
    assert_eq!(action, Action::Stop);
    let outcome = outcome_of(&stage);
    assert_eq!(*outcome, Outcome::Failed(Failure::OutOfTurn));
    assert_eq!(outcome.diagnostic(), Some("Event out of turn".to_string()));
    assert_eq!(outcome.exit_code(), 1);

    let (stage, _) = begin();
    let (stage, _) = advance(stage, listing());
    assert_eq!(*outcome_of(&stage), Outcome::Failed(Failure::OutOfTurn));

    let (stage, _) = at_the_picker();
    let (stage, _) = advance(stage, Event::StatusRead { pending_changes: 0 });
    assert_eq!(*outcome_of(&stage), Outcome::Failed(Failure::OutOfTurn));
}

#[test]
fn finished_run_stays_finished() {
    let (stage, _) = at_the_picker();
    let (stage, _) = advance(stage, Event::Picked { line: None });
    let (stage, action) = advance(stage, Event::StatusRead { pending_changes: 0 });
    assert_eq!(action, Action::Stop);
    assert_eq!(*outcome_of(&stage), Outcome::Cancelled);
    let (stage, action) = advance(stage, Event::CheckedOut);
    assert_eq!(action, Action::Stop);
    assert_eq!(*outcome_of(&stage), Outcome::Cancelled);
}

#[test]
fn no_branches_lead_to_an_empty_block() {
    let (stage, _) = begin();
    let (stage, _) = advance(stage, Event::StatusRead { pending_changes: 0 });
    let event = Event::BranchesListed { entries: Vec::new(), now: ClockReading::new(CLOCK, 0).unwrap() };
    let (stage, action) = advance(stage, event);
    assert_eq!(action, Action::Pick { block: String::new() });
    let (stage, _) = advance(stage, Event::Picked { line: None });
    assert_eq!(*outcome_of(&stage), Outcome::Cancelled);
}
