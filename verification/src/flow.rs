//! One run from start to exit: what to do next, given what has happened.
//!
//! The work on the repository, the picker and the checkout lie outside;
//! whoever drives the run does what an `Action` asks and reports the result
//! as an `Event`.

use vstd::prelude::*;
use vstd::string::*;

use crate::catalog::{
    build_catalog, faultless, is_catalog, is_first_fault, records_of, BranchEntry, Catalog,
    CatalogError,
};
use crate::decimal::{digits, push_digits};
use crate::guard::{is_clean, status_query};
use crate::ranking::is_ranking;
use crate::render::{block_text, lines_of, render_block};
use crate::resolve::{is_choice, no_choice, resolve, ResolveError, Selection};
use crate::time::{ClockReading, ClockView};

verus! {

/// Why a run ended without a checkout.
#[derive(Clone, Debug, PartialEq, Eq)]
pub enum Failure {
    /// The working tree holds pending changes.
    DirtyWorkingTree,
    /// The repository could not be read.
    Repository { message: String },
    /// See `CatalogError::InvalidBranchName`.
    InvalidBranchName { position: usize },
    /// See `CatalogError::UnresolvableBranch`.
    UnresolvableBranch { position: usize },
    /// The picked line begins with the name of no branch.
    NoMatchingBranch,
    /// The checkout was tried and failed.
    CheckoutFailure { message: String },
    /// An event was reported that answers no action that was asked.
    OutOfTurn,
}

/// How a run ended.
#[derive(Clone, Debug, PartialEq, Eq)]
pub enum Outcome {
    /// The branch was checked out.
    Switched { branch: String },
    /// The operator left the picker without a pick.
    Cancelled,
    Failed(Failure),
}

/// The one line told to the operator about an outcome; none where the
/// branch was checked out.
pub open spec fn diagnostic_of(outcome: Outcome) -> Option<Seq<char>> {
    match outcome {
        Outcome::Switched { branch } => None,
        Outcome::Cancelled => Some("No selection made"@),
        Outcome::Failed(Failure::DirtyWorkingTree) => Some("Not clean"@),
        Outcome::Failed(Failure::Repository { message }) => Some(message@),
        Outcome::Failed(Failure::InvalidBranchName { position }) => Some(
            "Invalid branch name at position "@ + digits(position as nat),
        ),
        Outcome::Failed(Failure::UnresolvableBranch { position }) => Some(
            "No commit for branch at position "@ + digits(position as nat),
        ),
        Outcome::Failed(Failure::NoMatchingBranch) => Some("No matching branch"@),
        Outcome::Failed(Failure::CheckoutFailure { message }) => Some(message@),
        Outcome::Failed(Failure::OutOfTurn) => Some("Event out of turn"@),
    }
}

impl Outcome {
    /// 0 where the branch was checked out, 1 for every other end.
    pub open spec fn spec_exit_code(&self) -> i32 {
        if self is Switched {
            0
        } else {
            1
        }
    }

    /// The status that the process leaves with.
    #[verifier::when_used_as_spec(spec_exit_code)]
    pub fn exit_code(&self) -> (code: i32)
        ensures
            code == self.spec_exit_code(),
    {
        match self {
            Outcome::Switched { .. } => 0,
            _ => 1,
        }
    }

    /// The one line to tell the operator, if any.
    pub fn diagnostic(&self) -> (text: Option<String>)
        ensures
            text is Some <==> diagnostic_of(*self) is Some,
            text matches Some(t) ==> Some(t@) == diagnostic_of(*self),
    {
        match self {
            Outcome::Switched { .. } => None,
            Outcome::Cancelled => Some("No selection made".to_owned()),
            Outcome::Failed(Failure::DirtyWorkingTree) => Some("Not clean".to_owned()),
            Outcome::Failed(Failure::Repository { message }) => Some(message.clone()),
            Outcome::Failed(Failure::InvalidBranchName { position }) => {
                let mut text: String = "Invalid branch name at position ".to_owned();
                push_digits(&mut text, *position as u64);
                Some(text)
            },
            Outcome::Failed(Failure::UnresolvableBranch { position }) => {
                let mut text: String = "No commit for branch at position ".to_owned();
                push_digits(&mut text, *position as u64);
                Some(text)
            },
            Outcome::Failed(Failure::NoMatchingBranch) => Some("No matching branch".to_owned()),
            Outcome::Failed(Failure::CheckoutFailure { message }) => Some(message.clone()),
            Outcome::Failed(Failure::OutOfTurn) => Some("Event out of turn".to_owned()),
        }
    }
}

/// Where a run stands.
#[derive(Debug, PartialEq, Eq)]
pub enum Stage {
    AwaitingStatus,
    AwaitingBranches,
    AwaitingPick { catalog: Catalog },
    AwaitingCheckout { branch: String },
    Finished { outcome: Outcome },
}

/// What the driver of a run is asked to do.
#[derive(Clone, Debug, PartialEq, Eq)]
pub enum Action {
    /// Count the entries of the working tree's status.
    ReadStatus { include_ignored: bool },
    /// Enumerate the local branches with their head commits, and read the
    /// clock.
    ListBranches,
    /// Let the operator pick one line of `block`.
    Pick { block: String },
    /// Check out `branch`: working tree and head together.
    Checkout { branch: String },
    /// Nothing more: the run is finished.
    Stop,
}

/// What the driver of a run reports.
#[derive(Debug, PartialEq, Eq)]
pub enum Event {
    /// The status was read and has this many entries.
    StatusRead { pending_changes: usize },
    /// The branches were enumerated, and the clock read `now`.
    BranchesListed { entries: Vec<BranchEntry>, now: ClockReading },
    /// The picker handed back `line`, or nothing.
    Picked { line: Option<String> },
    /// The checkout was done.
    CheckedOut,
    /// What was asked could not be done. A picker that could not run counts
    /// as one left without a pick.
    Failed { message: String },
}

/// Whether a run at `stage` is over.
pub open spec fn is_finished(stage: Stage) -> bool {
    stage is Finished
}

/// Whether a run stands at `stage` after a step that began with `entries`
/// and `now`: either the catalog was built and its lines are to be picked
/// from, or the first fault among the entries ended the run.
pub open spec fn listed(entries: Seq<BranchEntry>, now: ClockView, stage: Stage, action: Action) -> bool {
    match stage {
        Stage::AwaitingPick { catalog } => {
            &&& faultless(entries, entries.len() as int)
            &&& is_catalog(catalog@)
            &&& is_ranking(records_of(entries), catalog@)
            &&& action matches Action::Pick { block }
            &&& block@ == block_text(lines_of(catalog@, now))
        },
        Stage::Finished {
            outcome: Outcome::Failed(Failure::InvalidBranchName { position }),
        } => {
            &&& is_first_fault(entries, CatalogError::InvalidBranchName { position })
            &&& action is Stop
        },
        Stage::Finished {
            outcome: Outcome::Failed(Failure::UnresolvableBranch { position }),
        } => {
            &&& is_first_fault(entries, CatalogError::UnresolvableBranch { position })
            &&& action is Stop
        },
        _ => false,
    }
}

/// Whether a run stands at `stage` after `line` was picked from `catalog`.
pub open spec fn picked(catalog: Catalog, line: Option<String>, stage: Stage, action: Action) -> bool {
    match line {
        None => {
            &&& stage == Stage::Finished { outcome: Outcome::Cancelled }
            &&& action is Stop
        },
        Some(line) => match stage {
            Stage::AwaitingCheckout { branch } => {
                &&& exists|record|
                    is_choice(catalog@, line@, record) && #[trigger] record.name == branch@
                &&& action matches Action::Checkout { branch: asked }
                &&& asked@ == branch@
            },
            Stage::Finished { outcome: Outcome::Failed(Failure::NoMatchingBranch) } => {
                &&& no_choice(catalog@, line@)
                &&& action is Stop
            },
            _ => false,
        },
    }
}

/// Whether a run that was at `stage` when `event` was reported stands at
/// `next` with `action` to do.
pub open spec fn follows(stage: Stage, event: Event, next: Stage, action: Action) -> bool {
    match (stage, event) {
        (Stage::AwaitingStatus, Event::StatusRead { pending_changes }) => if pending_changes == 0 {
            next is AwaitingBranches && action is ListBranches
        } else {
            next == (Stage::Finished { outcome: Outcome::Failed(Failure::DirtyWorkingTree) })
                && action is Stop
        },
        (Stage::AwaitingStatus, Event::Failed { message }) => {
            &&& next matches Stage::Finished {
                outcome: Outcome::Failed(Failure::Repository { message: told }),
            }
            &&& told@ == message@
            &&& action is Stop
        },
        (Stage::AwaitingBranches, Event::BranchesListed { entries, now }) => listed(
            entries@,
            now@,
            next,
            action,
        ),
        (Stage::AwaitingBranches, Event::Failed { message }) => {
            &&& next matches Stage::Finished {
                outcome: Outcome::Failed(Failure::Repository { message: told }),
            }
            &&& told@ == message@
            &&& action is Stop
        },
        (Stage::AwaitingPick { catalog }, Event::Picked { line }) => picked(
            catalog,
            line,
            next,
            action,
        ),
        (Stage::AwaitingPick { catalog }, Event::Failed { message }) => {
            &&& next == (Stage::Finished { outcome: Outcome::Cancelled })
            &&& action is Stop
        },
        (Stage::AwaitingCheckout { branch }, Event::CheckedOut) => {
            &&& next matches Stage::Finished { outcome: Outcome::Switched { branch: done } }
            &&& done@ == branch@
            &&& action is Stop
        },
        (Stage::AwaitingCheckout { branch }, Event::Failed { message }) => {
            &&& next matches Stage::Finished {
                outcome: Outcome::Failed(Failure::CheckoutFailure { message: told }),
            }
            &&& told@ == message@
            &&& action is Stop
        },
        (Stage::Finished { outcome }, _) => next == stage && action is Stop,
        _ => next == (Stage::Finished { outcome: Outcome::Failed(Failure::OutOfTurn) })
            && action is Stop,
    }
}

/// Branches are listed only once the working tree is known to be clean,
/// and a dirty tree ends the run at once: nothing is listed, shown or
/// checked out after it.
pub proof fn lemma_dirty_tree_ends_run(stage: Stage, event: Event, next: Stage, action: Action)
    requires
        follows(stage, event, next, action),
    ensures
        action is ListBranches ==> stage is AwaitingStatus && event == (Event::StatusRead {
            pending_changes: 0,
        }),
        stage is AwaitingStatus && event is StatusRead && event->pending_changes != 0 ==> next
            == (Stage::Finished { outcome: Outcome::Failed(Failure::DirtyWorkingTree) })
            && action is Stop,
{
}

/// A line is asked for only with a catalog at hand, and a checkout only of
/// a branch of that catalog whose name the picked line begins with.
pub proof fn lemma_checkout_follows_pick(stage: Stage, event: Event, next: Stage, action: Action)
    requires
        follows(stage, event, next, action),
        action is Checkout,
    ensures
        stage is AwaitingPick,
        event is Picked,
        event->line is Some,
        exists|record|
            is_choice(stage->catalog@, event->line->0@, record) && #[trigger] record.name
                == action->branch@,
{
}

/// A finished run stays finished, whatever is reported.
pub proof fn lemma_finished_is_final(stage: Stage, event: Event, next: Stage, action: Action)
    requires
        follows(stage, event, next, action),
        is_finished(stage),
    ensures
        next == stage,
        action is Stop,
{
}

/// Where every run begins: nothing is done before the working tree's
/// status is read, ignored files left out.
pub fn begin() -> (first: (Stage, Action))
    ensures
        first.0 is AwaitingStatus,
        first.1 == (Action::ReadStatus { include_ignored: false }),
{
    (Stage::AwaitingStatus, Action::ReadStatus { include_ignored: status_query().include_ignored })
}

/// The next stage of a run and what to do there.
pub fn advance(stage: Stage, event: Event) -> (step: (Stage, Action))
    ensures
        follows(stage, event, step.0, step.1),
{
    match stage {
        Stage::AwaitingStatus => match event {
            Event::StatusRead { pending_changes } => {
                if is_clean(pending_changes) {
                    (Stage::AwaitingBranches, Action::ListBranches)
                } else {
                    finish(Outcome::Failed(Failure::DirtyWorkingTree))
                }
            },
            Event::Failed { message } => finish(Outcome::Failed(Failure::Repository { message })),
            _ => finish(Outcome::Failed(Failure::OutOfTurn)),
        },
        Stage::AwaitingBranches => match event {
            Event::BranchesListed { entries, now } => match build_catalog(entries) {
                Ok(catalog) => {
                    let block: String = render_block(&catalog, &now);
                    (Stage::AwaitingPick { catalog }, Action::Pick { block })
                },
                Err(CatalogError::InvalidBranchName { position }) => finish(
                    Outcome::Failed(Failure::InvalidBranchName { position }),
                ),
                Err(CatalogError::UnresolvableBranch { position }) => finish(
                    Outcome::Failed(Failure::UnresolvableBranch { position }),
                ),
            },
            Event::Failed { message } => finish(Outcome::Failed(Failure::Repository { message })),
            _ => finish(Outcome::Failed(Failure::OutOfTurn)),
        },
        Stage::AwaitingPick { catalog } => match event {
            Event::Picked { line } => {
                let chosen: Option<&str> = match &line {
                    Some(line) => Some(line.as_str()),
                    None => None,
                };
                match resolve(&catalog, chosen) {
                    Ok(Selection::Selected(record)) => {
                        let branch: String = record.name().clone();
                        let asked: String = branch.clone();
                        (Stage::AwaitingCheckout { branch }, Action::Checkout { branch: asked })
                    },
                    Ok(Selection::Cancelled) => finish(Outcome::Cancelled),
                    Err(ResolveError::NoMatchingBranch) => finish(
                        Outcome::Failed(Failure::NoMatchingBranch),
                    ),
                }
            },
            Event::Failed { message } => finish(Outcome::Cancelled),
            _ => finish(Outcome::Failed(Failure::OutOfTurn)),
        },
        Stage::AwaitingCheckout { branch } => match event {
            Event::CheckedOut => finish(Outcome::Switched { branch }),
            Event::Failed { message } => finish(
                Outcome::Failed(Failure::CheckoutFailure { message }),
            ),
            _ => finish(Outcome::Failed(Failure::OutOfTurn)),
        },
        Stage::Finished { outcome } => (Stage::Finished { outcome }, Action::Stop),
    }
}

/// The end of a run.
fn finish(outcome: Outcome) -> (step: (Stage, Action))
    ensures
        step.0 == (Stage::Finished { outcome }),
        step.1 is Stop,
{
    (Stage::Finished { outcome }, Action::Stop)
}

} // verus!
