//! One local branch as the picker knows it.

use vstd::prelude::*;

use crate::text::{is_one_word, is_word};
use crate::time::{calendar_form, on_calendar, LocalTime};

verus! {

/// What a `BranchRecord` holds, as mathematical values.
pub struct RecordView {
    pub name: Seq<char>,
    pub head_commit_id: Seq<u8>,
    /// Seconds since 1970-01-01 00:00:00 on the committer's clock.
    pub committed_at: int,
}

/// What holds of every record: its name is one word, so that it fits a
/// line and ends where a space follows, and the calendar can name the day it
/// was committed on.
pub open spec fn is_record(r: RecordView) -> bool {
    &&& is_word(r.name)
    &&& on_calendar(r.committed_at)
}

/// A local branch: its name, the commit it points to, and the time of that
/// commit as the committer's clock showed it.
#[derive(Debug, PartialEq, Eq)]
pub struct BranchRecord {
    name: String,
    head_commit_id: Vec<u8>,
    committed_at: LocalTime,
}

impl View for BranchRecord {
    type V = RecordView;

    closed spec fn view(&self) -> RecordView {
        RecordView {
            name: self.name@,
            head_commit_id: self.head_commit_id@,
            committed_at: self.committed_at@,
        }
    }
}

impl BranchRecord {
    #[verifier::type_invariant]
    pub open spec fn wf(self) -> bool {
        is_record(self@)
    }

    /// The record of a branch, unless `name` is not one word.
    pub fn new(name: String, head_commit_id: Vec<u8>, committed_at: LocalTime) -> (record: Option<
        BranchRecord,
    >)
        ensures
            record is Some <==> is_word(name@),
            record matches Some(r) ==> r@ == (RecordView {
                name: name@,
                head_commit_id: head_commit_id@,
                committed_at: committed_at@,
            }) && is_record(r@),
    {
        if is_one_word(name.as_str()) {
            Some(BranchRecord::from_parts(name, head_commit_id, committed_at))
        } else {
            None
        }
    }

    /// The record of a branch with a name that is known to be one word.
    pub(crate) fn from_parts(name: String, head_commit_id: Vec<u8>, committed_at: LocalTime) -> (record:
        BranchRecord)
        requires
            is_word(name@),
        ensures
            record@ == (RecordView {
                name: name@,
                head_commit_id: head_commit_id@,
                committed_at: committed_at@,
            }),
            is_record(record@),
    {
        proof {
            use_type_invariant(&committed_at);
        }
        BranchRecord { name, head_commit_id, committed_at }
    }

    pub fn name(&self) -> (name: &String)
        ensures
            name@ == self@.name,
            is_word(name@),
    {
        proof {
            use_type_invariant(self);
        }
        &self.name
    }

    pub fn head_commit_id(&self) -> (id: &Vec<u8>)
        ensures
            id@ == self@.head_commit_id,
    {
        &self.head_commit_id
    }

    /// The time of the head commit as date and time of day.
    pub fn timestamp(&self) -> (text: String)
        ensures
            text@ == calendar_form(self@.committed_at as i64),
    {
        self.committed_at.timestamp()
    }

    pub fn committed_at(&self) -> (at: LocalTime)
        ensures
            at@ == self@.committed_at,
            on_calendar(at@),
    {
        proof {
            use_type_invariant(self);
        }
        self.committed_at
    }
}

impl Clone for BranchRecord {
    fn clone(&self) -> (copy: BranchRecord)
        ensures
            copy@ == self@,
    {
        proof {
            use_type_invariant(self);
        }
        let head_commit_id: Vec<u8> = self.head_commit_id.clone();
        assert(head_commit_id@ =~= self.head_commit_id@);
        BranchRecord {
            name: self.name.clone(),
            head_commit_id,
            committed_at: self.committed_at,
        }
    }
}

} // verus!
