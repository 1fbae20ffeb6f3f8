//! From the line that the picker hands back to the branch it was shown for.

use vstd::prelude::*;
use vstd::string::*;

use crate::catalog::{distinct_names, is_catalog, views, Catalog};
use crate::record::{is_record, BranchRecord, RecordView};
use crate::render::{lemma_widest_name_is_maximum, line_of, line_text, widest_name};
use crate::text::{begins_with_word, starts_with_word};
use crate::time::ClockView;

verus! {

/// Whether `line` begins with the record's name as a whole: the name, and
/// behind it a space or the end of the line.
pub open spec fn names(record: RecordView, line: Seq<char>) -> bool {
    begins_with_word(line, record.name)
}

/// Whether `record` is the one of `records` that `line` stands for: `line`
/// begins with its name as a whole, and so with no longer name among
/// `records`.
pub open spec fn is_choice(records: Seq<RecordView>, line: Seq<char>, record: RecordView) -> bool {
    &&& records.contains(record)
    &&& names(record, line)
    &&& forall|j: int|
        0 <= j < records.len() && names(#[trigger] records[j], line) ==> records[j].name.len()
            <= record.name.len()
}

/// Whether `line` begins with no name among `records` as a whole.
pub open spec fn no_choice(records: Seq<RecordView>, line: Seq<char>) -> bool {
    forall|j: int| 0 <= j < records.len() ==> !names(#[trigger] records[j], line)
}

/// What the operator did at the picker.
#[derive(Debug, PartialEq, Eq)]
pub enum Selection {
    /// A line was picked, and it stands for this branch.
    Selected(BranchRecord),
    /// The picker was left without a pick.
    Cancelled,
}

/// Why a picked line led to no branch.
#[derive(Clone, Copy, Debug, PartialEq, Eq)]
pub enum ResolveError {
    /// The line begins with the name of no branch in the catalog as a
    /// whole: it is no line that was shown.
    NoMatchingBranch,
}

/// The rank of the branch that `line` stands for.
pub fn find_branch(catalog: &Catalog, line: &str) -> (found: Option<usize>)
    ensures
        match found {
            Some(rank) => rank < catalog@.len() && is_choice(catalog@, line@, catalog@[rank as int]),
            None => no_choice(catalog@, line@),
        },
{
    let records: &Vec<BranchRecord> = catalog.records();
    let ghost all = views(records@);
    let mut best: Option<usize> = None;
    let mut best_length: usize = 0;
    let mut rank: usize = 0;
    while rank < records.len()
        invariant
            rank <= records@.len(),
            all == views(records@),
            match best {
                Some(b) => {
                    &&& b < rank
                    &&& names(all[b as int], line@)
                    &&& best_length == all[b as int].name.len()
                    &&& forall|j: int|
                        0 <= j < rank && names(#[trigger] all[j], line@) ==> all[j].name.len()
                            <= best_length
                },
                None => forall|j: int| 0 <= j < rank ==> !names(#[trigger] all[j], line@),
            },
        decreases records@.len() - rank,
    {
        let name: &String = records[rank].name();
        if starts_with_word(line, name.as_str()) {
            let length: usize = name.as_str().unicode_len();
            if best.is_none() || length > best_length {
                best = Some(rank);
                best_length = length;
            }
        }
        rank += 1;
    }
    proof {
        if let Some(b) = best {
            assert(all.contains(all[b as int]));
        }
    }
    best
}

/// The branch that the operator picked. `chosen` is the picked line as the
/// picker handed it back, or `None` where the picker was left without a
/// pick.
pub fn resolve(catalog: &Catalog, chosen: Option<&str>) -> (outcome: Result<Selection, ResolveError>)
    ensures
        match chosen {
            None => outcome == Ok::<Selection, ResolveError>(Selection::Cancelled),
            Some(line) => match outcome {
                Ok(Selection::Selected(record)) => is_choice(catalog@, line@, record@),
                Ok(Selection::Cancelled) => false,
                Err(ResolveError::NoMatchingBranch) => no_choice(catalog@, line@),
            },
        },
{
    match chosen {
        None => Ok(Selection::Cancelled),
        Some(line) => match find_branch(catalog, line) {
            Some(rank) => {
                let records: &Vec<BranchRecord> = catalog.records();
                let record: BranchRecord = records[rank].clone();
                assert(record@ == views(records@)[rank as int]);
                Ok(Selection::Selected(record))
            },
            None => Err(ResolveError::NoMatchingBranch),
        },
    }
}

/// Among records with distinct names a line stands for one record at most.
pub proof fn lemma_choice_is_unique(
    records: Seq<RecordView>,
    line: Seq<char>,
    one: RecordView,
    other: RecordView,
)
    requires
        distinct_names(records),
        is_choice(records, line, one),
        is_choice(records, line, other),
    ensures
        one == other,
{
    let i = choose|i: int| 0 <= i < records.len() && records[i] == one;
    let j = choose|j: int| 0 <= j < records.len() && records[j] == other;
    assert(names(records[i], line) && names(records[j], line));
    assert(one.name.len() == other.name.len());
    assert(one.name =~= other.name);
    if i < j {
        assert(records[i].name != records[j].name);
    } else if j < i {
        assert(records[j].name != records[i].name);
    }
}

/// Showing a branch and resolving the line that was shown leads back to a
/// branch of the same name: the line shown for the record at `rank` begins
/// with its name as a whole, and whatever record that line stands for bears
/// that name.
pub proof fn lemma_shown_line_resolves(records: Seq<RecordView>, now: ClockView, rank: int)
    requires
        0 <= rank < records.len(),
        forall|i: int| 0 <= i < records.len() ==> is_record(#[trigger] records[i]),
    ensures
        !no_choice(records, line_text(line_of(records, now, rank))),
        forall|found: RecordView|
            is_choice(records, line_text(line_of(records, now, rank)), found) ==> found.name
                == records[rank].name,
{
    let shown = line_of(records, now, rank);
    let line = line_text(shown);
    let name = records[rank].name;
    let length = name.len() as int;
    let width = widest_name(records) as int;
    lemma_widest_name_is_maximum(records);
    assert(length <= width);
    assert(shown.name_column.len() == width);
    assert(line.subrange(0, length) =~= name);
    assert(line[length] == ' ') by {
        if length < width {
            assert(line[length] == shown.name_column[length]);
        }
    }
    assert(names(records[rank], line));
    assert forall|found: RecordView| is_choice(records, line, found) implies found.name
        == name by {
        let j = choose|j: int| 0 <= j < records.len() && records[j] == found;
        assert(is_record(records[j]));
        assert(length <= found.name.len());
        if found.name.len() > length {
            assert(found.name[length] == line.subrange(0, found.name.len() as int)[length]);
            assert(false);
        }
        assert(found.name =~= name);
    }
}

/// Resolving the line shown for a record of a catalog leads back to that
/// very record.
pub proof fn lemma_round_trip(records: Seq<RecordView>, now: ClockView, rank: int, found: RecordView)
    requires
        is_catalog(records),
        0 <= rank < records.len(),
        is_choice(records, line_text(line_of(records, now, rank)), found),
    ensures
        found == records[rank],
{
    lemma_shown_line_resolves(records, now, rank);
    let j = choose|j: int| 0 <= j < records.len() && records[j] == found;
    if j < rank {
        assert(records[j].name != records[rank].name);
    } else if rank < j {
        assert(records[rank].name != records[j].name);
    }
}

} // verus!
