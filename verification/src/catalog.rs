//! The catalog: every local branch once, the most recently committed first.

use vstd::prelude::*;
use vstd::seq_lib::{to_multiset_build, to_multiset_insert};

use crate::ranking::{descending, is_ranking};
use crate::record::{is_record, BranchRecord, RecordView};
use crate::text::{is_one_word, is_word};
use crate::time::{on_calendar, shifted, LocalTime};

verus! {

/// A commit as the repository reports it: its content address, the instant it
/// was made in seconds since the epoch (UTC), and the offset from UTC of the
/// committer's clock, in minutes.
#[derive(Clone, Debug, PartialEq, Eq)]
pub struct CommitStamp {
    pub id: Vec<u8>,
    pub seconds: i64,
    pub offset_minutes: i32,
}

/// A local branch as enumeration reports it. `name` is `None` where the
/// branch's name is not text; `head` is `None` where the branch leads to no
/// commit.
#[derive(Clone, Debug, PartialEq, Eq)]
pub struct BranchEntry {
    pub name: Option<String>,
    pub head: Option<CommitStamp>,
}

/// Why no catalog could be built. `position` counts the branches that
/// enumeration reported before the one at fault.
#[derive(Clone, Copy, Debug, PartialEq, Eq)]
pub enum CatalogError {
    /// The branch's name is not text, is not one word (it is empty, or
    /// holds a space or a line feed), or is the name of a branch reported
    /// before it: no line could show it and lead back to it.
    InvalidBranchName { position: usize },
    /// The branch leads to no commit, or to one made at a time that the
    /// calendar cannot name.
    UnresolvableBranch { position: usize },
}

impl CatalogError {
    pub open spec fn spec_position(self) -> usize {
        match self {
            CatalogError::InvalidBranchName { position } => position,
            CatalogError::UnresolvableBranch { position } => position,
        }
    }

    /// How many branches were reported before the one at fault.
    #[verifier::when_used_as_spec(spec_position)]
    pub fn position(self) -> (position: usize)
        ensures
            position == self.spec_position(),
    {
        match self {
            CatalogError::InvalidBranchName { position } => position,
            CatalogError::UnresolvableBranch { position } => position,
        }
    }
}

/// Whether the entry's name is text and one word.
pub open spec fn has_name(entry: BranchEntry) -> bool {
    entry.name matches Some(name) && is_word(name@)
}

/// The entry's name, where it has one.
pub open spec fn name_of(entry: BranchEntry) -> Seq<char> {
    entry.name->0@
}

/// Whether entry `i` bears the name of an entry before it.
pub open spec fn repeats_name(entries: Seq<BranchEntry>, i: int) -> bool {
    exists|j: int| 0 <= j < i && has_name(#[trigger] entries[j]) && name_of(entries[j]) == name_of(entries[i])
}

/// Whether the entry leads to a commit made at a time on the calendar.
pub open spec fn has_head(entry: BranchEntry) -> bool {
    entry.head matches Some(commit) && on_calendar(
        shifted(commit.seconds as int, commit.offset_minutes as int),
    )
}

/// What is wrong with entry `i`, its name judged before its head.
pub open spec fn fault_at(entries: Seq<BranchEntry>, i: int) -> Option<CatalogError> {
    if !has_name(entries[i]) || repeats_name(entries, i) {
        Some(CatalogError::InvalidBranchName { position: i as usize })
    } else if !has_head(entries[i]) {
        Some(CatalogError::UnresolvableBranch { position: i as usize })
    } else {
        None
    }
}

/// Whether nothing is wrong with the first `upto` entries.
pub open spec fn faultless(entries: Seq<BranchEntry>, upto: int) -> bool {
    forall|i: int| 0 <= i < upto ==> fault_at(entries, i) is None
}

/// Whether `error` tells the first thing wrong in `entries`.
pub open spec fn is_first_fault(entries: Seq<BranchEntry>, error: CatalogError) -> bool {
    &&& error.position() < entries.len()
    &&& faultless(entries, error.position() as int)
    &&& fault_at(entries, error.position() as int) == Some(error)
}

/// The record that a sound entry gives: its name, its commit's address, and
/// the time of the commit on the committer's own clock.
pub open spec fn record_of(entry: BranchEntry) -> RecordView {
    RecordView {
        name: name_of(entry),
        head_commit_id: entry.head->0.id@,
        committed_at: shifted(
            entry.head->0.seconds as int,
            entry.head->0.offset_minutes as int,
        ),
    }
}

/// The records of all entries, in the order of enumeration.
pub open spec fn records_of(entries: Seq<BranchEntry>) -> Seq<RecordView> {
    Seq::new(entries.len(), |i: int| record_of(entries[i]))
}

/// No two records share a name.
pub open spec fn distinct_names(records: Seq<RecordView>) -> bool {
    forall|i: int, j: int| 0 <= i < j < records.len() ==> records[i].name != records[j].name
}

/// What holds of every catalog.
pub open spec fn is_catalog(records: Seq<RecordView>) -> bool {
    &&& forall|i: int| 0 <= i < records.len() ==> is_record(#[trigger] records[i])
    &&& descending(records)
    &&& distinct_names(records)
}

/// The views of a run of records.
pub open spec fn views(records: Seq<BranchRecord>) -> Seq<RecordView> {
    Seq::new(records.len(), |i: int| records[i]@)
}

/// The local branches of one repository, ranked.
#[derive(Debug, PartialEq, Eq)]
pub struct Catalog {
    records: Vec<BranchRecord>,
}

impl View for Catalog {
    type V = Seq<RecordView>;

    closed spec fn view(&self) -> Seq<RecordView> {
        views(self.records@)
    }
}

impl Catalog {
    #[verifier::type_invariant]
    pub open spec fn wf(self) -> bool {
        is_catalog(self@)
    }

    /// The number of branches.
    pub fn len(&self) -> (len: usize)
        ensures
            len == self@.len(),
    {
        self.records.len()
    }

    pub fn is_empty(&self) -> (empty: bool)
        ensures
            empty == (self@.len() == 0),
    {
        self.records.len() == 0
    }

    /// The branch at `rank`, the most recent at rank 0.
    pub fn get(&self, rank: usize) -> (record: Option<&BranchRecord>)
        ensures
            record is Some <==> rank < self@.len(),
            record matches Some(r) ==> r@ == self@[rank as int],
    {
        if rank < self.records.len() {
            Some(&self.records[rank])
        } else {
            None
        }
    }

    /// The branches by rank.
    pub fn records(&self) -> (records: &Vec<BranchRecord>)
        ensures
            views(records@) == self@,
            is_catalog(self@),
    {
        proof {
            use_type_invariant(self);
        }
        &self.records
    }

    /// The branches by rank, the catalog given up.
    pub fn into_records(self) -> (records: Vec<BranchRecord>)
        ensures
            views(records@) == self@,
            is_catalog(self@),
    {
        proof {
            use_type_invariant(&self);
        }
        self.records
    }
}

/// A catalog stays one where a record of a new name goes in behind the
/// records that are as recent as it or more, and before those that are
/// less.
proof fn lemma_insert_keeps_catalog(before: Seq<RecordView>, rank: int, record: RecordView)
    requires
        is_catalog(before),
        is_record(record),
        0 <= rank <= before.len(),
        forall|k: int| 0 <= k < rank ==> (#[trigger] before[k]).committed_at >= record.committed_at,
        forall|k: int|
            rank <= k < before.len() ==> (#[trigger] before[k]).committed_at < record.committed_at,
        forall|k: int| 0 <= k < before.len() ==> (#[trigger] before[k]).name != record.name,
    ensures
        is_catalog(before.insert(rank, record)),
{
    let after = before.insert(rank, record);
    assert forall|i: int| 0 <= i < after.len() implies #[trigger] after[i] == (if i < rank {
        before[i]
    } else if i == rank {
        record
    } else {
        before[i - 1]
    }) by {}
}

/// Whether one of `records` bears `name`.
fn holds_name(records: &Vec<BranchRecord>, name: &String) -> (held: bool)
    ensures
        held <==> exists|k: int| 0 <= k < records@.len() && (#[trigger] views(records@)[k]).name == name@,
{
    let mut k: usize = 0;
    while k < records.len()
        invariant
            k <= records@.len(),
            forall|m: int| 0 <= m < k ==> (#[trigger] views(records@)[m]).name != name@,
        decreases records@.len() - k,
    {
        if *records[k].name() == *name {
            assert(views(records@)[k as int].name == name@);
            return true;
        }
        k += 1;
    }
    false
}

/// Puts `record` behind every record that is as recent as it or more, and
/// tells where it went.
fn insert_ranked(records: &mut Vec<BranchRecord>, record: BranchRecord) -> (index: usize)
    requires
        descending(views(old(records)@)),
    ensures
        index <= old(records)@.len(),
        final(records)@ == old(records)@.insert(index as int, record),
        forall|k: int|
            0 <= k < index ==> (#[trigger] views(old(records)@)[k]).committed_at
                >= record@.committed_at,
        forall|k: int|
            index <= k < old(records)@.len() ==> (#[trigger] views(old(records)@)[k]).committed_at
                < record@.committed_at,
{
    let moment: i64 = record.committed_at().seconds();
    let mut index: usize = 0;
    while index < records.len() && records[index].committed_at().seconds() >= moment
        invariant
            index <= records@.len(),
            records@ == old(records)@,
            moment == record@.committed_at,
            forall|k: int|
                0 <= k < index ==> (#[trigger] views(records@)[k]).committed_at >= moment,
        decreases records@.len() - index,
    {
        index += 1;
    }
    proof {
        let before = views(records@);
        assert forall|k: int| index <= k < before.len() implies (#[trigger] before[k]).committed_at
            < moment by {
            assert(before[index as int].committed_at < moment);
        }
    }
    records.insert(index, record);
    index
}

/// Ranks the branches that enumeration reported: a record for each, the most
/// recently committed first, branches of one commit time in the order they
/// were reported. The first branch with something wrong stops the build.
pub fn build_catalog(entries: Vec<BranchEntry>) -> (built: Result<Catalog, CatalogError>)
    ensures
        match built {
            Ok(catalog) => {
                &&& faultless(entries@, entries@.len() as int)
                &&& is_catalog(catalog@)
                &&& is_ranking(records_of(entries@), catalog@)
            },
            Err(error) => is_first_fault(entries@, error),
        },
{
    let ghost all = entries@;
    let ghost wanted = records_of(all);
    let total: usize = entries.len();
    let mut records: Vec<BranchRecord> = Vec::new();
    // slot[i] is the rank at which the record of entry i stands
    let ghost mut slot: Seq<int> = Seq::empty();
    let mut position: usize = 0;
    assert(wanted.take(0) =~= views(records@));
    for entry in it: entries
        invariant
            it.seq() == all,
            all.len() == total,
            wanted == records_of(all),
            position == it.index(),
            records@.len() == position,
            slot.len() == position,
            faultless(all, position as int),
            is_catalog(views(records@)),
            views(records@).to_multiset() == wanted.take(position as int).to_multiset(),
            forall|i: int|
                0 <= i < position ==> 0 <= #[trigger] slot[i] < position && views(records@)[slot[i]]
                    == wanted[i],
            forall|i: int, j: int|
                0 <= i < j < position && wanted[i].committed_at == wanted[j].committed_at
                    ==> slot[i] < slot[j],
    {
        let ghost here = position as int;
        assert(all[here] == entry);
        let BranchEntry { name, head } = entry;
        let name: String = match name {
            Some(name) => name,
            None => {
                return Err(CatalogError::InvalidBranchName { position });
            },
        };
        if !is_one_word(name.as_str()) {
            return Err(CatalogError::InvalidBranchName { position });
        }
        if holds_name(&records, &name) {
            proof {
                let k = choose|k: int|
                    0 <= k < records@.len() && (#[trigger] views(records@)[k]).name == name@;
                let found = views(records@)[k];
                views(records@).to_multiset_ensures();
                wanted.take(here).to_multiset_ensures();
                assert(views(records@).contains(found));
                assert(wanted.take(here).to_multiset().count(found) > 0);
                assert(wanted.take(here).contains(found));
                let j = choose|j: int| 0 <= j < here && wanted.take(here)[j] == found;
                assert(fault_at(all, j) is None);
                assert(has_name(all[j]) && name_of(all[j]) == name_of(all[here]));
                assert(repeats_name(all, here));
            }
            return Err(CatalogError::InvalidBranchName { position });
        }
        proof {
            if repeats_name(all, here) {
                let j = choose|j: int|
                    0 <= j < here && has_name(#[trigger] all[j]) && name_of(all[j]) == name_of(
                        all[here],
                    );
                assert(views(records@)[slot[j]] == wanted[j]);
                assert(false);
            }
        }
        let stamp: CommitStamp = match head {
            Some(stamp) => stamp,
            None => {
                return Err(CatalogError::UnresolvableBranch { position });
            },
        };
        let moment: LocalTime = match LocalTime::from_commit(stamp.seconds, stamp.offset_minutes) {
            Some(moment) => moment,
            None => {
                return Err(CatalogError::UnresolvableBranch { position });
            },
        };
        assert(fault_at(all, here) is None);
        let record: BranchRecord = BranchRecord::from_parts(name, stamp.id, moment);
        assert(record@ == wanted[here]);
        let ghost before = views(records@);
        let index: usize = insert_ranked(&mut records, record);
        proof {
            let after = views(records@);
            let rank = index as int;
            assert(after =~= before.insert(rank, wanted[here]));
            to_multiset_insert(before, rank, wanted[here]);
            assert(wanted.take(here + 1) =~= wanted.take(here).push(wanted[here]));
            to_multiset_build(wanted.take(here), wanted[here]);
            lemma_insert_keeps_catalog(before, rank, wanted[here]);
            let earlier = slot;
            slot = Seq::new(
                (here + 1) as nat,
                |i: int|
                    if i == here {
                        rank
                    } else if earlier[i] >= rank {
                        earlier[i] + 1
                    } else {
                        earlier[i]
                    },
            );
            assert forall|i: int| 0 <= i < here + 1 implies 0 <= #[trigger] slot[i] < here + 1
                && after[slot[i]] == wanted[i] by {
                if i < here {
                    assert(before[earlier[i]] == wanted[i]);
                }
            }
            assert forall|i: int, j: int|
                0 <= i < j < here + 1 && wanted[i].committed_at
                    == wanted[j].committed_at implies slot[i] < slot[j] by {
                assert(before[earlier[i]] == wanted[i]);
                if j < here {
                    assert(earlier[i] < earlier[j]);
                }
            }
        }
        position += 1;
    }
    assert(wanted.take(position as int) =~= wanted);
    proof {
        let output = views(records@);
        assert forall|i: int, j: int, k: int, l: int|
            0 <= i < j < wanted.len() && 0 <= k < output.len() && 0 <= l < output.len()
                && wanted[i].committed_at == wanted[j].committed_at && output[k] == wanted[i]
                && output[l] == wanted[j] implies k < l by {
            assert(output[slot[i]] == wanted[i]);
            assert(output[slot[j]] == wanted[j]);
            assert(k == slot[i]);
            assert(l == slot[j]);
        }
    }
    Ok(Catalog { records })
}

} // verus!
