//! The catalog as lines of text: a name, an age and a date in columns.

use vstd::prelude::*;
use vstd::string::*;

use crate::age::{humanize, humanized};
use crate::catalog::{views, Catalog};
use crate::record::{BranchRecord, RecordView};
use crate::text::{pad_to, padded};
use crate::time::{calendar_form, ClockReading, ClockView};

verus! {

/// The larger of two lengths.
pub open spec fn larger(a: nat, b: nat) -> nat {
    if a >= b {
        a
    } else {
        b
    }
}

/// The length of the longest name among `records`; 0 where there is none.
pub open spec fn widest_name(records: Seq<RecordView>) -> nat
    decreases records.len(),
{
    if records.len() == 0 {
        0
    } else {
        larger(widest_name(records.drop_last()), records.last().name.len())
    }
}

/// The length of the longest age told at `now` among `records`; 0 where
/// there is none.
pub open spec fn widest_age(records: Seq<RecordView>, now: ClockView) -> nat
    decreases records.len(),
{
    if records.len() == 0 {
        0
    } else {
        larger(
            widest_age(records.drop_last(), now),
            humanized(now, records.last().committed_at).len(),
        )
    }
}

/// What a `RenderedLine` holds, as mathematical values.
pub struct LineView {
    pub name_column: Seq<char>,
    pub age_column: Seq<char>,
    pub timestamp: Seq<char>,
}

/// The line shown at `now` for the record at `rank`: each column as wide as
/// its widest entry among all of `records`.
pub open spec fn line_of(records: Seq<RecordView>, now: ClockView, rank: int) -> LineView {
    LineView {
        name_column: padded(records[rank].name, widest_name(records) as int),
        age_column: padded(
            humanized(now, records[rank].committed_at),
            widest_age(records, now) as int,
        ),
        timestamp: calendar_form(records[rank].committed_at as i64),
    }
}

/// The lines shown at `now` for `records`, in their order.
pub open spec fn lines_of(records: Seq<RecordView>, now: ClockView) -> Seq<LineView> {
    Seq::new(records.len(), |rank: int| line_of(records, now, rank))
}

/// A line written out: the name column, ` | `, the age column, and the date
/// in brackets.
pub open spec fn line_text(line: LineView) -> Seq<char> {
    line.name_column + seq![' ', '|', ' '] + line.age_column + seq![' ', '('] + line.timestamp
        + seq![')']
}

/// Lines written out one below the other, a line feed between two of them.
pub open spec fn block_text(lines: Seq<LineView>) -> Seq<char>
    decreases lines.len(),
{
    if lines.len() == 0 {
        Seq::empty()
    } else if lines.len() == 1 {
        line_text(lines[0])
    } else {
        block_text(lines.drop_last()) + seq!['\n'] + line_text(lines.last())
    }
}

/// One branch as the picker shows it.
#[derive(Clone, Debug, PartialEq, Eq)]
pub struct RenderedLine {
    /// The name, filled up with spaces to the width of the name column.
    pub name_column: String,
    /// The age, filled up with spaces to the width of the age column.
    pub age_column: String,
    /// Date and time of day of the head commit.
    pub timestamp: String,
}

impl View for RenderedLine {
    type V = LineView;

    open spec fn view(&self) -> LineView {
        LineView {
            name_column: self.name_column@,
            age_column: self.age_column@,
            timestamp: self.timestamp@,
        }
    }
}

impl RenderedLine {
    /// The line written out.
    pub fn text(&self) -> (text: String)
        ensures
            text@ == line_text(self@),
    {
        proof {
            reveal_strlit(" | ");
            reveal_strlit(" (");
            reveal_strlit(")");
        }
        let mut text: String = self.name_column.clone();
        text.append(" | ");
        text.append(self.age_column.as_str());
        text.append(" (");
        text.append(self.timestamp.as_str());
        text.append(")");
        assert(text@ =~= line_text(self@));
        text
    }
}

/// The views of a run of lines.
pub open spec fn line_views(lines: Seq<RenderedLine>) -> Seq<LineView> {
    Seq::new(lines.len(), |i: int| lines[i]@)
}

/// No name among `records` is longer than `widest_name` tells, and where
/// there is a record, one of them has a name of exactly that length.
pub proof fn lemma_widest_name_is_maximum(records: Seq<RecordView>)
    ensures
        forall|i: int| 0 <= i < records.len() ==> (#[trigger] records[i]).name.len() <= widest_name(records),
        records.len() > 0 ==> exists|i: int|
            0 <= i < records.len() && (#[trigger] records[i]).name.len() == widest_name(records),
    decreases records.len(),
{
    if records.len() > 0 {
        let front = records.drop_last();
        lemma_widest_name_is_maximum(front);
        assert forall|i: int| 0 <= i < records.len() implies (#[trigger] records[i]).name.len()
            <= widest_name(records) by {
            if i < front.len() {
                assert(records[i] == front[i]);
            }
        }
        if widest_name(records) == records.last().name.len() {
            assert(records[records.len() - 1].name.len() == widest_name(records));
        } else {
            let i = choose|i: int|
                0 <= i < front.len() && (#[trigger] front[i]).name.len() == widest_name(front);
            assert(records[i] == front[i]);
        }
    }
}

/// No age told at `now` among `records` is longer than `widest_age` tells,
/// and where there is a record, one of them has an age of exactly that
/// length.
pub proof fn lemma_widest_age_is_maximum(records: Seq<RecordView>, now: ClockView)
    ensures
        forall|i: int|
            0 <= i < records.len() ==> humanized(now, (#[trigger] records[i]).committed_at).len()
                <= widest_age(records, now),
        records.len() > 0 ==> exists|i: int|
            0 <= i < records.len() && humanized(now, (#[trigger] records[i]).committed_at).len()
                == widest_age(records, now),
    decreases records.len(),
{
    if records.len() > 0 {
        let front = records.drop_last();
        lemma_widest_age_is_maximum(front, now);
        assert forall|i: int| 0 <= i < records.len() implies humanized(
            now,
            (#[trigger] records[i]).committed_at,
        ).len() <= widest_age(records, now) by {
            if i < front.len() {
                assert(records[i] == front[i]);
            }
        }
        if widest_age(records, now) == humanized(now, records.last().committed_at).len() {
            assert(humanized(now, records[records.len() - 1].committed_at).len() == widest_age(
                records,
                now,
            ));
        } else {
            let i = choose|i: int|
                0 <= i < front.len() && humanized(now, (#[trigger] front[i]).committed_at).len()
                    == widest_age(front, now);
            assert(records[i] == front[i]);
        }
    }
}

/// In every line shown for `records` the name column is as wide as the
/// longest name and the age column as wide as the longest age: the columns
/// of all lines begin and end at the same places.
pub proof fn lemma_columns_align(records: Seq<RecordView>, now: ClockView, rank: int)
    requires
        0 <= rank < records.len(),
    ensures
        line_of(records, now, rank).name_column.len() == widest_name(records),
        line_of(records, now, rank).age_column.len() == widest_age(records, now),
        records[rank].name.is_prefix_of(line_of(records, now, rank).name_column),
        humanized(now, records[rank].committed_at).is_prefix_of(
            line_of(records, now, rank).age_column,
        ),
{
    lemma_widest_name_is_maximum(records);
    lemma_widest_age_is_maximum(records, now);
    let line = line_of(records, now, rank);
    assert(records[rank].name.len() <= widest_name(records));
    assert(line.name_column.subrange(0, records[rank].name.len() as int) =~= records[rank].name);
    let age = humanized(now, records[rank].committed_at);
    assert(line.age_column.subrange(0, age.len() as int) =~= age);
}

/// The lines to show at `now` for the branches of `catalog`, by rank.
pub fn render(catalog: &Catalog, now: &ClockReading) -> (lines: Vec<RenderedLine>)
    ensures
        lines@.len() == catalog@.len(),
        forall|rank: int|
            0 <= rank < lines@.len() ==> (#[trigger] lines@[rank])@ == line_of(
                catalog@,
                now@,
                rank,
            ),
        line_views(lines@) == lines_of(catalog@, now@),
{
    let records: &Vec<BranchRecord> = catalog.records();
    let ghost all = views(records@);
    let count: usize = records.len();
    let mut ages: Vec<String> = Vec::new();
    let mut name_width: usize = 0;
    let mut age_width: usize = 0;
    let mut rank: usize = 0;
    while rank < count
        invariant
            rank <= count,
            count == records@.len(),
            all == views(records@),
            ages@.len() == rank,
            forall|k: int| 0 <= k < rank ==> (#[trigger] ages@[k])@ == humanized(now@, all[k].committed_at),
            name_width == widest_name(all.take(rank as int)),
            age_width == widest_age(all.take(rank as int), now@),
        decreases count - rank,
    {
        let record: &BranchRecord = &records[rank];
        let age: String = humanize(now, &record.committed_at());
        let name_length: usize = record.name().as_str().unicode_len();
        let age_length: usize = age.as_str().unicode_len();
        proof {
            let next = all.take(rank + 1);
            assert(next.drop_last() =~= all.take(rank as int));
            assert(next.last() == all[rank as int]);
        }
        if name_length > name_width {
            name_width = name_length;
        }
        if age_length > age_width {
            age_width = age_length;
        }
        ages.push(age);
        rank += 1;
    }
    assert(all.take(count as int) =~= all);
    let mut lines: Vec<RenderedLine> = Vec::new();
    let mut rank: usize = 0;
    while rank < count
        invariant
            rank <= count,
            count == records@.len(),
            all == views(records@),
            ages@.len() == count,
            forall|k: int| 0 <= k < count ==> (#[trigger] ages@[k])@ == humanized(now@, all[k].committed_at),
            name_width == widest_name(all),
            age_width == widest_age(all, now@),
            lines@.len() == rank,
            forall|k: int| 0 <= k < rank ==> (#[trigger] lines@[k])@ == line_of(all, now@, k),
        decreases count - rank,
    {
        let record: &BranchRecord = &records[rank];
        let line = RenderedLine {
            name_column: pad_to(record.name().as_str(), name_width),
            age_column: pad_to(ages[rank].as_str(), age_width),
            timestamp: record.timestamp(),
        };
        assert(line@ == line_of(all, now@, rank as int));
        lines.push(line);
        rank += 1;
    }
    assert(line_views(lines@) =~= lines_of(all, now@));
    lines
}

/// Lines written out one below the other, a line feed between two of them.
pub fn join_lines(lines: &Vec<RenderedLine>) -> (block: String)
    ensures
        block@ == block_text(line_views(lines@)),
{
    let ghost all = line_views(lines@);
    let mut block: String = String::new();
    let mut done: usize = 0;
    proof {
        reveal_strlit("\n");
        assert(all.take(0) =~= Seq::<LineView>::empty());
    }
    while done < lines.len()
        invariant
            done <= lines@.len(),
            all == line_views(lines@),
            block@ == block_text(all.take(done as int)),
            "\n"@ == seq!['\n'],
        decreases lines@.len() - done,
    {
        if done > 0 {
            block.append("\n");
        }
        let text: String = lines[done].text();
        block.append(text.as_str());
        proof {
            let next = all.take(done + 1);
            assert(next.drop_last() =~= all.take(done as int));
            assert(next.last() == all[done as int]);
            if done == 0 {
                assert(block@ =~= line_text(next[0]));
            } else {
                assert(block@ =~= block_text(next.drop_last()) + seq!['\n'] + line_text(
                    next.last(),
                ));
            }
        }
        done += 1;
    }
    assert(all.take(lines@.len() as int) =~= all);
    block
}

/// The whole of what the picker is given at `now` for `catalog`: a line for
/// each branch, the most recent on top.
pub fn render_block(catalog: &Catalog, now: &ClockReading) -> (block: String)
    ensures
        block@ == block_text(lines_of(catalog@, now@)),
{
    let lines: Vec<RenderedLine> = render(catalog, now);
    join_lines(&lines)
}

} // verus!
