//! What it is to rank records by the time of their commit, and that there
//! is one ranking only.

use vstd::prelude::*;
use vstd::seq_lib::to_multiset_remove;

use crate::record::RecordView;

verus! {

/// No record is more recent than one before it.
pub open spec fn descending(records: Seq<RecordView>) -> bool {
    forall|i: int, j: int|
        0 <= i < j < records.len() ==> records[i].committed_at >= records[j].committed_at
}

/// Records of `input` that were committed at the same time stand in `output`
/// in the order they have in `input`.
pub open spec fn keeps_ties_in_order(input: Seq<RecordView>, output: Seq<RecordView>) -> bool {
    forall|i: int, j: int, k: int, l: int|
        0 <= i < j < input.len() && 0 <= k < output.len() && 0 <= l < output.len()
            && input[i].committed_at == input[j].committed_at && output[k] == input[i]
            && output[l] == input[j] ==> k < l
}

/// Whether `output` ranks `input`: the same records, the most recent first,
/// those of one time in the order of `input`.
pub open spec fn is_ranking(input: Seq<RecordView>, output: Seq<RecordView>) -> bool {
    &&& output.to_multiset() == input.to_multiset()
    &&& descending(output)
    &&& keeps_ties_in_order(input, output)
}

/// What is left of a ranking without its first record ranks what is left of
/// the input without that record.
proof fn lemma_rest_is_ranked(input: Seq<RecordView>, output: Seq<RecordView>, i: int)
    requires
        is_ranking(input, output),
        0 <= i < input.len(),
        output.len() > 0,
        output[0] == input[i],
    ensures
        is_ranking(input.remove(i), output.drop_first()),
{
    let rest = input.remove(i);
    let tail = output.drop_first();
    assert(tail =~= output.remove(0));
    to_multiset_remove(input, i);
    to_multiset_remove(output, 0);
    assert forall|a: int, b: int| 0 <= a < b < tail.len() implies tail[a].committed_at
        >= tail[b].committed_at by {
        assert(tail[a] == output[a + 1] && tail[b] == output[b + 1]);
    }
    assert forall|a: int, b: int, k: int, l: int|
        0 <= a < b < rest.len() && 0 <= k < tail.len() && 0 <= l < tail.len()
            && rest[a].committed_at == rest[b].committed_at && tail[k] == rest[a] && tail[l]
            == rest[b] implies k < l by {
        let from_a = if a < i {
            a
        } else {
            a + 1
        };
        let from_b = if b < i {
            b
        } else {
            b + 1
        };
        assert(rest[a] == input[from_a] && rest[b] == input[from_b]);
        assert(tail[k] == output[k + 1] && tail[l] == output[l + 1]);
        assert(k + 1 < l + 1);
    }
}

/// Records have one ranking only: two rankings of the same records are the
/// same sequence.
pub proof fn lemma_ranking_is_unique(
    input: Seq<RecordView>,
    one: Seq<RecordView>,
    other: Seq<RecordView>,
)
    requires
        is_ranking(input, one),
        is_ranking(input, other),
    ensures
        one == other,
    decreases input.len(),
{
    input.to_multiset_ensures();
    one.to_multiset_ensures();
    other.to_multiset_ensures();
    assert(one.len() == input.len() && other.len() == input.len());
    if input.len() == 0 {
        assert(one =~= other);
    } else {
        let x = one[0];
        let z = other[0];
        assert(one.contains(x) && other.contains(z));
        assert(input.to_multiset().count(x) > 0 && input.to_multiset().count(z) > 0);
        assert(one.to_multiset().count(z) > 0 && other.to_multiset().count(x) > 0);
        assert(input.contains(x) && input.contains(z));
        assert(one.contains(z) && other.contains(x));
        let i = choose|i: int| 0 <= i < input.len() && input[i] == x;
        let j = choose|j: int| 0 <= j < input.len() && input[j] == z;
        let k = choose|k: int| 0 <= k < one.len() && one[k] == z;
        let l = choose|l: int| 0 <= l < other.len() && other[l] == x;
        if x != z {
            assert(one[0].committed_at >= one[k].committed_at);
            assert(other[0].committed_at >= other[l].committed_at);
            if i < j {
                assert(other[l] == input[i] && other[0] == input[j]);
            } else {
                assert(one[k] == input[j] && one[0] == input[i]);
            }
            assert(false);
        }
        lemma_rest_is_ranked(input, one, i);
        lemma_rest_is_ranked(input, other, i);
        lemma_ranking_is_unique(input.remove(i), one.drop_first(), other.drop_first());
        assert(one =~= seq![x] + one.drop_first());
        assert(other =~= seq![x] + other.drop_first());
    }
}

} // verus!
