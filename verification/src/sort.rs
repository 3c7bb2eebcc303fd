//! Sorting.
use vstd::prelude::*;

verus! {

/// Whether a list ascends.
pub open spec fn ascends(s: Seq<u64>) -> bool {
    forall|i: int, j: int| 0 <= i <= j < s.len() ==> s[i] <= s[j]
}

/// The position at which a value is put into a list that ascends: behind all values that are no
/// larger.
fn position_for(sorted: &Vec<u64>, value: u64) -> (position: usize)
    requires
        ascends(sorted@),
    ensures
        position <= sorted@.len(),
        forall|i: int| 0 <= i < position ==> sorted@[i] <= value,
        forall|i: int| position <= i < sorted@.len() ==> value < sorted@[i],
{
    let mut i: usize = 0;
    while i < sorted.len()
        invariant
            i <= sorted@.len(),
            ascends(sorted@),
            forall|j: int| 0 <= j < i ==> sorted@[j] <= value,
        decreases sorted@.len() - i,
    {
        if value < sorted[i] {
            return i;
        }
        i += 1;
    }
    i
}

/// The values of a list in ascending order.
pub fn sorted(values: &Vec<u64>) -> (sorted: Vec<u64>)
    ensures
        ascends(sorted@),
        sorted@.to_multiset() == values@.to_multiset(),
        sorted@.len() == values@.len(),
{
    broadcast use vstd::seq_lib::group_to_multiset_ensures;

    let mut sorted: Vec<u64> = Vec::new();
    let mut i: usize = 0;
    assert(values@.subrange(0, 0) =~= sorted@);
    while i < values.len()
        invariant
            i <= values@.len(),
            sorted@.len() == i,
            ascends(sorted@),
            sorted@.to_multiset() == values@.subrange(0, i as int).to_multiset(),
        decreases values@.len() - i,
    {
        let value: u64 = values[i];
        let position: usize = position_for(&sorted, value);
        let ghost before = sorted@;
        sorted.insert(position, value);
        proof {
            assert(values@.subrange(0, i + 1) =~= values@.subrange(0, i as int).push(value));
            assert(sorted@ =~= before.insert(position as int, value));
            lemma_insert_adds(before, position as int, value);
            assert(sorted@.to_multiset() =~= values@.subrange(0, i + 1).to_multiset()) by {
                broadcast use vstd::seq_lib::group_to_multiset_ensures;

            }
        }
        i += 1;
    }
    assert(values@.subrange(0, i as int) =~= values@);
    sorted
}

/// Wherever a value is put into a list, the list holds it once more.
proof fn lemma_insert_adds(s: Seq<u64>, position: int, value: u64)
    requires
        0 <= position <= s.len(),
    ensures
        s.insert(position, value).to_multiset() == s.to_multiset().insert(value),
{
    broadcast use vstd::seq_lib::group_to_multiset_ensures;

    let front = s.subrange(0, position);
    let back = s.subrange(position, s.len() as int);
    assert(s =~= front + back);
    assert(s.insert(position, value) =~= front.push(value) + back);
    vstd::seq_lib::lemma_multiset_commutative(front, back);
    vstd::seq_lib::lemma_multiset_commutative(front.push(value), back);
    assert(front.push(value).to_multiset() =~= front.to_multiset().insert(value));
    assert(s.insert(position, value).to_multiset() =~= s.to_multiset().insert(value));
}

/// What ascends has no value behind a larger one.
pub proof fn law_nothing_stands_behind_a_larger_value(s: Seq<u64>, i: int, j: int)
    ensures
        ascends(s) && 0 <= i < j < s.len() ==> s[i] <= s[j],
        0 <= i < j < s.len() && s[i] > s[j] ==> !ascends(s),
        s.len() <= 1 ==> ascends(s),
{
}

} // verus!
