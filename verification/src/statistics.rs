//! The mode and the median of a list of numbers.

use std::collections::HashMap;
use vstd::prelude::*;
use vstd::seq_lib::group_to_multiset_ensures;
use vstd::std_specs::hash::group_hash_axioms;

verus! {

broadcast use {group_hash_axioms, group_to_multiset_ensures};

/// How often `x` stands in `values`.
pub open spec fn occurrences(values: Seq<u32>, x: u32) -> nat {
    values.to_multiset().count(x)
}

/// Whether `counts` says of every number how often it stands in `values`:
/// it knows the numbers that occur, and no others.
pub open spec fn counts_of(values: Seq<u32>, counts: Map<u32, usize>) -> bool {
    &&& forall|x: u32| #[trigger] counts.contains_key(x) <==> occurrences(values, x) > 0
    &&& forall|x: u32| #[trigger] counts.contains_key(x) ==> counts[x] == occurrences(values, x)
}

/// Whether `m` is a mode of `values`: it occurs, and nothing occurs more
/// often.
pub open spec fn is_mode(values: Seq<u32>, m: u32) -> bool {
    &&& values.contains(m)
    &&& forall|x: u32| occurrences(values, x) <= occurrences(values, m)
}

/// Whether the numbers never fall from left to right.
pub open spec fn is_ascending(values: Seq<u32>) -> bool {
    forall|i: int, j: int| 0 <= i <= j < values.len() ==> values[i] <= values[j]
}

/// The middle of a list: the number in the middle where the list has an
/// odd number of entries, else the mean of the two in the middle, rounded
/// down.
pub open spec fn middle(values: Seq<u32>) -> int {
    let n = values.len() as int;
    if n % 2 == 0 {
        (values[n / 2 - 1] + values[n / 2]) / 2
    } else {
        values[n / 2] as int
    }
}

/// Sorts the numbers in ascending order.
///
/// This is `sort` of the standard library on the slice of the vector:
/// what comes out holds the same numbers, each as often as before, and
/// they never fall from left to right.
#[verifier::external_body]
fn sort_ascending(values: &mut Vec<u32>)
    ensures
        final(values)@.to_multiset() == old(values)@.to_multiset(),
        is_ascending(final(values)@),
{
    values.sort();
}

/// How often each number stands in `values`.
pub fn frequencies(values: &Vec<u32>) -> (counts: HashMap<u32, usize>)
    ensures
        counts_of(values@, counts@),
{
    let mut counts: HashMap<u32, usize> = HashMap::new();
    let mut i: usize = 0;
    proof {
        assert(values@.take(0) =~= Seq::<u32>::empty());
    }
    while i < values.len()
        invariant
            i <= values@.len(),
            counts_of(values@.take(i as int), counts@),
        decreases values@.len() - i,
    {
        let value = values[i];
        let ghost seen = values@.take(i as int);
        proof {
            assert(values@.take(i + 1) =~= seen.push(value));
            vstd::multiset::axiom_count_le_len(seen.to_multiset(), value);
            assert(occurrences(seen, value) <= seen.len());
        }
        let count: usize = match counts.get(&value) {
            Some(count) => *count + 1,
            None => 1,
        };
        counts.insert(value, count);
        i += 1;
    }
    proof {
        assert(values@.take(i as int) =~= values@);
    }
    counts
}

/// A mode of `values`: a number that occurs most often. Where several
/// numbers occur most often, which of them comes back is not specified.
/// The mode of an empty list is 0.
pub fn mode(values: &Vec<u32>) -> (m: u32)
    ensures
        values@.len() == 0 ==> m == 0,
        values@.len() > 0 ==> is_mode(values@, m),
{
    let counts = frequencies(values);
    let mut best: u32 = 0;
    let mut best_count: usize = 0;
    let mut i: usize = 0;
    while i < values.len()
        invariant
            i <= values@.len(),
            counts_of(values@, counts@),
            i == 0 ==> best == 0 && best_count == 0,
            i > 0 ==> values@.contains(best) && best_count == occurrences(values@, best),
            forall|j: int| 0 <= j < i ==> occurrences(values@, #[trigger] values@[j]) <= best_count,
        decreases values@.len() - i,
    {
        let value = values[i];
        proof {
            assert(values@.contains(value));
        }
        let count: usize = match counts.get(&value) {
            Some(count) => *count,
            None => 0,
        };
        if count > best_count {
            best = value;
            best_count = count;
        }
        i += 1;
    }
    proof {
        if values@.len() > 0 {
            assert forall|x: u32| occurrences(values@, x) <= occurrences(values@, best) by {
                if occurrences(values@, x) > 0 {
                    assert(values@.contains(x));
                    let j = choose|j: int| 0 <= j < values@.len() && values@[j] == x;
                    assert(occurrences(values@, values@[j]) <= best_count);
                }
            }
        }
    }
    best
}

/// The middle of a list that is not empty.
pub fn middle_value(values: &Vec<u32>) -> (m: u32)
    requires
        values@.len() > 0,
    ensures
        m == middle(values@),
{
    let n = values.len();
    if n % 2 == 0 {
        let low: u64 = values[n / 2 - 1] as u64;
        let high: u64 = values[n / 2] as u64;
        ((low + high) / 2) as u32
    } else {
        values[n / 2]
    }
}

/// Sorts a list that is not empty and gives its median: the middle of the
/// sorted list.
pub fn median(values: &mut Vec<u32>) -> (m: u32)
    requires
        old(values)@.len() > 0,
    ensures
        final(values)@.to_multiset() == old(values)@.to_multiset(),
        is_ascending(final(values)@),
        m == middle(final(values)@),
{
    sort_ascending(values);
    proof {
        assert(values@.len() == values@.to_multiset().len());
        assert(old(values)@.len() == old(values)@.to_multiset().len());
    }
    middle_value(values)
}

} // verus!
