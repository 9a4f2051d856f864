//! The logical CPU cores listed in `/sys/devices/system/cpu`.
use vstd::prelude::*;

verus! {

/// Core indexes in ascending order.
pub open spec fn cores_sorted(s: Seq<u8>) -> bool {
    forall|i: int, j: int| 0 <= i <= j < s.len() ==> #[trigger] s[i] <= #[trigger] s[j]
}

/// The possible cores that are also present, in the order and with the
/// repetitions of the `possible` list.
pub open spec fn present_possible_cores(possible: Seq<u8>, present: Seq<u8>) -> Seq<u8> {
    possible.filter(|c: u8| present.contains(c))
}

fn contains_core(cores: &Vec<u8>, core: u8) -> (found: bool)
    ensures
        found == cores@.contains(core),
{
    let mut i: usize = 0;
    while i < cores.len()
        invariant
            0 <= i <= cores@.len(),
            forall|k: int| 0 <= k < i ==> cores@[k] != core,
        decreases cores@.len() - i,
    {
        if cores[i] == core {
            assert(cores@[i as int] == core);
            return true;
        }
        i = i + 1;
    }
    false
}

/// Inserts `core` into the sorted list behind every index not above it.
fn insert_sorted(cores: &mut Vec<u8>, core: u8)
    requires
        cores_sorted(old(cores)@),
    ensures
        cores_sorted(final(cores)@),
        final(cores)@.to_multiset() == old(cores)@.to_multiset().insert(core),
{
    let ghost before = cores@;
    let mut j: usize = 0;
    while j < cores.len() && cores[j] <= core
        invariant
            cores@ == before,
            0 <= j <= cores@.len(),
            forall|k: int| 0 <= k < j ==> #[trigger] cores@[k] <= core,
        decreases cores@.len() - j,
    {
        j = j + 1;
    }
    cores.insert(j, core);
    proof {
        vstd::seq_lib::to_multiset_insert(before, j as int, core);
        let after = cores@;
        assert(after == before.insert(j as int, core));
        assert forall|a: int, b: int| 0 <= a <= b < after.len() implies #[trigger] after[a]
            <= #[trigger] after[b] by {
            if a < j && b < j {
                assert(after[a] == before[a] && after[b] == before[b]);
            } else if a < j && b == j {
                assert(after[a] == before[a]);
            } else if a < j && b > j {
                assert(after[a] == before[a] && after[b] == before[b - 1]);
            } else if a == j && b > j {
                // the element after the insertion point is above `core`
                assert(after[b] == before[b - 1]);
                assert(before[j as int] > core);
                assert(before[j as int] <= before[b - 1]);
            } else if a > j {
                assert(after[a] == before[a - 1] && after[b] == before[b - 1]);
            }
        }
    }
}

/// The logical cores that can be used: the possible cores that are also
/// present, sorted by index (a possible core listed twice is kept twice).
pub fn available_logical_cores(possible: &Vec<u8>, present: &Vec<u8>) -> (cores: Vec<u8>)
    ensures
        cores_sorted(cores@),
        cores@.to_multiset() == present_possible_cores(possible@, present@).to_multiset(),
{
    let ghost pred = |c: u8| present@.contains(c);
    let mut cores: Vec<u8> = Vec::new();
    let mut i: usize = 0;
    proof {
        assert(possible@.subrange(0, 0) =~= Seq::<u8>::empty());
        reveal(Seq::filter);
        assert(Seq::<u8>::empty().filter(pred) =~= Seq::<u8>::empty());
        assert(cores@.to_multiset() =~= Seq::<u8>::empty().to_multiset()) by {
            broadcast use vstd::seq_lib::group_to_multiset_ensures;
        }
    }
    while i < possible.len()
        invariant
            0 <= i <= possible@.len(),
            pred == (|c: u8| present@.contains(c)),
            cores_sorted(cores@),
            cores@.to_multiset() == possible@.subrange(0, i as int).filter(pred).to_multiset(),
        decreases possible@.len() - i,
    {
        let core = possible[i];
        let ghost prefix = possible@.subrange(0, i as int);
        proof {
            assert(possible@.subrange(0, i + 1) =~= prefix.push(core));
            prefix.lemma_filter_push(core, pred);
        }
        if contains_core(present, core) {
            proof {
                broadcast use vstd::seq_lib::group_to_multiset_ensures;
                assert(prefix.filter(pred).push(core).to_multiset() =~= prefix.filter(
                    pred,
                ).to_multiset().insert(core));
            }
            insert_sorted(&mut cores, core);
        }
        i = i + 1;
    }
    assert(possible@.subrange(0, possible@.len() as int) =~= possible@);
    cores
}

} // verus!
