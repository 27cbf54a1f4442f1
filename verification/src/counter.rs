//! Counters that number things and start over when they run out.

use vstd::prelude::*;

verus! {

/// The number that follows another in a 64-bit counter.
pub open spec fn next_count(count: u64) -> u64 {
    if count == u64::MAX {
        0
    } else {
        (count + 1) as u64
    }
}

/// The number that a counter has reached after `n` more steps.
pub open spec fn count_after(count: u64, n: nat) -> u64
    decreases n,
{
    if n == 0 {
        count
    } else {
        next_count(count_after(count, (n - 1) as nat))
    }
}

/// Take the number of a counter, which goes on by one.
pub fn take_count(counter: &mut u64) -> (count: u64)
    ensures
        count == *old(counter),
        *final(counter) == next_count(*old(counter)),
{
    let count: u64 = *counter;
    *counter = if count == u64::MAX {
        0
    } else {
        count + 1
    };
    count
}

proof fn lemma_count_after(count: u64, n: nat)
    ensures
        count_after(count, n) == (count + n) % 0x1_0000_0000_0000_0000,
    decreases n,
{
    if n > 0 {
        lemma_count_after(count, (n - 1) as nat);
    }
}

/// The numbers that a counter gives do not repeat before it starts over.
pub proof fn law_counts_differ(count: u64, i: nat, j: nat)
    requires
        i < j,
        j - i < 0x1_0000_0000_0000_0000,
    ensures
        count_after(count, i) != count_after(count, j),
{
    lemma_count_after(count, i);
    lemma_count_after(count, j);
}

/// A counter goes on by one and starts over after its largest number.
pub proof fn law_counter_goes_on(count: u64, n: nat)
    ensures
        count < u64::MAX ==> next_count(count) == count + 1,
        next_count(u64::MAX) == 0,
        count_after(count, 0) == count,
        count_after(count, n + 1) == next_count(count_after(count, n)),
        count + n <= u64::MAX ==> count_after(count, n) == count + n,
{
    lemma_count_after(count, n);
}

} // verus!
