//! Sources of application-unique ids.

use vstd::prelude::*;

verus! {

/// A counter that hands out ids in increasing order, wrapping at `u64::MAX`
/// as an atomic `fetch_add` does.
#[derive(Debug)]
pub struct IdCounter {
    next: u64,
}

impl IdCounter {
    /// The id the counter hands out next.
    pub closed spec fn peek(&self) -> u64 {
        self.next
    }

    /// A counter whose first id is `start`.
    pub fn new(start: u64) -> (r: IdCounter)
        ensures
            r.peek() == start,
    {
        IdCounter { next: start }
    }

    /// Returns the next id and advances the counter by one, wrapping.
    pub fn fetch_next(&mut self) -> (r: u64)
        ensures
            r == old(self).peek(),
            final(self).peek() == (if old(self).peek() == u64::MAX { 0 } else { (old(self).peek() + 1) as u64 }),
    {
        let r = self.next;
        self.next = self.next.wrapping_add(1);
        r
    }
}

/// Hands out the next element id of `counter`. Every element gets its id
/// from one counter of the application, which starts at 0.
pub fn create_unique_element_id(counter: &mut IdCounter) -> (r: u64)
    ensures
        r == old(counter).peek(),
        final(counter).peek() == (if old(counter).peek() == u64::MAX { 0 } else { (old(counter).peek() + 1) as u64 }),
{
    counter.fetch_next()
}

/// The id that a counter starting at `start` hands out at its `k`-th call,
/// counting from 0: ids follow one another, wrapping at `u64::MAX`.
pub open spec fn nth_id(start: u64, k: nat) -> u64 {
    ((start + k) % 0x1_0000_0000_0000_0000) as u64
}

/// Ids come in sequence: a counter that holds the `k`-th id holds the next
/// one after a call.
pub proof fn lemma_next_id(start: u64, k: nat)
    ensures
        (if nth_id(start, k) == u64::MAX {
            0
        } else {
            (nth_id(start, k) + 1) as u64
        }) == nth_id(start, k + 1),
{
    let m: int = 0x1_0000_0000_0000_0000;
    let a: int = start + k;
    assert((a + 1) % m == (if a % m == m - 1 { 0 } else { a % m + 1 })) by (nonlinear_arith)
        requires
            m == 0x1_0000_0000_0000_0000,
            a >= 0,
    {
        vstd::arithmetic::div_mod::lemma_mod_add_multiples_vanish(a, m);
        vstd::arithmetic::div_mod::lemma_fundamental_div_mod(a, m);
        vstd::arithmetic::div_mod::lemma_fundamental_div_mod(a + 1, m);
    }
}

/// Ids are unique: no two of the first 2^64 calls of a counter give the
/// same id.
pub proof fn lemma_ids_unique(start: u64, i: nat, j: nat)
    requires
        i < j < 0x1_0000_0000_0000_0000,
    ensures
        nth_id(start, i) != nth_id(start, j),
{
    let m: int = 0x1_0000_0000_0000_0000;
    let a: int = start + i;
    let b: int = start + j;
    vstd::arithmetic::div_mod::lemma_fundamental_div_mod(a, m);
    vstd::arithmetic::div_mod::lemma_fundamental_div_mod(b, m);
    assert(a % m != b % m) by (nonlinear_arith)
        requires
            m > 0,
            0 < b - a < m,
            a == m * (a / m) + a % m,
            b == m * (b / m) + b % m,
            0 <= a % m < m,
            0 <= b % m < m,
    {
        if a % m == b % m {
            assert(m * (b / m - a / m) == b - a);
        }
    }
}

} // verus!
