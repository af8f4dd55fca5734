//! Cyclic frame-index sequencer.

use vstd::prelude::*;

verus! {

/// Produces frame indices `0, 1, ..., max - 1, 0, 1, ...` in a cycle.
///
/// `update` returns the current index and advances; once the internal
/// value reaches `max`, the next call returns `0` and restarts the cycle
/// at `1`, so no boundary index is repeated.
#[derive(Debug, Clone, Copy, PartialEq, Eq, Structural)]
pub struct Counter {
    /// Number of frames in the sequence (exclusive upper index bound).
    pub max: usize,
    /// Internal position; the next call to `update` is decided by it.
    pub value: usize,
}

/// The index one `update` call returns in state `(max, value)`.
pub open spec fn spec_next_index(max: nat, value: nat) -> nat {
    if value < max {
        value
    } else {
        0
    }
}

/// The internal value after one `update` call in state `(max, value)`.
pub open spec fn spec_next_value(max: nat, value: nat) -> nat {
    if value < max {
        value + 1
    } else {
        1
    }
}

/// The internal value after `k` calls to `update` on a fresh counter.
pub open spec fn spec_value_after(max: nat, k: nat) -> nat
    decreases k,
{
    if k == 0 {
        0
    } else {
        spec_next_value(max, spec_value_after(max, (k - 1) as nat))
    }
}

/// The index returned by call number `k + 1` on a fresh counter.
pub open spec fn spec_index_at(max: nat, k: nat) -> nat {
    spec_next_index(max, spec_value_after(max, k))
}

impl Counter {
    /// A fresh sequencer over `max` frames; a sequence needs at least one
    /// frame.
    pub fn new(max: usize) -> (c: Counter)
        requires
            max > 0,
        ensures
            c.max == max,
            c.value == 0,
    {
        Counter { max, value: 0 }
    }

    /// Returns the current index and advances, wrapping once the end of
    /// the sequence is reached.
    pub fn update(&mut self) -> (r: usize)
        ensures
            final(self).max == old(self).max,
            r == spec_next_index(old(self).max as nat, old(self).value as nat),
            final(self).value == spec_next_value(old(self).max as nat, old(self).value as nat),
    {
        if self.value < self.max {
            let result = self.value;
            self.value = self.value + 1;
            result
        } else {
            self.value = 1;
            0
        }
    }
}

/// After `k` calls the internal value is `(k - 1) % max + 1` (and `0`
/// before the first call).
proof fn lemma_value_after(max: nat, k: nat)
    requires
        max > 0,
    ensures
        spec_value_after(max, k) == if k == 0 {
            0int
        } else {
            (k - 1) % (max as int) + 1
        },
    decreases k,
{
    if k > 0 {
        lemma_value_after(max, (k - 1) as nat);
        if k > 1 {
            lemma_mod_step((k - 1) as nat, max);
        } else {
            vstd::arithmetic::div_mod::lemma_small_mod(0, max);
        }
    }
}

/// Incrementing a number steps its remainder, wrapping at the modulus.
proof fn lemma_mod_step(n: nat, m: nat)
    requires
        m > 0,
        n >= 1,
    ensures
        (n as int) % (m as int) == if (n - 1) % (m as int) + 1 == m {
            0int
        } else {
            (n - 1) % (m as int) + 1
        },
{
    let prev = (n - 1) as int;
    let mi = m as int;
    vstd::arithmetic::div_mod::lemma_fundamental_div_mod(prev, mi);
    vstd::arithmetic::div_mod::lemma_mod_bound(prev, mi);
    let q = prev / mi;
    let r = prev % mi;
    if r + 1 == mi {
        assert((q + 1) * mi == q * mi + mi) by (nonlinear_arith);
        vstd::arithmetic::div_mod::lemma_fundamental_div_mod_converse(n as int, mi, q + 1, 0);
    } else {
        vstd::arithmetic::div_mod::lemma_fundamental_div_mod_converse(n as int, mi, q, r + 1);
    }
}

/// Law: for every frame count `max > 0` the produced index sequence is
/// `k % max` — the first `max` calls yield `0, 1, ..., max - 1`, call
/// `max + 1` yields `0` again, and the sequence is periodic with period
/// `max`.
pub proof fn lemma_counter_cycles(max: nat, k: nat)
    requires
        max > 0,
    ensures
        spec_index_at(max, k) == (k as int) % (max as int),
        spec_index_at(max, (k + max) as nat) == spec_index_at(max, k),
{
    lemma_index_at(max, k);
    lemma_index_at(max, (k + max) as nat);
    vstd::arithmetic::div_mod::lemma_mod_add_multiples_vanish(k as int, max as int);
}

/// The index returned by call `k + 1` is `k % max`.
proof fn lemma_index_at(max: nat, k: nat)
    requires
        max > 0,
    ensures
        spec_index_at(max, k) == (k as int) % (max as int),
{
    lemma_value_after(max, k);
    if k == 0 {
        vstd::arithmetic::div_mod::lemma_small_mod(0, max);
    } else {
        lemma_mod_step(k, max);
        vstd::arithmetic::div_mod::lemma_mod_bound((k - 1) as int, max as int);
    }
}

} // verus!
