//! Round-robin scheduler: tasks are handed to the workers in turn.

use vstd::prelude::*;

verus! {

/// The turn keeper of the round-robin scheduler.
pub struct RoundRobin {
    size: usize,
    current_index: usize,
}

impl RoundRobin {
    /// Number of workers.
    pub closed spec fn size(&self) -> nat {
        self.size as nat
    }

    /// The worker whose turn is next.
    pub closed spec fn current(&self) -> nat {
        self.current_index as nat
    }

    pub closed spec fn wf(&self) -> bool {
        self.current_index < self.size || (self.size == 0 && self.current_index == 0)
    }

    /// Turns over `size` workers, starting with worker 0.
    pub fn new(size: usize) -> (r: Self)
        ensures
            r.wf(),
            r.size() == size,
            r.current() == 0,
    {
        RoundRobin { size, current_index: 0 }
    }

    /// The worker whose turn it is; the turn passes to the next one.
    pub fn round(&mut self) -> (r: usize)
        requires
            old(self).wf(),
            old(self).size() > 0,
        ensures
            final(self).wf(),
            final(self).size() == old(self).size(),
            r == old(self).current(),
            r < old(self).size(),
            final(self).current() == (old(self).current() + 1) % old(self).size(),
    {
        let r = self.current_index;
        self.current_index = (self.current_index + 1) % self.size;
        r
    }
}

/// The worker that the `k`-th turn from worker `start` goes to.
pub open spec fn turn(start: int, k: int, size: int) -> int {
    (start + k) % size
}

/// Any `size` consecutive turns go to `size` different workers: every worker
/// gets exactly one task out of each `size` scheduled in a row.
pub proof fn law_round_robin_fair(start: int, i: int, j: int, size: int)
    requires
        0 <= start < size,
        0 <= i < j < size,
    ensures
        turn(start, i, size) != turn(start, j, size),
        0 <= turn(start, i, size) < size,
{
    vstd::arithmetic::div_mod::lemma_mod_bound(start + i, size);
    vstd::arithmetic::div_mod::lemma_mod_bound(start + j, size);
    if start + i < size {
        vstd::arithmetic::div_mod::lemma_small_mod((start + i) as nat, size as nat);
    } else {
        vstd::arithmetic::div_mod::lemma_mod_sub_multiples_vanish(start + i, size);
        vstd::arithmetic::div_mod::lemma_small_mod((start + i - size) as nat, size as nat);
    }
    if start + j < size {
        vstd::arithmetic::div_mod::lemma_small_mod((start + j) as nat, size as nat);
    } else {
        vstd::arithmetic::div_mod::lemma_mod_sub_multiples_vanish(start + j, size);
        vstd::arithmetic::div_mod::lemma_small_mod((start + j - size) as nat, size as nat);
    }
}

/// Successive turns: after the worker of turn `k` comes the worker of turn
/// `k + 1`.
pub proof fn law_round_robin_successive(start: int, k: int, size: int)
    requires
        size > 0,
        0 <= start,
        0 <= k,
    ensures
        (turn(start, k, size) + 1) % size == turn(start, k + 1, size),
{
    if size > 1 {
        vstd::arithmetic::div_mod::lemma_add_mod_noop(start + k, 1, size);
        vstd::arithmetic::div_mod::lemma_small_mod(1, size as nat);
    } else {
        vstd::arithmetic::div_mod::lemma_mod_bound(turn(start, k, size) + 1, size);
        vstd::arithmetic::div_mod::lemma_mod_bound(start + k + 1, size);
    }
}

/// The worker whose turn is next after `calls` calls of
/// [`RoundRobin::round`] on a turn keeper whose next turn was `start`'s: each
/// call passes the turn to the next worker, modulo `size`.
pub open spec fn current_after(start: int, calls: nat, size: int) -> int
    decreases calls,
{
    if calls == 0 {
        start
    } else {
        (current_after(start, (calls - 1) as nat, size) + 1) % size
    }
}

/// Call number `j` (counting from 0) of [`RoundRobin::round`] on a turn
/// keeper whose next turn is `start`'s goes to the worker of turn `j` from
/// `start`; from a fresh one (`start` 0), to worker `j % size`.
pub proof fn law_round_robin_jth_call(start: int, j: nat, size: int)
    requires
        0 <= start < size,
    ensures
        current_after(start, j, size) == turn(start, j as int, size),
        start == 0 ==> current_after(start, j, size) == (j as int) % size,
    decreases j,
{
    if j == 0 {
        vstd::arithmetic::div_mod::lemma_small_mod(start as nat, size as nat);
    } else {
        law_round_robin_jth_call(start, (j - 1) as nat, size);
        law_round_robin_successive(start, j - 1, size);
    }
}

} // verus!
