//! Per-task operation budgets, after the token-bucket idea of cooperative
//! preemption: each task may complete a bounded number of operations in a
//! row; when its budget runs out, its next operation yields instead, and the
//! budget is refilled.

use vstd::prelude::*;

verus! {

/// The budget a task starts with, and gets back after yielding.
pub const DEFAULT_BUDGET: usize = 128;

/// Marks "no task" and "no cached budget" in a [`BudgetCursor`].
pub const NO_SLOT: usize = usize::MAX;

/// A worker thread's view of the budget of the task it is running: the
/// task's budget slot and the budget cached from it.
#[derive(Clone, Copy, Debug, PartialEq, Eq, Structural)]
pub struct BudgetCursor {
    /// Budget slot of the running task, or [`NO_SLOT`].
    pub index: usize,
    /// Cached budget of the running task, or [`NO_SLOT`].
    pub budget: usize,
}

/// What an operation of the running task may do.
#[derive(Clone, Copy, Debug, PartialEq, Eq, Structural)]
pub enum Allowance {
    /// The budget is spent: wake the task and yield; the budget is refilled.
    Yield,
    /// Go ahead; the budget before the operation.
    Proceed(usize),
}

/// What the running future may do given its budget, and the budget after that.
pub open spec fn allowance_next(budget: usize) -> (Allowance, usize) {
    if budget == 0 {
        (Allowance::Yield, DEFAULT_BUDGET)
    } else {
        (Allowance::Proceed(budget), budget)
    }
}

impl BudgetCursor {
    /// A thread that has not run any task yet.
    pub fn new() -> (r: Self)
        ensures
            r == (BudgetCursor { index: NO_SLOT, budget: NO_SLOT }),
    {
        BudgetCursor { index: NO_SLOT, budget: NO_SLOT }
    }

    /// Switches to the task whose budget lives in slot `budget_index`.
    /// `stored` is what the budget table holds in that slot; a task without
    /// one starts with [`DEFAULT_BUDGET`]. Returns the slot and budget to
    /// store back for the task that ran before, if there was one.
    pub fn switch_to(&mut self, budget_index: usize, stored: Option<usize>) -> (r: Option<(usize, usize)>)
        ensures
            final(self).index == budget_index,
            final(self).budget == (match stored {
                Some(b) => b,
                None => DEFAULT_BUDGET,
            }),
            r == (if old(self).index != NO_SLOT && old(self).budget != NO_SLOT {
                Some((old(self).index, old(self).budget))
            } else {
                None
            }),
    {
        let current = match stored {
            Some(b) => b,
            None => DEFAULT_BUDGET,
        };
        let previous_index = self.index;
        let previous_budget = self.budget;
        self.index = budget_index;
        self.budget = current;
        if previous_index != NO_SLOT && previous_budget != NO_SLOT {
            Some((previous_index, previous_budget))
        } else {
            None
        }
    }

    /// Lets an operation of the running task through, or makes the task
    /// yield when its budget is spent (refilling it).
    pub fn allow(&mut self) -> (r: Allowance)
        ensures
            (r, final(self).budget) == allowance_next(old(self).budget),
            final(self).index == old(self).index,
            old(self).budget > 0 ==> r == Allowance::Proceed(old(self).budget) && final(self).budget
                == old(self).budget,
            old(self).budget == 0 ==> r == Allowance::Yield && final(self).budget == DEFAULT_BUDGET,
    {
        if self.budget == 0 {
            self.budget = DEFAULT_BUDGET;
            Allowance::Yield
        } else {
            Allowance::Proceed(self.budget)
        }
    }

    /// Charges one completed operation that went through with
    /// `budget` left.
    pub fn charge(&mut self, budget: usize)
        requires
            budget > 0,
        ensures
            final(self).budget == budget - 1,
            final(self).budget == charge_next(budget),
            final(self).index == old(self).index,
    {
        self.budget = budget - 1;
    }
}

/// The budget after [`BudgetCursor::charge`] with `budget` left.
pub open spec fn charge_next(budget: usize) -> usize {
    (budget - 1) as usize
}

/// How many operations in a row a task with budget `budget` completes before
/// it is made to yield, each operation going through
/// [`BudgetCursor::allow`] and then [`BudgetCursor::charge`].
pub open spec fn operations_before_yield(budget: usize) -> nat
    decreases budget,
{
    match allowance_next(budget).0 {
        Allowance::Yield => 0,
        Allowance::Proceed(left) => 1 + operations_before_yield(charge_next(left)),
    }
}

/// A task with budget `b` completes exactly `b` operations in a row before
/// it is made to yield, and a yield refills its budget to [`DEFAULT_BUDGET`].
pub proof fn law_budget_bounds_run(b: usize)
    ensures
        operations_before_yield(b) == b,
        b == 0 ==> allowance_next(b) == (Allowance::Yield, DEFAULT_BUDGET),
    decreases b,
{
    if b > 0 {
        law_budget_bounds_run(charge_next(b));
    }
}

/// Letting an operation through costs nothing: only a completed operation
/// ([`BudgetCursor::charge`]) lowers the budget. So a task with budget left
/// is let through with that budget, and asking again before a charge (the
/// operation was not ready) gives the same answer and the same budget, any
/// number of times. A spent budget makes the task yield and is refilled, and
/// the refilled budget lets the next operation through.
pub proof fn law_allow_is_free(b: usize)
    ensures
        b > 0 ==> allowance_next(b).0 == Allowance::Proceed(b),
        b > 0 ==> allowance_next(b).1 == b,
        allowance_next(allowance_next(b).1) == (if b > 0 {
            allowance_next(b)
        } else {
            (Allowance::Proceed(DEFAULT_BUDGET), DEFAULT_BUDGET)
        }),
        b > 0 ==> charge_next(allowance_next(b).1) + 1 == b,
{
}

} // verus!
