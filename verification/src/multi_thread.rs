//! The multi-threaded executor's bookkeeping: task indices, the number of
//! worker threads, and how the executor reacts to scheduling messages and to
//! the reactor's wake-ups.

use vstd::prelude::*;
use crate::schedulers::ScheduleMessage;

verus! {

/// Index of a spawned task in the task pool.
///
/// Two indices are equal when they name the same task (the same `key`),
/// whatever their budget slot or wake-up count.
#[derive(Clone, Copy, Debug, Eq)]
pub struct FutureIndex {
    /// Slot of the task in the task pool.
    pub key: usize,
    /// Slot of the task's operation budget.
    pub budget_index: usize,
    /// How many times the task has been woken up; used as its priority.
    pub sleep_count: usize,
}

impl PartialEq for FutureIndex {
    fn eq(&self, other: &Self) -> (r: bool)
    {
        self.key == other.key
    }
}

impl vstd::std_specs::cmp::PartialEqSpecImpl for FutureIndex {
    open spec fn obeys_eq_spec() -> bool {
        true
    }

    open spec fn eq_spec(&self, other: &Self) -> bool {
        self.key == other.key
    }
}

impl FutureIndex {
    /// The index of a freshly spawned task: it has not been woken up yet.
    pub fn new(key: usize, budget_index: usize) -> (r: Self)
        ensures
            r == (FutureIndex { key, budget_index, sleep_count: 0 }),
    {
        FutureIndex { key, budget_index, sleep_count: 0 }
    }

    /// The index a wake-up of this future sends back to the scheduler: the same
    /// task and budget slot, woken once more.
    pub fn woken(&self) -> (r: Self)
        requires
            self.sleep_count < usize::MAX,
        ensures
            r == (FutureIndex {
                key: self.key,
                budget_index: self.budget_index,
                sleep_count: (self.sleep_count + 1) as usize,
            }),
    {
        FutureIndex { key: self.key, budget_index: self.budget_index, sleep_count: self.sleep_count + 1 }
    }

    /// The same task with its budget moved to slot `budget_index`.
    pub fn with_budget_index(&self, budget_index: usize) -> (r: Self)
        ensures
            r == (FutureIndex { key: self.key, budget_index, sleep_count: self.sleep_count }),
    {
        FutureIndex { key: self.key, budget_index, sleep_count: self.sleep_count }
    }
}

/// Number of worker threads for `cpus` cores: `cpus - 2`, two cores being
/// left to the executor's thread and the reactor's polling; at least one
/// worker on machines with fewer than three cores.
pub fn worker_count(cpus: usize) -> (r: usize)
    requires
        cpus > 0,
    ensures
        r == if cpus > 2 { cpus - 2 } else { 1 },
        r > 0,
{
    if cpus > 2 {
        cpus - 2
    } else {
        1
    }
}

/// What a non-blocking receive on a channel gave.
pub enum Received<T> {
    Message(T),
    Empty,
    Disconnected,
}

/// What the executor does with one received scheduling message.
#[derive(Debug, PartialEq, Eq)]
pub enum Dispatch {
    /// Hand a new task to the scheduler.
    Schedule(FutureIndex),
    /// Hand a woken task back to the scheduler.
    Reschedule(FutureIndex),
    /// Stop reading messages; `true` when the runtime is to shut down.
    Stop(bool),
}

/// The executor's reaction to the outcome of one non-blocking receive on the
/// scheduling channel: tasks go to the scheduler; a shutdown message or a
/// closed channel ends the runtime; an empty channel ends this round.
pub fn dispatch_message(received: Received<ScheduleMessage>) -> (r: Dispatch)
    ensures
        r == (match received {
            Received::Message(ScheduleMessage::Schedule(i)) => Dispatch::Schedule(i),
            Received::Message(ScheduleMessage::Reschedule(i)) => Dispatch::Reschedule(i),
            Received::Message(ScheduleMessage::Shutdown) => Dispatch::Stop(true),
            Received::Empty => Dispatch::Stop(false),
            Received::Disconnected => Dispatch::Stop(true),
        }),
{
    match received {
        Received::Message(msg) => match msg {
            ScheduleMessage::Schedule(i) => Dispatch::Schedule(i),
            ScheduleMessage::Reschedule(i) => Dispatch::Reschedule(i),
            ScheduleMessage::Shutdown => Dispatch::Stop(true),
        },
        Received::Empty => Dispatch::Stop(false),
        Received::Disconnected => Dispatch::Stop(true),
    }
}

/// The part of an I/O error the runtime looks at.
#[derive(Clone, Copy, Debug, PartialEq, Eq)]
pub enum IoErrorKind {
    WouldBlock,
    Interrupted,
    Other,
}

/// Whether the executor's main loop keeps going after one wait on the
/// reactor: `Ok(stop)` stops it when the message handler asked to shut down;
/// an interrupted or would-block wait is retried; any other error stops it.
pub fn keep_running(wait: Result<bool, IoErrorKind>) -> (r: bool)
    ensures
        r == (match wait {
            Ok(stop) => !stop,
            Err(IoErrorKind::Other) => false,
            Err(_) => true,
        }),
{
    match wait {
        Ok(stop) => !stop,
        Err(kind) => match kind {
            IoErrorKind::Interrupted => true,
            IoErrorKind::WouldBlock => true,
            IoErrorKind::Other => false,
        },
    }
}

} // verus!
