//! Work-stealing scheduler: each worker runs the tasks of its own ring
//! buffer; when that is empty it collects woken tasks, takes a task injected
//! by the scheduler, or steals one from the workers' rings.

use vstd::prelude::*;
use crate::multi_thread::{FutureIndex, Received};
use crate::ringbuf::{Ringbuf, Stealer};
use crate::schedulers::{accepted, delivered, dispatched, ends, enqueue_local, keeps_tasks, worker_next, worker_rings, ParkOutcome, WorkerAction, WorkerEvent, WorkerPhase};
use std::sync::Arc;

verus! {

/// A worker of the work-stealing scheduler.
pub struct StealingRunner {
    worker: Ringbuf<FutureIndex>,
    stealers: Arc<Vec<Stealer<FutureIndex>>>,
    phase: WorkerPhase,
    queued: Ghost<Seq<FutureIndex>>,
}

impl StealingRunner {
    pub closed spec fn phase(&self) -> WorkerPhase {
        self.phase
    }

    /// The worker's own ring.
    pub closed spec fn worker(&self) -> Ringbuf<FutureIndex> {
        self.worker
    }

    /// The handles through which the worker steals.
    pub closed spec fn stealers(&self) -> Seq<Stealer<FutureIndex>> {
        self.stealers@
    }

    /// The tasks this worker has put on its own ring, in order.
    pub closed spec fn queued(&self) -> Seq<FutureIndex> {
        self.queued@
    }

    /// A worker owning `worker`, stealing through `stealers`.
    pub fn new(worker: Ringbuf<FutureIndex>, stealers: Arc<Vec<Stealer<FutureIndex>>>) -> (r: Self)
        ensures
            r.phase() == WorkerPhase::Dispatch,
            r.worker() == worker,
            r.stealers() == stealers@,
            r.queued() == Seq::<FutureIndex>::empty(),
    {
        StealingRunner { worker, stealers, phase: WorkerPhase::Dispatch, queued: Ghost(Seq::empty()) }
    }

    /// Runs the tasks of the worker's own ring, most recent first; when it is
    /// empty, goes on to collecting woken tasks.
    fn dispatch(&mut self) -> (r: WorkerAction)
        ensures
            final(self).worker == old(self).worker,
            final(self).stealers == old(self).stealers,
            final(self).queued == old(self).queued,
            dispatched(r, final(self).phase),
            r is Process ==> final(self).phase == WorkerPhase::Dispatch,
            r is Process || r == WorkerAction::ReceiveWakeup,
            r == WorkerAction::ReceiveWakeup ==> final(self).phase == WorkerPhase::CollectWakeups(
                false,
            ),
    {
        match self.worker.pop() {
            Some(index) => {
                self.phase = WorkerPhase::Dispatch;
                WorkerAction::Process(index)
            },
            None => {
                self.phase = WorkerPhase::CollectWakeups(false);
                WorkerAction::ReceiveWakeup
            },
        }
    }

    /// Takes the first task that a steal on one of the rings yields, trying
    /// them in order. Gives, beside the task, the rings tried, in order: on
    /// `None`, all of them.
    fn steal_others(&self) -> (r: (Option<FutureIndex>, Ghost<Seq<int>>))
        ensures
            forall|k: int| 0 <= k < r.1@.len() ==> 0 <= #[trigger] r.1@[k] < self.stealers@.len(),
            forall|k: int, l: int| 0 <= k < l < r.1@.len() ==> r.1@[k] < r.1@[l],
            r.0 is None ==> forall|j: int| 0 <= j < self.stealers@.len() ==> r.1@.contains(j),
    {
        let n = self.stealers.len();
        let mut i: usize = 0;
        let ghost mut tried: Seq<int> = Seq::empty();
        while i < n
            invariant
                n == self.stealers@.len(),
                i <= n,
                forall|k: int| 0 <= k < tried.len() ==> 0 <= #[trigger] tried[k] < i,
                forall|k: int, l: int| 0 <= k < l < tried.len() ==> tried[k] < tried[l],
                forall|j: int| 0 <= j < i ==> tried.contains(j),
            decreases n - i,
        {
            let ghost before = tried;
            proof {
                tried = tried.push(i as int);
                assert forall|j: int| 0 <= j <= i implies tried.contains(j) by {
                    if j < i {
                        assert(before.contains(j));
                        let k = choose|k: int| 0 <= k < before.len() && before[k] == j;
                        assert(tried[k] == j);
                    } else {
                        assert(tried[tried.len() - 1] == j);
                    }
                }
            }
            let attempt = self.stealers[i].steal();
            if attempt.is_success() {
                return (attempt.success(), Ghost(tried));
            }
            i = i + 1;
        }
        (None, Ghost(tried))
    }

    /// Puts `index` on the worker's ring, or hands it back when the ring is
    /// full.
    fn enqueue(&mut self, index: FutureIndex) -> (r: Option<FutureIndex>)
        ensures
            final(self).phase == old(self).phase,
            final(self).worker == old(self).worker,
            final(self).stealers == old(self).stealers,
            r matches Some(i) ==> i == index && final(self).queued == old(self).queued,
            r is None ==> final(self).queued@ == old(self).queued@.push(index),
    {
        let r = enqueue_local(&self.worker, index);
        if r.is_none() {
            proof {
                self.queued = Ghost(self.queued@.push(index));
            }
        }
        r
    }

    /// Queues a task on the worker's ring, then goes back to dispatching
    /// (after a reschedule if the ring is full).
    fn accept(&mut self, index: FutureIndex) -> (r: WorkerAction)
        ensures
            final(self).worker == old(self).worker,
            final(self).stealers == old(self).stealers,
            (r == WorkerAction::Reschedule(index) && final(self).queued == old(self).queued) || (
            final(self).queued@ == old(self).queued@.push(index) && !(r is Reschedule)),
            accepted(r, final(self).phase, index),
            r is Reschedule ==> r == WorkerAction::Reschedule(index) && final(self).phase
                == WorkerPhase::Dispatch,
            r is Process || r is Reschedule || r == WorkerAction::ReceiveWakeup,
            r == WorkerAction::ReceiveWakeup ==> final(self).phase == WorkerPhase::CollectWakeups(
                false,
            ),
            r is Process ==> final(self).phase == WorkerPhase::Dispatch,
    {
        match self.enqueue(index) {
            Some(i) => {
                self.phase = WorkerPhase::Dispatch;
                WorkerAction::Reschedule(i)
            },
            None => self.dispatch(),
        }
    }

    /// One step of the worker: given what the thread reports, what it should
    /// do next.
    pub fn step(&mut self, event: WorkerEvent) -> (r: WorkerAction)
        ensures
            final(self).worker() == old(self).worker(),
            final(self).stealers() == old(self).stealers(),
            keeps_tasks(old(self).phase(), event, r, old(self).queued(), final(self).queued()),
            worker_next(old(self).phase(), event, r, final(self).phase()),
            (r == WorkerAction::Exit) <==> (final(self).phase() == WorkerPhase::Finished),
            (r == WorkerAction::Exit) <==> ends(old(self).phase(), event),
            r matches WorkerAction::Reschedule(j) ==> delivered(old(self).phase(), event) == Some(j)
                || (old(self).phase() == WorkerPhase::AwaitInjected && event == WorkerEvent::Injected(None)),
            delivered(old(self).phase(), event) is Some && r is Reschedule ==> r == WorkerAction::Reschedule(
                delivered(old(self).phase(), event)->0,
            ),
            r == WorkerAction::ReceiveWakeup ==> final(self).phase() is CollectWakeups,
            r == WorkerAction::ReceiveInjected ==> final(self).phase() == WorkerPhase::AwaitInjected
                && (old(self).phase() is CollectWakeups || old(self).phase() == WorkerPhase::AwaitInjected),
            r == WorkerAction::Park ==> final(self).phase() == WorkerPhase::Parked && (old(self).phase()
                == WorkerPhase::Parked || (old(self).phase() == WorkerPhase::AwaitInjected && event
                == WorkerEvent::Injected(None))),
            old(self).phase() == WorkerPhase::CollectWakeups(false) && event == WorkerEvent::Wakeup(
                Received::Empty,
            ) ==> r == WorkerAction::ReceiveInjected,
    {
        match self.phase {
            WorkerPhase::Finished => WorkerAction::Exit,
            WorkerPhase::Dispatch => self.dispatch(),
            WorkerPhase::CollectWakeups(received_any) => match event {
                WorkerEvent::Wakeup(Received::Message(index)) => {
                    self.phase = WorkerPhase::CollectWakeups(true);
                    match self.enqueue(index) {
                        Some(i) => WorkerAction::Reschedule(i),
                        None => WorkerAction::ReceiveWakeup,
                    }
                },
                WorkerEvent::Wakeup(Received::Empty) => {
                    if received_any {
                        self.dispatch()
                    } else {
                        self.phase = WorkerPhase::AwaitInjected;
                        WorkerAction::ReceiveInjected
                    }
                },
                WorkerEvent::Wakeup(Received::Disconnected) => {
                    self.phase = WorkerPhase::Finished;
                    WorkerAction::Exit
                },
                _ => WorkerAction::ReceiveWakeup,
            },
            WorkerPhase::AwaitInjected => match event {
                WorkerEvent::Injected(Some(index)) => self.accept(index),
                WorkerEvent::Injected(None) => match self.steal_others().0 {
                    Some(index) => {
                        let ghost before = self.queued@;
                        let r = self.accept(index);
                        assert(before.push(index).drop_last() =~= before);
                        r
                    },
                    None => {
                        self.phase = WorkerPhase::Parked;
                        WorkerAction::Park
                    },
                },
                _ => WorkerAction::ReceiveInjected,
            },
            WorkerPhase::Parked => match event {
                WorkerEvent::Parked(ParkOutcome::Woken(index)) => self.accept(index),
                WorkerEvent::Parked(ParkOutcome::HaveTasks(Some(index))) => self.accept(index),
                WorkerEvent::Parked(ParkOutcome::HaveTasks(None)) => self.dispatch(),
                WorkerEvent::Parked(ParkOutcome::WakeupsClosed) => {
                    self.phase = WorkerPhase::Finished;
                    WorkerAction::Exit
                },
                WorkerEvent::Parked(ParkOutcome::Closed) => {
                    self.phase = WorkerPhase::Finished;
                    WorkerAction::Exit
                },
                _ => WorkerAction::Park,
            },
        }
    }
}

/// The runners of a work-stealing scheduler with `size` workers, each ring
/// of `capacity` slots: runner `i` owns ring `i` and steals through the
/// stealers of all the workers, in worker order.
pub fn stealing_runners(size: usize, capacity: usize) -> (r: Vec<StealingRunner>)
    requires
        capacity <= usize::MAX / 2 + 1,
    ensures
        r.len() == size,
        forall|i: int|
            0 <= i < size ==> {
                &&& (#[trigger] r@[i]).phase() == WorkerPhase::Dispatch
                &&& r@[i].stealers().len() == size
            },
        forall|i: int, j: int|
            0 <= i < size && 0 <= j < size ==> (#[trigger] r@[i]).stealers()[j].ring() == (
            #[trigger] r@[j]).worker().ring(),
{
    let (mut rings, stealers) = worker_rings(size, capacity);
    let ghost all_rings = rings@;
    let ghost all_stealers = stealers@;
    let shared = Arc::new(stealers);
    let mut runners: Vec<StealingRunner> = Vec::with_capacity(size);
    let mut i: usize = 0;
    while i < size
        invariant
            i <= size,
            all_rings.len() == size,
            all_stealers.len() == size,
            shared@ == all_stealers,
            rings@ == all_rings.skip(i as int),
            runners.len() == i,
            forall|k: int| 0 <= k < size ==> #[trigger] all_stealers[k].ring() == all_rings[k].ring(),
            forall|k: int|
                0 <= k < i ==> {
                    &&& (#[trigger] runners@[k]).phase() == WorkerPhase::Dispatch
                    &&& runners@[k].stealers() == all_stealers
                    &&& runners@[k].worker() == all_rings[k]
                },
        decreases size - i,
    {
        assert(rings@[0] == all_rings[i as int]);
        let worker = rings.remove(0);
        assert(rings@ =~= all_rings.skip(i as int + 1));
        let runner = StealingRunner::new(worker, shared.clone());
        runners.push(runner);
        i = i + 1;
    }
    runners
}

} // verus!
