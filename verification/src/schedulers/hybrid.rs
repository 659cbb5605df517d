//! Hybrid scheduler: each worker keeps a `cold` ring buffer that other
//! workers can steal from, and a local `hot` priority queue that orders its
//! tasks by how often they have been woken up. Whenever the hot queue runs
//! dry, the worker moves its cold tasks into it.

use vstd::prelude::*;
use crate::multi_thread::{FutureIndex, Received};
use crate::ringbuf::{Ringbuf, Stealer};
use crate::schedulers::{accepted, delivered, dispatched, ends, enqueue_local, keeps_tasks, worker_next, worker_rings, ParkOutcome, WorkerAction, WorkerEvent, WorkerPhase};
use std::sync::Arc;
use priority_queue::PriorityQueue;
use rustc_hash::FxHasher;
use std::collections::HashMap;
use std::hash::BuildHasherDefault;

verus! {

#[verifier::external_type_specification]
#[verifier::external_body]
#[verifier::reject_recursive_types(I)]
#[verifier::reject_recursive_types(P)]
#[verifier::reject_recursive_types(H)]
pub struct ExPriorityQueue<I, P, H>(PriorityQueue<I, P, H>) where I: std::hash::Hash + Eq, P: Ord;

#[verifier::external_type_specification]
#[verifier::external_body]
pub struct ExFxHasher(FxHasher);

#[verifier::external_type_specification]
#[verifier::external_body]
#[verifier::reject_recursive_types(H)]
pub struct ExBuildHasherDefault<H>(BuildHasherDefault<H>);

/// Priority queue of task keys, ordered by priority.
pub type HotOrder = PriorityQueue<usize, usize, BuildHasherDefault<FxHasher>>;

/// The items of a [`HotOrder`], each with its priority.
pub uninterp spec fn order_contents(q: HotOrder) -> Map<usize, usize>;

/// `PriorityQueue::with_capacity_and_default_hasher`: an empty queue.
#[verifier::external_body]
fn order_with_capacity(capacity: usize) -> (queue: HotOrder)
    ensures
        order_contents(queue) =~= Map::empty(),
{
    PriorityQueue::with_capacity_and_default_hasher(capacity)
}

/// `PriorityQueue::push`: inserts `item` with `priority`; an item already in
/// the queue gets the new priority, and its old priority comes back.
#[verifier::external_body]
fn order_push(q: &mut HotOrder, item: usize, priority: usize) -> (old_priority: Option<usize>)
    ensures
        order_contents(*final(q)) == order_contents(*old(q)).insert(item, priority),
        old_priority == (if order_contents(*old(q)).contains_key(item) {
            Some(order_contents(*old(q))[item])
        } else {
            None::<usize>
        }),
{
    q.push(item, priority)
}

/// `PriorityQueue::pop`: removes an item of greatest priority, with its
/// priority; `None` on an empty queue.
#[verifier::external_body]
fn order_pop(q: &mut HotOrder) -> (r: Option<(usize, usize)>)
    ensures
        r is None ==> order_contents(*old(q)).dom() == Set::<usize>::empty() && order_contents(
            *final(q),
        ) == order_contents(*old(q)),
        r matches Some((item, priority)) ==> {
            &&& order_contents(*old(q)).contains_key(item)
            &&& order_contents(*old(q))[item] == priority
            &&& forall|k: usize| #[trigger]
                order_contents(*old(q)).contains_key(k) ==> order_contents(*old(q))[k] <= priority
            &&& order_contents(*final(q)) == order_contents(*old(q)).remove(item)
        },
{
    q.pop()
}

/// A worker's local queue of tasks, served by priority: the task woken up
/// most often first.
///
/// A task is queued once: queuing it again updates its priority and keeps
/// the index it was first queued with.
pub struct HotQueue {
    order: HotOrder,
    entries: HashMap<usize, FutureIndex>,
}

impl HotQueue {
    /// The queued tasks, by key.
    pub closed spec fn tasks(&self) -> Map<usize, FutureIndex> {
        self.entries@
    }

    /// The priority of each queued task, by key.
    pub closed spec fn priorities(&self) -> Map<usize, usize> {
        order_contents(self.order)
    }

    pub closed spec fn wf(&self) -> bool {
        &&& self.priorities().dom() == self.tasks().dom()
        &&& forall|k: usize| #[trigger] self.tasks().contains_key(k) ==> self.tasks()[k].key == k
    }

    /// An empty queue with room for `capacity` tasks.
    pub fn with_capacity(capacity: usize) -> (r: Self)
        ensures
            r.wf(),
            r.tasks() == Map::<usize, FutureIndex>::empty(),
            r.priorities() == Map::<usize, usize>::empty(),
    {
        let r = HotQueue { order: order_with_capacity(capacity), entries: HashMap::new() };
        assert(r.priorities().dom() =~= r.tasks().dom());
        r
    }

    /// Queues `index` with its wake-up count as priority.
    pub fn push(&mut self, index: FutureIndex)
        requires
            old(self).wf(),
        ensures
            final(self).wf(),
            final(self).priorities() == old(self).priorities().insert(index.key, index.sleep_count),
            final(self).tasks() == (if old(self).tasks().contains_key(index.key) {
                old(self).tasks()
            } else {
                old(self).tasks().insert(index.key, index)
            }),
    {
        broadcast use vstd::std_specs::hash::group_hash_axioms;

        let previous = order_push(&mut self.order, index.key, index.sleep_count);
        if previous.is_none() {
            self.entries.insert(index.key, index);
        }
        assert(self.priorities().dom() =~= self.tasks().dom());
    }

    /// Takes a task of greatest priority; `None` when the queue is empty.
    pub fn pop(&mut self) -> (r: Option<FutureIndex>)
        requires
            old(self).wf(),
        ensures
            final(self).wf(),
            r is None ==> old(self).tasks().dom() == Set::<usize>::empty() && final(self).tasks()
                == old(self).tasks() && final(self).priorities() == old(self).priorities(),
            r matches Some(index) ==> {
                &&& old(self).tasks().contains_key(index.key)
                &&& old(self).tasks()[index.key] == index
                &&& serves_first(old(self).priorities(), index.key, final(self).priorities())
                &&& final(self).tasks() == old(self).tasks().remove(index.key)
            },
    {
        broadcast use vstd::std_specs::hash::group_hash_axioms;

        match order_pop(&mut self.order) {
            None => None,
            Some((key, _priority)) => {
                assert(self.entries@.contains_key(key));
                let taken = self.entries.remove(&key);
                assert(self.priorities().dom() =~= self.tasks().dom());
                taken
            },
        }
    }
}

/// Serving `key` from a queue with priorities `before` leaves `after`: the
/// task under `key` has the greatest priority, and it is the one removed.
pub open spec fn serves_first(before: Map<usize, usize>, key: usize, after: Map<usize, usize>) -> bool {
    &&& before.contains_key(key)
    &&& forall|k: usize| #[trigger] before.contains_key(k) ==> before[k] <= before[key]
    &&& after == before.remove(key)
}

/// The hot queue serves tasks by priority: when two tasks are served one
/// after the other with no task queued in between, the first had at least
/// the priority of the second, and every task still queued has at most the
/// priority of either.
pub proof fn law_hot_queue_serves_by_priority(
    p0: Map<usize, usize>,
    first: usize,
    p1: Map<usize, usize>,
    second: usize,
    p2: Map<usize, usize>,
)
    requires
        serves_first(p0, first, p1),
        serves_first(p1, second, p2),
    ensures
        first != second,
        p0[second] <= p0[first],
        forall|k: usize| #[trigger] p2.contains_key(k) ==> p0[k] <= p0[second] && p0[k] <= p0[first],
{
    assert forall|k: usize| #[trigger] p2.contains_key(k) implies p0[k] <= p0[second] && p0[k] <= p0[first] by {
        assert(p1.contains_key(k));
    }
}

/// The keys of `tasks`.
pub open spec fn keys_of(tasks: Seq<FutureIndex>) -> Set<usize> {
    Set::new(|k: usize| exists|i: int| 0 <= i < tasks.len() && #[trigger] tasks[i].key == k)
}

proof fn lemma_keys_of_push(tasks: Seq<FutureIndex>, x: FutureIndex)
    ensures
        keys_of(tasks.push(x)) == keys_of(tasks).insert(x.key),
{
    let after = tasks.push(x);
    assert forall|k: usize| keys_of(tasks).contains(k) implies #[trigger] keys_of(after).contains(k) by {
        let i = choose|i: int| 0 <= i < tasks.len() && #[trigger] tasks[i].key == k;
        assert(after[i] == tasks[i]);
    }
    assert(after[tasks.len() as int] == x);
    assert forall|k: usize| #[trigger] keys_of(after).contains(k) && k != x.key implies keys_of(tasks).contains(k) by {
        let i = choose|i: int| 0 <= i < after.len() && #[trigger] after[i].key == k;
        assert(i < tasks.len());
        assert(tasks[i] == after[i]);
    }
    assert(keys_of(after) =~= keys_of(tasks).insert(x.key));
}

/// Capacity of a worker's hot queue.
pub const HOT_QUEUE_CAPACITY: usize = 65536;

/// A worker of the hybrid scheduler.
///
/// It serves its hot queue first; when that is empty it moves its cold
/// ring into it; when both are empty it collects woken tasks, then injected
/// tasks, then steals from the other workers, and finally blocks.
pub struct HybridRunner {
    idx: usize,
    cold: Ringbuf<FutureIndex>,
    hot: HotQueue,
    stealers: Arc<Vec<Stealer<FutureIndex>>>,
    phase: WorkerPhase,
    serving: Ghost<HotQueue>,
    served: Ghost<usize>,
    queued: Ghost<Seq<FutureIndex>>,
}

impl HybridRunner {
    /// The hot queue as it was when the task served last was taken from it.
    pub closed spec fn serving(&self) -> HotQueue {
        self.serving@
    }

    /// The priority that the task served last had in the hot queue.
    pub closed spec fn served(&self) -> usize {
        self.served@
    }

    /// The tasks this worker has put on its cold ring, in order.
    pub closed spec fn queued(&self) -> Seq<FutureIndex> {
        self.queued@
    }

    pub closed spec fn wf(&self) -> bool {
        self.hot.wf()
    }

    pub closed spec fn phase(&self) -> WorkerPhase {
        self.phase
    }

    /// The hot queue.
    pub closed spec fn hot(&self) -> HotQueue {
        self.hot
    }

    /// Position of this worker among the stealers.
    pub closed spec fn index(&self) -> usize {
        self.idx
    }

    /// The worker's own cold ring.
    pub closed spec fn cold(&self) -> Ringbuf<FutureIndex> {
        self.cold
    }

    /// The handles through which the worker steals, one per worker in
    /// worker order, its own included.
    pub closed spec fn stealers(&self) -> Seq<Stealer<FutureIndex>> {
        self.stealers@
    }

    /// `i` is the task just served: it was in the hot queue it was taken
    /// from with the greatest priority, that priority is [`Self::served`],
    /// and the hot queue now holds the other tasks.
    pub open spec fn served_best(&self, i: FutureIndex) -> bool {
        &&& self.serving().tasks().contains_key(i.key)
        &&& self.serving().tasks()[i.key] == i
        &&& serves_first(self.serving().priorities(), i.key, self.hot().priorities())
        &&& self.hot().tasks() == self.serving().tasks().remove(i.key)
        &&& self.served() == self.serving().priorities()[i.key]
    }

    /// Worker number `idx`, owning `cold`, stealing through `stealers`
    /// (its own included, which it skips).
    pub fn new(idx: usize, cold: Ringbuf<FutureIndex>, stealers: Arc<Vec<Stealer<FutureIndex>>>) -> (r: Self)
        ensures
            r.wf(),
            r.phase() == WorkerPhase::Dispatch,
            r.hot().tasks() == Map::<usize, FutureIndex>::empty(),
            r.index() == idx,
            r.cold() == cold,
            r.stealers() == stealers@,
            r.queued() == Seq::<FutureIndex>::empty(),
    {
        let hot = HotQueue::with_capacity(HOT_QUEUE_CAPACITY);
        let ghost first = hot;
        HybridRunner {
            idx,
            cold,
            hot,
            stealers,
            phase: WorkerPhase::Dispatch,
            serving: Ghost(first),
            served: Ghost(0),
            queued: Ghost(Seq::empty()),
        }
    }

    /// Moves everything the cold ring holds into the hot queue, each task with
    /// its wake-up count as priority: pops the ring until a pop finds it
    /// empty. Only the owner pushes on the ring, so that happens within one
    /// pop more than the ring has slots. Gives the tasks taken, in the order
    /// they came, and whether the last pop found the ring empty.
    fn refill_hot(&mut self) -> (r: Ghost<(Seq<FutureIndex>, bool)>)
        requires
            old(self).wf(),
        ensures
            final(self).wf(),
            final(self).phase == old(self).phase,
            final(self).idx == old(self).idx,
            final(self).cold == old(self).cold,
            final(self).stealers == old(self).stealers,
            final(self).queued == old(self).queued,
            r@.1 || r@.0.len() > old(self).cold.capacity(),
            old(self).hot.tasks().dom().subset_of(final(self).hot.tasks().dom()),
            forall|i: int|
                0 <= i < r@.0.len() ==> final(self).hot.tasks().contains_key(#[trigger] r@.0[i].key),
            final(self).hot.tasks().dom() == old(self).hot.tasks().dom().union(keys_of(r@.0)),
    {
        let cap: u128 = self.cold.slots() as u128;
        let mut count: u128 = 0;
        let ghost mut taken: Seq<FutureIndex> = Seq::empty();
        let mut drained = false;
        while !drained && count <= cap
            invariant
                self.wf(),
                self.phase == old(self).phase,
                self.idx == old(self).idx,
                self.cold == old(self).cold,
                self.stealers == old(self).stealers,
                self.queued == old(self).queued,
                cap == old(self).cold.capacity(),
                cap <= usize::MAX,
                count == taken.len(),
                count <= cap + 1,
                old(self).hot.tasks().dom().subset_of(self.hot.tasks().dom()),
                forall|i: int| 0 <= i < taken.len() ==> self.hot.tasks().contains_key(#[trigger] taken[i].key),
                self.hot.tasks().dom() == old(self).hot.tasks().dom().union(keys_of(taken)),
            decreases cap + 1 - count + (if drained { 0int } else { 1int }),
        {
            match self.cold.pop() {
                Some(index) => {
                    let ghost before = taken;
                    self.hot.push(index);
                    proof {
                        taken = taken.push(index);
                        assert(taken[taken.len() - 1].key == index.key);
                        assert forall|i: int| 0 <= i < taken.len() implies self.hot.tasks().contains_key(
                            #[trigger] taken[i].key,
                        ) by {
                            if i < before.len() {
                                assert(taken[i] == before[i]);
                            }
                        }
                        lemma_keys_of_push(before, index);
                        assert(self.hot.tasks().dom() =~= old(self).hot.tasks().dom().union(keys_of(taken)));
                    }
                    count = count + 1;
                },
                None => {
                    drained = true;
                },
            }
        }
        Ghost((taken, drained))
    }

    /// Serves the queues: the hot queue's best task, else the cold ring's
    /// tasks through the hot queue, else on to collecting woken tasks.
    fn dispatch(&mut self) -> (r: WorkerAction)
        requires
            old(self).wf(),
        ensures
            final(self).wf(),
            final(self).idx == old(self).idx,
            final(self).cold == old(self).cold,
            final(self).stealers == old(self).stealers,
            final(self).queued == old(self).queued,
            dispatched(r, final(self).phase),
            r matches WorkerAction::Process(i) ==> {
                &&& final(self).served_best(i)
                &&& old(self).hot.tasks().dom().subset_of(final(self).serving().tasks().dom())
                &&& old(self).hot.tasks().dom() != Set::<usize>::empty() ==> final(self).serving()
                    == old(self).hot
            },
            r == WorkerAction::ReceiveWakeup ==> {
                &&& final(self).hot.tasks().dom() == Set::<usize>::empty()
                &&& old(self).hot.tasks().dom() == Set::<usize>::empty()
            },
    {
        let ghost before = self.hot;
        if let Some(index) = self.hot.pop() {
            self.phase = WorkerPhase::Dispatch;
            proof {
                self.serving = Ghost(before);
                self.served = Ghost(before.priorities()[index.key]);
            }
            return WorkerAction::Process(index);
        }
        self.refill_hot();
        let ghost refilled = self.hot;
        if let Some(index) = self.hot.pop() {
            self.phase = WorkerPhase::Dispatch;
            proof {
                self.serving = Ghost(refilled);
                self.served = Ghost(refilled.priorities()[index.key]);
            }
            return WorkerAction::Process(index);
        }
        self.phase = WorkerPhase::CollectWakeups(false);
        WorkerAction::ReceiveWakeup
    }

    /// Takes one task from the other workers' rings, trying them in order and
    /// skipping this worker's own. Gives, beside the task, the workers whose
    /// rings were tried, in order: on `None`, every worker but this one.
    fn steal_task(&self) -> (r: (Option<FutureIndex>, Ghost<Seq<int>>))
        ensures
            forall|k: int|
                0 <= k < r.1@.len() ==> 0 <= #[trigger] r.1@[k] < self.stealers@.len() && r.1@[k]
                    != self.idx,
            forall|k: int, l: int| 0 <= k < l < r.1@.len() ==> r.1@[k] < r.1@[l],
            r.0 is None ==> forall|j: int|
                0 <= j < self.stealers@.len() && j != self.idx ==> r.1@.contains(j),
    {
        let n = self.stealers.len();
        let mut i: usize = 0;
        let ghost mut tried: Seq<int> = Seq::empty();
        while i < n
            invariant
                n == self.stealers@.len(),
                i <= n,
                forall|k: int| 0 <= k < tried.len() ==> 0 <= #[trigger] tried[k] < i && tried[k] != self.idx,
                forall|k: int, l: int| 0 <= k < l < tried.len() ==> tried[k] < tried[l],
                forall|j: int| 0 <= j < i && j != self.idx ==> tried.contains(j),
            decreases n - i,
        {
            if i != self.idx {
                let ghost before = tried;
                proof {
                    tried = tried.push(i as int);
                    assert forall|j: int| 0 <= j <= i && j != self.idx implies tried.contains(j) by {
                        if j < i {
                            assert(before.contains(j));
                            let k = choose|k: int| 0 <= k < before.len() && before[k] == j;
                            assert(tried[k] == j);
                        } else {
                            assert(tried[tried.len() - 1] == j);
                        }
                    }
                }
                if let Some(index) = self.stealers[i].steal().success() {
                    return (Some(index), Ghost(tried));
                }
            }
            i = i + 1;
        }
        (None, Ghost(tried))
    }

    /// Puts `index` on the cold ring, or hands it back when the ring is full.
    fn enqueue(&mut self, index: FutureIndex) -> (r: Option<FutureIndex>)
        requires
            old(self).wf(),
        ensures
            final(self).wf(),
            final(self).phase == old(self).phase,
            final(self).idx == old(self).idx,
            final(self).cold == old(self).cold,
            final(self).stealers == old(self).stealers,
            final(self).hot == old(self).hot,
            final(self).serving == old(self).serving,
            final(self).served == old(self).served,
            r matches Some(i) ==> i == index && final(self).queued == old(self).queued,
            r is None ==> final(self).queued@ == old(self).queued@.push(index),
    {
        let r = enqueue_local(&self.cold, index);
        if r.is_none() {
            proof {
                self.queued = Ghost(self.queued@.push(index));
            }
        }
        r
    }

    /// Queues a task that arrived while the worker was not dispatching, then
    /// goes back to dispatching (after a reschedule if the ring is full).
    fn accept(&mut self, index: FutureIndex) -> (r: WorkerAction)
        requires
            old(self).wf(),
        ensures
            final(self).wf(),
            final(self).idx == old(self).idx,
            final(self).cold == old(self).cold,
            final(self).stealers == old(self).stealers,
            accepted(r, final(self).phase, index),
            r matches WorkerAction::Process(i) ==> final(self).served_best(i),
            (r == WorkerAction::Reschedule(index) && final(self).queued == old(self).queued) || (
            final(self).queued@ == old(self).queued@.push(index) && !(r is Reschedule)),
    {
        match self.enqueue(index) {
            Some(i) => {
                self.phase = WorkerPhase::Dispatch;
                WorkerAction::Reschedule(i)
            },
            None => self.dispatch(),
        }
    }

    /// One step of the worker: given what the thread reports, what it should
    /// do next.
    pub fn step(&mut self, event: WorkerEvent) -> (r: WorkerAction)
        requires
            old(self).wf(),
        ensures
            final(self).wf(),
            final(self).index() == old(self).index(),
            final(self).cold() == old(self).cold(),
            final(self).stealers() == old(self).stealers(),
            keeps_tasks(old(self).phase(), event, r, old(self).queued(), final(self).queued()),
            worker_next(old(self).phase(), event, r, final(self).phase()),
            (r == WorkerAction::Exit) <==> (final(self).phase() == WorkerPhase::Finished),
            (r == WorkerAction::Exit) <==> ends(old(self).phase(), event),
            r matches WorkerAction::Reschedule(j) ==> delivered(old(self).phase(), event) == Some(j)
                || (old(self).phase() == WorkerPhase::AwaitInjected && event == WorkerEvent::Injected(None)),
            r matches WorkerAction::Process(i) ==> final(self).served_best(i),
            old(self).phase() == WorkerPhase::Dispatch && old(self).hot().tasks().dom() != Set::<
                usize,
            >::empty() ==> r is Process && final(self).serving() == old(self).hot(),
            old(self).phase() == WorkerPhase::Dispatch && old(self).hot().tasks().dom() != Set::<
                usize,
            >::empty() ==> (r matches WorkerAction::Process(i) && {
                &&& old(self).hot().tasks().contains_key(i.key)
                &&& old(self).hot().tasks()[i.key] == i
                &&& serves_first(old(self).hot().priorities(), i.key, final(self).hot().priorities())
                &&& final(self).served() == old(self).hot().priorities()[i.key]
            }),
    {
        match self.phase {
            WorkerPhase::Finished => WorkerAction::Exit,
            WorkerPhase::Dispatch => self.dispatch(),
            WorkerPhase::CollectWakeups(received_any) => match event {
                WorkerEvent::Wakeup(Received::Message(index)) => {
                    self.phase = WorkerPhase::CollectWakeups(true);
                    match self.enqueue(index) {
                        Some(i) => WorkerAction::Reschedule(i),
                        None => WorkerAction::ReceiveWakeup,
                    }
                },
                WorkerEvent::Wakeup(Received::Empty) => {
                    if received_any {
                        self.dispatch()
                    } else {
                        self.phase = WorkerPhase::AwaitInjected;
                        WorkerAction::ReceiveInjected
                    }
                },
                WorkerEvent::Wakeup(Received::Disconnected) => {
                    self.phase = WorkerPhase::Finished;
                    WorkerAction::Exit
                },
                _ => WorkerAction::ReceiveWakeup,
            },
            WorkerPhase::AwaitInjected => match event {
                WorkerEvent::Injected(Some(index)) => self.accept(index),
                WorkerEvent::Injected(None) => match self.steal_task().0 {
                    Some(index) => {
                        let ghost before = self.queued@;
                        let r = self.accept(index);
                        assert(before.push(index).drop_last() =~= before);
                        r
                    },
                    None => {
                        self.phase = WorkerPhase::Parked;
                        WorkerAction::Park
                    },
                },
                _ => WorkerAction::ReceiveInjected,
            },
            WorkerPhase::Parked => match event {
                WorkerEvent::Parked(ParkOutcome::Woken(index)) => self.accept(index),
                WorkerEvent::Parked(ParkOutcome::HaveTasks(Some(index))) => self.accept(index),
                WorkerEvent::Parked(ParkOutcome::HaveTasks(None)) => self.dispatch(),
                WorkerEvent::Parked(ParkOutcome::WakeupsClosed) => {
                    self.phase = WorkerPhase::Finished;
                    WorkerAction::Exit
                },
                WorkerEvent::Parked(ParkOutcome::Closed) => {
                    self.phase = WorkerPhase::Finished;
                    WorkerAction::Exit
                },
                _ => WorkerAction::Park,
            },
        }
    }
}

/// The runners of a hybrid scheduler with `size` workers, each cold ring of
/// `capacity` slots: runner `i` is worker `i`, owns ring `i`, and steals
/// through the stealers of all the workers, in worker order.
pub fn hybrid_runners(size: usize, capacity: usize) -> (r: Vec<HybridRunner>)
    requires
        capacity <= usize::MAX / 2 + 1,
    ensures
        r.len() == size,
        forall|i: int|
            0 <= i < size ==> {
                &&& (#[trigger] r@[i]).wf()
                &&& r@[i].index() == i
                &&& r@[i].phase() == WorkerPhase::Dispatch
                &&& r@[i].hot().tasks() == Map::<usize, FutureIndex>::empty()
                &&& r@[i].stealers().len() == size
            },
        forall|i: int, j: int|
            0 <= i < size && 0 <= j < size ==> (#[trigger] r@[i]).stealers()[j].ring() == (
            #[trigger] r@[j]).cold().ring(),
{
    let (mut rings, stealers) = worker_rings(size, capacity);
    let ghost all_rings = rings@;
    let ghost all_stealers = stealers@;
    let shared = Arc::new(stealers);
    let mut runners: Vec<HybridRunner> = Vec::with_capacity(size);
    let mut i: usize = 0;
    while i < size
        invariant
            i <= size,
            all_rings.len() == size,
            all_stealers.len() == size,
            shared@ == all_stealers,
            rings@ == all_rings.skip(i as int),
            runners.len() == i,
            forall|k: int| 0 <= k < size ==> #[trigger] all_stealers[k].ring() == all_rings[k].ring(),
            forall|k: int|
                0 <= k < i ==> {
                    &&& (#[trigger] runners@[k]).wf()
                    &&& runners@[k].index() == k
                    &&& runners@[k].phase() == WorkerPhase::Dispatch
                    &&& runners@[k].hot().tasks() == Map::<usize, FutureIndex>::empty()
                    &&& runners@[k].stealers() == all_stealers
                    &&& runners@[k].cold() == all_rings[k]
                },
        decreases size - i,
    {
        assert(rings@[0] == all_rings[i as int]);
        let cold = rings.remove(0);
        assert(rings@ =~= all_rings.skip(i as int + 1));
        let runner = HybridRunner::new(i, cold, shared.clone());
        runners.push(runner);
        i = i + 1;
    }
    runners
}

} // verus!
