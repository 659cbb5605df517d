//! Scheduling messages and the decision logic of the schedulers' workers.

pub mod hybrid;
pub mod round_robin;
pub mod work_stealing;

use vstd::prelude::*;
use crate::multi_thread::{FutureIndex, Received};
use crate::ringbuf::{ring_capacity, Ringbuf, Stealer};
use flume::{Receiver, Sender};

verus! {

/// Inter-thread message for the scheduler.
#[derive(Clone, Copy, Debug, PartialEq, Eq)]
pub enum ScheduleMessage {
    /// Schedule a new future task.
    Schedule(FutureIndex),
    /// Reschedule an existing future task.
    Reschedule(FutureIndex),
    /// Shut the scheduler down.
    Shutdown,
}

/// What a worker asks its thread to do next.
#[derive(Debug, PartialEq, Eq)]
pub enum WorkerAction {
    /// Run the future under this index, then resume the worker.
    Process(FutureIndex),
    /// The local queue is full: hand the task back to the scheduler, then resume.
    Reschedule(FutureIndex),
    /// Try to receive a woken task; answer with [`WorkerEvent::Wakeup`].
    ReceiveWakeup,
    /// Try to receive a task injected by the scheduler; answer with [`WorkerEvent::Injected`].
    ReceiveInjected,
    /// Block until a task is woken or the scheduler notifies; answer with [`WorkerEvent::Parked`].
    Park,
    /// Stop the worker.
    Exit,
}

/// What happened while the worker thread blocked.
#[derive(Debug, PartialEq, Eq)]
pub enum ParkOutcome {
    /// A task was woken.
    Woken(FutureIndex),
    /// The channel of woken tasks is closed.
    WakeupsClosed,
    /// The scheduler announced new tasks; carries what a receive on the
    /// channel of injected tasks then gave, if the worker looks there.
    HaveTasks(Option<FutureIndex>),
    /// The scheduler asked the worker to stop, or its channel is closed.
    Closed,
}

/// What the worker thread reports back.
pub enum WorkerEvent {
    /// Start, or the last [`WorkerAction::Process`] / [`WorkerAction::Reschedule`] is done.
    Resume,
    /// Outcome of [`WorkerAction::ReceiveWakeup`].
    Wakeup(Received<FutureIndex>),
    /// Outcome of [`WorkerAction::ReceiveInjected`].
    Injected(Option<FutureIndex>),
    /// Outcome of [`WorkerAction::Park`].
    Parked(ParkOutcome),
}

/// Where a worker stands in its loop.
#[derive(Clone, Copy, Debug, PartialEq, Eq)]
pub enum WorkerPhase {
    /// Serving its own queues.
    Dispatch,
    /// Draining the channel of woken tasks; `true` once one was received.
    CollectWakeups(bool),
    /// Waiting for the outcome of a receive on the channel of injected tasks.
    AwaitInjected,
    /// Blocked.
    Parked,
    /// Stopped.
    Finished,
}

/// The worker went back to dispatching: it serves a task, or, having none,
/// goes on to collecting woken tasks.
pub open spec fn dispatched(r: WorkerAction, next: WorkerPhase) -> bool {
    ||| r is Process && next == WorkerPhase::Dispatch
    ||| r == WorkerAction::ReceiveWakeup && next == WorkerPhase::CollectWakeups(false)
}

/// The worker took in `index`: it hands it back for rescheduling when its
/// ring is full, and otherwise goes back to dispatching.
pub open spec fn accepted(r: WorkerAction, next: WorkerPhase, index: FutureIndex) -> bool {
    ||| r == WorkerAction::Reschedule(index) && next == WorkerPhase::Dispatch
    ||| dispatched(r, next)
}

/// A worker's next action and phase, given its phase and what its thread
/// reports. The choices left open are those that depend on the shared
/// rings: whether a ring takes a task, and what serving or stealing finds.
pub open spec fn worker_next(phase: WorkerPhase, event: WorkerEvent, r: WorkerAction, next: WorkerPhase) -> bool {
    match phase {
        WorkerPhase::Finished => r == WorkerAction::Exit && next == WorkerPhase::Finished,
        WorkerPhase::Dispatch => dispatched(r, next),
        WorkerPhase::CollectWakeups(received_any) => match event {
            WorkerEvent::Wakeup(Received::Message(i)) => next == WorkerPhase::CollectWakeups(true) && (r
                == WorkerAction::ReceiveWakeup || r == WorkerAction::Reschedule(i)),
            WorkerEvent::Wakeup(Received::Empty) => if received_any {
                dispatched(r, next)
            } else {
                r == WorkerAction::ReceiveInjected && next == WorkerPhase::AwaitInjected
            },
            WorkerEvent::Wakeup(Received::Disconnected) => r == WorkerAction::Exit && next
                == WorkerPhase::Finished,
            _ => r == WorkerAction::ReceiveWakeup && next == phase,
        },
        WorkerPhase::AwaitInjected => match event {
            WorkerEvent::Injected(Some(i)) => accepted(r, next, i),
            WorkerEvent::Injected(None) => (r == WorkerAction::Park && next == WorkerPhase::Parked) || (
            r is Reschedule && next == WorkerPhase::Dispatch) || dispatched(r, next),
            _ => r == WorkerAction::ReceiveInjected && next == phase,
        },
        WorkerPhase::Parked => match event {
            WorkerEvent::Parked(ParkOutcome::Woken(i)) => accepted(r, next, i),
            WorkerEvent::Parked(ParkOutcome::HaveTasks(Some(i))) => accepted(r, next, i),
            WorkerEvent::Parked(ParkOutcome::HaveTasks(None)) => dispatched(r, next),
            WorkerEvent::Parked(ParkOutcome::WakeupsClosed) => r == WorkerAction::Exit && next
                == WorkerPhase::Finished,
            WorkerEvent::Parked(ParkOutcome::Closed) => r == WorkerAction::Exit && next
                == WorkerPhase::Finished,
            _ => r == WorkerAction::Park && next == phase,
        },
    }
}

/// Puts `index` on the worker's ring; hands it back when the ring is full,
/// so that it can be rescheduled.
pub fn enqueue_local(ring: &Ringbuf<FutureIndex>, index: FutureIndex) -> (r: Option<FutureIndex>)
    ensures
        r matches Some(i) ==> i == index,
{
    match ring.push(index) {
        Ok(()) => None,
        Err(index) => Some(index),
    }
}

/// The workers' rings, `size` of them with `capacity` slots each (rounded up
/// to a power of two), and beside them the handles the workers steal
/// through: stealer `i` takes from ring `i`.
pub fn worker_rings(size: usize, capacity: usize) -> (r: (Vec<Ringbuf<FutureIndex>>, Vec<Stealer<FutureIndex>>))
    requires
        capacity <= usize::MAX / 2 + 1,
    ensures
        r.0.len() == size,
        r.1.len() == size,
        forall|i: int|
            0 <= i < size ==> {
                &&& #[trigger] r.1@[i].ring() == r.0@[i].ring()
                &&& ring_capacity(capacity as int, r.0@[i].capacity() as int)
            },
{
    let mut rings: Vec<Ringbuf<FutureIndex>> = Vec::with_capacity(size);
    let mut stealers: Vec<Stealer<FutureIndex>> = Vec::with_capacity(size);
    let mut i: usize = 0;
    while i < size
        invariant
            i <= size,
            capacity <= usize::MAX / 2 + 1,
            rings.len() == i,
            stealers.len() == i,
            forall|k: int|
                0 <= k < i ==> {
                    &&& #[trigger] stealers@[k].ring() == rings@[k].ring()
                    &&& ring_capacity(capacity as int, rings@[k].capacity() as int)
                },
        decreases size - i,
    {
        let ring = Ringbuf::new(capacity);
        stealers.push(ring.stealer());
        rings.push(ring);
        i = i + 1;
    }
    (rings, stealers)
}

/// What a step did with the tasks it was handed, `before` and `after` being
/// the tasks the worker had put on its own ring before and after the step.
/// A task the event delivers is not lost: it is handed back for
/// rescheduling, or put on the ring. With no injected task a worker may
/// steal one, and that one too is handed back or put on the ring. Otherwise
/// nothing is put on the ring.
pub open spec fn keeps_tasks(
    phase: WorkerPhase,
    event: WorkerEvent,
    r: WorkerAction,
    before: Seq<FutureIndex>,
    after: Seq<FutureIndex>,
) -> bool {
    match delivered(phase, event) {
        Some(i) => (r == WorkerAction::Reschedule(i) && after == before) || after == before.push(i),
        None => if phase == WorkerPhase::AwaitInjected && event == WorkerEvent::Injected(None) {
            ||| after == before
            ||| after.len() == before.len() + 1 && after.drop_last() == before && !(r is Reschedule)
        } else {
            after == before
        },
    }
}

/// A worker loses no task it is handed: a step puts at most one task on
/// the worker's ring, forgets none it put there before, and a task the event
/// delivers is either handed back for rescheduling or is the one put on the
/// ring.
pub proof fn law_handed_tasks_are_kept(
    phase: WorkerPhase,
    event: WorkerEvent,
    r: WorkerAction,
    before: Seq<FutureIndex>,
    after: Seq<FutureIndex>,
)
    requires
        keeps_tasks(phase, event, r, before, after),
    ensures
        before.len() <= after.len() <= before.len() + 1,
        after.subrange(0, before.len() as int) == before,
        delivered(phase, event) matches Some(i) ==> r == WorkerAction::Reschedule(i) || (after.len()
            == before.len() + 1 && after.last() == i),
{
    if after.len() == before.len() + 1 {
        assert(after.subrange(0, before.len() as int) =~= after.drop_last());
    } else {
        assert(after.subrange(0, before.len() as int) =~= after);
    }
}

/// The index that an event delivers to a worker in `phase`, if any.
pub open spec fn delivered(phase: WorkerPhase, event: WorkerEvent) -> Option<FutureIndex> {
    match (phase, event) {
        (WorkerPhase::CollectWakeups(_), WorkerEvent::Wakeup(Received::Message(i))) => Some(i),
        (WorkerPhase::AwaitInjected, WorkerEvent::Injected(Some(i))) => Some(i),
        (WorkerPhase::Parked, WorkerEvent::Parked(ParkOutcome::Woken(i))) => Some(i),
        (WorkerPhase::Parked, WorkerEvent::Parked(ParkOutcome::HaveTasks(Some(i)))) => Some(i),
        _ => None,
    }
}

/// The event tells a worker in `phase` to stop: its channel of woken tasks is
/// closed, or the scheduler closed it down.
pub open spec fn ends(phase: WorkerPhase, event: WorkerEvent) -> bool {
    match (phase, event) {
        (WorkerPhase::CollectWakeups(_), WorkerEvent::Wakeup(Received::Disconnected)) => true,
        (WorkerPhase::Parked, WorkerEvent::Parked(ParkOutcome::WakeupsClosed)) => true,
        (WorkerPhase::Parked, WorkerEvent::Parked(ParkOutcome::Closed)) => true,
        (WorkerPhase::Finished, _) => true,
        _ => false,
    }
}

#[verifier::external_type_specification]
#[verifier::external_body]
#[verifier::reject_recursive_types(T)]
pub struct ExSender<T>(Sender<T>);

#[verifier::external_type_specification]
#[verifier::external_body]
#[verifier::reject_recursive_types(T)]
pub struct ExReceiver<T>(Receiver<T>);

/// `flume::unbounded`: a new channel without a bound on the number of
/// queued messages.
#[verifier::external_body]
fn unbounded_channel<T>() -> (Sender<T>, Receiver<T>) {
    flume::unbounded()
}

/// `flume::Sender::send`: queues `message` on the channel; when every
/// receiver is gone the message is handed back.
#[verifier::external_body]
fn send_message<T>(tx: &Sender<T>, message: T) -> (r: Result<(), T>)
    ensures
        r matches Err(m) ==> m == message,
{
    match tx.send(message) {
        Ok(()) => Ok(()),
        Err(e) => Err(e.0),
    }
}

/// `num_cpus::get`: the number of logical CPUs available; its documentation
/// promises at least one.
#[verifier::external_body]
fn cpu_count() -> (r: usize)
    ensures
        r >= 1,
{
    num_cpus::get()
}

/// Notice from a scheduler to its workers.
#[derive(Clone, Copy, Debug, PartialEq, Eq, Structural)]
pub enum Message {
    /// New tasks were injected.
    HaveTasks,
    /// Stop working.
    Close,
}

/// Sends every message to all subscribers, each on a channel of its own.
#[verifier::reject_recursive_types(T)]
pub struct Broadcast<T> {
    channels: Vec<Sender<T>>,
}

impl<T: Clone> Broadcast<T> {
    /// Number of subscribers.
    pub closed spec fn subscribers(&self) -> nat {
        self.channels@.len()
    }

    /// No subscribers yet; room for one per CPU.
    pub fn new() -> (r: Self)
        ensures
            r.subscribers() == 0,
    {
        Broadcast { channels: Vec::with_capacity(cpu_count()) }
    }

    /// A new subscriber: the receiving end of a channel of its own.
    pub fn subscribe(&mut self) -> (r: Receiver<T>)
        ensures
            final(self).subscribers() == old(self).subscribers() + 1,
    {
        let (tx, rx) = unbounded_channel();
        self.channels.push(tx);
        rx
    }

    /// Sends a copy of `message` to each subscriber in turn, stopping at the
    /// first whose receiver is gone and handing back the copy that could not
    /// be delivered.
    pub fn broadcast(&self, message: T) -> (r: Result<(), T>)
        ensures
            r matches Err(m) ==> cloned(message, m),
            self.subscribers() == 0 ==> r is Ok,
    {
        let n = self.channels.len();
        let mut i: usize = 0;
        while i < n
            invariant
                n == self.channels@.len(),
            decreases n - i,
        {
            let copy = message.clone();
            match send_message(&self.channels[i], copy) {
                Ok(()) => {},
                Err(m) => {
                    return Err(m);
                },
            }
            i = i + 1;
        }
        Ok(())
    }
}

/// The sending end of the scheduling channel, through which tasks are
/// scheduled, rescheduled, and the scheduler is shut down.
pub struct Spawner {
    tx: Sender<ScheduleMessage>,
}

impl Spawner {
    /// The sending half of the scheduling channel that this spawner sends on.
    pub closed spec fn sender(&self) -> Sender<ScheduleMessage> {
        self.tx
    }

    /// A spawner on the sending half of the scheduling channel; the receiving
    /// half stays with the executor.
    pub fn new(tx: Sender<ScheduleMessage>) -> (r: Self)
        ensures
            r.sender() == tx,
    {
        Spawner { tx }
    }

    /// Asks the scheduler to schedule the new task `index`; the message comes
    /// back when the scheduler is gone.
    pub fn send_schedule(&self, index: FutureIndex) -> (r: Result<(), ScheduleMessage>)
        ensures
            r matches Err(m) ==> m == ScheduleMessage::Schedule(index),
    {
        send_message(&self.tx, ScheduleMessage::Schedule(index))
    }

    /// Asks the scheduler to schedule the woken task `index` again.
    pub fn send_reschedule(&self, index: FutureIndex) -> (r: Result<(), ScheduleMessage>)
        ensures
            r matches Err(m) ==> m == ScheduleMessage::Reschedule(index),
    {
        send_message(&self.tx, ScheduleMessage::Reschedule(index))
    }

    /// Asks the scheduler to shut down.
    pub fn send_shutdown(&self) -> (r: Result<(), ScheduleMessage>)
        ensures
            r matches Err(m) ==> m == ScheduleMessage::Shutdown,
    {
        send_message(&self.tx, ScheduleMessage::Shutdown)
    }
}

/// Why handing a task to the workers failed.
#[derive(Clone, Copy, Debug, PartialEq, Eq)]
pub enum InjectError {
    /// The workers' channel of injected tasks is closed; the task comes back.
    Closed(FutureIndex),
    /// A worker's notice channel is closed.
    NotifyFailed,
}

/// The scheduler's side of the work-stealing and hybrid schedulers: it
/// injects tasks for any worker to take and notifies the workers.
pub struct Injector {
    inject_sender: Sender<FutureIndex>,
    notifier: Broadcast<Message>,
}

impl Injector {
    /// Number of workers notified.
    pub closed spec fn workers(&self) -> nat {
        self.notifier.subscribers()
    }

    /// The channel that injected tasks are sent on.
    pub closed spec fn sender(&self) -> Sender<FutureIndex> {
        self.inject_sender
    }

    /// An injector sending on `inject_sender`, with no workers to notify yet.
    pub fn new(inject_sender: Sender<FutureIndex>) -> (r: Self)
        ensures
            r.workers() == 0,
            r.sender() == inject_sender,
    {
        Injector { inject_sender, notifier: Broadcast::new() }
    }

    /// Subscribes one more worker to the notices.
    pub fn subscribe(&mut self) -> (r: Receiver<Message>)
        ensures
            final(self).workers() == old(self).workers() + 1,
            final(self).sender() == old(self).sender(),
    {
        self.notifier.subscribe()
    }

    /// Injects `index` and tells every worker that there are tasks.
    pub fn inject(&self, index: FutureIndex) -> (r: Result<(), InjectError>)
        ensures
            r matches Err(InjectError::Closed(i)) ==> i == index,
            self.workers() == 0 ==> r != Err::<(), InjectError>(InjectError::NotifyFailed),
    {
        match send_message(&self.inject_sender, index) {
            Err(i) => Err(InjectError::Closed(i)),
            Ok(()) => match self.notifier.broadcast(Message::HaveTasks) {
                Ok(()) => Ok(()),
                Err(_) => Err(InjectError::NotifyFailed),
            },
        }
    }

    /// Tells every worker to stop; `false` when some worker's notice channel
    /// is closed.
    pub fn close(&self) -> (r: bool)
        ensures
            self.workers() == 0 ==> r,
    {
        match self.notifier.broadcast(Message::Close) {
            Ok(()) => true,
            Err(_) => false,
        }
    }
}

} // verus!
