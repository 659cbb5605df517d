//! The single-threaded executor's loop: it runs the tasks of its queue in
//! the order they arrive, collects woken tasks, takes newly spawned ones,
//! and otherwise waits on the reactor.

use vstd::prelude::*;
use crate::multi_thread::Received;
use std::collections::VecDeque;

verus! {

/// Index of a task in the single-threaded executor's task pool.
#[derive(Clone, Copy, Debug, PartialEq, Eq, Structural)]
pub struct FutureIndex {
    pub key: usize,
}

/// Messages of the single-threaded spawner.
#[derive(Clone, Copy, Debug, PartialEq, Eq)]
pub enum Message {
    /// Run a newly spawned task.
    Run(FutureIndex),
    /// Shut the executor down.
    Close,
}

/// What the executor's thread does next.
#[derive(Debug, PartialEq, Eq)]
pub enum LocalAction {
    Run(FutureIndex),
    /// Try to receive a woken task; answer with [`LocalEvent::Wakeup`].
    ReceiveWakeup,
    /// Try to receive a spawner message; answer with [`LocalEvent::Spawned`].
    ReceiveMessage,
    /// Wait on the reactor for a while; answer with [`LocalEvent::Waited`].
    WaitReactor,
    /// Stop the executor.
    Exit,
}

/// What the executor's thread reports back.
pub enum LocalEvent {
    /// Start, or the last [`LocalAction::Run`] is done.
    Resume,
    /// Outcome of [`LocalAction::ReceiveWakeup`].
    Wakeup(Received<FutureIndex>),
    /// Outcome of [`LocalAction::ReceiveMessage`].
    Spawned(Received<Message>),
    /// Outcome of [`LocalAction::WaitReactor`]: `false` when the wait failed.
    Waited(bool),
}

/// Where the executor stands in its loop.
#[derive(Clone, Copy, Debug, PartialEq, Eq)]
pub enum LocalPhase {
    Dispatch,
    /// Draining the channel of woken tasks; `true` once one was received.
    CollectWakeups(bool),
    AwaitMessage,
    Waiting,
    Finished,
}

/// The queue is empty while the executor looks for work, and not empty once
/// a woken task has been collected.
pub open spec fn local_inv(phase: LocalPhase, queue: Seq<FutureIndex>) -> bool {
    match phase {
        LocalPhase::CollectWakeups(true) => queue.len() > 0,
        LocalPhase::CollectWakeups(false) => queue.len() == 0,
        LocalPhase::AwaitMessage => queue.len() == 0,
        LocalPhase::Waiting => queue.len() == 0,
        _ => true,
    }
}

/// Dispatching from `queue` (the next task to run last): the executor runs
/// that task, or, with nothing queued, goes on to collecting woken tasks.
pub open spec fn local_dispatch(queue: Seq<FutureIndex>) -> (LocalPhase, Seq<FutureIndex>, LocalAction) {
    if queue.len() > 0 {
        (LocalPhase::Dispatch, queue.drop_last(), LocalAction::Run(queue.last()))
    } else {
        (LocalPhase::CollectWakeups(false), queue, LocalAction::ReceiveWakeup)
    }
}

/// The event makes an executor in `phase` stop: the channel of woken tasks
/// is closed, the spawner sent `Close` or is gone, or the reactor wait failed.
pub open spec fn stops(phase: LocalPhase, event: LocalEvent) -> bool {
    match (phase, event) {
        (LocalPhase::CollectWakeups(_), LocalEvent::Wakeup(Received::Disconnected)) => true,
        (LocalPhase::AwaitMessage, LocalEvent::Spawned(Received::Message(Message::Close))) => true,
        (LocalPhase::AwaitMessage, LocalEvent::Spawned(Received::Disconnected)) => true,
        (LocalPhase::Waiting, LocalEvent::Waited(false)) => true,
        _ => false,
    }
}

/// The executor's next phase, queue and action, given its phase, its queue
/// and what its thread reports. An event that does not answer the action
/// asked for repeats that action.
pub open spec fn local_next(phase: LocalPhase, queue: Seq<FutureIndex>, event: LocalEvent) -> (
    LocalPhase,
    Seq<FutureIndex>,
    LocalAction,
) {
    if phase == LocalPhase::Finished || stops(phase, event) {
        (LocalPhase::Finished, queue, LocalAction::Exit)
    } else {
        match phase {
            LocalPhase::CollectWakeups(received_any) => match event {
                LocalEvent::Wakeup(Received::Message(i)) => (
                    LocalPhase::CollectWakeups(true),
                    seq![i] + queue,
                    LocalAction::ReceiveWakeup,
                ),
                LocalEvent::Wakeup(Received::Empty) => if received_any {
                    local_dispatch(queue)
                } else {
                    (LocalPhase::AwaitMessage, queue, LocalAction::ReceiveMessage)
                },
                _ => (phase, queue, LocalAction::ReceiveWakeup),
            },
            LocalPhase::AwaitMessage => match event {
                LocalEvent::Spawned(Received::Message(Message::Run(i))) => local_dispatch(seq![i] + queue),
                LocalEvent::Spawned(Received::Empty) => (LocalPhase::Waiting, queue, LocalAction::WaitReactor),
                _ => (phase, queue, LocalAction::ReceiveMessage),
            },
            LocalPhase::Waiting => match event {
                LocalEvent::Waited(true) => local_dispatch(queue),
                _ => (phase, queue, LocalAction::WaitReactor),
            },
            _ => local_dispatch(queue),
        }
    }
}

/// The single-threaded executor's scheduling state.
pub struct LocalRunner {
    queue: VecDeque<FutureIndex>,
    phase: LocalPhase,
}

impl LocalRunner {
    /// The queued tasks, the next to run last.
    pub closed spec fn queue(&self) -> Seq<FutureIndex> {
        self.queue@
    }

    pub closed spec fn phase(&self) -> LocalPhase {
        self.phase
    }

    /// The queue is empty while the executor looks for work, and not empty
    /// once a woken task has been collected.
    pub closed spec fn wf(&self) -> bool {
        local_inv(self.phase, self.queue@)
    }

    /// An executor with an empty queue.
    pub fn new() -> (r: Self)
        ensures
            r.wf(),
            r.queue() == Seq::<FutureIndex>::empty(),
            r.phase() == LocalPhase::Dispatch,
    {
        LocalRunner { queue: VecDeque::with_capacity(1024), phase: LocalPhase::Dispatch }
    }

    /// Runs the task that arrived first; with an empty queue, goes on to
    /// collecting woken tasks.
    fn dispatch(&mut self) -> (r: LocalAction)
        ensures
            final(self).phase() == local_dispatch(old(self).queue()).0,
            final(self).queue() == local_dispatch(old(self).queue()).1,
            r == local_dispatch(old(self).queue()).2,
    {
        match self.queue.pop_back() {
            Some(index) => {
                self.phase = LocalPhase::Dispatch;
                LocalAction::Run(index)
            },
            None => {
                self.phase = LocalPhase::CollectWakeups(false);
                LocalAction::ReceiveWakeup
            },
        }
    }

    /// Queues an arriving task behind all others.
    fn arrive(&mut self, index: FutureIndex)
        ensures
            final(self).queue() == seq![index] + old(self).queue(),
            final(self).phase() == old(self).phase(),
    {
        self.queue.push_front(index);
        assert(self.queue() =~= seq![index] + old(self).queue());
    }

    /// One step of the executor: given what its thread reports, what it
    /// should do next.
    pub fn step(&mut self, event: LocalEvent) -> (r: LocalAction)
        requires
            old(self).wf(),
        ensures
            final(self).wf(),
            final(self).phase() == local_next(old(self).phase(), old(self).queue(), event).0,
            final(self).queue() == local_next(old(self).phase(), old(self).queue(), event).1,
            r == local_next(old(self).phase(), old(self).queue(), event).2,
            (r == LocalAction::Exit) <==> (old(self).phase() == LocalPhase::Finished || stops(
                old(self).phase(),
                event,
            )),
    {
        match self.phase {
            LocalPhase::Finished => LocalAction::Exit,
            LocalPhase::Dispatch => self.dispatch(),
            LocalPhase::CollectWakeups(received_any) => match event {
                LocalEvent::Wakeup(Received::Message(index)) => {
                    self.arrive(index);
                    self.phase = LocalPhase::CollectWakeups(true);
                    LocalAction::ReceiveWakeup
                },
                LocalEvent::Wakeup(Received::Empty) => {
                    if received_any {
                        self.dispatch()
                    } else {
                        self.phase = LocalPhase::AwaitMessage;
                        LocalAction::ReceiveMessage
                    }
                },
                LocalEvent::Wakeup(Received::Disconnected) => {
                    self.phase = LocalPhase::Finished;
                    LocalAction::Exit
                },
                _ => LocalAction::ReceiveWakeup,
            },
            LocalPhase::AwaitMessage => match event {
                LocalEvent::Spawned(Received::Message(Message::Run(index))) => {
                    self.arrive(index);
                    self.dispatch()
                },
                LocalEvent::Spawned(Received::Empty) => {
                    self.phase = LocalPhase::Waiting;
                    LocalAction::WaitReactor
                },
                LocalEvent::Spawned(Received::Message(Message::Close)) => {
                    self.phase = LocalPhase::Finished;
                    LocalAction::Exit
                },
                LocalEvent::Spawned(Received::Disconnected) => {
                    self.phase = LocalPhase::Finished;
                    LocalAction::Exit
                },
                _ => LocalAction::ReceiveMessage,
            },
            LocalPhase::Waiting => match event {
                LocalEvent::Waited(true) => self.dispatch(),
                LocalEvent::Waited(false) => {
                    self.phase = LocalPhase::Finished;
                    LocalAction::Exit
                },
                _ => LocalAction::WaitReactor,
            },
        }
    }
}

/// The event is one on which the executor stops, in the phase that asked
/// for it.
pub open spec fn ends_run(event: LocalEvent) -> bool {
    ||| event == LocalEvent::Wakeup(Received::<FutureIndex>::Disconnected)
    ||| event == LocalEvent::Spawned(Received::Message(Message::Close))
    ||| event == LocalEvent::Spawned(Received::<Message>::Disconnected)
    ||| event == LocalEvent::Waited(false)
}

/// `event` is what the thread reports to an executor in `phase`: the end
/// of a run, or the outcome of the receive or wait that the phase stands for.
pub open spec fn awaits(phase: LocalPhase, event: LocalEvent) -> bool {
    match phase {
        LocalPhase::Dispatch => event is Resume,
        LocalPhase::CollectWakeups(_) => event is Wakeup,
        LocalPhase::AwaitMessage => event is Spawned,
        LocalPhase::Waiting => event is Waited,
        LocalPhase::Finished => true,
    }
}

/// `event` is what the thread reports on having done `action`.
pub open spec fn answers(action: LocalAction, event: LocalEvent) -> bool {
    match action {
        LocalAction::Run(_) => event is Resume,
        LocalAction::ReceiveWakeup => event is Wakeup,
        LocalAction::ReceiveMessage => event is Spawned,
        LocalAction::WaitReactor => event is Waited,
        LocalAction::Exit => true,
    }
}

/// The actions an executor starting in `phase` with `queue` asks for, one
/// for each of `events` in turn.
pub open spec fn local_run(phase: LocalPhase, queue: Seq<FutureIndex>, events: Seq<LocalEvent>) -> Seq<
    LocalAction,
>
    decreases events.len(),
{
    if events.len() == 0 {
        Seq::empty()
    } else {
        let n = local_next(phase, queue, events[0]);
        seq![n.2] + local_run(n.0, n.1, events.drop_first())
    }
}

/// One step keeps the queue's invariant, and the phase it leaves stands for
/// the action it asks for.
proof fn lemma_local_next(phase: LocalPhase, queue: Seq<FutureIndex>, event: LocalEvent)
    requires
        local_inv(phase, queue),
    ensures
        local_inv(local_next(phase, queue, event).0, local_next(phase, queue, event).1),
        forall|e: LocalEvent|
            answers(local_next(phase, queue, event).2, e) ==> #[trigger] awaits(
                local_next(phase, queue, event).0,
                e,
            ),
        local_next(phase, queue, event).0 == LocalPhase::Finished ==> local_next(phase, queue, event).2
            == LocalAction::Exit,
{
}

/// One action for each event.
proof fn lemma_local_run_len(phase: LocalPhase, queue: Seq<FutureIndex>, events: Seq<LocalEvent>)
    ensures
        local_run(phase, queue, events).len() == events.len(),
    decreases events.len(),
{
    if events.len() > 0 {
        let n = local_next(phase, queue, events[0]);
        lemma_local_run_len(n.0, n.1, events.drop_first());
    }
}

/// A run of the executor in which every event answers the action before it
/// (the first one the phase it starts in), up to the first event on which
/// it stops: each task spawned is run in the very step its `Run` message is
/// received, so tasks first run in the order they were spawned, all of them
/// before a later `Close` is read; and the executor does not ask to exit
/// before such an event has come.
pub proof fn law_spawned_tasks_run_on_arrival(
    phase: LocalPhase,
    queue: Seq<FutureIndex>,
    events: Seq<LocalEvent>,
)
    requires
        local_inv(phase, queue),
        phase != LocalPhase::Finished,
        events.len() > 0 ==> awaits(phase, events[0]),
        forall|k: int|
            0 <= k < events.len() - 1 ==> answers(#[trigger] local_run(phase, queue, events)[k], events[k + 1]),
    ensures
        local_run(phase, queue, events).len() == events.len(),
        forall|k: int|
            0 <= k < events.len() && (forall|j: int| 0 <= j <= k ==> !ends_run(#[trigger] events[j])) ==> {
                &&& #[trigger] local_run(phase, queue, events)[k] != LocalAction::Exit
                &&& events[k] matches LocalEvent::Spawned(Received::Message(Message::Run(f))) ==> local_run(
                    phase,
                    queue,
                    events,
                )[k] == LocalAction::Run(f)
            },
    decreases events.len(),
{
    lemma_local_run_len(phase, queue, events);
    if events.len() > 0 {
        let n = local_next(phase, queue, events[0]);
        let rest = events.drop_first();
        let actions = local_run(phase, queue, events);
        let later = local_run(n.0, n.1, rest);
        lemma_local_run_len(n.0, n.1, rest);
        assert(actions == seq![n.2] + later);
        lemma_local_next(phase, queue, events[0]);
        if rest.len() > 0 {
            assert(answers(actions[0], events[1]));
            assert(awaits(n.0, rest[0]));
        }
        assert forall|k: int| 0 <= k < rest.len() - 1 implies answers(#[trigger] later[k], rest[k + 1]) by {
            assert(actions[k + 1] == later[k]);
            assert(answers(actions[k + 1], events[k + 2]));
        }
        assert forall|k: int|
            0 <= k < events.len() && (forall|j: int| 0 <= j <= k ==> !ends_run(#[trigger] events[j])) implies {
                &&& #[trigger] actions[k] != LocalAction::Exit
                &&& events[k] matches LocalEvent::Spawned(Received::Message(Message::Run(f))) ==> actions[k]
                    == LocalAction::Run(f)
            } by {
            assert(!ends_run(events[0]));
            if k > 0 {
                assert(n.0 != LocalPhase::Finished);
                law_spawned_tasks_run_on_arrival(n.0, n.1, rest);
                assert(actions[k] == later[k - 1]);
                assert(events[k] == rest[k - 1]);
                assert forall|j: int| 0 <= j <= k - 1 implies !ends_run(#[trigger] rest[j]) by {
                    assert(rest[j] == events[j + 1]);
                }
            } else if let LocalEvent::Spawned(Received::Message(Message::Run(f))) = events[0] {
                assert(seq![f] + queue =~= seq![f]);
            }
        }
    }
}

/// Tasks run in the order they arrive: a task that arrives at an executor
/// whose queue holds `queued` runs after all of them, and before it runs,
/// the next one to run is the same as if it had not arrived.
pub proof fn law_tasks_run_in_arrival_order(queued: Seq<FutureIndex>, arriving: FutureIndex)
    ensures
        (seq![arriving] + queued).len() == queued.len() + 1,
        queued.len() > 0 ==> (seq![arriving] + queued).last() == queued.last() && (seq![arriving]
            + queued).drop_last() == seq![arriving] + queued.drop_last(),
        queued.len() == 0 ==> (seq![arriving] + queued).last() == arriving,
{
    if queued.len() > 0 {
        assert((seq![arriving] + queued).drop_last() =~= seq![arriving] + queued.drop_last());
    }
}

} // verus!
