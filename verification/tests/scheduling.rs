use std::sync::Arc;

use my_async::multi_thread::{
    dispatch_message, keep_running, worker_count, Dispatch, FutureIndex, IoErrorKind, Received,
};
use my_async::ringbuf::{Ringbuf, Stealer};
use my_async::schedulers::hybrid::{hybrid_runners, HotQueue, HybridRunner};
use my_async::schedulers::round_robin::RoundRobin;
use my_async::schedulers::work_stealing::{stealing_runners, StealingRunner};
use my_async::schedulers::{
    worker_rings, Broadcast, InjectError, Injector, Message, ParkOutcome, ScheduleMessage, Spawner,
    WorkerAction, WorkerEvent,
};

fn idx(key: usize, sleep_count: usize) -> FutureIndex {
    FutureIndex {
        key,
        budget_index: key + 100,
        sleep_count,
    }
}

#[test]
fn future_index_equality_is_by_key() {
    assert_eq!(idx(3, 0), idx(3, 9));
    assert_ne!(idx(3, 0), idx(4, 0));
    let fresh = FutureIndex::new(7, 70);
    assert_eq!(fresh.key, 7);
    assert_eq!(fresh.budget_index, 70);
    assert_eq!(fresh.sleep_count, 0);
}

#[test]
fn woken_index_counts_wakeups() {
    let w = FutureIndex::new(5, 50).woken().woken();
    assert_eq!(w.key, 5);
    assert_eq!(w.budget_index, 50);
    assert_eq!(w.sleep_count, 2);
    let moved = w.with_budget_index(9);
    assert_eq!(moved.budget_index, 9);
    assert_eq!(moved.sleep_count, 2);
    assert_eq!(moved.key, 5);
}

#[test]
fn worker_count_leaves_two_cores() {
    assert_eq!(worker_count(1), 1);
    assert_eq!(worker_count(2), 1);
    assert_eq!(worker_count(3), 1);
    assert_eq!(worker_count(8), 6);
}

#[test]
fn dispatch_of_each_message() {
    assert_eq!(
        dispatch_message(Received::Message(ScheduleMessage::Schedule(idx(1, 0)))),
        Dispatch::Schedule(idx(1, 0))
    );
    assert_eq!(
        dispatch_message(Received::Message(ScheduleMessage::Reschedule(idx(2, 0)))),
        Dispatch::Reschedule(idx(2, 0))
    );
    assert_eq!(dispatch_message(Received::Message(ScheduleMessage::Shutdown)), Dispatch::Stop(true));
    assert_eq!(dispatch_message(Received::Empty), Dispatch::Stop(false));
    assert_eq!(dispatch_message(Received::Disconnected), Dispatch::Stop(true));
}

#[test]
fn main_loop_keeps_running_until_told_or_failing() {
    assert!(keep_running(Ok(false)));
    assert!(!keep_running(Ok(true)));
    assert!(keep_running(Err(IoErrorKind::Interrupted)));
    assert!(keep_running(Err(IoErrorKind::WouldBlock)));
    assert!(!keep_running(Err(IoErrorKind::Other)));
}

#[test]
fn hot_queue_serves_highest_priority_first() {
    let mut hot = HotQueue::with_capacity(16);
    hot.push(idx(1, 3));
    hot.push(idx(2, 10));
    hot.push(idx(3, 5));
    assert_eq!(hot.pop().map(|i| i.key), Some(2));
    assert_eq!(hot.pop().map(|i| i.key), Some(3));
    assert_eq!(hot.pop().map(|i| i.key), Some(1));
    assert_eq!(hot.pop(), None);
}

#[test]
fn hot_queue_keeps_a_task_once() {
    let mut hot = HotQueue::with_capacity(4);
    hot.push(idx(1, 1));
    hot.push(idx(2, 4));
    hot.push(idx(1, 9));
    let first = hot.pop().unwrap();
    assert_eq!(first.key, 1);
    assert_eq!(first.sleep_count, 1);
    assert_eq!(hot.pop().map(|i| i.key), Some(2));
    assert_eq!(hot.pop(), None);
}

fn rings(n: usize) -> (Vec<Ringbuf<FutureIndex>>, Arc<Vec<Stealer<FutureIndex>>>) {
    let rings: Vec<Ringbuf<FutureIndex>> = (0..n).map(|_| Ringbuf::new(4)).collect();
    let stealers = Arc::new(rings.iter().map(|r| r.stealer()).collect());
    (rings, stealers)
}

#[test]
fn hybrid_runner_collects_then_serves_by_priority() {
    let (mut rings, stealers) = rings(1);
    let cold = rings.pop().unwrap();
    let mut runner = HybridRunner::new(0, cold, stealers);
    assert_eq!(runner.step(WorkerEvent::Resume), WorkerAction::ReceiveWakeup);
    assert_eq!(
        runner.step(WorkerEvent::Wakeup(Received::Message(idx(1, 1)))),
        WorkerAction::ReceiveWakeup
    );
    assert_eq!(
        runner.step(WorkerEvent::Wakeup(Received::Message(idx(2, 7)))),
        WorkerAction::ReceiveWakeup
    );
    assert_eq!(runner.step(WorkerEvent::Wakeup(Received::Empty)), WorkerAction::Process(idx(2, 7)));
    assert_eq!(runner.step(WorkerEvent::Resume), WorkerAction::Process(idx(1, 1)));
    assert_eq!(runner.step(WorkerEvent::Resume), WorkerAction::ReceiveWakeup);
    assert_eq!(runner.step(WorkerEvent::Wakeup(Received::Empty)), WorkerAction::ReceiveInjected);
    assert_eq!(runner.step(WorkerEvent::Injected(None)), WorkerAction::Park);
    assert_eq!(
        runner.step(WorkerEvent::Parked(ParkOutcome::HaveTasks(Some(idx(4, 0))))),
        WorkerAction::Process(idx(4, 0))
    );
    assert_eq!(runner.step(WorkerEvent::Resume), WorkerAction::ReceiveWakeup);
    assert_eq!(runner.step(WorkerEvent::Wakeup(Received::Disconnected)), WorkerAction::Exit);
    assert_eq!(runner.step(WorkerEvent::Resume), WorkerAction::Exit);
}

#[test]
fn hybrid_runner_reschedules_when_its_ring_is_full() {
    let (mut rings, stealers) = rings(1);
    let cold = rings.pop().unwrap();
    let mut runner = HybridRunner::new(0, cold, stealers);
    assert_eq!(runner.step(WorkerEvent::Resume), WorkerAction::ReceiveWakeup);
    for k in 0..4 {
        assert_eq!(
            runner.step(WorkerEvent::Wakeup(Received::Message(idx(k, 0)))),
            WorkerAction::ReceiveWakeup
        );
    }
    assert_eq!(
        runner.step(WorkerEvent::Wakeup(Received::Message(idx(9, 0)))),
        WorkerAction::Reschedule(idx(9, 0))
    );
    assert_eq!(runner.step(WorkerEvent::Resume), WorkerAction::ReceiveWakeup);
    assert!(matches!(runner.step(WorkerEvent::Wakeup(Received::Empty)), WorkerAction::Process(_)));
}

#[test]
fn hybrid_runner_steals_from_others_but_not_itself() {
    let (mut rings, stealers) = rings(2);
    let other = rings.pop().unwrap();
    let own = rings.pop().unwrap();
    other.push(idx(8, 0)).unwrap();
    let mut runner = HybridRunner::new(0, own, stealers);
    assert_eq!(runner.step(WorkerEvent::Resume), WorkerAction::ReceiveWakeup);
    assert_eq!(runner.step(WorkerEvent::Wakeup(Received::Empty)), WorkerAction::ReceiveInjected);
    assert_eq!(runner.step(WorkerEvent::Injected(None)), WorkerAction::Process(idx(8, 0)));
    assert!(other.is_empty());
}

#[test]
fn hybrid_runner_stops_when_closed() {
    let (mut rings, stealers) = rings(1);
    let mut runner = HybridRunner::new(0, rings.pop().unwrap(), stealers);
    assert_eq!(runner.step(WorkerEvent::Resume), WorkerAction::ReceiveWakeup);
    assert_eq!(runner.step(WorkerEvent::Wakeup(Received::Empty)), WorkerAction::ReceiveInjected);
    assert_eq!(runner.step(WorkerEvent::Injected(None)), WorkerAction::Park);
    assert_eq!(runner.step(WorkerEvent::Resume), WorkerAction::Park);
    assert_eq!(runner.step(WorkerEvent::Parked(ParkOutcome::Closed)), WorkerAction::Exit);
}

#[test]
fn stealing_runner_runs_newest_first_and_steals() {
    let (mut rings, stealers) = rings(2);
    let other = rings.pop().unwrap();
    let own = rings.pop().unwrap();
    let mut runner = StealingRunner::new(own, stealers);
    assert_eq!(runner.step(WorkerEvent::Resume), WorkerAction::ReceiveWakeup);
    runner.step(WorkerEvent::Wakeup(Received::Message(idx(1, 0))));
    runner.step(WorkerEvent::Wakeup(Received::Message(idx(2, 0))));
    assert_eq!(runner.step(WorkerEvent::Wakeup(Received::Empty)), WorkerAction::Process(idx(2, 0)));
    assert_eq!(runner.step(WorkerEvent::Resume), WorkerAction::Process(idx(1, 0)));
    assert_eq!(runner.step(WorkerEvent::Resume), WorkerAction::ReceiveWakeup);
    assert_eq!(runner.step(WorkerEvent::Wakeup(Received::Empty)), WorkerAction::ReceiveInjected);
    assert_eq!(runner.step(WorkerEvent::Injected(Some(idx(3, 0)))), WorkerAction::Process(idx(3, 0)));
    other.push(idx(6, 0)).unwrap();
    assert_eq!(runner.step(WorkerEvent::Resume), WorkerAction::ReceiveWakeup);
    assert_eq!(runner.step(WorkerEvent::Wakeup(Received::Empty)), WorkerAction::ReceiveInjected);
    assert_eq!(runner.step(WorkerEvent::Injected(None)), WorkerAction::Process(idx(6, 0)));
    assert_eq!(runner.step(WorkerEvent::Resume), WorkerAction::ReceiveWakeup);
    assert_eq!(runner.step(WorkerEvent::Wakeup(Received::Empty)), WorkerAction::ReceiveInjected);
    assert_eq!(runner.step(WorkerEvent::Injected(None)), WorkerAction::Park);
    assert_eq!(
        runner.step(WorkerEvent::Parked(ParkOutcome::HaveTasks(None))),
        WorkerAction::ReceiveWakeup
    );
    assert_eq!(runner.step(WorkerEvent::Wakeup(Received::Empty)), WorkerAction::ReceiveInjected);
    assert_eq!(runner.step(WorkerEvent::Injected(None)), WorkerAction::Park);
    assert_eq!(runner.step(WorkerEvent::Parked(ParkOutcome::WakeupsClosed)), WorkerAction::Exit);
}

#[test]
fn round_robin_takes_turns() {
    let mut rr = RoundRobin::new(3);
    let turns: Vec<usize> = (0..7).map(|_| rr.round()).collect();
    assert_eq!(turns, vec![0, 1, 2, 0, 1, 2, 0]);
}

#[test]
fn broadcast_reaches_every_subscriber() {
    let mut b: Broadcast<Message> = Broadcast::new();
    let r1 = b.subscribe();
    let r2 = b.subscribe();
    assert_eq!(b.broadcast(Message::HaveTasks), Ok(()));
    assert_eq!(r1.try_recv(), Ok(Message::HaveTasks));
    assert_eq!(r2.try_recv(), Ok(Message::HaveTasks));
    drop(r2);
    assert_eq!(b.broadcast(Message::Close), Err(Message::Close));
    assert_eq!(r1.try_recv(), Ok(Message::Close));
}

#[test]
fn spawner_sends_scheduling_messages() {
    let (tx, rx) = flume::unbounded();
    let spawner = Spawner::new(tx);
    assert_eq!(spawner.send_schedule(idx(1, 0)), Ok(()));
    assert_eq!(spawner.send_reschedule(idx(2, 0)), Ok(()));
    assert_eq!(spawner.send_shutdown(), Ok(()));
    assert_eq!(rx.try_recv(), Ok(ScheduleMessage::Schedule(idx(1, 0))));
    assert_eq!(rx.try_recv(), Ok(ScheduleMessage::Reschedule(idx(2, 0))));
    assert_eq!(rx.try_recv(), Ok(ScheduleMessage::Shutdown));
    drop(rx);
    assert_eq!(spawner.send_shutdown(), Err(ScheduleMessage::Shutdown));
}

#[test]
fn injector_injects_and_notifies() {
    let (tx, rx) = flume::unbounded();
    let mut injector = Injector::new(tx);
    let notices = injector.subscribe();
    assert_eq!(injector.inject(idx(5, 0)), Ok(()));
    assert_eq!(rx.try_recv().map(|i| i.key), Ok(5));
    assert_eq!(notices.try_recv(), Ok(Message::HaveTasks));
    assert!(injector.close());
    assert_eq!(notices.try_recv(), Ok(Message::Close));
    drop(notices);
    assert_eq!(injector.inject(idx(6, 0)), Err(InjectError::NotifyFailed));
    drop(rx);
    assert_eq!(injector.inject(idx(7, 0)), Err(InjectError::Closed(idx(7, 0))));
    assert!(!injector.close());
}

#[test]
fn worker_rings_pair_each_stealer_with_its_ring() {
    let (rings, stealers) = worker_rings(3, 5);
    assert_eq!(rings.len(), 3);
    assert_eq!(stealers.len(), 3);
    assert_eq!(rings[1].push(idx(7, 0)), Ok(()));
    assert!(stealers[0].is_empty());
    assert!(stealers[2].is_empty());
    assert_eq!(stealers[1].len(), 1);
    assert_eq!(stealers[1].steal().success(), Some(idx(7, 0)));
    for k in 0..8 {
        assert_eq!(rings[2].push(idx(k, 0)), Ok(()));
    }
    assert_eq!(rings[2].push(idx(8, 0)), Err(idx(8, 0)));
}

#[test]
fn round_robin_call_j_goes_to_worker_j_mod_size() {
    let mut rr = RoundRobin::new(4);
    for j in 0..20usize {
        assert_eq!(rr.round(), j % 4);
    }
}

#[test]
fn hybrid_runners_steal_from_every_other_worker() {
    let mut runners = hybrid_runners(3, 4);
    assert_eq!(runners.len(), 3);
    // Worker 2 queues a task on its cold ring; worker 0 steals it.
    assert_eq!(runners[2].step(WorkerEvent::Resume), WorkerAction::ReceiveWakeup);
    assert_eq!(
        runners[2].step(WorkerEvent::Wakeup(Received::Message(idx(5, 0)))),
        WorkerAction::ReceiveWakeup
    );
    assert_eq!(runners[0].step(WorkerEvent::Resume), WorkerAction::ReceiveWakeup);
    assert_eq!(runners[0].step(WorkerEvent::Wakeup(Received::Empty)), WorkerAction::ReceiveInjected);
    assert_eq!(runners[0].step(WorkerEvent::Injected(None)), WorkerAction::Process(idx(5, 0)));
    // Nothing is left for worker 1 to steal.
    assert_eq!(runners[1].step(WorkerEvent::Resume), WorkerAction::ReceiveWakeup);
    assert_eq!(runners[1].step(WorkerEvent::Wakeup(Received::Empty)), WorkerAction::ReceiveInjected);
    assert_eq!(runners[1].step(WorkerEvent::Injected(None)), WorkerAction::Park);
}

#[test]
fn stealing_runners_steal_from_every_other_worker() {
    let mut runners = stealing_runners(2, 4);
    assert_eq!(runners.len(), 2);
    assert_eq!(runners[1].step(WorkerEvent::Resume), WorkerAction::ReceiveWakeup);
    assert_eq!(
        runners[1].step(WorkerEvent::Wakeup(Received::Message(idx(3, 0)))),
        WorkerAction::ReceiveWakeup
    );
    assert_eq!(runners[0].step(WorkerEvent::Resume), WorkerAction::ReceiveWakeup);
    assert_eq!(runners[0].step(WorkerEvent::Wakeup(Received::Empty)), WorkerAction::ReceiveInjected);
    assert_eq!(runners[0].step(WorkerEvent::Injected(None)), WorkerAction::Process(idx(3, 0)));
}
