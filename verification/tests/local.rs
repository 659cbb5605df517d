use my_async::budget::{Allowance, BudgetCursor, DEFAULT_BUDGET, NO_SLOT};
use my_async::multi_thread::{IoErrorKind, Received};
use my_async::reactor::{
    accept_step, io_step, join_step, nonblocking_flags, registration, AcceptStep, IoStep, JoinStep,
    WakeupBacklog, WakerOutcome,
};
use my_async::single_thread::{FutureIndex, LocalAction, LocalEvent, LocalRunner, Message};

fn key(k: usize) -> FutureIndex {
    FutureIndex { key: k }
}

#[test]
fn local_executor_runs_tasks_in_arrival_order() {
    let mut runner = LocalRunner::new();
    assert_eq!(runner.step(LocalEvent::Resume), LocalAction::ReceiveWakeup);
    assert_eq!(runner.step(LocalEvent::Wakeup(Received::Empty)), LocalAction::ReceiveMessage);
    assert_eq!(
        runner.step(LocalEvent::Spawned(Received::Message(Message::Run(key(1))))),
        LocalAction::Run(key(1))
    );
    assert_eq!(runner.step(LocalEvent::Resume), LocalAction::ReceiveWakeup);
    for k in [4, 5, 6] {
        assert_eq!(runner.step(LocalEvent::Wakeup(Received::Message(key(k)))), LocalAction::ReceiveWakeup);
    }
    assert_eq!(runner.step(LocalEvent::Wakeup(Received::Empty)), LocalAction::Run(key(4)));
    assert_eq!(runner.step(LocalEvent::Resume), LocalAction::Run(key(5)));
    assert_eq!(runner.step(LocalEvent::Resume), LocalAction::Run(key(6)));
    assert_eq!(runner.step(LocalEvent::Resume), LocalAction::ReceiveWakeup);
}

#[test]
fn local_executor_waits_then_closes() {
    let mut runner = LocalRunner::new();
    assert_eq!(runner.step(LocalEvent::Resume), LocalAction::ReceiveWakeup);
    assert_eq!(runner.step(LocalEvent::Wakeup(Received::Empty)), LocalAction::ReceiveMessage);
    assert_eq!(runner.step(LocalEvent::Spawned(Received::Empty)), LocalAction::WaitReactor);
    assert_eq!(runner.step(LocalEvent::Waited(true)), LocalAction::ReceiveWakeup);
    assert_eq!(runner.step(LocalEvent::Wakeup(Received::Empty)), LocalAction::ReceiveMessage);
    assert_eq!(
        runner.step(LocalEvent::Spawned(Received::Message(Message::Close))),
        LocalAction::Exit
    );
    assert_eq!(runner.step(LocalEvent::Resume), LocalAction::Exit);
}

#[test]
fn local_executor_stops_on_reactor_failure_or_closed_channels() {
    let mut a = LocalRunner::new();
    a.step(LocalEvent::Resume);
    a.step(LocalEvent::Wakeup(Received::Empty));
    a.step(LocalEvent::Spawned(Received::Empty));
    assert_eq!(a.step(LocalEvent::Waited(false)), LocalAction::Exit);
    let mut b = LocalRunner::new();
    b.step(LocalEvent::Resume);
    assert_eq!(b.step(LocalEvent::Wakeup(Received::Disconnected)), LocalAction::Exit);
    let mut c = LocalRunner::new();
    c.step(LocalEvent::Resume);
    c.step(LocalEvent::Wakeup(Received::Empty));
    assert_eq!(c.step(LocalEvent::Spawned(Received::Disconnected)), LocalAction::Exit);
}

#[test]
fn budget_lets_default_many_operations_through_then_yields() {
    let mut cursor = BudgetCursor::new();
    assert_eq!(cursor.index, NO_SLOT);
    assert_eq!(cursor.switch_to(3, None), None);
    assert_eq!(cursor.budget, DEFAULT_BUDGET);
    let mut done = 0;
    loop {
        match cursor.allow() {
            Allowance::Proceed(b) => {
                cursor.charge(b);
                done += 1;
            }
            Allowance::Yield => break,
        }
    }
    assert_eq!(done, DEFAULT_BUDGET);
    assert_eq!(cursor.budget, DEFAULT_BUDGET);
}

#[test]
fn budget_switch_hands_back_the_previous_budget() {
    let mut cursor = BudgetCursor::new();
    cursor.switch_to(1, Some(40));
    if let Allowance::Proceed(b) = cursor.allow() {
        cursor.charge(b);
    }
    assert_eq!(cursor.switch_to(2, Some(7)), Some((1, 39)));
    assert_eq!(cursor.index, 2);
    assert_eq!(cursor.budget, 7);
}

#[test]
fn backlog_keeps_tokens_without_waker_slot() {
    let mut backlog = WakeupBacklog::with_capacity(4);
    backlog.record(1, WakerOutcome::Missing);
    backlog.record(2, WakerOutcome::Woken);
    backlog.record(3, WakerOutcome::Missing);
    backlog.record(4, WakerOutcome::Missing);
    assert_eq!(backlog.pending(), &vec![1, 3, 4]);
    let woke = backlog.retain_missing(&vec![WakerOutcome::Idle, WakerOutcome::Missing, WakerOutcome::Woken]);
    assert!(woke);
    assert_eq!(backlog.pending(), &vec![3]);
    assert!(!backlog.retain_missing(&vec![WakerOutcome::Missing]));
    assert_eq!(backlog.pending(), &vec![3]);
    assert!(!backlog.retain_missing(&vec![WakerOutcome::Idle]));
    assert!(backlog.pending().is_empty());
}

#[test]
fn io_steps() {
    assert_eq!(io_step(Ok(())), IoStep::Ready);
    assert_eq!(io_step(Err(IoErrorKind::WouldBlock)), IoStep::Register);
    assert_eq!(io_step(Err(IoErrorKind::Interrupted)), IoStep::Retry);
    assert_eq!(io_step(Err(IoErrorKind::Other)), IoStep::Ready);
    assert_eq!(accept_step(Ok(())), AcceptStep::Yield);
    assert_eq!(accept_step(Err(IoErrorKind::WouldBlock)), AcceptStep::Register);
    assert_eq!(accept_step(Err(IoErrorKind::Interrupted)), AcceptStep::Retry);
    assert_eq!(accept_step(Err(IoErrorKind::Other)), AcceptStep::End);
}

#[test]
fn registration_uses_the_new_slot_or_reregisters() {
    assert_eq!(registration(usize::MAX, Some(12)), (12, false));
    assert_eq!(registration(5, None), (5, true));
}

#[test]
fn nonblocking_flag_is_added_once() {
    assert_eq!(nonblocking_flags(0o2, 0o4000), Some(0o4002));
    assert_eq!(nonblocking_flags(0o4002, 0o4000), None);
}

#[test]
fn join_steps() {
    assert_eq!(join_step(true, true), JoinStep::Ready { deregister: true });
    assert_eq!(join_step(true, false), JoinStep::Ready { deregister: false });
    assert_eq!(join_step(false, false), JoinStep::Pending { register: true });
    assert_eq!(join_step(false, true), JoinStep::Pending { register: false });
}

#[test]
fn local_executor_runs_every_spawned_task_before_close() {
    let mut runner = LocalRunner::new();
    let mut polled = Vec::new();
    for k in [10, 11, 12] {
        assert_eq!(runner.step(LocalEvent::Resume), LocalAction::ReceiveWakeup);
        assert_eq!(runner.step(LocalEvent::Wakeup(Received::Empty)), LocalAction::ReceiveMessage);
        match runner.step(LocalEvent::Spawned(Received::Message(Message::Run(key(k))))) {
            LocalAction::Run(i) => polled.push(i.key),
            other => panic!("expected a run, got {:?}", other),
        }
    }
    assert_eq!(polled, vec![10, 11, 12]);
    assert_eq!(runner.step(LocalEvent::Resume), LocalAction::ReceiveWakeup);
    assert_eq!(runner.step(LocalEvent::Wakeup(Received::Empty)), LocalAction::ReceiveMessage);
    assert_eq!(runner.step(LocalEvent::Spawned(Received::Message(Message::Close))), LocalAction::Exit);
}
