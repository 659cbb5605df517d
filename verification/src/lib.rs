//! A small asynchronous runtime: a work-stealing ring buffer, schedulers'
//! decision logic, per-task operation budgets and the executors' state machines.

pub mod budget;
pub mod multi_thread;
pub mod reactor;
pub mod ringbuf;
pub mod schedulers;
pub mod single_thread;
