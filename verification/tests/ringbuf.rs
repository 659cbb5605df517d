use my_async::ringbuf::{round_capacity, Inner, Ringbuf, Steal, Stealer};

use std::sync::atomic::{AtomicUsize, Ordering};

use crossbeam_utils::sync::WaitGroup;
use crossbeam_utils::thread::{self as cthread, Scope};

#[test]
fn single_thread_pop() {
    let ringbuf: Ringbuf<usize> = Ringbuf::new(256);

    assert_eq!(ringbuf.len(), 0);
    for &e in [1, 3, 5, 7, 9].iter() {
        ringbuf.push(e).unwrap();
    }
    assert_eq!(ringbuf.len(), 5);
    for &e in [9, 7, 5, 3, 1].iter() {
        assert_eq!(ringbuf.pop(), Some(e));
    }
    assert_eq!(ringbuf.pop(), None);
}

#[test]
fn single_thread_steal() {
    let ringbuf: Ringbuf<usize> = Ringbuf::new(256);
    let stealer: Stealer<usize> = ringbuf.stealer();

    assert_eq!(ringbuf.len(), 0);
    for &e in [1, 3, 5, 7, 9].iter() {
        ringbuf.push(e).unwrap();
    }
    assert_eq!(ringbuf.len(), 5);
    for &e in [1, 3, 5, 7, 9].iter() {
        assert_eq!(stealer.steal(), Steal::Success(e));
    }
    assert_eq!(stealer.steal(), Steal::Empty);
    assert_eq!(ringbuf.pop(), None);
}

static COUNT: AtomicUsize = AtomicUsize::new(0);
static ACC: AtomicUsize = AtomicUsize::new(0);

#[test]
fn parallel_steal() {
    let start = WaitGroup::new();
    let end = WaitGroup::new();
    let ringbuf: Ringbuf<usize> = Ringbuf::new(1024);
    let stealer = ringbuf.stealer();

    cthread::scope(|s| {
        for _ in 0..8 {
            work(s, ringbuf.stealer(), start.clone(), end.clone());
        }
        for e in 0..1000 {
            ringbuf.push(e).unwrap();
        }
        assert_eq!(ringbuf.len(), 1000);
        start.wait(); // sync starting point
        end.wait(); // sync ending point
        assert_eq!(ringbuf.len(), 0);
        assert_eq!(stealer.steal(), Steal::Empty);
        assert_eq!(COUNT.load(Ordering::Relaxed), 1000);
        assert_eq!(ACC.load(Ordering::Relaxed), 499500);
    })
    .unwrap();
}

fn work<'env>(s: &Scope<'env>, stealer: Stealer<usize>, start: WaitGroup, end: WaitGroup) {
    s.spawn(move |_| {
        let mut x: Vec<usize> = Vec::new();
        start.wait(); // sync starting point
        loop {
            match stealer.steal() {
                Steal::Empty => break,
                Steal::Retry => {}
                Steal::Success(s) => {
                    ACC.fetch_add(s, Ordering::Relaxed);
                    x.push(s);
                }
            }
        }
        COUNT.fetch_add(x.len(), Ordering::Relaxed);
        println!("x: size = {}", x.len());
        end.wait(); // sync ending point
    });
}

#[test]
fn steal_helpers() {
    assert_eq!(Steal::Success(4).success(), Some(4));
    assert_eq!(Steal::<u8>::Empty.success(), None);
    assert_eq!(Steal::<u8>::Retry.success(), None);
    assert!(Steal::Success(1).is_success());
    assert!(!Steal::Success(1).is_retry());
    assert!(Steal::<u8>::Retry.is_retry());
    assert!(Steal::<u8>::Empty.is_empty());
    assert!(!Steal::<u8>::Retry.is_empty());
}

#[test]
fn capacity_rounds_up_to_power_of_two() {
    assert_eq!(round_capacity(0), 1);
    assert_eq!(round_capacity(1), 1);
    assert_eq!(round_capacity(3), 4);
    assert_eq!(round_capacity(4), 4);
    assert_eq!(round_capacity(5), 8);
    assert_eq!(round_capacity(1000), 1024);
    assert_eq!(round_capacity(4096), 4096);
}

#[test]
fn push_fails_when_full_and_hands_item_back() {
    let ringbuf: Ringbuf<u32> = Ringbuf::new(3);
    for e in 0..4 {
        assert_eq!(ringbuf.push(e), Ok(()));
    }
    assert_eq!(ringbuf.push(99), Err(99));
    assert_eq!(ringbuf.len(), 4);
    assert_eq!(ringbuf.pop(), Some(3));
    assert_eq!(ringbuf.push(5), Ok(()));
    assert_eq!(ringbuf.pop(), Some(5));
}

#[test]
fn wraps_around_the_end_of_the_slots() {
    let mut ring: Inner<u32> = Inner::new(4);
    for round in 0..10u32 {
        assert_eq!(ring.push(round * 2), Ok(()));
        assert_eq!(ring.push(round * 2 + 1), Ok(()));
        assert_eq!(ring.steal(), Some(round * 2));
        assert_eq!(ring.steal(), Some(round * 2 + 1));
        assert!(ring.is_empty());
    }
    assert_eq!(ring.capacity_slots(), 4);
}

#[test]
fn push_then_pop_gives_back_the_item() {
    let mut ring: Inner<&str> = Inner::new(8);
    ring.push("a").unwrap();
    ring.push("b").unwrap();
    assert_eq!(ring.push("c"), Ok(()));
    assert_eq!(ring.pop(), Some("c"));
    assert_eq!(ring.len(), 2);
    assert_eq!(ring.steal(), Some("a"));
}

#[test]
fn pushes_do_not_disturb_steals() {
    let ringbuf: Ringbuf<u8> = Ringbuf::new(16);
    let stealer = ringbuf.stealer();
    ringbuf.push(1).unwrap();
    ringbuf.push(2).unwrap();
    assert_eq!(stealer.steal(), Steal::Success(1));
    ringbuf.push(3).unwrap();
    assert_eq!(stealer.steal(), Steal::Success(2));
    assert_eq!(stealer.len(), 1);
    assert!(!stealer.is_empty());
    assert_eq!(ringbuf.pop(), Some(3));
    assert!(ringbuf.is_empty());
    assert!(stealer.is_empty());
}

#[test]
fn every_item_comes_out_once() {
    let mut ring: Inner<u16> = Inner::new(32);
    let mut out = Vec::new();
    for e in 0..20 {
        ring.push(e).unwrap();
        if e % 3 == 0 {
            out.push(ring.steal().unwrap());
        }
        if e % 5 == 1 {
            out.push(ring.pop().unwrap());
        }
    }
    while let Some(e) = ring.pop() {
        out.push(e);
    }
    out.sort();
    assert_eq!(out, (0..20).collect::<Vec<u16>>());
}

#[test]
fn strong_count_counts_handles() {
    let ringbuf: Ringbuf<u8> = Ringbuf::new(2);
    assert_eq!(ringbuf.strong_count(), 1);
    let s1 = ringbuf.stealer();
    let _s2 = ringbuf.stealer();
    assert_eq!(ringbuf.strong_count(), 3);
    drop(s1);
    assert_eq!(ringbuf.strong_count(), 2);
}
