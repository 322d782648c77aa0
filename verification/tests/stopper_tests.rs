use mv_consistency::stopper::WritesStopper;
use std::sync::atomic::{AtomicBool, Ordering};
use std::sync::Arc;

#[test]
fn new_does_not_raise_the_flag() {
    let flag = Arc::new(AtomicBool::new(false));
    let _stopper = WritesStopper::new(flag.clone());
    assert!(!flag.load(Ordering::Relaxed));
}

#[test]
fn stop_raises_the_shared_flag() {
    let flag = Arc::new(AtomicBool::new(false));
    let stopper = WritesStopper::new(flag.clone());
    stopper.stop();
    assert!(flag.load(Ordering::Relaxed));
}

#[test]
fn stop_twice_is_the_same_as_once() {
    let flag = Arc::new(AtomicBool::new(false));
    let stopper = WritesStopper::new(flag.clone());
    stopper.stop();
    stopper.stop();
    assert!(flag.load(Ordering::Relaxed));
}

#[test]
fn stopper_hands_out_its_own_flag() {
    let flag = Arc::new(AtomicBool::new(false));
    let stopper = WritesStopper::new(flag.clone());
    assert!(Arc::ptr_eq(stopper.should_stop(), &flag));
    let seen_by_worker = stopper.should_stop().clone();
    assert!(!seen_by_worker.load(Ordering::Relaxed));
    stopper.stop();
    assert!(seen_by_worker.load(Ordering::Relaxed));
}
