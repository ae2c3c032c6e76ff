use stm::{atomically, optionally};
use stm_datastructures::semaphore::{give_token, take_token};
use stm_datastructures::Semaphore;

#[test]
fn sem_wait() {
    let sem = Semaphore::new(1);
    atomically(|trans| sem.wait(trans));
}

#[test]
fn sem_signal_wait() {
    let sem = Semaphore::new(0);
    atomically(|trans| {
        sem.signal(trans)?;
        sem.wait(trans)
    });
}

#[test]
fn sem_wait_at_zero_blocks() {
    let sem = Semaphore::new(0);
    assert_eq!(None, atomically(|trans| optionally(trans, |t| sem.wait(t))));
    atomically(|trans| sem.signal(trans));
    assert_eq!(Some(()), atomically(|trans| optionally(trans, |t| sem.wait(t))));
    assert_eq!(None, atomically(|trans| optionally(trans, |t| sem.wait(t))));
}

#[test]
fn sem_signal_then_wait_keeps_count() {
    let sem = Semaphore::new(2);
    atomically(|trans| {
        sem.signal(trans)?;
        sem.wait(trans)
    });
    atomically(|trans| {
        sem.wait(trans)?;
        sem.wait(trans)
    });
    assert_eq!(None, atomically(|trans| optionally(trans, |t| sem.wait(t))));
}

#[test]
fn sem_signal_at_largest_count_blocks() {
    let sem = Semaphore::new(u32::MAX);
    assert_eq!(None, atomically(|trans| optionally(trans, |t| sem.signal(t))));
    atomically(|trans| sem.wait(trans));
    assert_eq!(Some(()), atomically(|trans| optionally(trans, |t| sem.signal(t))));
}

#[test]
fn token_counting() {
    assert_eq!(None, take_token(0));
    assert_eq!(Some(2), take_token(3));
    assert_eq!(Some(4), give_token(3));
    assert_eq!(None, give_token(u32::MAX));
}
