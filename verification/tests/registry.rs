//! The synchronization-resource registry and the acquire/release protocol.

use coopsched::syscall_sync::DEADLOCK_ERR;
use coopsched::syscall_sync::ProcessSync;

#[test]
fn handles_start_at_zero_and_grow() {
    let mut ps = ProcessSync::new(2);
    assert_eq!(ps.sys_mutex_create(true), 0);
    assert_eq!(ps.sys_mutex_create(false), 1);
    assert_eq!(ps.sys_semaphore_create(3), 0);
    assert_eq!(ps.sys_condvar_create(), 0);
    assert_eq!(ps.sys_condvar_create(), 1);
    assert!(ps.mutex_list[0].unwrap().blocking);
    assert!(!ps.mutex_list[1].unwrap().blocking);
    assert_eq!(ps.semaphore_list[0].unwrap().initial_count, 3);
}

#[test]
fn a_freed_slot_is_reused_lowest_first() {
    // Create three, free the middle one, create again: the freed handle
    // comes back instead of a new one.
    let mut ps = ProcessSync::new(2);
    assert_eq!(ps.sys_mutex_create(true), 0);
    assert_eq!(ps.sys_mutex_create(true), 1);
    assert_eq!(ps.sys_mutex_create(true), 2);
    ps.mutex_list[1] = None;
    assert_eq!(ps.sys_mutex_create(false), 1);
    assert_eq!(ps.sys_mutex_create(true), 3);

    let mut ps2 = ProcessSync::new(2);
    assert_eq!(ps2.sys_semaphore_create(1), 0);
    assert_eq!(ps2.sys_semaphore_create(1), 1);
    ps2.semaphore_list[0] = None;
    assert_eq!(ps2.sys_semaphore_create(5), 0);
    assert_eq!(ps2.semaphore_list[0].unwrap().initial_count, 5);
}

#[test]
fn enable_deadlock_detect_validates_its_argument() {
    let mut ps = ProcessSync::new(2);
    assert_eq!(ps.sys_enable_deadlock_detect(2), -1);
    assert_eq!(ps.sys_enable_deadlock_detect(usize::MAX), -1);
    // Disabling without ever enabling is a no-op success.
    assert_eq!(ps.sys_enable_deadlock_detect(0), 0);
    assert!(ps.mutex_checker.is_none());
    assert_eq!(ps.sys_enable_deadlock_detect(1), 0);
    assert!(ps.mutex_checker.is_some());
    assert!(ps.semaphore_checker.is_some());
    // Detectors persist: re-enabling does not reset, disabling never tears
    // down.
    ps.mutex_checker.as_mut().unwrap().need_matrix[0][0] = 1;
    assert_eq!(ps.sys_enable_deadlock_detect(1), 0);
    assert_eq!(ps.mutex_checker.as_ref().unwrap().need_matrix[0][0], 1);
    assert_eq!(ps.sys_enable_deadlock_detect(0), 0);
    assert!(ps.mutex_checker.is_some());
}

#[test]
fn mutex_relock_by_its_holder_is_refused_as_deadlock() {
    let mut ps = ProcessSync::new(2);
    assert_eq!(ps.sys_enable_deadlock_detect(1), 0);
    let m = ps.sys_mutex_create(true);
    assert_eq!(m, 0);

    // Thread 0 acquires: speculative need, safety check, external lock
    // (granted immediately: the mutex is free), commit.
    assert_eq!(ps.sys_mutex_lock(0, 0), 0);
    ps.mutex_lock_commit(0, 0);
    let c = ps.mutex_checker.as_ref().unwrap();
    assert_eq!(c.used_matrix[0][0], 1);
    assert_eq!(c.available_vector[0], 0);
    assert_eq!(c.need_matrix[0][0], 0);

    // The holder requests the same mutex again: granting could deadlock.
    assert_eq!(ps.sys_mutex_lock(0, 0), DEADLOCK_ERR);
    // The refusal leaves the speculative need recorded; repeated refused
    // attempts accumulate it.
    assert_eq!(ps.mutex_checker.as_ref().unwrap().need_matrix[0][0], 1);
    assert_eq!(ps.sys_mutex_lock(0, 0), DEADLOCK_ERR);
    assert_eq!(ps.mutex_checker.as_ref().unwrap().need_matrix[0][0], 2);
}

#[test]
fn lock_and_release_keep_the_books_balanced() {
    let mut ps = ProcessSync::new(2);
    assert_eq!(ps.sys_enable_deadlock_detect(1), 0);
    assert_eq!(ps.sys_mutex_create(true), 0);

    // A waiter's request while the mutex is held is safe (the holder can
    // finish and release), so the waiter may proceed to block on the
    // primitive.
    assert_eq!(ps.sys_mutex_lock(0, 0), 0);
    ps.mutex_lock_commit(0, 0);
    assert_eq!(ps.sys_mutex_lock(1, 0), 0);

    // The holder releases; the woken waiter's grant is committed.
    assert_eq!(ps.sys_mutex_unlock(0, 0), 0);
    ps.mutex_lock_commit(1, 0);
    let c = ps.mutex_checker.as_ref().unwrap();
    assert_eq!(c.used_matrix[0][0], 0);
    assert_eq!(c.used_matrix[1][0], 1);
    assert_eq!(c.available_vector[0], 0);
    assert_eq!(c.need_matrix[1][0], 0);
    // One unit registered, one unit accounted for.
    assert_eq!(c.available_vector[0] + c.used_matrix[0][0] + c.used_matrix[1][0], 1);
}

#[test]
fn semaphore_units_serve_several_threads() {
    let mut ps = ProcessSync::new(3);
    assert_eq!(ps.sys_enable_deadlock_detect(1), 0);
    assert_eq!(ps.sys_semaphore_create(2), 0);
    let avail = |ps: &ProcessSync| ps.semaphore_checker.as_ref().unwrap().available_vector[0];
    assert_eq!(avail(&ps), 2);

    assert_eq!(ps.sys_semaphore_down(0, 0), 0);
    ps.semaphore_down_commit(0, 0);
    assert_eq!(ps.sys_semaphore_down(1, 0), 0);
    ps.semaphore_down_commit(1, 0);
    assert_eq!(avail(&ps), 0);

    assert_eq!(ps.sys_semaphore_up(0, 0), 0);
    assert_eq!(avail(&ps), 1);
    let c = ps.semaphore_checker.as_ref().unwrap();
    assert_eq!(c.used_matrix[0][0], 0);
    assert_eq!(c.used_matrix[1][0], 1);
}

#[test]
fn invalid_handles_are_refused() {
    let mut ps = ProcessSync::new(2);
    assert_eq!(ps.sys_mutex_lock(0, 0), -1);
    assert_eq!(ps.sys_mutex_unlock(0, 3), -1);
    assert_eq!(ps.sys_semaphore_down(0, 0), -1);
    assert_eq!(ps.sys_semaphore_up(0, 9), -1);
    assert_eq!(ps.sys_condvar_signal(0), -1);
    assert_eq!(ps.sys_condvar_wait(0, 0), -1);
    // A freed slot is an invalid handle again.
    assert_eq!(ps.sys_mutex_create(true), 0);
    ps.mutex_list[0] = None;
    assert_eq!(ps.sys_mutex_lock(0, 0), -1);
}

#[test]
fn condvar_calls_validate_their_handles() {
    let mut ps = ProcessSync::new(2);
    assert_eq!(ps.sys_condvar_create(), 0);
    assert_eq!(ps.sys_mutex_create(true), 0);
    assert_eq!(ps.sys_condvar_signal(0), 0);
    assert_eq!(ps.sys_condvar_signal(1), -1);
    assert_eq!(ps.sys_condvar_wait(0, 0), 0);
    assert_eq!(ps.sys_condvar_wait(0, 1), -1);
    assert_eq!(ps.sys_condvar_wait(1, 0), -1);
}

#[test]
fn releases_the_books_cannot_support_are_refused() {
    // Releasing a mutex nobody holds would underflow the used count: the
    // chosen policy refuses it with no effect on the books.
    let mut ps = ProcessSync::new(2);
    assert_eq!(ps.sys_enable_deadlock_detect(1), 0);
    assert_eq!(ps.sys_mutex_create(true), 0);
    assert_eq!(ps.sys_mutex_unlock(0, 0), -1);
    let c = ps.mutex_checker.as_ref().unwrap();
    assert_eq!(c.used_matrix[0][0], 0);
    assert_eq!(c.available_vector[0], 1);
}

#[test]
fn requests_beyond_detector_capacity_are_refused() {
    // The detector tracks at most 10 threads; a process with more must have
    // tracked acquisitions refused rather than indexed out of bounds.
    let mut ps = ProcessSync::new(11);
    assert_eq!(ps.sys_enable_deadlock_detect(1), 0);
    assert_eq!(ps.sys_mutex_create(true), 0);
    assert_eq!(ps.sys_mutex_lock(0, 0), -1);
    // A thread id outside the process is refused too.
    let mut ps2 = ProcessSync::new(2);
    assert_eq!(ps2.sys_enable_deadlock_detect(1), 0);
    assert_eq!(ps2.sys_mutex_create(true), 0);
    assert_eq!(ps2.sys_mutex_lock(2, 0), -1);
    // Without a detector the same lock request passes validation.
    let mut ps3 = ProcessSync::new(11);
    assert_eq!(ps3.sys_mutex_create(true), 0);
    assert_eq!(ps3.sys_mutex_lock(0, 0), 0);
}
