//! The Banker's-Algorithm detector on concrete allocation states.

use coopsched::deadlock::DeadlockChecker;
use coopsched::deadlock::MAX_RESOURCES;
use coopsched::deadlock::MAX_THREADS;

#[test]
fn fresh_checker_is_safe() {
    let c = DeadlockChecker::new();
    assert!(c.check(MAX_THREADS, MAX_RESOURCES));
    assert!(c.check(0, 0));
    assert!(c.check(2, 1));
}

#[test]
fn zero_need_is_safe_whatever_is_available() {
    // An all-zero need matrix is safe regardless of the available vector.
    let mut c = DeadlockChecker::new();
    c.available_vector[0] = 0;
    c.available_vector[1] = 7;
    c.available_vector[49] = u32::MAX;
    c.used_matrix[3][1] = 5;
    assert!(c.check(MAX_THREADS, MAX_RESOURCES));
}

#[test]
fn holder_requesting_again_is_unsafe() {
    // One resource of one unit.  Thread 0 holds it and requests one more;
    // thread 1 requests it too.  Nobody's need fits: unsafe.
    let mut c = DeadlockChecker::new();
    c.used_matrix[0][0] = 1;
    c.available_vector[0] = 0;
    c.need_matrix[0][0] = 1;
    c.need_matrix[1][0] = 1;
    assert!(!c.check(2, 1));
}

#[test]
fn holder_with_no_need_can_finish() {
    // Thread 0 holds the only unit but needs nothing more, so the algorithm
    // lets it finish and release; thread 1's request is then satisfiable.
    let mut c = DeadlockChecker::new();
    c.used_matrix[0][0] = 1;
    c.available_vector[0] = 0;
    c.need_matrix[1][0] = 1;
    assert!(c.check(2, 1));
}

#[test]
fn crossing_needs_with_a_finisher_are_safe() {
    // Two resource kinds of one unit each.  Thread 0 holds kind 0 and needs
    // kind 1; thread 1 holds kind 1 and needs nothing: thread 1 finishes,
    // releasing kind 1 for thread 0.
    let mut c = DeadlockChecker::new();
    c.available_vector[0] = 0;
    c.available_vector[1] = 0;
    c.used_matrix[0][0] = 1;
    c.need_matrix[0][1] = 1;
    c.used_matrix[1][1] = 1;
    assert!(c.check(2, 2));
}

#[test]
fn crossing_needs_without_a_finisher_are_unsafe() {
    // As above, but thread 1 also needs kind 0: a cycle, nobody can finish.
    let mut c = DeadlockChecker::new();
    c.used_matrix[0][0] = 1;
    c.need_matrix[0][1] = 1;
    c.used_matrix[1][1] = 1;
    c.need_matrix[1][0] = 1;
    assert!(!c.check(2, 2));
}

#[test]
fn add_res_accumulates_units() {
    let mut c = DeadlockChecker::new();
    c.add_res(0, 3);
    assert_eq!(c.available_vector[0], 3);
    c.add_res(0, 2);
    assert_eq!(c.available_vector[0], 5);
    assert_eq!(c.available_vector[1], 0);
}

#[test]
fn recycle_res_returns_a_unit() {
    let mut c = DeadlockChecker::new();
    c.used_matrix[4][7] = 2;
    c.available_vector[7] = 1;
    c.recycle_res(4, 7);
    assert_eq!(c.used_matrix[4][7], 1);
    assert_eq!(c.available_vector[7], 2);
}

#[test]
fn units_are_conserved_through_the_protocol() {
    // available[r] + sum of used[t][r] equals the registered total after
    // every committed transition of the acquire/release protocol.
    let total = |c: &DeadlockChecker, r: usize| -> u64 {
        let held: u64 = (0..MAX_THREADS).map(|t| c.used_matrix[t][r] as u64).sum();
        c.available_vector[r] as u64 + held
    };
    let mut c = DeadlockChecker::new();
    c.add_res(0, 1);
    assert_eq!(total(&c, 0), 1);

    // Thread 0 requests, the state is checked, and the grant is committed.
    c.record_request(0, 0);
    assert!(c.check(2, 1));
    c.commit_grant(0, 0);
    assert_eq!(total(&c, 0), 1);
    assert_eq!(c.used_matrix[0][0], 1);
    assert_eq!(c.available_vector[0], 0);

    // Thread 0 releases.
    c.recycle_res(0, 0);
    assert_eq!(total(&c, 0), 1);
    assert_eq!(c.used_matrix[0][0], 0);
    assert_eq!(c.available_vector[0], 1);
}

#[test]
fn check_examines_only_the_window() {
    // Threads and resources beyond the examined window are ignored.
    let mut c = DeadlockChecker::new();
    c.need_matrix[5][0] = 9;
    c.available_vector[0] = 0;
    assert!(c.check(2, 1));
    assert!(!c.check(6, 1));
}
