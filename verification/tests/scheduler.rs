//! The cooperative scheduler: round-robin fairness, state transitions,
//! accounting, and the program break.

use coopsched::syscall_process::sys_exit;
use coopsched::syscall_process::sys_sbrk;
use coopsched::syscall_process::sys_yield;
use coopsched::syscall_process::task_info;
use coopsched::syscall_sync::sys_sleep;
use coopsched::task::ScheduleAction;
use coopsched::task::TaskManager;
use coopsched::task::TaskStatus;

#[test]
fn round_robin_visits_every_thread_once() {
    // With N threads all Ready, N yields starting from thread 0 hand the
    // processor to every thread exactly once before repeating.
    let n = 4;
    let mut tm = TaskManager::new(n);
    tm.run_first_task(100);
    let mut visited = Vec::new();
    for _ in 0..n {
        let (r, action) = sys_yield(&mut tm, 100);
        assert_eq!(r, 0);
        match action {
            ScheduleAction::Switch { from: _, to } => visited.push(to),
            ScheduleAction::Halt => panic!("a Ready thread must exist"),
        }
    }
    assert_eq!(visited, vec![1, 2, 3, 0]);
}

#[test]
fn exited_threads_are_skipped_and_halt_ends_it() {
    let mut tm = TaskManager::new(2);
    tm.run_first_task(0);
    match sys_exit(&mut tm, 0, 5) {
        ScheduleAction::Switch { from, to } => {
            assert_eq!(from, 0);
            assert_eq!(to, 1);
        }
        ScheduleAction::Halt => panic!("thread 1 is still Ready"),
    }
    assert_eq!(sys_exit(&mut tm, 0, 6), ScheduleAction::Halt);
    assert_eq!(tm.tasks[0].task_status, TaskStatus::Exited);
    assert_eq!(tm.tasks[1].task_status, TaskStatus::Exited);
}

#[test]
fn first_scheduled_time_is_stamped_once() {
    let mut tm = TaskManager::new(2);
    tm.run_first_task(10);
    assert_eq!(tm.get_task_starting_time(), 10);
    // Thread 1 first runs at 25: stamped then, kept on the next visit.
    let (_, action) = sys_yield(&mut tm, 25);
    assert_eq!(action, ScheduleAction::Switch { from: 0, to: 1 });
    assert_eq!(tm.get_task_starting_time(), 25);
    let (_, _) = sys_yield(&mut tm, 40);
    let (_, _) = sys_yield(&mut tm, 60);
    assert_eq!(tm.current_task, 1);
    assert_eq!(tm.get_task_starting_time(), 25);
}

#[test]
fn sleep_blocks_and_reports_the_deadline() {
    let mut tm = TaskManager::new(2);
    tm.run_first_task(0);
    let (expire, action) = sys_sleep(&mut tm, 1000, 50);
    assert_eq!(expire, 1050);
    assert_eq!(action, ScheduleAction::Switch { from: 0, to: 1 });
    assert_eq!(tm.tasks[0].task_status, TaskStatus::Blocked);
    assert_eq!(tm.tasks[1].task_status, TaskStatus::Running);
}

#[test]
fn syscall_counters_accumulate() {
    let mut tm = TaskManager::new(1);
    tm.run_first_task(0);
    tm.add_task_syscall_time(64);
    tm.add_task_syscall_time(64);
    tm.add_task_syscall_time(93);
    let counts = tm.get_task_syscall_time();
    assert_eq!(counts.len(), 500);
    assert_eq!(counts[64], 2);
    assert_eq!(counts[93], 1);
    assert_eq!(counts[0], 0);
}

#[test]
fn task_info_reports_elapsed_time() {
    let mut tm = TaskManager::new(1);
    tm.run_first_task(100);
    tm.add_task_syscall_time(7);
    let info = task_info(&tm, 160);
    assert_eq!(info.status, TaskStatus::Running);
    assert_eq!(info.time, 60);
    assert_eq!(info.syscall_times[7], 1);
}

#[test]
fn program_break_moves_and_refuses_underflow() {
    let mut tm = TaskManager::new(1);
    tm.run_first_task(0);
    tm.tasks[0].heap_bottom = 0x1000;
    tm.tasks[0].program_brk = 0x1000;
    assert_eq!(sys_sbrk(&mut tm, 0x800), 0x1000);
    assert_eq!(tm.tasks[0].program_brk, 0x1800);
    assert_eq!(sys_sbrk(&mut tm, -0x400), 0x1800);
    assert_eq!(tm.tasks[0].program_brk, 0x1400);
    // A move below the heap bottom is refused without effect.
    assert_eq!(sys_sbrk(&mut tm, -0x800), -1);
    assert_eq!(tm.tasks[0].program_brk, 0x1400);
}

#[test]
fn find_next_task_skips_non_ready_threads() {
    let mut tm = TaskManager::new(3);
    tm.run_first_task(0);
    // Thread 1 blocked: the scan lands on thread 2.
    tm.tasks[1].task_status = TaskStatus::Blocked;
    assert_eq!(tm.find_next_task(), Some(2));
    // Nothing Ready at all: no candidate.
    tm.tasks[2].task_status = TaskStatus::Exited;
    assert_eq!(tm.find_next_task(), None);
    // The scan wraps around to the current thread itself once it is Ready.
    tm.tasks[0].task_status = TaskStatus::Ready;
    assert_eq!(tm.find_next_task(), Some(0));
}
