//! Process-level syscalls: yielding, exiting, time and task-information
//! values, program-break moves, and the mmap/munmap entry points.
//!
//! Reading the clock and writing results into user memory are external
//! collaborators: these functions take the current time as an argument and
//! hand back plain values for the caller to deliver.

use vstd::prelude::*;
use crate::task::MAX_SYSCALL_NUM;
use crate::task::ScheduleAction;
use crate::task::TaskManager;
use crate::task::TaskStatus;
use crate::task::mmap_post;
use crate::task::munmap_post;
use crate::task::schedule_post;
use crate::task::with_status;

verus! {

/// A wall-clock instant split into seconds and microseconds.
#[derive(Clone, Copy, Debug, PartialEq, Eq, Structural)]
pub struct TimeVal {
    /// Whole seconds.
    pub sec: usize,
    /// Microseconds below one second.
    pub usec: usize,
}

impl TimeVal {
    /// Split a microsecond count into seconds and the sub-second remainder.
    pub fn from_us(us: usize) -> (r: Self)
        ensures
            r.sec == us / 1_000_000,
            r.usec == us % 1_000_000,
    {
        TimeVal { sec: us / 1_000_000, usec: us % 1_000_000 }
    }
}

/// What a task reports about itself: status, per-syscall invocation counts,
/// and total running time.
#[derive(Clone, Debug)]
pub struct TaskInfo {
    /// Task status in its life cycle.
    pub status: TaskStatus,
    /// The numbers of syscall called by task.
    pub syscall_times: Vec<u32>,
    /// Total running time of task.
    pub time: usize,
}

/// The information the current thread reports about itself at time `now_ms`:
/// it is the Running thread, its counters are copied, and its running time is
/// the time elapsed since it was first scheduled.
pub fn task_info(tm: &TaskManager, now_ms: usize) -> (r: TaskInfo)
    requires
        tm.wf(),
        now_ms >= tm.tasks@[tm.current_task as int].starting_time,
    ensures
        r.status == TaskStatus::Running,
        r.syscall_times@ == tm.tasks@[tm.current_task as int].syscall_times@,
        r.syscall_times@.len() == MAX_SYSCALL_NUM,
        r.time == now_ms - tm.tasks@[tm.current_task as int].starting_time,
{
    let start = tm.get_task_starting_time();
    TaskInfo {
        status: TaskStatus::Running,
        syscall_times: tm.get_task_syscall_time(),
        time: now_ms - start,
    }
}

/// The current thread terminates with `_exit_code`: it becomes Exited and
/// the processor goes to the next Ready thread.  A Halt action means every
/// thread has finished or is blocked: the system stops.
pub fn sys_exit(tm: &mut TaskManager, _exit_code: i32, now_ms: usize) -> (r: ScheduleAction)
    requires
        old(tm).wf(),
    ensures
        final(tm).wf(),
        schedule_post(
            with_status(old(tm).tasks@, old(tm).current_task as int, TaskStatus::Exited),
            old(tm).current_task as int,
            old(tm).num_app as int,
            *final(tm),
            r,
            now_ms,
        ),
{
    tm.mark_current_exited();
    tm.run_next_task(now_ms)
}

/// The current thread gives up the processor: it becomes Ready again and the
/// processor goes to the next Ready thread (possibly itself).  Always
/// succeeds with result 0.
pub fn sys_yield(tm: &mut TaskManager, now_ms: usize) -> (r: (isize, ScheduleAction))
    requires
        old(tm).wf(),
    ensures
        final(tm).wf(),
        r.0 == 0,
        schedule_post(
            with_status(old(tm).tasks@, old(tm).current_task as int, TaskStatus::Ready),
            old(tm).current_task as int,
            old(tm).num_app as int,
            *final(tm),
            r.1,
            now_ms,
        ),
{
    tm.mark_current_suspended();
    let action = tm.run_next_task(now_ms);
    (0, action)
}

/// Map the byte range `[start, start + len)` with permission word `port` for
/// the current thread; see [`TaskManager::mmap`] for the exact contract.
pub fn sys_mmap(tm: &mut TaskManager, start: usize, len: usize, port: usize) -> (r: isize)
    requires
        old(tm).wf(),
        start + len <= usize::MAX,
    ensures
        final(tm).wf(),
        mmap_post(*old(tm), *final(tm), r, start, len, port),
{
    tm.mmap(start, len, port)
}

/// Unmap the byte range `[start, start + len)` for the current thread; see
/// [`TaskManager::munmap`] for the exact contract.
pub fn sys_munmap(tm: &mut TaskManager, start: usize, len: usize) -> (r: isize)
    requires
        old(tm).wf(),
        start + len <= usize::MAX,
    ensures
        final(tm).wf(),
        munmap_post(*old(tm), *final(tm), r, start, len),
{
    tm.munmap(start, len)
}

/// Move the current thread's program break by `size` bytes: the old break on
/// success, -1 when the move would leave the legal range.
pub fn sys_sbrk(tm: &mut TaskManager, size: i32) -> (r: isize)
    requires
        old(tm).wf(),
        old(tm).tasks@[old(tm).current_task as int].program_brk <= usize::MAX / 2,
    ensures
        final(tm).wf(),
        final(tm).num_app == old(tm).num_app,
        final(tm).current_task == old(tm).current_task,
        ({
            let cur = old(tm).current_task as int;
            let old_brk = old(tm).tasks@[cur].program_brk as int;
            let new_brk = old_brk + size as int;
            let legal = old(tm).tasks@[cur].heap_bottom <= new_brk <= usize::MAX;
            if legal {
                &&& r == old_brk
                &&& final(tm).tasks@ == old(tm).tasks@.update(
                    cur,
                    (crate::task::TaskControlBlock {
                        program_brk: new_brk as usize,
                        ..old(tm).tasks@[cur]
                    }),
                )
            } else {
                r == -1 && *final(tm) == *old(tm)
            }
        }),
{
    match tm.change_current_program_brk(size) {
        Some(old_brk) => old_brk as isize,
        None => -1,
    }
}

} // verus!
