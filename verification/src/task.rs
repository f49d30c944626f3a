//! Cooperative task manager: per-thread control blocks, the round-robin
//! Ready-scan, the Running/Ready/Blocked/Exited transitions, per-thread
//! accounting, and the mmap/munmap validation contract over each thread's
//! address space.
//!
//! The context-switch primitive itself is an external collaborator: every
//! transition returns a [`ScheduleAction`] telling the caller which saved
//! contexts to switch between, and the caller performs the switch.

use vstd::prelude::*;
use vstd::assert_maps_equal;
use vstd::map::*;
use crate::addrspace::AddressSpace;
use crate::addrspace::PAGE_SIZE;
use crate::addrspace::after_mmap;
use crate::addrspace::after_munmap;
use crate::addrspace::end_vpn_of;
use crate::addrspace::mmap_params_ok;
use crate::addrspace::perm_of_port;
use crate::addrspace::range_free;
use crate::addrspace::range_mapped;
use crate::addrspace::start_vpn_of;

verus! {

broadcast use vstd::arithmetic::div_mod::lemma_mod_bound;

use vstd::arithmetic::div_mod::lemma_small_mod;
use vstd::arithmetic::div_mod::lemma_mod_self_0;

/// Size of each thread's per-syscall invocation-counter table.
pub const MAX_SYSCALL_NUM: usize = 500;

/// Scheduling status of one thread.
#[derive(Clone, Copy, Debug, PartialEq, Eq, Structural)]
pub enum TaskStatus {
    /// Runnable, waiting for the processor.
    Ready,
    /// Currently holding the processor.
    Running,
    /// Waiting for an external wake (resource grant or timer).
    Blocked,
    /// Terminated; never scheduled again.
    Exited,
}

/// What the caller must do after a scheduling decision: perform the context
/// switch, or halt the system because nothing is left to run.
#[derive(Clone, Copy, Debug, PartialEq, Eq, Structural)]
pub enum ScheduleAction {
    /// Switch from the saved context of thread `from` into thread `to`.
    Switch { from: usize, to: usize },
    /// No thread is Ready: the system has nothing left to run.
    Halt,
}

/// Per-thread scheduling and accounting state.
pub struct TaskControlBlock {
    /// Scheduling status.
    pub task_status: TaskStatus,
    /// First time this thread was scheduled, in milliseconds; 0 while unset.
    pub starting_time: usize,
    /// Invocation counter per syscall number.
    pub syscall_times: Vec<u32>,
    /// The thread's address space, mutated only by its own mmap/munmap calls.
    pub memory_set: AddressSpace,
    /// Lowest legal program-break address.
    pub heap_bottom: usize,
    /// Current program break.
    pub program_brk: usize,
}

impl TaskControlBlock {
    /// Counter table has its fixed size.
    pub open spec fn wf(self) -> bool {
        self.syscall_times@.len() == MAX_SYSCALL_NUM
    }

    /// A freshly loaded thread: Ready, never scheduled, nothing mapped.
    pub fn new() -> (r: Self)
        ensures
            r.wf(),
            r.task_status == TaskStatus::Ready,
            r.starting_time == 0,
            forall|i: int| 0 <= i < MAX_SYSCALL_NUM ==> r.syscall_times@[i] == 0,
            r.memory_set.mapping() == Map::<int, u8>::empty(),
            r.heap_bottom == 0,
            r.program_brk == 0,
    {
        let mut syscall_times: Vec<u32> = Vec::new();
        let mut i: usize = 0;
        while i < MAX_SYSCALL_NUM
            invariant
                i <= MAX_SYSCALL_NUM,
                syscall_times@.len() == i,
                forall|j: int| 0 <= j < i ==> syscall_times@[j] == 0,
            decreases MAX_SYSCALL_NUM - i,
        {
            syscall_times.push(0);
            i += 1;
        }
        TaskControlBlock {
            task_status: TaskStatus::Ready,
            starting_time: 0,
            syscall_times,
            memory_set: AddressSpace::new(),
            heap_bottom: 0,
            program_brk: 0,
        }
    }
}

/// The thread the round-robin scan starting at offset `k` from `current`
/// settles on: the first id among `(current + k) % n, ..., (current + n) % n`
/// whose status is Ready.
pub open spec fn next_ready(
    tasks: Seq<TaskControlBlock>,
    current: int,
    n: int,
    k: int,
) -> Option<int>
    decreases n + 1 - k,
{
    if k > n || k < 1 {
        None
    } else {
        let id = (current + k) % n;
        if tasks[id].task_status == TaskStatus::Ready {
            Some(id)
        } else {
            next_ready(tasks, current, n, k + 1)
        }
    }
}

/// `tasks` with thread `id`'s status replaced.
pub open spec fn with_status(tasks: Seq<TaskControlBlock>, id: int, st: TaskStatus) -> Seq<
    TaskControlBlock,
> {
    tasks.update(id, TaskControlBlock { task_status: st, ..tasks[id] })
}

/// What handing the processor on means, from a thread table `pre_tasks`
/// positioned at `pre_current`: either the round-robin scan found a Ready
/// thread, which is now Running with its first-scheduled time stamped and the
/// caller must switch into it, or nothing is Ready and the state is unchanged
/// because the system must halt.
pub open spec fn schedule_post(
    pre_tasks: Seq<TaskControlBlock>,
    pre_current: int,
    num_app: int,
    post: TaskManager,
    r: ScheduleAction,
    now_ms: usize,
) -> bool {
    &&& post.num_app == num_app
    &&& match r {
        ScheduleAction::Switch { from, to } => {
            &&& next_ready(pre_tasks, pre_current, num_app, 1) == Some(to as int)
            &&& from == pre_current
            &&& post.current_task == to
            &&& post.tasks@ == pre_tasks.update(
                to as int,
                (TaskControlBlock {
                    task_status: TaskStatus::Running,
                    starting_time: if pre_tasks[to as int].starting_time == 0 {
                        now_ms
                    } else {
                        pre_tasks[to as int].starting_time
                    },
                    ..pre_tasks[to as int]
                }),
            )
        },
        ScheduleAction::Halt => {
            &&& next_ready(pre_tasks, pre_current, num_app, 1) is None
            &&& post.tasks@ == pre_tasks
            &&& post.current_task == pre_current
        },
    }
}


/// What a map request does to the manager: a misaligned start, a malformed
/// permission word, or a range with any page already mapped is refused with
/// no effect; otherwise every page of the range becomes mapped at the
/// requested permission for the current thread, and nothing else changes.
pub open spec fn mmap_post(
    pre: TaskManager,
    post: TaskManager,
    r: isize,
    start: usize,
    len: usize,
    port: usize,
) -> bool {
    &&& post.num_app == pre.num_app
    &&& post.current_task == pre.current_task
    &&& ({
        let cur = pre.current_task as int;
        let m = pre.tasks@[cur].memory_set.mapping();
        let lo = start_vpn_of(start as int);
        let hi = end_vpn_of(start as int + len);
        let ok = mmap_params_ok(start, port) && range_free(m, lo, hi);
        &&& (r == 0 <==> ok)
        &&& (r == 0 || r == -1)
        &&& (!ok ==> post == pre)
        &&& (ok ==> {
            &&& forall|t: int|
                0 <= t < pre.num_app && t != cur ==> post.tasks@[t] == pre.tasks@[t]
            &&& post.tasks@[cur].task_status == pre.tasks@[cur].task_status
            &&& post.tasks@[cur].starting_time == pre.tasks@[cur].starting_time
            &&& post.tasks@[cur].syscall_times@ == pre.tasks@[cur].syscall_times@
            &&& post.tasks@[cur].heap_bottom == pre.tasks@[cur].heap_bottom
            &&& post.tasks@[cur].program_brk == pre.tasks@[cur].program_brk
            &&& post.tasks@[cur].memory_set.mapping() == after_mmap(
                m,
                lo,
                hi,
                perm_of_port(port),
            )
        })
    })
}

/// What an unmap request does to the manager: a misaligned start or a range
/// with any page not currently mapped is refused with no effect; otherwise
/// every page of the range becomes unmapped for the current thread, and
/// nothing else changes.
pub open spec fn munmap_post(
    pre: TaskManager,
    post: TaskManager,
    r: isize,
    start: usize,
    len: usize,
) -> bool {
    &&& post.num_app == pre.num_app
    &&& post.current_task == pre.current_task
    &&& ({
        let cur = pre.current_task as int;
        let m = pre.tasks@[cur].memory_set.mapping();
        let lo = start_vpn_of(start as int);
        let hi = end_vpn_of(start as int + len);
        let ok = start % PAGE_SIZE == 0 && range_mapped(m, lo, hi);
        &&& (r == 0 <==> ok)
        &&& (r == 0 || r == -1)
        &&& (!ok ==> post == pre)
        &&& (ok ==> {
            &&& forall|t: int|
                0 <= t < pre.num_app && t != cur ==> post.tasks@[t] == pre.tasks@[t]
            &&& post.tasks@[cur].task_status == pre.tasks@[cur].task_status
            &&& post.tasks@[cur].starting_time == pre.tasks@[cur].starting_time
            &&& post.tasks@[cur].syscall_times@ == pre.tasks@[cur].syscall_times@
            &&& post.tasks@[cur].heap_bottom == pre.tasks@[cur].heap_bottom
            &&& post.tasks@[cur].program_brk == pre.tasks@[cur].program_brk
            &&& post.tasks@[cur].memory_set.mapping() == after_munmap(m, lo, hi)
        })
    })
}

/// The task manager: the global thread table and the id of the thread that
/// currently holds the processor.
pub struct TaskManager {
    /// Total number of threads, fixed at boot.
    pub num_app: usize,
    /// One control block per thread, indexed by thread id.
    pub tasks: Vec<TaskControlBlock>,
    /// Id of the thread whose status is Running.
    pub current_task: usize,
}

impl TaskManager {
    /// One control block per thread, a valid current thread, and every
    /// counter table at its fixed size.
    pub open spec fn wf(self) -> bool {
        &&& self.tasks@.len() == self.num_app
        &&& self.num_app >= 1
        &&& self.current_task < self.num_app
        &&& forall|t: int| 0 <= t < self.num_app ==> (#[trigger] self.tasks@[t]).wf()
    }

    /// A manager over `num_app` freshly loaded threads, positioned at thread 0.
    pub fn new(num_app: usize) -> (r: Self)
        requires
            num_app >= 1,
        ensures
            r.wf(),
            r.num_app == num_app,
            r.current_task == 0,
            forall|t: int|
                0 <= t < num_app ==> (#[trigger] r.tasks@[t]).task_status == TaskStatus::Ready,
            forall|t: int| 0 <= t < num_app ==> (#[trigger] r.tasks@[t]).starting_time == 0,
            forall|t: int, i: int|
                0 <= t < num_app && 0 <= i < MAX_SYSCALL_NUM
                    ==> #[trigger] r.tasks@[t].syscall_times@[i] == 0,
            forall|t: int|
                0 <= t < num_app ==> (#[trigger] r.tasks@[t]).memory_set.mapping() == Map::<
                    int,
                    u8,
                >::empty(),
            forall|t: int| 0 <= t < num_app ==> (#[trigger] r.tasks@[t]).heap_bottom == 0,
            forall|t: int| 0 <= t < num_app ==> (#[trigger] r.tasks@[t]).program_brk == 0,
    {
        let mut tasks: Vec<TaskControlBlock> = Vec::new();
        let mut i: usize = 0;
        while i < num_app
            invariant
                i <= num_app,
                tasks@.len() == i,
                forall|t: int| 0 <= t < i ==> (#[trigger] tasks@[t]).wf(),
                forall|t: int|
                    0 <= t < i ==> (#[trigger] tasks@[t]).task_status == TaskStatus::Ready,
                forall|t: int| 0 <= t < i ==> (#[trigger] tasks@[t]).starting_time == 0,
                forall|t: int, k: int|
                    0 <= t < i && 0 <= k < MAX_SYSCALL_NUM
                        ==> #[trigger] tasks@[t].syscall_times@[k] == 0,
                forall|t: int|
                    0 <= t < i ==> (#[trigger] tasks@[t]).memory_set.mapping() == Map::<
                        int,
                        u8,
                    >::empty(),
                forall|t: int| 0 <= t < i ==> (#[trigger] tasks@[t]).heap_bottom == 0,
                forall|t: int| 0 <= t < i ==> (#[trigger] tasks@[t]).program_brk == 0,
            decreases num_app - i,
        {
            tasks.push(TaskControlBlock::new());
            i += 1;
        }
        TaskManager { num_app, tasks, current_task: 0 }
    }

    /// Start the very first thread: stamp its first-scheduled time, mark it
    /// Running, and return its id for the one-time bootstrap context switch.
    /// The caller switches into it and never returns here.
    pub fn run_first_task(&mut self, now_ms: usize) -> (to: usize)
        requires
            old(self).wf(),
        ensures
            final(self).wf(),
            to == 0,
            final(self).current_task == 0,
            final(self).num_app == old(self).num_app,
            final(self).tasks@ == old(self).tasks@.update(
                0,
                (TaskControlBlock {
                    task_status: TaskStatus::Running,
                    starting_time: now_ms,
                    ..old(self).tasks@[0]
                }),
            ),
    {
        let t = &mut self.tasks[0];
        t.starting_time = now_ms;
        t.task_status = TaskStatus::Running;
        self.current_task = 0;
        0
    }

    /// The current thread yields the processor: Running -> Ready.
    pub fn mark_current_suspended(&mut self)
        requires
            old(self).wf(),
        ensures
            final(self).wf(),
            final(self).num_app == old(self).num_app,
            final(self).current_task == old(self).current_task,
            final(self).tasks@ == old(self).tasks@.update(
                old(self).current_task as int,
                (TaskControlBlock {
                    task_status: TaskStatus::Ready,
                    ..old(self).tasks@[old(self).current_task as int]
                }),
            ),
    {
        let cur = self.current_task;
        let t = &mut self.tasks[cur];
        t.task_status = TaskStatus::Ready;
    }

    /// The current thread terminates: Running -> Exited, never revisited.
    pub fn mark_current_exited(&mut self)
        requires
            old(self).wf(),
        ensures
            final(self).wf(),
            final(self).num_app == old(self).num_app,
            final(self).current_task == old(self).current_task,
            final(self).tasks@ == old(self).tasks@.update(
                old(self).current_task as int,
                (TaskControlBlock {
                    task_status: TaskStatus::Exited,
                    ..old(self).tasks@[old(self).current_task as int]
                }),
            ),
    {
        let cur = self.current_task;
        let t = &mut self.tasks[cur];
        t.task_status = TaskStatus::Exited;
    }

    /// The current thread waits for an external wake: Running -> Blocked.
    pub fn mark_current_blocked(&mut self)
        requires
            old(self).wf(),
        ensures
            final(self).wf(),
            final(self).num_app == old(self).num_app,
            final(self).current_task == old(self).current_task,
            final(self).tasks@ == with_status(
                old(self).tasks@,
                old(self).current_task as int,
                TaskStatus::Blocked,
            ),
    {
        let cur = self.current_task;
        let t = &mut self.tasks[cur];
        t.task_status = TaskStatus::Blocked;
    }

    /// Round-robin scan: the first Ready thread at offsets `1..=num_app`
    /// after the current one, wrapping around; `None` when no thread is Ready.
    pub fn find_next_task(&self) -> (r: Option<usize>)
        requires
            self.wf(),
        ensures
            match r {
                Some(id) => id < self.num_app && next_ready(
                    self.tasks@,
                    self.current_task as int,
                    self.num_app as int,
                    1,
                ) == Some(id as int),
                None => next_ready(
                    self.tasks@,
                    self.current_task as int,
                    self.num_app as int,
                    1,
                ) is None,
            },
    {
        let n = self.num_app;
        let mut k: usize = 0;
        while k < n
            invariant
                self.wf(),
                n == self.num_app,
                k <= n,
                next_ready(self.tasks@, self.current_task as int, n as int, 1) == next_ready(
                    self.tasks@,
                    self.current_task as int,
                    n as int,
                    k as int + 1,
                ),
            decreases n - k,
        {
            let id = ((self.current_task as u128 + k as u128 + 1) % (n as u128)) as usize;
            proof {
                assert(id as int == (self.current_task as int + (k as int + 1)) % (n as int));
            }
            if self.tasks[id].task_status == TaskStatus::Ready {
                return Some(id);
            }
            k += 1;
        }
        None
    }

    /// Hand the processor to the next Ready thread, if any: stamp its
    /// first-scheduled time if unset, mark it Running, and return the pair of
    /// contexts to switch between.  When nothing is Ready the system must
    /// halt; the state is then left unchanged.
    pub fn run_next_task(&mut self, now_ms: usize) -> (r: ScheduleAction)
        requires
            old(self).wf(),
        ensures
            final(self).wf(),
            schedule_post(
                old(self).tasks@,
                old(self).current_task as int,
                old(self).num_app as int,
                *final(self),
                r,
                now_ms,
            ),
    {
        match self.find_next_task() {
            Some(next) => {
                let from = self.current_task;
                let t = &mut self.tasks[next];
                if t.starting_time == 0 {
                    t.starting_time = now_ms;
                }
                t.task_status = TaskStatus::Running;
                self.current_task = next;
                ScheduleAction::Switch { from, to: next }
            },
            None => ScheduleAction::Halt,
        }
    }

    /// Account one invocation of syscall `id` to the current thread.
    pub fn add_task_syscall_time(&mut self, id: usize)
        requires
            old(self).wf(),
            id < MAX_SYSCALL_NUM,
            old(self).tasks@[old(self).current_task as int].syscall_times@[id as int] < u32::MAX,
        ensures
            final(self).wf(),
            final(self).num_app == old(self).num_app,
            final(self).current_task == old(self).current_task,
            final(self).tasks@ == old(self).tasks@.update(
                old(self).current_task as int,
                (TaskControlBlock {
                    syscall_times: final(self).tasks@[old(self).current_task as int].syscall_times,
                    ..old(self).tasks@[old(self).current_task as int]
                }),
            ),
            final(self).tasks@[old(self).current_task as int].syscall_times@ == old(
                self,
            ).tasks@[old(self).current_task as int].syscall_times@.update(
                id as int,
                (old(self).tasks@[old(self).current_task as int].syscall_times@[id as int]
                    + 1) as u32,
            ),
    {
        let cur = self.current_task;
        let t = &mut self.tasks[cur];
        let c = t.syscall_times[id];
        t.syscall_times.set(id, c + 1);
    }

    /// First-scheduled timestamp of the current thread (0 while unset).
    pub fn get_task_starting_time(&self) -> (r: usize)
        requires
            self.wf(),
        ensures
            r == self.tasks@[self.current_task as int].starting_time,
    {
        self.tasks[self.current_task].starting_time
    }

    /// A copy of the current thread's per-syscall invocation counters.
    pub fn get_task_syscall_time(&self) -> (r: Vec<u32>)
        requires
            self.wf(),
        ensures
            r@ == self.tasks@[self.current_task as int].syscall_times@,
    {
        let t = &self.tasks[self.current_task];
        let n = t.syscall_times.len();
        let mut out: Vec<u32> = Vec::new();
        let mut i: usize = 0;
        while i < n
            invariant
                n == t.syscall_times@.len(),
                i <= n,
                out@ == t.syscall_times@.take(i as int),
            decreases n - i,
        {
            out.push(t.syscall_times[i]);
            proof {
                assert(out@ =~= t.syscall_times@.take(i + 1));
            }
            i += 1;
        }
        proof {
            assert(t.syscall_times@.take(n as int) =~= t.syscall_times@);
        }
        out
    }

    /// Move the current thread's program break by `size` bytes.  Returns the
    /// old break on success; refuses a move below the heap bottom or outside
    /// the address width.
    pub fn change_current_program_brk(&mut self, size: i32) -> (r: Option<usize>)
        requires
            old(self).wf(),
        ensures
            final(self).wf(),
            final(self).num_app == old(self).num_app,
            final(self).current_task == old(self).current_task,
            ({
                let cur = old(self).current_task as int;
                let old_brk = old(self).tasks@[cur].program_brk as int;
                let new_brk = old_brk + size as int;
                let legal = old(self).tasks@[cur].heap_bottom <= new_brk <= usize::MAX;
                match r {
                    Some(b) => legal && b == old_brk && final(self).tasks@ == old(
                        self,
                    ).tasks@.update(
                        cur,
                        (TaskControlBlock {
                            program_brk: (old_brk + size as int) as usize,
                            ..old(self).tasks@[cur]
                        }),
                    ),
                    None => !legal && *final(self) == *old(self),
                }
            }),
    {
        let cur = self.current_task;
        let old_brk = self.tasks[cur].program_brk;
        let new_brk: i128 = old_brk as i128 + size as i128;
        if new_brk < self.tasks[cur].heap_bottom as i128 || new_brk > usize::MAX as i128 {
            return None;
        }
        let t = &mut self.tasks[cur];
        t.program_brk = new_brk as usize;
        Some(old_brk)
    }

    /// Map the byte range `[start, start + len)` for the current thread.
    /// Refuses a misaligned start, a malformed permission word, or a range
    /// with any page already mapped; a refusal leaves the manager unchanged.
    pub fn mmap(&mut self, start: usize, len: usize, port: usize) -> (r: isize)
        requires
            old(self).wf(),
            start + len <= usize::MAX,
        ensures
            final(self).wf(),
            mmap_post(*old(self), *final(self), r, start, len, port),
    {
        if start % PAGE_SIZE != 0 || port & !0x7 != 0 || port & 0x7 == 0 {
            return -1;
        }
        let end = start + len;
        let lo = start / PAGE_SIZE;
        let hi = end / PAGE_SIZE + (if end % PAGE_SIZE != 0 { 1 } else { 0 });
        proof {
            assert(hi == end_vpn_of(start as int + len));
            assert(lo <= hi);
        }
        let perm: u8 = ((port as u8) << 1) | 0x10;
        let cur = self.current_task;
        let ghost m = self.tasks@[cur as int].memory_set.mapping();

        let mut vpn = lo;
        while vpn < hi
            invariant
                self.wf(),
                *self == *old(self),
                cur == self.current_task,
                m == self.tasks@[cur as int].memory_set.mapping(),
                lo == start_vpn_of(start as int),
                hi == end_vpn_of(start as int + len),
                mmap_params_ok(start, port),
                lo <= vpn <= hi,
                forall|p: int| lo <= p < vpn ==> !(#[trigger] m.dom().contains(p)),
            decreases hi - vpn,
        {
            if self.tasks[cur].memory_set.translate(vpn).is_some() {
                return -1;
            }
            vpn += 1;
        }

        proof {
            assert_maps_equal!(after_mmap(m, lo as int, lo as int, perm), m);
        }
        let mut vpn = lo;
        while vpn < hi
            invariant
                self.wf(),
                self.num_app == old(self).num_app,
                self.tasks@.len() == old(self).tasks@.len(),
                cur == self.current_task == old(self).current_task,
                cur < self.tasks@.len(),
                lo <= vpn <= hi,
                perm == perm_of_port(port),
                m == old(self).tasks@[cur as int].memory_set.mapping(),
                range_free(m, lo as int, hi as int),
                forall|t: int|
                    0 <= t < self.tasks@.len() && t != cur ==> self.tasks@[t] == old(
                        self,
                    ).tasks@[t],
                self.tasks@[cur as int].task_status == old(self).tasks@[cur as int].task_status,
                self.tasks@[cur as int].starting_time == old(
                    self,
                ).tasks@[cur as int].starting_time,
                self.tasks@[cur as int].syscall_times@ == old(
                    self,
                ).tasks@[cur as int].syscall_times@,
                self.tasks@[cur as int].heap_bottom == old(self).tasks@[cur as int].heap_bottom,
                self.tasks@[cur as int].program_brk == old(self).tasks@[cur as int].program_brk,
                self.tasks@[cur as int].memory_set.mapping() == after_mmap(
                    m,
                    lo as int,
                    vpn as int,
                    perm,
                ),
            decreases hi - vpn,
        {
            let t = &mut self.tasks[cur];
            t.memory_set.insert(vpn, perm);
            proof {
                assert_maps_equal!(
                    after_mmap(m, lo as int, vpn as int, perm).insert(vpn as int, perm),
                    after_mmap(m, lo as int, vpn as int + 1, perm)
                );
            }
            vpn += 1;
        }
        0
    }

    /// Unmap the byte range `[start, start + len)` for the current thread.
    /// Refuses a misaligned start or a range with any page not currently
    /// mapped; a refusal leaves the manager unchanged.
    pub fn munmap(&mut self, start: usize, len: usize) -> (r: isize)
        requires
            old(self).wf(),
            start + len <= usize::MAX,
        ensures
            final(self).wf(),
            munmap_post(*old(self), *final(self), r, start, len),
    {
        if start % PAGE_SIZE != 0 {
            return -1;
        }
        let end = start + len;
        let lo = start / PAGE_SIZE;
        let hi = end / PAGE_SIZE + (if end % PAGE_SIZE != 0 { 1 } else { 0 });
        proof {
            assert(hi == end_vpn_of(start as int + len));
            assert(lo <= hi);
        }
        let cur = self.current_task;
        let ghost m = self.tasks@[cur as int].memory_set.mapping();

        let mut vpn = lo;
        while vpn < hi
            invariant
                self.wf(),
                *self == *old(self),
                cur == self.current_task,
                m == self.tasks@[cur as int].memory_set.mapping(),
                lo == start_vpn_of(start as int),
                hi == end_vpn_of(start as int + len),
                start % PAGE_SIZE == 0,
                lo <= vpn <= hi,
                forall|p: int| lo <= p < vpn ==> #[trigger] m.dom().contains(p),
            decreases hi - vpn,
        {
            if self.tasks[cur].memory_set.translate(vpn).is_none() {
                return -1;
            }
            vpn += 1;
        }

        proof {
            assert_maps_equal!(after_munmap(m, lo as int, lo as int), m);
        }
        let mut vpn = lo;
        while vpn < hi
            invariant
                self.wf(),
                self.num_app == old(self).num_app,
                self.tasks@.len() == old(self).tasks@.len(),
                cur == self.current_task == old(self).current_task,
                cur < self.tasks@.len(),
                lo <= vpn <= hi,
                m == old(self).tasks@[cur as int].memory_set.mapping(),
                range_mapped(m, lo as int, hi as int),
                forall|t: int|
                    0 <= t < self.tasks@.len() && t != cur ==> self.tasks@[t] == old(
                        self,
                    ).tasks@[t],
                self.tasks@[cur as int].task_status == old(self).tasks@[cur as int].task_status,
                self.tasks@[cur as int].starting_time == old(
                    self,
                ).tasks@[cur as int].starting_time,
                self.tasks@[cur as int].syscall_times@ == old(
                    self,
                ).tasks@[cur as int].syscall_times@,
                self.tasks@[cur as int].heap_bottom == old(self).tasks@[cur as int].heap_bottom,
                self.tasks@[cur as int].program_brk == old(self).tasks@[cur as int].program_brk,
                self.tasks@[cur as int].memory_set.mapping() == after_munmap(
                    m,
                    lo as int,
                    vpn as int,
                ),
            decreases hi - vpn,
        {
            let t = &mut self.tasks[cur];
            t.memory_set.unmap(vpn);
            proof {
                assert_maps_equal!(
                    after_munmap(m, lo as int, vpn as int).remove(vpn as int),
                    after_munmap(m, lo as int, vpn as int + 1)
                );
            }
            vpn += 1;
        }
        0
    }
}


/// Round-robin fairness: when every thread is Ready, the scan settles on the
/// thread right after the current one, cyclically.  Successive turns step
/// through distinct successors, so N turns visit every thread exactly once
/// before any repeats.
pub proof fn lemma_round_robin_all_ready(tasks: Seq<TaskControlBlock>, current: int, n: int)
    requires
        n >= 1,
        0 <= current < n,
        tasks.len() == n,
        forall|t: int| 0 <= t < n ==> (#[trigger] tasks[t]).task_status == TaskStatus::Ready,
    ensures
        next_ready(tasks, current, n, 1) == Some((current + 1) % n),
        forall|a: int, b: int| 0 <= a < b < n ==> #[trigger] ((a + 1) % n) != #[trigger] ((b + 1) % n),
{
    assert(0 <= (current + 1) % n < n);
    assert forall|a: int, b: int| 0 <= a < b < n implies #[trigger] ((a + 1) % n) != #[trigger] ((b + 1) % n) by {
        lemma_small_mod((a + 1) as nat, n as nat);
        if b == n - 1 {
            lemma_mod_self_0(n);
        } else {
            lemma_small_mod((b + 1) as nat, n as nat);
        }
    }
}

} // verus!
