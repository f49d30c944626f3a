//! Synchronization-resource registry and the acquire/release coordination
//! protocol.
//!
//! A process owns three slot tables (mutexes, semaphores, condition
//! variables) and up to two deadlock detectors, one scoped to mutexes and one
//! to semaphores.  Acquisition records a speculative need and runs the
//! Banker's safety test before the caller may invoke the external blocking
//! primitive; the commit after the grant, and the recycle on release, keep
//! the detector's books.  A refused acquisition deliberately leaves the
//! speculative need in place, exactly as the protocol specifies.
//!
//! The blocking primitives themselves (lock/unlock, down/up, signal/wait)
//! are external collaborators: these functions decide and keep the books,
//! and their results tell the caller which primitive call to make next.

use vstd::prelude::*;
use crate::deadlock::DeadlockChecker;
use crate::deadlock::MAX_RESOURCES;
use crate::deadlock::MAX_THREADS;
use crate::deadlock::is_safe;
use crate::deadlock::total_units;
use crate::task::ScheduleAction;
use crate::task::TaskManager;
use crate::task::TaskStatus;
use crate::task::schedule_post;
use crate::task::with_status;

verus! {

/// Distinguished refusal code returned when granting an acquisition could
/// lead to deadlock; distinct from every ordinary error code.
pub const DEADLOCK_ERR: isize = -0xDEAD;

/// What a process keeps per created mutex.
#[derive(Clone, Copy, Debug, PartialEq, Eq, Structural)]
pub struct MutexDescriptor {
    /// Whether the external primitive blocks (or spins) on contention.
    pub blocking: bool,
}

/// What a process keeps per created semaphore.
#[derive(Clone, Copy, Debug, PartialEq, Eq, Structural)]
pub struct SemaphoreDescriptor {
    /// The unit count the semaphore was created with.
    pub initial_count: usize,
}

/// What a process keeps per created condition variable.
#[derive(Clone, Copy, Debug, PartialEq, Eq, Structural)]
pub struct CondvarDescriptor {
    /// Condition variables carry no parameters.
    pub present: bool,
}

/// The lowest empty slot of a table, or its length when every slot is full:
/// the handle the next creation of that resource kind receives.
pub open spec fn first_free<T>(l: Seq<Option<T>>) -> int
    decreases l.len(),
{
    if l.len() == 0 {
        0
    } else if l[0] is None {
        0
    } else {
        1 + first_free(l.drop_first())
    }
}

/// Handles are reused lowest-first: the next handle is an empty slot with
/// every lower slot full, and only a completely full table makes the handle
/// space grow.
pub proof fn lemma_first_free<T>(l: Seq<Option<T>>)
    ensures
        0 <= first_free(l) <= l.len(),
        forall|i: int| 0 <= i < first_free(l) ==> l[i] is Some,
        first_free(l) < l.len() ==> l[first_free(l)] is None,
    decreases l.len(),
{
    if l.len() > 0 && !(l[0] is None) {
        let l1 = l.drop_first();
        lemma_first_free(l1);
        assert(forall|i: int| 0 <= i < l1.len() ==> l1[i] == l[i + 1]);
        assert forall|i: int| 0 <= i < first_free(l) implies l[i] is Some by {
            if i > 0 {
                assert(l1[i - 1] is Some);
            }
        }
    }
}

/// How an acquisition request leaves the detector scoped to the requested
/// resource kind.  With no detector the request passes validation only; with
/// a detector, a well-bounded request records one speculative unit of need
/// and is granted exactly when the resulting state is safe.  A refusal keeps
/// the speculative need: repeated refused attempts accumulate, as the
/// protocol specifies.
pub open spec fn acquire_post(
    pre: Option<DeadlockChecker>,
    post: Option<DeadlockChecker>,
    r: isize,
    tid: usize,
    res_id: usize,
    valid_handle: bool,
    thread_count: usize,
    res_size: int,
) -> bool {
    if !valid_handle {
        r == -1 && post == pre
    } else {
        match pre {
            None => post is None && r == 0,
            Some(c) => {
                let bounds_ok = tid < thread_count && thread_count <= MAX_THREADS && res_size
                    <= MAX_RESOURCES && c.need()[tid as int][res_id as int] < u32::MAX;
                if !bounds_ok {
                    r == -1 && post == pre
                } else {
                    let need1 = c.need().update(
                        tid as int,
                        c.need()[tid as int].update(
                            res_id as int,
                            (c.need()[tid as int][res_id as int] + 1) as u32,
                        ),
                    );
                    &&& post matches Some(c1) && c1.wf() && c1.need() == need1 && c1.used()
                        == c.used() && c1.available() == c.available()
                    &&& (r == 0 <==> is_safe(
                        need1,
                        c.used(),
                        c.available(),
                        thread_count as int,
                        res_size,
                    ))
                    &&& (r == 0 || r == DEADLOCK_ERR)
                }
            },
        }
    }
}

/// How a release leaves the detector scoped to the released resource kind:
/// one held unit of the resource returns to the free pool, preserving the
/// resource's accounted total.  A release the books cannot support (nothing
/// held, or a full pool counter) is refused with no effect.
pub open spec fn release_post(
    pre: Option<DeadlockChecker>,
    post: Option<DeadlockChecker>,
    r: isize,
    tid: usize,
    res_id: usize,
    valid_handle: bool,
) -> bool {
    if !valid_handle {
        r == -1 && post == pre
    } else {
        match pre {
            None => post is None && r == 0,
            Some(c) => {
                let ok = tid < MAX_THREADS && res_id < MAX_RESOURCES && c.used()[tid as int][
                    res_id as int
                ] > 0 && c.available()[res_id as int] < u32::MAX;
                if !ok {
                    r == -1 && post == pre
                } else {
                    &&& r == 0
                    &&& post matches Some(c1) && c1.wf() && c1.need() == c.need() && c1.used()
                        == c.used().update(
                        tid as int,
                        c.used()[tid as int].update(
                            res_id as int,
                            (c.used()[tid as int][res_id as int] - 1) as u32,
                        ),
                    ) && c1.available() == c.available().update(
                        res_id as int,
                        (c.available()[res_id as int] + 1) as u32,
                    ) && (forall|rr: int|
                        0 <= rr < MAX_RESOURCES ==> #[trigger] total_units(
                            c1.used(),
                            c1.available(),
                            rr,
                        ) == total_units(c.used(), c.available(), rr))
                }
            },
        }
    }
}

/// How committing a granted acquisition leaves the detector: the speculative
/// need is consumed, one unit moves from the free pool into the thread's
/// holdings, and the resource's accounted total is preserved.
pub open spec fn commit_post(
    pre: Option<DeadlockChecker>,
    post: Option<DeadlockChecker>,
    tid: usize,
    res_id: usize,
) -> bool {
    match pre {
        None => post is None,
        Some(c) => post matches Some(c1) && c1.wf() && c1.need() == c.need().update(
            tid as int,
            c.need()[tid as int].update(
                res_id as int,
                (c.need()[tid as int][res_id as int] - 1) as u32,
            ),
        ) && c1.available() == c.available().update(
            res_id as int,
            (c.available()[res_id as int] - 1) as u32,
        ) && c1.used() == c.used().update(
            tid as int,
            c.used()[tid as int].update(
                res_id as int,
                (c.used()[tid as int][res_id as int] + 1) as u32,
            ),
        ) && (forall|rr: int|
            0 <= rr < MAX_RESOURCES ==> #[trigger] total_units(c1.used(), c1.available(), rr)
                == total_units(c.used(), c.available(), rr)),
    }
}

/// A just-created detector: every count in every matrix is zero.
pub open spec fn fresh_checker(c: DeadlockChecker) -> bool {
    &&& forall|t: int, j: int|
        0 <= t < MAX_THREADS && 0 <= j < MAX_RESOURCES ==> #[trigger] c.need()[t][j] == 0
    &&& forall|t: int, j: int|
        0 <= t < MAX_THREADS && 0 <= j < MAX_RESOURCES ==> #[trigger] c.used()[t][j] == 0
    &&& forall|j: int| 0 <= j < MAX_RESOURCES ==> #[trigger] c.available()[j] == 0
}

/// A process's synchronization state: the three slot tables and the optional
/// deadlock detectors.
pub struct ProcessSync {
    /// Number of threads in the process; indexes the detectors' matrices.
    pub thread_count: usize,
    /// Mutex slot table: handle to descriptor.
    pub mutex_list: Vec<Option<MutexDescriptor>>,
    /// Semaphore slot table: handle to descriptor.
    pub semaphore_list: Vec<Option<SemaphoreDescriptor>>,
    /// Condition-variable slot table: handle to descriptor.
    pub condvar_list: Vec<Option<CondvarDescriptor>>,
    /// Detector scoped to mutex resources, absent until enabled.
    pub mutex_checker: Option<DeadlockChecker>,
    /// Detector scoped to semaphore resources, absent until enabled.
    pub semaphore_checker: Option<DeadlockChecker>,
}

impl ProcessSync {
    /// Present detectors have their fixed matrix shape.
    pub open spec fn wf(self) -> bool {
        &&& (self.mutex_checker matches Some(c) ==> c.wf())
        &&& (self.semaphore_checker matches Some(c) ==> c.wf())
    }

    /// A fresh process: empty tables, no detectors.
    pub fn new(thread_count: usize) -> (r: Self)
        ensures
            r.wf(),
            r.thread_count == thread_count,
            r.mutex_list@.len() == 0,
            r.semaphore_list@.len() == 0,
            r.condvar_list@.len() == 0,
            r.mutex_checker is None,
            r.semaphore_checker is None,
    {
        ProcessSync {
            thread_count,
            mutex_list: Vec::new(),
            semaphore_list: Vec::new(),
            condvar_list: Vec::new(),
            mutex_checker: None,
            semaphore_checker: None,
        }
    }

    /// Create a mutex: fill the lowest empty mutex slot (growing the table
    /// only when full) and, if a mutex detector is attached, register the
    /// mutex's single unit.  With a detector attached, a handle beyond the
    /// detector's capacity, or a full unit counter, is refused unchanged.
    pub fn sys_mutex_create(&mut self, blocking: bool) -> (r: isize)
        requires
            old(self).wf(),
            old(self).mutex_list@.len() <= usize::MAX / 2,
        ensures
            final(self).wf(),
            final(self).thread_count == old(self).thread_count,
            final(self).semaphore_list == old(self).semaphore_list,
            final(self).condvar_list == old(self).condvar_list,
            final(self).semaphore_checker == old(self).semaphore_checker,
            ({
                let l = old(self).mutex_list@;
                let id = first_free(l);
                let refused = old(self).mutex_checker is Some && (id >= MAX_RESOURCES || (old(
                    self,
                ).mutex_checker matches Some(c) && c.available()[id] == u32::MAX));
                if refused {
                    r == -1 && *final(self) == *old(self)
                } else {
                    &&& r as int == id
                    &&& final(self).mutex_list@ == (if id < l.len() {
                        l.update(id, Some(MutexDescriptor { blocking }))
                    } else {
                        l.push(Some(MutexDescriptor { blocking }))
                    })
                    &&& match old(self).mutex_checker {
                        None => final(self).mutex_checker is None,
                        Some(c) => final(self).mutex_checker matches Some(c1) && c1.need()
                            == c.need() && c1.used() == c.used() && c1.available()
                            == c.available().update(id, (c.available()[id] + 1) as u32),
                    }
                }
            }),
    {
        let n = self.mutex_list.len();
        let mut id: usize = 0;
        let mut found = false;
        while !found && id < n
            invariant
                n == self.mutex_list@.len(),
                id <= n,
                forall|j: int| 0 <= j < id ==> (#[trigger] self.mutex_list@[j]) is Some,
                found ==> id < n && self.mutex_list@[id as int] is None,
            decreases n - id, (if found { 0int } else { 1int }),
        {
            if self.mutex_list[id].is_none() {
                found = true;
            } else {
                id += 1;
            }
        }
        proof {
            lemma_first_free(self.mutex_list@);
        }
        match &self.mutex_checker {
            Some(c) => {
                if id >= MAX_RESOURCES {
                    return -1;
                }
                if c.available_vector[id] == u32::MAX {
                    return -1;
                }
            },
            None => {},
        }
        if id < n {
            self.mutex_list.set(id, Some(MutexDescriptor { blocking }));
        } else {
            self.mutex_list.push(Some(MutexDescriptor { blocking }));
        }
        match &mut self.mutex_checker {
            Some(c) => {
                c.add_res(id, 1);
            },
            None => {},
        }
        id as isize
    }

    /// Request the lock of mutex `mutex_id` for thread `tid`: validate the
    /// handle, record the speculative need, and run the safety test.  Returns
    /// 0 when the caller may proceed to the external primitive's blocking
    /// lock, [`DEADLOCK_ERR`] when granting could deadlock (the speculative
    /// need stays recorded), and -1 for an invalid handle or a request the
    /// detector cannot track.
    pub fn sys_mutex_lock(&mut self, tid: usize, mutex_id: usize) -> (r: isize)
        requires
            old(self).wf(),
        ensures
            final(self).wf(),
            final(self).thread_count == old(self).thread_count,
            final(self).mutex_list == old(self).mutex_list,
            final(self).semaphore_list == old(self).semaphore_list,
            final(self).condvar_list == old(self).condvar_list,
            final(self).semaphore_checker == old(self).semaphore_checker,
            acquire_post(
                old(self).mutex_checker,
                final(self).mutex_checker,
                r,
                tid,
                mutex_id,
                mutex_id < old(self).mutex_list@.len() && old(self).mutex_list@[mutex_id as int]
                    is Some,
                old(self).thread_count,
                old(self).mutex_list@.len() as int,
            ),
    {
        if mutex_id >= self.mutex_list.len() {
            return -1;
        }
        if self.mutex_list[mutex_id].is_none() {
            return -1;
        }
        let thread_size = self.thread_count;
        let res_size = self.mutex_list.len();
        match &mut self.mutex_checker {
            Some(checker) => {
                if tid >= thread_size || thread_size > MAX_THREADS || res_size > MAX_RESOURCES {
                    return -1;
                }
                let row = &checker.need_matrix[tid];
                if row[mutex_id] == u32::MAX {
                    return -1;
                }
                checker.record_request(tid, mutex_id);
                if !checker.check(thread_size, res_size) {
                    return DEADLOCK_ERR;
                }
                0
            },
            None => 0,
        }
    }

    /// Commit a granted mutex lock after the external primitive returned:
    /// consume the speculative need and move the unit into `tid`'s holdings.
    /// The caller guarantees the books support the grant, which a preceding
    /// successful [`Self::sys_mutex_lock`] establishes.
    pub fn mutex_lock_commit(&mut self, tid: usize, mutex_id: usize)
        requires
            old(self).wf(),
            old(self).mutex_checker matches Some(c) ==> {
                &&& tid < MAX_THREADS
                &&& mutex_id < MAX_RESOURCES
                &&& c.need()[tid as int][mutex_id as int] > 0
                &&& c.available()[mutex_id as int] > 0
                &&& c.used()[tid as int][mutex_id as int] < u32::MAX
            },
        ensures
            final(self).wf(),
            final(self).thread_count == old(self).thread_count,
            final(self).mutex_list == old(self).mutex_list,
            final(self).semaphore_list == old(self).semaphore_list,
            final(self).condvar_list == old(self).condvar_list,
            final(self).semaphore_checker == old(self).semaphore_checker,
            commit_post(old(self).mutex_checker, final(self).mutex_checker, tid, mutex_id),
    {
        match &mut self.mutex_checker {
            Some(checker) => {
                checker.commit_grant(tid, mutex_id);
            },
            None => {},
        }
    }

    /// Release mutex `mutex_id` held by thread `tid`: recycle the unit into
    /// the free pool, then the caller invokes the external primitive's
    /// unlock.  A release the books cannot support is refused unchanged.
    pub fn sys_mutex_unlock(&mut self, tid: usize, mutex_id: usize) -> (r: isize)
        requires
            old(self).wf(),
        ensures
            final(self).wf(),
            final(self).thread_count == old(self).thread_count,
            final(self).mutex_list == old(self).mutex_list,
            final(self).semaphore_list == old(self).semaphore_list,
            final(self).condvar_list == old(self).condvar_list,
            final(self).semaphore_checker == old(self).semaphore_checker,
            release_post(
                old(self).mutex_checker,
                final(self).mutex_checker,
                r,
                tid,
                mutex_id,
                mutex_id < old(self).mutex_list@.len() && old(self).mutex_list@[mutex_id as int]
                    is Some,
            ),
    {
        if mutex_id >= self.mutex_list.len() {
            return -1;
        }
        if self.mutex_list[mutex_id].is_none() {
            return -1;
        }
        match &mut self.mutex_checker {
            Some(checker) => {
                if tid >= MAX_THREADS || mutex_id >= MAX_RESOURCES {
                    return -1;
                }
                let row = &checker.used_matrix[tid];
                if row[mutex_id] == 0 {
                    return -1;
                }
                if checker.available_vector[mutex_id] == u32::MAX {
                    return -1;
                }
                checker.recycle_res(tid, mutex_id);
                0
            },
            None => 0,
        }
    }

    /// Create a semaphore with `res_count` initial units: fill the lowest
    /// empty semaphore slot and, if a semaphore detector is attached,
    /// register the units.  With a detector attached, a handle beyond the
    /// detector's capacity, or units that would overflow its counter, is
    /// refused unchanged.
    pub fn sys_semaphore_create(&mut self, res_count: usize) -> (r: isize)
        requires
            old(self).wf(),
            old(self).semaphore_list@.len() <= usize::MAX / 2,
        ensures
            final(self).wf(),
            final(self).thread_count == old(self).thread_count,
            final(self).mutex_list == old(self).mutex_list,
            final(self).condvar_list == old(self).condvar_list,
            final(self).mutex_checker == old(self).mutex_checker,
            ({
                let l = old(self).semaphore_list@;
                let id = first_free(l);
                let refused = old(self).semaphore_checker is Some && (id >= MAX_RESOURCES || (old(
                    self,
                ).semaphore_checker matches Some(c) && c.available()[id] + res_count > u32::MAX));
                if refused {
                    r == -1 && *final(self) == *old(self)
                } else {
                    &&& r as int == id
                    &&& final(self).semaphore_list@ == (if id < l.len() {
                        l.update(id, Some(SemaphoreDescriptor { initial_count: res_count }))
                    } else {
                        l.push(Some(SemaphoreDescriptor { initial_count: res_count }))
                    })
                    &&& match old(self).semaphore_checker {
                        None => final(self).semaphore_checker is None,
                        Some(c) => final(self).semaphore_checker matches Some(c1) && c1.need()
                            == c.need() && c1.used() == c.used() && c1.available()
                            == c.available().update(id, (c.available()[id] + res_count) as u32),
                    }
                }
            }),
    {
        let n = self.semaphore_list.len();
        let mut id: usize = 0;
        let mut found = false;
        while !found && id < n
            invariant
                n == self.semaphore_list@.len(),
                id <= n,
                forall|j: int| 0 <= j < id ==> (#[trigger] self.semaphore_list@[j]) is Some,
                found ==> id < n && self.semaphore_list@[id as int] is None,
            decreases n - id, (if found { 0int } else { 1int }),
        {
            if self.semaphore_list[id].is_none() {
                found = true;
            } else {
                id += 1;
            }
        }
        proof {
            lemma_first_free(self.semaphore_list@);
        }
        match &self.semaphore_checker {
            Some(c) => {
                if id >= MAX_RESOURCES {
                    return -1;
                }
                if (c.available_vector[id] as u128) + (res_count as u128) > u32::MAX as u128 {
                    return -1;
                }
            },
            None => {},
        }
        if id < n {
            self.semaphore_list.set(id, Some(SemaphoreDescriptor { initial_count: res_count }));
        } else {
            self.semaphore_list.push(Some(SemaphoreDescriptor { initial_count: res_count }));
        }
        match &mut self.semaphore_checker {
            Some(c) => {
                c.add_res(id, res_count);
            },
            None => {},
        }
        id as isize
    }

    /// Request one unit of semaphore `sem_id` for thread `tid`: validate the
    /// handle, record the speculative need, and run the safety test.  Returns
    /// 0 when the caller may proceed to the external primitive's blocking
    /// down, [`DEADLOCK_ERR`] when granting could deadlock (the speculative
    /// need stays recorded), and -1 for an invalid handle or a request the
    /// detector cannot track.
    pub fn sys_semaphore_down(&mut self, tid: usize, sem_id: usize) -> (r: isize)
        requires
            old(self).wf(),
        ensures
            final(self).wf(),
            final(self).thread_count == old(self).thread_count,
            final(self).mutex_list == old(self).mutex_list,
            final(self).semaphore_list == old(self).semaphore_list,
            final(self).condvar_list == old(self).condvar_list,
            final(self).mutex_checker == old(self).mutex_checker,
            acquire_post(
                old(self).semaphore_checker,
                final(self).semaphore_checker,
                r,
                tid,
                sem_id,
                sem_id < old(self).semaphore_list@.len() && old(self).semaphore_list@[sem_id as int]
                    is Some,
                old(self).thread_count,
                old(self).semaphore_list@.len() as int,
            ),
    {
        if sem_id >= self.semaphore_list.len() {
            return -1;
        }
        if self.semaphore_list[sem_id].is_none() {
            return -1;
        }
        let thread_size = self.thread_count;
        let res_size = self.semaphore_list.len();
        match &mut self.semaphore_checker {
            Some(checker) => {
                if tid >= thread_size || thread_size > MAX_THREADS || res_size > MAX_RESOURCES {
                    return -1;
                }
                let row = &checker.need_matrix[tid];
                if row[sem_id] == u32::MAX {
                    return -1;
                }
                checker.record_request(tid, sem_id);
                if !checker.check(thread_size, res_size) {
                    return DEADLOCK_ERR;
                }
                0
            },
            None => 0,
        }
    }

    /// Commit a granted semaphore down after the external primitive
    /// returned: consume the speculative need and move one unit into `tid`'s
    /// holdings.  The caller guarantees the books support the grant, which a
    /// preceding successful [`Self::sys_semaphore_down`] establishes.
    pub fn semaphore_down_commit(&mut self, tid: usize, sem_id: usize)
        requires
            old(self).wf(),
            old(self).semaphore_checker matches Some(c) ==> {
                &&& tid < MAX_THREADS
                &&& sem_id < MAX_RESOURCES
                &&& c.need()[tid as int][sem_id as int] > 0
                &&& c.available()[sem_id as int] > 0
                &&& c.used()[tid as int][sem_id as int] < u32::MAX
            },
        ensures
            final(self).wf(),
            final(self).thread_count == old(self).thread_count,
            final(self).mutex_list == old(self).mutex_list,
            final(self).semaphore_list == old(self).semaphore_list,
            final(self).condvar_list == old(self).condvar_list,
            final(self).mutex_checker == old(self).mutex_checker,
            commit_post(old(self).semaphore_checker, final(self).semaphore_checker, tid, sem_id),
    {
        match &mut self.semaphore_checker {
            Some(checker) => {
                checker.commit_grant(tid, sem_id);
            },
            None => {},
        }
    }

    /// Release one unit of semaphore `sem_id` held by thread `tid`: recycle
    /// the unit into the free pool, then the caller invokes the external
    /// primitive's up.  A release the books cannot support is refused
    /// unchanged.
    pub fn sys_semaphore_up(&mut self, tid: usize, sem_id: usize) -> (r: isize)
        requires
            old(self).wf(),
        ensures
            final(self).wf(),
            final(self).thread_count == old(self).thread_count,
            final(self).mutex_list == old(self).mutex_list,
            final(self).semaphore_list == old(self).semaphore_list,
            final(self).condvar_list == old(self).condvar_list,
            final(self).mutex_checker == old(self).mutex_checker,
            release_post(
                old(self).semaphore_checker,
                final(self).semaphore_checker,
                r,
                tid,
                sem_id,
                sem_id < old(self).semaphore_list@.len() && old(self).semaphore_list@[sem_id as int]
                    is Some,
            ),
    {
        if sem_id >= self.semaphore_list.len() {
            return -1;
        }
        if self.semaphore_list[sem_id].is_none() {
            return -1;
        }
        match &mut self.semaphore_checker {
            Some(checker) => {
                if tid >= MAX_THREADS || sem_id >= MAX_RESOURCES {
                    return -1;
                }
                let row = &checker.used_matrix[tid];
                if row[sem_id] == 0 {
                    return -1;
                }
                if checker.available_vector[sem_id] == u32::MAX {
                    return -1;
                }
                checker.recycle_res(tid, sem_id);
                0
            },
            None => 0,
        }
    }

    /// Create a condition variable: fill the lowest empty condvar slot,
    /// growing the table only when full.  Condition variables are never
    /// deadlock-tracked.
    pub fn sys_condvar_create(&mut self) -> (r: isize)
        requires
            old(self).wf(),
            old(self).condvar_list@.len() <= usize::MAX / 2,
        ensures
            final(self).wf(),
            final(self).thread_count == old(self).thread_count,
            final(self).mutex_list == old(self).mutex_list,
            final(self).semaphore_list == old(self).semaphore_list,
            final(self).mutex_checker == old(self).mutex_checker,
            final(self).semaphore_checker == old(self).semaphore_checker,
            ({
                let l = old(self).condvar_list@;
                let id = first_free(l);
                &&& r as int == id
                &&& final(self).condvar_list@ == (if id < l.len() {
                    l.update(id, Some(CondvarDescriptor { present: true }))
                } else {
                    l.push(Some(CondvarDescriptor { present: true }))
                })
            }),
    {
        let n = self.condvar_list.len();
        let mut id: usize = 0;
        let mut found = false;
        while !found && id < n
            invariant
                n == self.condvar_list@.len(),
                id <= n,
                forall|j: int| 0 <= j < id ==> (#[trigger] self.condvar_list@[j]) is Some,
                found ==> id < n && self.condvar_list@[id as int] is None,
            decreases n - id, (if found { 0int } else { 1int }),
        {
            if self.condvar_list[id].is_none() {
                found = true;
            } else {
                id += 1;
            }
        }
        proof {
            lemma_first_free(self.condvar_list@);
        }
        if id < n {
            self.condvar_list.set(id, Some(CondvarDescriptor { present: true }));
        } else {
            self.condvar_list.push(Some(CondvarDescriptor { present: true }));
        }
        id as isize
    }

    /// Signal condition variable `condvar_id`: validate the handle, then the
    /// caller passes the signal to the external primitive.  No detector
    /// bookkeeping is involved.
    pub fn sys_condvar_signal(&self, condvar_id: usize) -> (r: isize)
        requires
            self.wf(),
        ensures
            r == 0 <==> (condvar_id < self.condvar_list@.len()
                && self.condvar_list@[condvar_id as int] is Some),
            r == 0 || r == -1,
    {
        if condvar_id >= self.condvar_list.len() {
            return -1;
        }
        if self.condvar_list[condvar_id].is_none() {
            return -1;
        }
        0
    }

    /// Wait on condition variable `condvar_id` with associated mutex
    /// `mutex_id`: validate both handles, then the caller hands both to the
    /// external primitive, which releases and reacquires the mutex around
    /// the wait.  No detector bookkeeping is involved.
    pub fn sys_condvar_wait(&self, condvar_id: usize, mutex_id: usize) -> (r: isize)
        requires
            self.wf(),
        ensures
            r == 0 <==> (condvar_id < self.condvar_list@.len()
                && self.condvar_list@[condvar_id as int] is Some && mutex_id
                < self.mutex_list@.len() && self.mutex_list@[mutex_id as int] is Some),
            r == 0 || r == -1,
    {
        if condvar_id >= self.condvar_list.len() {
            return -1;
        }
        if self.condvar_list[condvar_id].is_none() {
            return -1;
        }
        if mutex_id >= self.mutex_list.len() {
            return -1;
        }
        if self.mutex_list[mutex_id].is_none() {
            return -1;
        }
        0
    }

    /// Enable or disable deadlock detection for this process.  Only 0 and 1
    /// are legal arguments.  Disabling is a no-op success; enabling creates
    /// the mutex- and semaphore-scoped detectors where absent, and detectors,
    /// once created, persist for the process lifetime and are never reset.
    pub fn sys_enable_deadlock_detect(&mut self, enabled: usize) -> (r: isize)
        requires
            old(self).wf(),
        ensures
            final(self).wf(),
            final(self).thread_count == old(self).thread_count,
            final(self).mutex_list == old(self).mutex_list,
            final(self).semaphore_list == old(self).semaphore_list,
            final(self).condvar_list == old(self).condvar_list,
            enabled != 0 && enabled != 1 ==> r == -1 && *final(self) == *old(self),
            enabled == 0 ==> r == 0 && *final(self) == *old(self),
            enabled == 1 ==> {
                &&& r == 0
                &&& final(self).mutex_checker is Some
                &&& final(self).semaphore_checker is Some
                &&& (old(self).mutex_checker is Some ==> final(self).mutex_checker == old(
                    self,
                ).mutex_checker)
                &&& (old(self).semaphore_checker is Some ==> final(self).semaphore_checker == old(
                    self,
                ).semaphore_checker)
                &&& (old(self).mutex_checker is None
                    ==> (final(self).mutex_checker matches Some(c) && fresh_checker(c)))
                &&& (old(self).semaphore_checker is None
                    ==> (final(self).semaphore_checker matches Some(c) && fresh_checker(c)))
            },
    {
        if enabled != 0 && enabled != 1 {
            return -1;
        }
        if enabled == 0 {
            return 0;
        }
        if self.mutex_checker.is_none() {
            self.mutex_checker = Some(DeadlockChecker::new());
        }
        if self.semaphore_checker.is_none() {
            self.semaphore_checker = Some(DeadlockChecker::new());
        }
        0
    }
}

/// Put the current thread to sleep for `ms` milliseconds: it becomes Blocked,
/// the processor goes to the next Ready thread, and the returned deadline is
/// what the caller registers with the external timer, which wakes the thread.
pub fn sys_sleep(tm: &mut TaskManager, now_ms: usize, ms: usize) -> (r: (usize, ScheduleAction))
    requires
        old(tm).wf(),
        now_ms + ms <= usize::MAX,
    ensures
        final(tm).wf(),
        r.0 == now_ms + ms,
        schedule_post(
            with_status(old(tm).tasks@, old(tm).current_task as int, TaskStatus::Blocked),
            old(tm).current_task as int,
            old(tm).num_app as int,
            *final(tm),
            r.1,
            now_ms,
        ),
{
    let expire_ms = now_ms + ms;
    tm.mark_current_blocked();
    let action = tm.run_next_task(now_ms);
    (expire_ms, action)
}

} // verus!
