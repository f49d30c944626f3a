//! Banker's-Algorithm deadlock detector over fixed-size matrices.
//!
//! The detector keeps, per thread and per resource kind, the outstanding
//! requested units (`need_matrix`), the units currently held (`used_matrix`),
//! and the free units per resource kind (`available_vector`).  `check` decides
//! whether the recorded state is safe: whether some ordering lets every thread
//! finish, each finished thread returning its held units to the pool.

use vstd::prelude::*;
use vstd::assert_seqs_equal;
use vstd::assert_sets_equal;
use vstd::set_lib::set_int_range;
use vstd::set_lib::lemma_int_range;

verus! {

broadcast use vstd::set::group_set_axioms;

/// Hard capacity of a detector instance: threads it can track.
pub const MAX_THREADS: usize = 10;

/// Hard capacity of a detector instance: resource kinds it can track.
pub const MAX_RESOURCES: usize = 50;

/// Resource-allocation state examined by the Banker's Algorithm.
pub struct DeadlockChecker {
    /// `need_matrix[t][r]`: units of resource `r` thread `t` has requested
    /// and not yet been granted.
    pub need_matrix: Vec<Vec<u32>>,
    /// `available_vector[r]`: free units of resource `r`.
    pub available_vector: Vec<u32>,
    /// `used_matrix[t][r]`: units of resource `r` thread `t` currently holds.
    pub used_matrix: Vec<Vec<u32>>,
}

/// Does row `need_row` fit under `work` on the first `n_res` resource kinds?
/// (The thread's outstanding need can be satisfied from the `work` pool.)
pub open spec fn row_fits(need_row: Seq<u32>, work: Seq<nat>, n_res: int) -> bool {
    forall|j: int| 0 <= j < n_res ==> #[trigger] need_row[j] as nat <= work[j]
}

/// The pool after a thread finishes and returns its held units.
pub open spec fn add_used(work: Seq<nat>, used_row: Seq<u32>) -> Seq<nat> {
    Seq::new(work.len(), |j: int| work[j] + used_row[j] as nat)
}

/// Safety of a partially simulated state: every thread in `pending` can
/// still finish, in some order, starting from pool `work`.
pub open spec fn safe_from(
    need: Seq<Seq<u32>>,
    used: Seq<Seq<u32>>,
    work: Seq<nat>,
    pending: Set<int>,
    n_res: int,
) -> bool
    decreases pending.len() when pending.finite()
{
    pending.is_empty() || exists|t: int|
        #[trigger] pending.contains(t) && row_fits(need[t], work, n_res) && safe_from(
            need,
            used,
            add_used(work, used[t]),
            pending.remove(t),
            n_res,
        )
}

/// The first `n_res` entries of `avail`, as mathematical naturals.
pub open spec fn initial_work(avail: Seq<u32>, n_res: int) -> Seq<nat> {
    Seq::new(n_res as nat, |j: int| avail[j] as nat)
}

/// Safety of a full detector state for `n_threads` threads and `n_res`
/// resource kinds: there is an order in which all threads can finish.
pub open spec fn is_safe(
    need: Seq<Seq<u32>>,
    used: Seq<Seq<u32>>,
    avail: Seq<u32>,
    n_threads: int,
    n_res: int,
) -> bool {
    safe_from(
        need,
        used,
        initial_work(avail, n_res),
        vstd::set_lib::set_int_range(0, n_threads),
        n_res,
    )
}

/// Units of resource `r` held over threads `0..t` of `used`.
pub open spec fn col_sum(used: Seq<Seq<u32>>, r: int, t: int) -> nat
    decreases t,
{
    if t <= 0 {
        0
    } else {
        col_sum(used, r, t - 1) + used[t - 1][r] as nat
    }
}

/// Units of resource `r` accounted for in a committed state: free units plus
/// units held across all threads.  Every committed transition preserves this
/// quantity, except resource registration, which raises it.
pub open spec fn total_units(
    used: Seq<Seq<u32>>,
    avail: Seq<u32>,
    r: int,
) -> nat {
    avail[r] as nat + col_sum(used, r, MAX_THREADS as int)
}

impl DeadlockChecker {
    /// Shape invariant: fixed 10 x 50 matrices.
    pub open spec fn wf(self) -> bool {
        &&& self.need_matrix@.len() == MAX_THREADS
        &&& forall|t: int|
            0 <= t < MAX_THREADS ==> (#[trigger] self.need_matrix@[t])@.len() == MAX_RESOURCES
        &&& self.used_matrix@.len() == MAX_THREADS
        &&& forall|t: int|
            0 <= t < MAX_THREADS ==> (#[trigger] self.used_matrix@[t])@.len() == MAX_RESOURCES
        &&& self.available_vector@.len() == MAX_RESOURCES
    }

    /// The need matrix as a sequence of rows.
    pub open spec fn need(self) -> Seq<Seq<u32>> {
        self.need_matrix@.map_values(|v: Vec<u32>| v@)
    }

    /// The used matrix as a sequence of rows.
    pub open spec fn used(self) -> Seq<Seq<u32>> {
        self.used_matrix@.map_values(|v: Vec<u32>| v@)
    }

    /// The available vector as a sequence.
    pub open spec fn available(self) -> Seq<u32> {
        self.available_vector@
    }

    /// A fresh detector: all counts zero.
    pub fn new() -> (r: Self)
        ensures
            r.wf(),
            forall|t: int, j: int|
                0 <= t < MAX_THREADS && 0 <= j < MAX_RESOURCES ==> #[trigger] r.need()[t][j] == 0,
            forall|t: int, j: int|
                0 <= t < MAX_THREADS && 0 <= j < MAX_RESOURCES ==> #[trigger] r.used()[t][j] == 0,
            forall|j: int| 0 <= j < MAX_RESOURCES ==> #[trigger] r.available()[j] == 0,
    {
        let need_matrix = zero_matrix();
        let used_matrix = zero_matrix();
        let available_vector = zero_row();
        DeadlockChecker { need_matrix, available_vector, used_matrix }
    }

    /// Register `num` newly created units of resource `res_id`: the free pool
    /// grows by `num`, and so does the resource's accounted total.
    pub fn add_res(&mut self, res_id: usize, num: usize)
        requires
            old(self).wf(),
            res_id < MAX_RESOURCES,
            old(self).available()[res_id as int] + num <= u32::MAX,
        ensures
            final(self).wf(),
            final(self).available() == old(self).available().update(
                res_id as int,
                (old(self).available()[res_id as int] + num) as u32,
            ),
            final(self).need() == old(self).need(),
            final(self).used() == old(self).used(),
            total_units(final(self).used(), final(self).available(), res_id as int)
                == total_units(old(self).used(), old(self).available(), res_id as int) + num,
            forall|r: int|
                0 <= r < MAX_RESOURCES && r != res_id
                    ==> total_units(final(self).used(), final(self).available(), r)
                        == total_units(old(self).used(), old(self).available(), r),
    {
        let v = self.available_vector[res_id] + num as u32;
        self.available_vector.set(res_id, v);
    }

    /// Return one held unit of resource `res_id` from thread `tid` to the
    /// free pool.  The caller guarantees the thread actually holds a unit;
    /// the resource's accounted total is preserved.
    pub fn recycle_res(&mut self, tid: usize, res_id: usize)
        requires
            old(self).wf(),
            tid < MAX_THREADS,
            res_id < MAX_RESOURCES,
            old(self).used()[tid as int][res_id as int] > 0,
            old(self).available()[res_id as int] < u32::MAX,
        ensures
            final(self).wf(),
            final(self).available() == old(self).available().update(
                res_id as int,
                (old(self).available()[res_id as int] + 1) as u32,
            ),
            final(self).used() == old(self).used().update(
                tid as int,
                old(self).used()[tid as int].update(
                    res_id as int,
                    (old(self).used()[tid as int][res_id as int] - 1) as u32,
                ),
            ),
            final(self).need() == old(self).need(),
            forall|r: int|
                0 <= r < MAX_RESOURCES
                    ==> total_units(final(self).used(), final(self).available(), r)
                        == total_units(old(self).used(), old(self).available(), r),
    {
        let a = self.available_vector[res_id] + 1;
        self.available_vector.set(res_id, a);
        let row = &self.used_matrix[tid];
        let u = row[res_id] - 1;
        matrix_set(&mut self.used_matrix, tid, res_id, u);
        proof {
            let pre = old(self).used();
            let post = self.used();
            assert forall|r: int| 0 <= r < MAX_RESOURCES implies total_units(
                post,
                self.available(),
                r,
            ) == total_units(pre, old(self).available(), r) by {
                lemma_col_sum_update(
                    pre,
                    r,
                    MAX_THREADS as int,
                    tid as int,
                    pre[tid as int].update(res_id as int, u),
                );
            }
        }
    }

    /// Record a speculative request: thread `tid` asks for one more unit of
    /// resource `res_id`.  Only the need matrix changes; nothing is granted.
    pub fn record_request(&mut self, tid: usize, res_id: usize)
        requires
            old(self).wf(),
            tid < MAX_THREADS,
            res_id < MAX_RESOURCES,
            old(self).need()[tid as int][res_id as int] < u32::MAX,
        ensures
            final(self).wf(),
            final(self).need() == old(self).need().update(
                tid as int,
                old(self).need()[tid as int].update(
                    res_id as int,
                    (old(self).need()[tid as int][res_id as int] + 1) as u32,
                ),
            ),
            final(self).used() == old(self).used(),
            final(self).available() == old(self).available(),
    {
        let row = &self.need_matrix[tid];
        let v = row[res_id] + 1;
        matrix_set(&mut self.need_matrix, tid, res_id, v);
    }

    /// Commit a granted request for thread `tid` on resource `res_id`: one
    /// unit moves from the free pool into the thread's holdings and the
    /// thread's outstanding need drops by one.  The resource's accounted
    /// total is preserved.
    pub fn commit_grant(&mut self, tid: usize, res_id: usize)
        requires
            old(self).wf(),
            tid < MAX_THREADS,
            res_id < MAX_RESOURCES,
            old(self).need()[tid as int][res_id as int] > 0,
            old(self).available()[res_id as int] > 0,
            old(self).used()[tid as int][res_id as int] < u32::MAX,
        ensures
            final(self).wf(),
            final(self).need() == old(self).need().update(
                tid as int,
                old(self).need()[tid as int].update(
                    res_id as int,
                    (old(self).need()[tid as int][res_id as int] - 1) as u32,
                ),
            ),
            final(self).available() == old(self).available().update(
                res_id as int,
                (old(self).available()[res_id as int] - 1) as u32,
            ),
            final(self).used() == old(self).used().update(
                tid as int,
                old(self).used()[tid as int].update(
                    res_id as int,
                    (old(self).used()[tid as int][res_id as int] + 1) as u32,
                ),
            ),
            forall|r: int|
                0 <= r < MAX_RESOURCES
                    ==> total_units(final(self).used(), final(self).available(), r)
                        == total_units(old(self).used(), old(self).available(), r),
    {
        let nrow = &self.need_matrix[tid];
        let n = nrow[res_id] - 1;
        matrix_set(&mut self.need_matrix, tid, res_id, n);
        let a = self.available_vector[res_id] - 1;
        self.available_vector.set(res_id, a);
        let urow = &self.used_matrix[tid];
        let u = urow[res_id] + 1;
        matrix_set(&mut self.used_matrix, tid, res_id, u);
        proof {
            let pre = old(self).used();
            let post = self.used();
            assert forall|r: int| 0 <= r < MAX_RESOURCES implies total_units(
                post,
                self.available(),
                r,
            ) == total_units(pre, old(self).available(), r) by {
                lemma_col_sum_update(
                    pre,
                    r,
                    MAX_THREADS as int,
                    tid as int,
                    pre[tid as int].update(res_id as int, u),
                );
            }
        }
    }

    /// Banker's-Algorithm safety test over the first `thread_size` threads
    /// and `res_size` resource kinds.  Returns true iff the recorded state is
    /// safe: some ordering lets every examined thread satisfy its outstanding
    /// need and finish, each finished thread returning its held units.
    pub fn check(&self, thread_size: usize, res_size: usize) -> (r: bool)
        requires
            self.wf(),
            thread_size <= MAX_THREADS,
            res_size <= MAX_RESOURCES,
        ensures
            r == is_safe(
                self.need(),
                self.used(),
                self.available(),
                thread_size as int,
                res_size as int,
            ),
    {
        let ghost needv = self.need();
        let ghost usedv = self.used();
        let ghost availv = self.available();
        let ghost n_res = res_size as int;
        let ghost goal = is_safe(needv, usedv, availv, thread_size as int, n_res);

        let mut work: Vec<u64> = Vec::new();
        let mut j: usize = 0;
        while j < res_size
            invariant
                self.wf(),
                res_size <= MAX_RESOURCES,
                j <= res_size,
                work@.len() == j,
                forall|k: int| 0 <= k < j ==> work@[k] == self.available()[k] as u64,
            decreases res_size - j,
        {
            work.push(self.available_vector[j] as u64);
            j += 1;
        }

        let mut finish: Vec<bool> = Vec::new();
        let mut i: usize = 0;
        while i < thread_size
            invariant
                i <= thread_size,
                finish@.len() == i,
                forall|t: int| 0 <= t < i ==> !finish@[t],
            decreases thread_size - i,
        {
            finish.push(false);
            i += 1;
        }

        let ghost mut w: Seq<nat> = initial_work(availv, n_res);
        let ghost mut pending: Set<int> = pending_of(finish@, thread_size as int);
        proof {
            lemma_int_range(0, thread_size as int);
            assert_sets_equal!(pending == set_int_range(0, thread_size as int));
        }
        let mut n_finished: usize = 0;
        let mut done = false;

        while !done
            invariant
                self.wf(),
                thread_size <= MAX_THREADS,
                res_size <= MAX_RESOURCES,
                needv == self.need(),
                usedv == self.used(),
                n_res == res_size as int,
                finish@.len() == thread_size,
                work@.len() == res_size,
                w.len() == res_size,
                forall|k: int| 0 <= k < res_size ==> #[trigger] work@[k] as nat == w[k],
                forall|k: int|
                    0 <= k < res_size
                        ==> #[trigger] work@[k] as nat <= 0xFFFF_FFFF * (1 + n_finished as nat),
                pending == pending_of(finish@, thread_size as int),
                pending.finite(),
                pending.len() == thread_size - n_finished,
                n_finished <= thread_size,
                goal == safe_from(needv, usedv, w, pending, n_res),
                done ==> forall|t: int|
                    #[trigger] pending.contains(t) ==> !row_fits(needv[t], w, n_res),
            decreases thread_size - n_finished, (if done { 0int } else { 1int }),
        {
            // One full scan: find an unfinished thread whose need fits the pool.
            let mut selected: usize = thread_size;
            let mut i: usize = 0;
            while i < thread_size && selected == thread_size
                invariant
                    self.wf(),
                    thread_size <= MAX_THREADS,
                    res_size <= MAX_RESOURCES,
                    needv == self.need(),
                    n_res == res_size as int,
                    finish@.len() == thread_size,
                    work@.len() == res_size,
                    w.len() == res_size,
                    forall|k: int| 0 <= k < res_size ==> #[trigger] work@[k] as nat == w[k],
                    i <= thread_size,
                    selected == thread_size || (selected < thread_size
                        && !finish@[selected as int]
                        && row_fits(needv[selected as int], w, n_res)),
                    selected == thread_size ==> forall|t: int|
                        0 <= t < i ==> finish@[t] || !row_fits(needv[t], w, n_res),
                decreases thread_size - i, (if selected == thread_size { 1int } else { 0int }),
            {
                if !finish[i] {
                    let row = &self.need_matrix[i];
                    let mut fits = true;
                    let mut k: usize = 0;
                    while k < res_size && fits
                        invariant
                            self.wf(),
                            i < thread_size <= MAX_THREADS,
                            res_size <= MAX_RESOURCES,
                            needv == self.need(),
                            n_res == res_size as int,
                            row@ == needv[i as int],
                            row@.len() == MAX_RESOURCES,
                            work@.len() == res_size,
                            w.len() == res_size,
                            forall|kk: int|
                                0 <= kk < res_size ==> #[trigger] work@[kk] as nat == w[kk],
                            k <= res_size,
                            fits ==> forall|kk: int|
                                0 <= kk < k ==> #[trigger] needv[i as int][kk] as nat <= w[kk],
                            !fits ==> !row_fits(needv[i as int], w, n_res),
                        decreases res_size - k, (if fits { 1int } else { 0int }),
                    {
                        if row[k] as u64 > work[k] {
                            fits = false;
                        } else {
                            k += 1;
                        }
                    }
                    if fits {
                        proof {
                            assert(row_fits(needv[i as int], w, n_res));
                        }
                        selected = i;
                    } else {
                        i += 1;
                    }
                } else {
                    i += 1;
                }
            }

            if selected < thread_size {
                // Simulate the selected thread finishing: it returns its held
                // units to the pool and leaves the pending set.
                let ghost w_prev = w;
                let ghost pending_prev = pending;
                let row = &self.used_matrix[selected];
                let mut k: usize = 0;
                while k < res_size
                    invariant
                        self.wf(),
                        selected < thread_size <= MAX_THREADS,
                        res_size <= MAX_RESOURCES,
                        usedv == self.used(),
                        row@ == usedv[selected as int],
                        row@.len() == MAX_RESOURCES,
                        work@.len() == res_size,
                        w_prev.len() == res_size,
                        k <= res_size,
                        n_finished <= thread_size,
                        forall|kk: int|
                            0 <= kk < k
                                ==> #[trigger] work@[kk] as nat == w_prev[kk] + row@[kk] as nat,
                        forall|kk: int|
                            k <= kk < res_size ==> #[trigger] work@[kk] as nat == w_prev[kk],
                        forall|kk: int|
                            0 <= kk < k
                                ==> #[trigger] work@[kk] as nat <= 0xFFFF_FFFF * (2
                                    + n_finished as nat),
                        forall|kk: int|
                            k <= kk < res_size
                                ==> #[trigger] work@[kk] as nat <= 0xFFFF_FFFF * (1
                                    + n_finished as nat),
                    decreases res_size - k,
                {
                    let add = row[k] as u64;
                    let wk = work[k];
                    proof {
                        assert(wk as nat <= 0xFFFF_FFFF * (1 + n_finished as nat));
                        assert(1 + n_finished as nat <= 11);
                        assert(0xFFFF_FFFF * (1 + n_finished as nat) <= 0xFFFF_FFFF * 11nat);
                    }
                    work.set(k, wk + add);
                    k += 1;
                }
                finish.set(selected, true);
                n_finished += 1;
                proof {
                    w = add_used(w_prev, usedv[selected as int]);
                    assert(forall|kk: int|
                        0 <= kk < res_size ==> #[trigger] work@[kk] as nat == w[kk]);
                    pending = pending_prev.remove(selected as int);
                    assert(pending_prev.contains(selected as int));
                    assert_sets_equal!(pending == pending_of(finish@, thread_size as int));
                    if safe_from(needv, usedv, w_prev, pending_prev, n_res) {
                        lemma_safe_exchange(
                            needv,
                            usedv,
                            w_prev,
                            pending_prev,
                            selected as int,
                            n_res,
                        );
                    }
                    if safe_from(needv, usedv, w, pending, n_res) {
                        assert(pending_prev.contains(selected as int) && row_fits(
                            needv[selected as int],
                            w_prev,
                            n_res,
                        ) && safe_from(
                            needv,
                            usedv,
                            add_used(w_prev, usedv[selected as int]),
                            pending_prev.remove(selected as int),
                            n_res,
                        ));
                        assert(safe_from(needv, usedv, w_prev, pending_prev, n_res));
                    }
                }
            } else {
                done = true;
            }
        }

        // The scan found no eligible thread: the state is safe iff every
        // thread has already finished.
        let mut all = true;
        let mut i2: usize = 0;
        while i2 < thread_size
            invariant
                i2 <= thread_size,
                finish@.len() == thread_size,
                all <==> (forall|t: int| 0 <= t < i2 ==> finish@[t]),
            decreases thread_size - i2,
        {
            if !finish[i2] {
                all = false;
            }
            i2 += 1;
        }
        proof {
            if all {
                assert_sets_equal!(pending == Set::empty());
                assert(safe_from(needv, usedv, w, pending, n_res));
            } else {
                let t = choose|t: int| 0 <= t < thread_size && !(#[trigger] finish@[t]);
                assert(pending.contains(t));
                if safe_from(needv, usedv, w, pending, n_res) {
                    let u = choose|u: int|
                        #[trigger] pending.contains(u) && row_fits(needv[u], w, n_res)
                            && safe_from(
                            needv,
                            usedv,
                            add_used(w, usedv[u]),
                            pending.remove(u),
                            n_res,
                        );
                    assert(false);
                }
            }
        }
        all
    }
}

/// Column sums change only through the updated row: replacing row `tid`
/// swaps that row's contribution in every column total.
proof fn lemma_col_sum_update(used: Seq<Seq<u32>>, r: int, t: int, tid: int, row: Seq<u32>)
    requires
        0 <= tid < used.len(),
        t <= used.len(),
    ensures
        tid < t ==> col_sum(used.update(tid, row), r, t)
            == col_sum(used, r, t) - used[tid][r] + row[r],
        t <= tid ==> col_sum(used.update(tid, row), r, t) == col_sum(used, r, t),
    decreases t,
{
    if t > 0 {
        lemma_col_sum_update(used, r, t - 1, tid, row);
    }
}

/// Write one cell of a matrix held as a vector of rows.
fn matrix_set(m: &mut Vec<Vec<u32>>, t: usize, j: usize, v: u32)
    requires
        t < old(m)@.len(),
        j < old(m)@[t as int]@.len(),
    ensures
        final(m)@.len() == old(m)@.len(),
        forall|i: int|
            0 <= i < old(m)@.len() ==> (#[trigger] final(m)@[i])@.len() == old(m)@[i]@.len(),
        final(m)@.map_values(|row: Vec<u32>| row@) == old(m)@.map_values(|row: Vec<u32>| row@)
            .update(t as int, old(m)@[t as int]@.update(j as int, v)),
{
    let row = &mut m[t];
    row.set(j, v);
    proof {
        assert forall|i: int|
            0 <= i < old(m)@.len() implies (#[trigger] m@[i])@.len() == old(m)@[i]@.len() by {
            if i != t {
                assert(m@[i] == old(m)@[i]);
            }
        }
        assert_seqs_equal!(
            m@.map_values(|row: Vec<u32>| row@)
                == old(m)@.map_values(|row: Vec<u32>| row@)
                    .update(t as int, old(m)@[t as int]@.update(j as int, v))
        );
    }
}

/// The exchange step behind the greedy Banker's scan: if the state is safe
/// and thread `t`'s need fits the pool now, then finishing `t` first keeps
/// the remaining threads safe.  Any eligible thread may be granted first.
proof fn lemma_safe_exchange(
    need: Seq<Seq<u32>>,
    used: Seq<Seq<u32>>,
    work: Seq<nat>,
    pending: Set<int>,
    t: int,
    n_res: int,
)
    requires
        pending.finite(),
        pending.contains(t),
        n_res <= work.len(),
        row_fits(need[t], work, n_res),
        safe_from(need, used, work, pending, n_res),
    ensures
        safe_from(need, used, add_used(work, used[t]), pending.remove(t), n_res),
    decreases pending.len(),
{
    let u = choose|u: int|
        #[trigger] pending.contains(u) && row_fits(need[u], work, n_res) && safe_from(
            need,
            used,
            add_used(work, used[u]),
            pending.remove(u),
            n_res,
        );
    if u != t {
        assert(row_fits(need[t], add_used(work, used[u]), n_res));
        assert(pending.remove(u).contains(t));
        lemma_safe_exchange(need, used, add_used(work, used[u]), pending.remove(u), t, n_res);
        assert_seqs_equal!(
            add_used(add_used(work, used[u]), used[t])
                == add_used(add_used(work, used[t]), used[u])
        );
        assert_sets_equal!(pending.remove(u).remove(t) == pending.remove(t).remove(u));
        assert(pending.remove(t).contains(u));
        assert(row_fits(need[u], add_used(work, used[t]), n_res));
        assert(safe_from(
            need,
            used,
            add_used(add_used(work, used[t]), used[u]),
            pending.remove(t).remove(u),
            n_res,
        ));
    }
}

/// Threads with no outstanding need can always all finish, whatever the pool
/// holds.
proof fn lemma_zero_need_safe(
    need: Seq<Seq<u32>>,
    used: Seq<Seq<u32>>,
    work: Seq<nat>,
    pending: Set<int>,
    n_res: int,
)
    requires
        pending.finite(),
        forall|t: int, j: int|
            pending.contains(t) && 0 <= j < n_res ==> #[trigger] need[t][j] == 0,
    ensures
        safe_from(need, used, work, pending, n_res),
    decreases pending.len(),
{
    if !pending.is_empty() {
        let t = pending.choose();
        assert(pending.contains(t));
        assert(row_fits(need[t], work, n_res));
        lemma_zero_need_safe(need, used, add_used(work, used[t]), pending.remove(t), n_res);
    }
}

/// A detector state whose need matrix is all zero on the examined window is
/// always safe, regardless of what is available or held.
pub proof fn lemma_check_zero_need(
    need: Seq<Seq<u32>>,
    used: Seq<Seq<u32>>,
    avail: Seq<u32>,
    n_threads: int,
    n_res: int,
)
    requires
        0 <= n_threads,
        forall|t: int, j: int|
            0 <= t < n_threads && 0 <= j < n_res ==> #[trigger] need[t][j] == 0,
    ensures
        is_safe(need, used, avail, n_threads, n_res),
{
    lemma_int_range(0, n_threads);
    lemma_zero_need_safe(
        need,
        used,
        initial_work(avail, n_res),
        set_int_range(0, n_threads),
        n_res,
    );
}

/// The set of thread ids below `n` not yet marked finished.
spec fn pending_of(finish: Seq<bool>, n: int) -> Set<int> {
    Set::new(|t: int| 0 <= t < n && !finish[t])
}


/// Unit conservation: moving one unit between the free pool and a thread's
/// holdings -- as committing a grant does in one direction and recycling a
/// release does in the other -- preserves every resource's accounted total
/// `available[r] + sum of used[t][r]`.  Registration alone raises a total,
/// by exactly the units it registers, so chained over any sequence of
/// creates, grants and releases the total of a resource always equals its
/// registered units whenever no transition is half applied.
pub proof fn lemma_unit_conservation(
    used: Seq<Seq<u32>>,
    avail: Seq<u32>,
    tid: int,
    res_id: int,
    held_after: u32,
    avail_after: u32,
)
    requires
        used.len() == MAX_THREADS,
        forall|t: int| 0 <= t < MAX_THREADS ==> (#[trigger] used[t]).len() == MAX_RESOURCES,
        avail.len() == MAX_RESOURCES,
        0 <= tid < MAX_THREADS,
        0 <= res_id < MAX_RESOURCES,
        held_after + avail_after == used[tid][res_id] + avail[res_id],
    ensures
        forall|r: int|
            0 <= r < MAX_RESOURCES ==> total_units(
                used.update(tid, used[tid].update(res_id, held_after)),
                avail.update(res_id, avail_after),
                r,
            ) == total_units(used, avail, r),
{
    assert forall|r: int| 0 <= r < MAX_RESOURCES implies total_units(
        used.update(tid, used[tid].update(res_id, held_after)),
        avail.update(res_id, avail_after),
        r,
    ) == total_units(used, avail, r) by {
        lemma_col_sum_update(used, r, MAX_THREADS as int, tid, used[tid].update(res_id, held_after));
    }
}

/// A zeroed row of `MAX_RESOURCES` counts.
fn zero_row() -> (r: Vec<u32>)
    ensures
        r@.len() == MAX_RESOURCES,
        forall|j: int| 0 <= j < MAX_RESOURCES ==> r@[j] == 0,
{
    let mut row: Vec<u32> = Vec::new();
    let mut j: usize = 0;
    while j < MAX_RESOURCES
        invariant
            j <= MAX_RESOURCES,
            row@.len() == j,
            forall|k: int| 0 <= k < j ==> row@[k] == 0,
        decreases MAX_RESOURCES - j,
    {
        row.push(0);
        j += 1;
    }
    row
}

/// A zeroed `MAX_THREADS` x `MAX_RESOURCES` matrix.
fn zero_matrix() -> (r: Vec<Vec<u32>>)
    ensures
        r@.len() == MAX_THREADS,
        forall|t: int| 0 <= t < MAX_THREADS ==> (#[trigger] r@[t])@.len() == MAX_RESOURCES,
        forall|t: int, j: int|
            0 <= t < MAX_THREADS && 0 <= j < MAX_RESOURCES ==> #[trigger] r@[t]@[j] == 0,
{
    let mut m: Vec<Vec<u32>> = Vec::new();
    let mut t: usize = 0;
    while t < MAX_THREADS
        invariant
            t <= MAX_THREADS,
            m@.len() == t,
            forall|i: int| 0 <= i < t ==> (#[trigger] m@[i])@.len() == MAX_RESOURCES,
            forall|i: int, j: int|
                0 <= i < t && 0 <= j < MAX_RESOURCES ==> #[trigger] m@[i]@[j] == 0,
        decreases MAX_THREADS - t,
    {
        m.push(zero_row());
        t += 1;
    }
    m
}

} // verus!
