use vstd::prelude::*;
use crate::download_status::DownloadStatus;

verus! {

/// No job id occurs twice in `s`.
pub open spec fn no_dups(s: Seq<usize>) -> bool {
    forall|k1: int, k2: int| 0 <= k1 < k2 < s.len() ==> s[k1] != s[k2]
}

/// No job id occurs both in `a` and in `b`.
pub open spec fn disjoint_ids(a: Seq<usize>, b: Seq<usize>) -> bool {
    forall|k1: int, k2: int| 0 <= k1 < a.len() && 0 <= k2 < b.len() ==> a[k1] != b[k2]
}

/// Every id in `s` indexes a job.
pub open spec fn ids_in_range(s: Seq<usize>, n: int) -> bool {
    forall|k: int| 0 <= k < s.len() ==> (#[trigger] s[k]) < n
}

/// The scheduler: a FIFO queue of pending jobs, a bounded set of active
/// ones, and the parallelism limit.  One `tick` starts pending jobs up to
/// the limit, reaps finished ones, and, when the limit was lowered, pre-empts
/// active jobs from the tail back into the queue.  Job statuses stand in for
/// the jobs; the caller's runtime reports each job's progress through
/// `update_status`.
pub struct DownloadService {
    multi_thread: bool,
    worker_thread_count: usize,
    jobs: Vec<DownloadStatus>,
    queue: Vec<usize>,
    active: Vec<usize>,
    parallel_count: usize,
    stopped: bool,
}

impl DownloadService {
    pub closed spec fn spec_jobs(self) -> Seq<DownloadStatus> {
        self.jobs@
    }

    pub closed spec fn spec_queue(self) -> Seq<usize> {
        self.queue@
    }

    pub closed spec fn spec_active(self) -> Seq<usize> {
        self.active@
    }

    pub closed spec fn spec_parallel_count(self) -> usize {
        self.parallel_count
    }

    pub closed spec fn spec_stopped(self) -> bool {
        self.stopped
    }

    pub closed spec fn spec_multi_thread(self) -> bool {
        self.multi_thread
    }

    pub closed spec fn spec_worker_thread_count(self) -> usize {
        self.worker_thread_count
    }

    /// Queue and active set hold valid, distinct, non-overlapping job ids,
    /// and every job whose status is an active one sits in the active set.
    pub open spec fn wf(self) -> bool {
        &&& ids_in_range(self.spec_queue(), self.spec_jobs().len() as int)
        &&& ids_in_range(self.spec_active(), self.spec_jobs().len() as int)
        &&& no_dups(self.spec_queue())
        &&& no_dups(self.spec_active())
        &&& disjoint_ids(self.spec_queue(), self.spec_active())
        &&& forall|j: usize|
            j < self.spec_jobs().len() && (#[trigger] self.spec_jobs()[j as int]).is_active()
                ==> self.spec_active().contains(j)
    }

    /// An idle scheduler: no jobs, parallelism 32, one worker runtime.
    pub fn new() -> (r: Self)
        ensures
            r.spec_jobs().len() == 0,
            r.spec_queue().len() == 0,
            r.spec_active().len() == 0,
            r.spec_parallel_count() == 32,
            !r.spec_stopped(),
            !r.spec_multi_thread(),
            r.spec_worker_thread_count() == 4,
            r.wf(),
    {
        Self {
            multi_thread: false,
            worker_thread_count: 4,
            jobs: Vec::new(),
            queue: Vec::new(),
            active: Vec::new(),
            parallel_count: 32,
            stopped: false,
        }
    }

    pub fn set_multi_thread(self, multi_thread: bool) -> (r: DownloadService)
        ensures
            r.spec_multi_thread() == multi_thread,
            r.spec_worker_thread_count() == self.spec_worker_thread_count(),
            r.spec_jobs() == self.spec_jobs(),
            r.spec_queue() == self.spec_queue(),
            r.spec_active() == self.spec_active(),
            r.spec_parallel_count() == self.spec_parallel_count(),
            r.spec_stopped() == self.spec_stopped(),
            self.wf() ==> r.wf(),
    {
        let mut this = self;
        this.multi_thread = multi_thread;
        this
    }

    pub fn set_worker_thread_count(self, worker_thread_count: usize) -> (r: DownloadService)
        ensures
            r.spec_worker_thread_count() == worker_thread_count,
            r.spec_multi_thread() == self.spec_multi_thread(),
            r.spec_jobs() == self.spec_jobs(),
            r.spec_queue() == self.spec_queue(),
            r.spec_active() == self.spec_active(),
            r.spec_parallel_count() == self.spec_parallel_count(),
            r.spec_stopped() == self.spec_stopped(),
            self.wf() ==> r.wf(),
    {
        let mut this = self;
        this.worker_thread_count = worker_thread_count;
        this
    }

    /// Changes the parallelism limit; the next tick applies it.
    pub fn set_parallel_count(&mut self, parallel_count: usize)
        ensures
            final(self).spec_parallel_count() == parallel_count,
            final(self).spec_jobs() == old(self).spec_jobs(),
            final(self).spec_queue() == old(self).spec_queue(),
            final(self).spec_active() == old(self).spec_active(),
            final(self).spec_stopped() == old(self).spec_stopped(),
            old(self).wf() ==> final(self).wf(),
    {
        self.parallel_count = parallel_count;
    }

    /// Admits a new job in `Pending` at the queue tail; returns its id.
    pub fn add_downloader(&mut self) -> (id: usize)
        requires
            old(self).wf(),
            old(self).spec_jobs().len() < usize::MAX,
        ensures
            id == old(self).spec_jobs().len(),
            final(self).spec_jobs() == old(self).spec_jobs().push(DownloadStatus::Pending),
            final(self).spec_queue() == old(self).spec_queue().push(id),
            final(self).spec_active() == old(self).spec_active(),
            final(self).spec_parallel_count() == old(self).spec_parallel_count(),
            final(self).spec_stopped() == old(self).spec_stopped(),
            final(self).wf(),
    {
        let id = self.jobs.len();
        self.jobs.push(DownloadStatus::Pending);
        self.queue.push(id);
        proof {
            assert forall|j: usize|
                j < self.spec_jobs().len() && (#[trigger] self.spec_jobs()[j as int]).is_active()
                    implies self.spec_active().contains(j) by {
                assert(old(self).spec_jobs()[j as int].is_active());
            }
        }
        id
    }

    /// The caller's runtime reports a job's progress.  The report must be a
    /// step of the status chart (or no change), and may not move a job into
    /// an active state — only the scheduler starts jobs.
    pub fn update_status(&mut self, id: usize, status: DownloadStatus)
        requires
            old(self).wf(),
            id < old(self).spec_jobs().len(),
            status == old(self).spec_jobs()[id as int] || old(
                self,
            ).spec_jobs()[id as int].spec_transition_allowed(status),
            status.is_active() ==> old(self).spec_jobs()[id as int].is_active(),
        ensures
            final(self).spec_jobs() == old(self).spec_jobs().update(id as int, status),
            final(self).spec_queue() == old(self).spec_queue(),
            final(self).spec_active() == old(self).spec_active(),
            final(self).spec_parallel_count() == old(self).spec_parallel_count(),
            final(self).spec_stopped() == old(self).spec_stopped(),
            final(self).wf(),
    {
        self.jobs[id] = status;
        proof {
            assert forall|j: usize|
                j < self.spec_jobs().len() && (#[trigger] self.spec_jobs()[j as int]).is_active()
                    implies self.spec_active().contains(j) by {
                assert(old(self).spec_jobs()[j as int].is_active());
            }
        }
    }

    pub fn status_of(&self, id: usize) -> (r: DownloadStatus)
        requires
            id < self.spec_jobs().len(),
        ensures
            r == self.spec_jobs()[id as int],
    {
        self.jobs[id]
    }

    pub fn active_ids(&self) -> (r: &Vec<usize>)
        ensures
            r@ == self.spec_active(),
    {
        &self.active
    }

    /// The service-wide cancellation: the loop exits at the next tick.
    pub fn stop(&mut self)
        ensures
            final(self).spec_stopped(),
            final(self).spec_jobs() == old(self).spec_jobs(),
            final(self).spec_queue() == old(self).spec_queue(),
            final(self).spec_active() == old(self).spec_active(),
            final(self).spec_parallel_count() == old(self).spec_parallel_count(),
            old(self).wf() ==> final(self).wf(),
    {
        self.stopped = true;
    }

    /// The queue's head job is due to start on the next tick: there is room
    /// below the limit and it is still pending.
    pub open spec fn spec_start_due(self) -> bool {
        &&& self.spec_active().len() < self.spec_parallel_count()
        &&& self.spec_queue().len() > 0
        &&& self.spec_jobs()[self.spec_queue()[0] as int] == DownloadStatus::Pending
    }

    /// One scheduler turn: starts pending jobs from the queue head while
    /// below the parallelism limit (a queued job no longer pending is
    /// dropped), removes finished jobs from the active set, and, when the
    /// limit was lowered, pre-empts jobs from the active tail back into the
    /// queue through `Stop` and `Pending`.  The contract pins each step:
    /// a due queue head is started; no finished job stays active; within the
    /// limit, jobs only start (never demote); at or over the limit, jobs
    /// only demote (never start); and a lowered limit pre-empts exactly the
    /// jobs beyond it, from the tail.
    pub fn tick(&mut self)
        requires
            old(self).wf(),
        ensures
            final(self).wf(),
            final(self).spec_active().len() <= final(self).spec_parallel_count(),
            final(self).spec_parallel_count() == old(self).spec_parallel_count(),
            final(self).spec_stopped() == old(self).spec_stopped(),
            final(self).spec_jobs().len() == old(self).spec_jobs().len(),
            forall|j: int|
                0 <= j < old(self).spec_jobs().len() ==> {
                    let before = old(self).spec_jobs()[j];
                    let after = #[trigger] final(self).spec_jobs()[j];
                    ||| after == before
                    ||| (before == DownloadStatus::Pending && after == DownloadStatus::Head)
                    ||| (!before.is_terminal() && after == DownloadStatus::Pending)
                },
            // a due queue head is started
            old(self).spec_start_due() ==> final(self).spec_jobs()[old(self).spec_queue()[0] as int]
                == DownloadStatus::Head,
            // no finished job stays in the active set
            forall|m: int|
                0 <= m < final(self).spec_active().len() ==> !final(self).spec_jobs()[(
                #[trigger] final(self).spec_active()[m]) as int].is_terminal(),
            // within the limit, jobs only start, none is demoted
            old(self).spec_active().len() <= old(self).spec_parallel_count() ==> forall|j: int|
                0 <= j < old(self).spec_jobs().len() ==> {
                    let before = old(self).spec_jobs()[j];
                    let after = #[trigger] final(self).spec_jobs()[j];
                    after == before || (before == DownloadStatus::Pending && after
                        == DownloadStatus::Head)
                },
            // at or over the limit, no job is started, only demoted
            old(self).spec_active().len() >= old(self).spec_parallel_count() ==> forall|j: int|
                0 <= j < old(self).spec_jobs().len() ==> {
                    let before = old(self).spec_jobs()[j];
                    let after = #[trigger] final(self).spec_jobs()[j];
                    after == before || (!before.is_terminal() && after == DownloadStatus::Pending)
                },
            // a lowered limit pre-empts exactly the active tail beyond it
            (old(self).spec_active().len() > old(self).spec_parallel_count() && (forall|m: int|
                0 <= m < old(self).spec_active().len() ==> !old(self).spec_jobs()[(
                #[trigger] old(self).spec_active()[m]) as int].is_terminal())) ==> {
                &&& final(self).spec_active() == old(self).spec_active().take(
                    old(self).spec_parallel_count() as int,
                )
                &&& forall|m: int|
                    old(self).spec_parallel_count() <= m < old(self).spec_active().len()
                        ==> final(self).spec_jobs()[(#[trigger] old(self).spec_active()[m]) as int]
                        == DownloadStatus::Pending
            },
    {
        let ghost jobs0 = self.jobs@;
        // start pending jobs from the queue head while below the limit
        while self.active.len() < self.parallel_count && self.queue.len() > 0
            invariant
                self.wf(),
                old(self).wf(),
                jobs0 == old(self).spec_jobs(),
                self.spec_jobs().len() == jobs0.len(),
                self.spec_parallel_count() == old(self).spec_parallel_count(),
                self.spec_stopped() == old(self).spec_stopped(),
                forall|j: int|
                    0 <= j < jobs0.len() ==> {
                        let before = jobs0[j];
                        let after = #[trigger] self.spec_jobs()[j];
                        ||| after == before
                        ||| (before == DownloadStatus::Pending && after == DownloadStatus::Head)
                    },
                self.spec_active().len() <= old(self).spec_active().len()
                    || self.spec_active().len() <= self.spec_parallel_count(),
                old(self).spec_start_due() ==> {
                    ||| (self.spec_jobs() == jobs0 && self.spec_queue() == old(self).spec_queue()
                        && self.spec_active().len() == old(self).spec_active().len())
                    ||| self.spec_jobs()[old(self).spec_queue()[0] as int] == DownloadStatus::Head
                },
                old(self).spec_active().len() >= old(self).spec_parallel_count() ==> (
                self.spec_jobs() == jobs0 && self.spec_queue() == old(self).spec_queue()
                    && self.spec_active() == old(self).spec_active()),
            decreases self.queue.len(),
        {
            let ghost pre = *self;
            let id = self.queue.remove(0);
            proof {
                assert(forall|k: int|
                    0 <= k < self.spec_queue().len() ==> self.spec_queue()[k]
                        == pre.spec_queue()[k + 1]);
            }
            if matches!(self.jobs[id], DownloadStatus::Pending) {
                self.jobs[id] = DownloadStatus::Head;
                self.active.push(id);
                proof {
                    if old(self).spec_start_due() {
                        let q0 = old(self).spec_queue()[0];
                        if pre.spec_jobs()[q0 as int] == DownloadStatus::Head {
                            // started on an earlier turn of this loop; this
                            // write touches a different, still-pending job
                            assert(pre.spec_jobs()[id as int] == DownloadStatus::Pending);
                            assert(id != q0);
                            assert(self.spec_jobs()[q0 as int] == DownloadStatus::Head);
                        } else {
                            assert(pre.spec_queue() == old(self).spec_queue());
                            assert(id == q0);
                            assert(self.spec_jobs()[q0 as int] == DownloadStatus::Head);
                        }
                    }
                    assert(forall|k: int|
                        0 <= k < pre.spec_active().len() ==> pre.spec_active()[k] != id);
                    assert forall|j: usize|
                        j < self.spec_jobs().len() && (#[trigger] self.spec_jobs()[j as int])
                            .is_active() implies self.spec_active().contains(j) by {
                        if j == id {
                            assert(self.spec_active().last() == id);
                        } else {
                            assert(pre.spec_jobs()[j as int].is_active());
                            let k = choose|k: int|
                                0 <= k < pre.spec_active().len() && pre.spec_active()[k] == j;
                            assert(self.spec_active()[k] == j);
                        }
                    }
                }
            } else {
                proof {
                    if old(self).spec_start_due() {
                        let q0 = old(self).spec_queue()[0];
                        if pre.spec_jobs()[q0 as int] != DownloadStatus::Head {
                            assert(pre.spec_queue() == old(self).spec_queue() && pre.spec_jobs()
                                == jobs0);
                            assert(id == q0);
                            assert(jobs0[q0 as int] == DownloadStatus::Pending);
                            assert(false);
                        }
                    }
                    assert forall|j: usize|
                        j < self.spec_jobs().len() && (#[trigger] self.spec_jobs()[j as int])
                            .is_active() implies self.spec_active().contains(j) by {
                        assert(pre.spec_jobs()[j as int].is_active());
                    }
                }
            }
        }
        let ghost jobs1 = self.jobs@;
        let ghost active1_entry = self.active@;
        // drop finished jobs from the active set
        let mut still_active: Vec<usize> = Vec::new();
        let mut k: usize = 0;
        proof {
            assert(still_active@ =~= self.spec_active().take(0));
        }
        while k < self.active.len()
            invariant
                self.wf(),
                0 <= k <= self.spec_active().len(),
                self.spec_jobs() == jobs1,
                self.spec_active() == active1_entry,
                still_active@.len() <= k,
                (forall|k2: int|
                    0 <= k2 < k ==> !self.spec_jobs()[(#[trigger] self.spec_active()[k2]) as int].is_terminal())
                    ==> still_active@ == self.spec_active().take(k as int),
                forall|m: int|
                    0 <= m < still_active@.len() ==> self.spec_active().take(k as int).contains(
                        #[trigger] still_active@[m],
                    ),
                no_dups(still_active@),
                forall|m: int|
                    0 <= m < still_active@.len() ==> !self.spec_jobs()[(#[trigger] still_active@[m]) as int].is_terminal(),
                forall|j: usize|
                    j < self.spec_jobs().len() && (#[trigger] self.spec_jobs()[j as int]).is_active()
                        && self.spec_active().take(k as int).contains(j)
                        ==> still_active@.contains(j),
            decreases self.active.len() - k,
        {
            let id = self.active[k];
            let ghost still0 = still_active@;
            let keep = !matches!(
                self.jobs[id],
                DownloadStatus::Complete | DownloadStatus::Failed | DownloadStatus::Stop
            );
            if keep {
                proof {
                    if still_active@.contains(id) {
                        let m = choose|m: int|
                            0 <= m < still_active@.len() && still_active@[m] == id;
                        let k2 = choose|k2: int|
                            0 <= k2 < k && self.spec_active()[k2] == id;
                        assert(self.spec_active()[k2] == self.spec_active()[k as int]);
                        assert(false);
                    }
                }
                still_active.push(id);
            }
            proof {
                let pre_take = self.spec_active().take(k as int);
                let post_take = self.spec_active().take(k as int + 1);
                assert(post_take =~= pre_take.push(self.spec_active()[k as int]));
                assert(post_take[k as int] == id);
                assert forall|m: int|
                    0 <= m < still_active@.len() implies post_take.contains(
                    #[trigger] still_active@[m]) by {
                    if m < still0.len() {
                        assert(still_active@[m] == still0[m]);
                        assert(pre_take.contains(still0[m]));
                        let m2 = choose|m2: int|
                            0 <= m2 < pre_take.len() && pre_take[m2] == still0[m];
                        assert(post_take[m2] == still_active@[m]);
                    } else {
                        assert(still_active@[m] == id);
                    }
                }
                if forall|k2: int|
                    0 <= k2 < k + 1 ==> !self.spec_jobs()[(#[trigger] self.spec_active()[k2]) as int].is_terminal() {
                    assert(!self.spec_jobs()[id as int].is_terminal());
                    assert(keep);
                    assert(still0 == self.spec_active().take(k as int));
                    assert(still_active@ =~= self.spec_active().take(k as int + 1));
                }
                assert forall|j: usize|
                    j < self.spec_jobs().len() && (#[trigger] self.spec_jobs()[j as int])
                        .is_active() && post_take.contains(j) implies still_active@.contains(
                    j) by {
                    let m2 = choose|m2: int| 0 <= m2 < post_take.len() && post_take[m2] == j;
                    if m2 < k {
                        assert(pre_take[m2] == j);
                        assert(pre_take.contains(j));
                        assert(still0.contains(j));
                        let m3 = choose|m3: int| 0 <= m3 < still0.len() && still0[m3] == j;
                        assert(still_active@[m3] == j);
                    } else {
                        assert(j == id);
                        if keep {
                            assert(still_active@.last() == id);
                        } else {
                            assert(self.spec_jobs()[id as int].is_terminal());
                            assert(false);
                        }
                    }
                }
            }
            k = k + 1;
        }
        proof {
            assert(self.spec_active().take(self.spec_active().len() as int) =~= self
                .spec_active());
        }
        let ghost active1 = self.active@;
        let ghost still_final = still_active@;
        self.active = still_active;
        proof {
            assert forall|m1: int, m2: int|
                0 <= m1 < self.spec_active().len() && 0 <= m2 < self.spec_queue().len() implies
                self.spec_queue()[m2] != self.spec_active()[m1] by {
                assert(active1.contains(self.spec_active()[m1]));
            }
            assert forall|m: int| 0 <= m < self.spec_active().len() implies (
            #[trigger] self.spec_active()[m]) < self.spec_jobs().len() by {
                assert(active1.contains(self.spec_active()[m]));
            }
            assert(active1.take(active1.len() as int) =~= active1);
        }
        let ghost jobs2 = self.jobs@;
        let ghost active2 = self.active@;
        proof {
            assert(active2.take(active2.len() as int) =~= active2);
            assert(active2 == still_final);
            assert(active2.len() <= active1.len());
            if old(self).spec_active().len() > old(self).spec_parallel_count() && (forall|m: int|
                0 <= m < old(self).spec_active().len() ==> !old(self).spec_jobs()[(
                #[trigger] old(self).spec_active()[m]) as int].is_terminal()) {
                // over the limit nothing was started, and with no finished
                // job the reap kept the whole active list
                assert(jobs1 == jobs0);
                assert(active1 == old(self).spec_active());
                assert forall|k2: int|
                    0 <= k2 < active1.len() implies !jobs1[(#[trigger] active1[k2]) as int].is_terminal() by {
                    assert(!old(self).spec_jobs()[old(self).spec_active()[k2] as int].is_terminal());
                }
                assert(still_final == active1.take(active1.len() as int));
                assert(active1.take(active1.len() as int) =~= active1);
                assert(active2 == old(self).spec_active());
            }
        }
        // pre-empt from the active tail when the limit was lowered
        while self.active.len() > self.parallel_count
            invariant
                self.wf(),
                old(self).wf(),
                jobs0 == old(self).spec_jobs(),
                self.spec_jobs().len() == jobs0.len(),
                self.spec_parallel_count() == old(self).spec_parallel_count(),
                self.spec_stopped() == old(self).spec_stopped(),
                forall|m: int|
                    0 <= m < self.spec_active().len() ==> !self.spec_jobs()[(
                    #[trigger] self.spec_active()[m]) as int].is_terminal(),
                forall|j: int|
                    0 <= j < jobs0.len() ==> {
                        let before = jobs0[j];
                        let after = #[trigger] self.spec_jobs()[j];
                        ||| after == before
                        ||| (before == DownloadStatus::Pending && after == DownloadStatus::Head)
                        ||| (!before.is_terminal() && after == DownloadStatus::Pending)
                    },
                jobs2.len() == jobs0.len(),
                self.spec_active().len() <= active2.len(),
                no_dups(active2),
                ids_in_range(active2, jobs0.len() as int),
                forall|j: int|
                    0 <= j < jobs2.len() ==> {
                        let before = jobs2[j];
                        let after = #[trigger] self.spec_jobs()[j];
                        after == before || (!before.is_terminal() && after
                            == DownloadStatus::Pending)
                    },
                forall|m: int|
                    0 <= m < self.spec_active().len() ==> self.spec_jobs()[(
                    #[trigger] self.spec_active()[m]) as int] == jobs2[self.spec_active()[m] as int],
                active2.take(self.spec_active().len() as int) == self.spec_active(),
                forall|m: int|
                    self.spec_active().len() <= m < active2.len() && !jobs2[(
                    #[trigger] active2[m]) as int].is_terminal() ==> self.spec_jobs()[active2[m] as int]
                        == DownloadStatus::Pending,
                old(self).spec_start_due() ==> (self.spec_active().len()
                    <= self.spec_parallel_count() && self.spec_jobs()[old(
                    self,
                ).spec_queue()[0] as int] == DownloadStatus::Head),
                old(self).spec_active().len() <= old(self).spec_parallel_count() ==> (
                self.spec_active().len() <= self.spec_parallel_count() && self.spec_jobs()
                    == jobs2),
                (old(self).spec_active().len() > old(self).spec_parallel_count() && (forall|m: int|
                    0 <= m < old(self).spec_active().len() ==> !old(self).spec_jobs()[(
                    #[trigger] old(self).spec_active()[m]) as int].is_terminal())) ==> (active2
                    == old(self).spec_active() && jobs2 == jobs0 && self.spec_active().len()
                    >= self.spec_parallel_count()),
            decreases self.active.len(),
        {
            let ghost pre = *self;
            let id = match self.active.pop() {
                Some(id) => id,
                None => {
                    proof {
                        assert(false);
                    }
                    return ;
                },
            };
            self.jobs[id] = DownloadStatus::Stop;
            self.jobs[id] = DownloadStatus::Pending;
            self.queue.push(id);
            proof {
                assert(forall|m: int|
                    0 <= m < self.spec_active().len() ==> self.spec_active()[m]
                        == pre.spec_active()[m]);
                assert forall|m1: int, m2: int|
                    0 <= m1 < m2 < self.spec_queue().len() implies self.spec_queue()[m1]
                    != self.spec_queue()[m2] by {
                    if m2 == self.spec_queue().len() - 1 {
                        assert(pre.spec_active().contains(id));
                    }
                }
                assert forall|m1: int, m2: int|
                    0 <= m1 < self.spec_queue().len() && 0 <= m2 < self.spec_active().len()
                    implies self.spec_queue()[m1] != self.spec_active()[m2] by {
                    if m1 == self.spec_queue().len() - 1 {
                        assert(pre.spec_active()[m2] == self.spec_active()[m2]);
                        assert(pre.spec_active()[pre.spec_active().len() - 1] == id);
                    }
                }
                assert forall|j: usize|
                    j < self.spec_jobs().len() && (#[trigger] self.spec_jobs()[j as int])
                        .is_active() implies self.spec_active().contains(j) by {
                    assert(j != id) by {
                        if j == id {
                            assert(self.spec_jobs()[j as int] == DownloadStatus::Pending);
                        }
                    }
                    assert(pre.spec_jobs()[j as int].is_active());
                    let m = choose|m: int|
                        0 <= m < pre.spec_active().len() && pre.spec_active()[m] == j;
                    assert(pre.spec_active()[pre.spec_active().len() - 1] == id);
                    assert(m < pre.spec_active().len() - 1);
                    assert(self.spec_active()[m] == j);
                }
                // the popped id is the snapshot's element at the old tail
                let pre_len = pre.spec_active().len() as int;
                assert(active2.take(pre_len) == pre.spec_active());
                assert(active2.take(pre_len)[pre_len - 1] == active2[pre_len - 1]);
                assert(pre.spec_active()[pre_len - 1] == id);
                assert(id == active2[pre_len - 1]);
                assert(self.spec_active() =~= active2.take(pre_len - 1));
                assert(!jobs2[id as int].is_terminal()) by {
                    assert(pre.spec_jobs()[pre.spec_active()[pre_len - 1] as int]
                        == jobs2[pre.spec_active()[pre_len - 1] as int]);
                    assert(!pre.spec_jobs()[pre.spec_active()[pre_len - 1] as int].is_terminal());
                }
                assert forall|m: int|
                    0 <= m < self.spec_active().len() implies self.spec_jobs()[(
                    #[trigger] self.spec_active()[m]) as int] == jobs2[self.spec_active()[m] as int] by {
                    assert(self.spec_active()[m] == pre.spec_active()[m]);
                    assert(pre.spec_active()[m] != id);
                }
                assert forall|m: int|
                    self.spec_active().len() <= m < active2.len() && !jobs2[(
                    #[trigger] active2[m]) as int].is_terminal() implies self.spec_jobs()[active2[m] as int]
                        == DownloadStatus::Pending by {
                    if m == pre_len - 1 {
                        assert(self.spec_jobs()[id as int] == DownloadStatus::Pending);
                    } else {
                        assert(active2[m] != active2[pre_len - 1]);
                        assert(pre.spec_jobs()[active2[m] as int] == DownloadStatus::Pending);
                    }
                }
            }
        }
    }

    pub fn is_finished(&self) -> (r: bool)
        ensures
            r == self.spec_stopped(),
    {
        self.stopped
    }
}

/// The parallelism bound: when the active list respects the limit, at most
/// `parallel_count` jobs are in an active state — every working job sits in
/// the distinct active list, so the set of working jobs is no larger.
pub proof fn lemma_parallel_bound(s: DownloadService)
    requires
        s.wf(),
        s.spec_active().len() <= s.spec_parallel_count(),
    ensures
        Set::new(
            |j: usize| j < s.spec_jobs().len() && s.spec_jobs()[j as int].is_active(),
        ).len() <= s.spec_parallel_count(),
{
    broadcast use vstd::seq_lib::seq_to_set_is_finite;

    let working = Set::new(
        |j: usize| j < s.spec_jobs().len() && s.spec_jobs()[j as int].is_active(),
    );
    let ids = s.spec_active().to_set();
    assert forall|j: usize| working.contains(j) implies ids.contains(j) by {
        assert(s.spec_jobs()[j as int].is_active());
        assert(s.spec_active().contains(j));
    }
    assert(working.subset_of(ids));
    s.spec_active().lemma_cardinality_of_set();
    vstd::set_lib::lemma_len_subset(working, ids);
}

} // verus!
