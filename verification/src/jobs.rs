//! Jobs: long-running work that the user is shown in the jobs menu, and the
//! decisions of the job manager about which jobs are listed, which count as
//! unfinished, and what the jobs button shows.
use vstd::prelude::*;

verus! {

/// The status of a job.
#[derive(Clone, Copy, PartialEq, Eq, Structural)]
pub enum JobStatus {
    InProgress,
    Completed,
    Failed,
    RequiresAttention,
}

impl JobStatus {
    /// The job has ended, well or badly.
    pub open spec fn spec_is_complete(&self) -> bool {
        *self == JobStatus::Completed || *self == JobStatus::Failed
    }

    /// The job has ended, well or badly.
    #[verifier::when_used_as_spec(spec_is_complete)]
    pub fn is_complete(&self) -> (r: bool)
        ensures
            r == self.spec_is_complete(),
    {
        match self {
            JobStatus::Completed | JobStatus::Failed => true,
            _ => false,
        }
    }
}

/// What the jobs button shows.
#[derive(Clone, Copy, PartialEq, Eq, Structural)]
pub enum JobButtonState {
    Hidden,
    Idle,
    HaveRequiresAttention,
    HaveFailure,
    HaveSuccess,
}

/// What the job manager reads of a job: its status and whether it is
/// transient, which means that it stays around after it is complete.
#[derive(Clone, Copy, PartialEq, Eq, Structural)]
pub struct JobInfo {
    pub status: JobStatus,
    pub transient: bool,
}

/// A job that the jobs menu lists: one that stays around after completion
/// (a transient one), or one that is still running or needs attention.
pub open spec fn is_listed(info: JobInfo) -> bool {
    info.transient || info.status == JobStatus::InProgress || info.status
        == JobStatus::RequiresAttention
}

/// The jobs among the first `n` of `jobs` that are listed, in order; `infos`
/// describes `jobs` position by position.
pub open spec fn listed_jobs(jobs: Seq<u64>, infos: Seq<JobInfo>, n: int) -> Seq<u64>
    decreases n,
{
    if n <= 0 {
        Seq::empty()
    } else if is_listed(infos[n - 1]) {
        listed_jobs(jobs, infos, n - 1).push(jobs[n - 1])
    } else {
        listed_jobs(jobs, infos, n - 1)
    }
}

proof fn lemma_listed_jobs(jobs: Seq<u64>, infos: Seq<JobInfo>, n: int)
    requires
        0 <= n <= jobs.len(),
        jobs.len() == infos.len(),
    ensures
        forall|i: int|
            0 <= i < n && (infos[i].transient || infos[i].status == JobStatus::InProgress
                || infos[i].status == JobStatus::RequiresAttention) ==> #[trigger] listed_jobs(
                jobs,
                infos,
                n,
            ).contains(jobs[i]),
        forall|x: u64|
            #[trigger] listed_jobs(jobs, infos, n).contains(x) ==> exists|i: int|
                0 <= i < n && #[trigger] jobs[i] == x && (infos[i].transient || infos[i].status
                    == JobStatus::InProgress || infos[i].status == JobStatus::RequiresAttention),
    decreases n,
{
    if n > 0 {
        lemma_listed_jobs(jobs, infos, n - 1);
        let rest = listed_jobs(jobs, infos, n - 1);
        let all = listed_jobs(jobs, infos, n);
        assert forall|i: int|
            0 <= i < n && (infos[i].transient || infos[i].status == JobStatus::InProgress
                || infos[i].status == JobStatus::RequiresAttention) implies #[trigger] all.contains(
            jobs[i],
        ) by {
            if i < n - 1 {
                assert(rest.contains(jobs[i]));
                let k = choose|k: int| 0 <= k < rest.len() && rest[k] == jobs[i];
                if is_listed(infos[n - 1]) {
                    assert(all[k] == jobs[i]);
                } else {
                    assert(all == rest);
                }
            } else {
                assert(all[all.len() - 1] == jobs[i]);
            }
        }
        assert forall|x: u64| #[trigger] all.contains(x) implies exists|i: int|
            0 <= i < n && #[trigger] jobs[i] == x && (infos[i].transient || infos[i].status
                == JobStatus::InProgress || infos[i].status == JobStatus::RequiresAttention) by {
            let k = choose|k: int| 0 <= k < all.len() && all[k] == x;
            if k < rest.len() {
                assert(rest[k] == x);
                assert(rest.contains(x));
            } else {
                assert(jobs[n - 1] == x);
            }
        }
    }
}

/// The jobs menu lists every job that stays around after completion
/// (a transient one), is running or needs attention, and no other job.
pub proof fn law_listed_jobs_are_those_that_stay_or_run(jobs: Seq<u64>, infos: Seq<JobInfo>)
    requires
        jobs.len() == infos.len(),
    ensures
        forall|i: int|
            0 <= i < jobs.len() && (infos[i].transient || infos[i].status == JobStatus::InProgress
                || infos[i].status == JobStatus::RequiresAttention) ==> #[trigger] listed_jobs(
                jobs,
                infos,
                jobs.len() as int,
            ).contains(jobs[i]),
        forall|x: u64|
            #[trigger] listed_jobs(jobs, infos, jobs.len() as int).contains(x) ==> exists|i: int|
                0 <= i < jobs.len() && #[trigger] jobs[i] == x && (infos[i].transient
                    || infos[i].status == JobStatus::InProgress || infos[i].status
                    == JobStatus::RequiresAttention),
{
    lemma_listed_jobs(jobs, infos, jobs.len() as int);
}

/// The listed jobs among the first `n` that are complete.
pub open spec fn listed_complete_jobs(jobs: Seq<u64>, infos: Seq<JobInfo>, n: int) -> Seq<u64>
    decreases n,
{
    if n <= 0 {
        Seq::empty()
    } else if is_listed(infos[n - 1]) && infos[n - 1].status.spec_is_complete() {
        listed_complete_jobs(jobs, infos, n - 1).push(jobs[n - 1])
    } else {
        listed_complete_jobs(jobs, infos, n - 1)
    }
}

/// `jobs` without the jobs in `removed`, in order.
pub open spec fn without_jobs(jobs: Seq<u64>, removed: Seq<u64>) -> Seq<u64> {
    jobs.filter(|j: u64| !removed.contains(j))
}

/// Some job described in `infos` has the status `status`.
pub open spec fn any_has_status(infos: Seq<JobInfo>, status: JobStatus) -> bool {
    exists|i: int| 0 <= i < infos.len() && #[trigger] infos[i].status == status
}

/// What the jobs button shows for the unfinished jobs described by `infos`:
/// nothing without them; else, by priority, that one needs attention, that
/// one failed, that one completed, or that they are running.
pub open spec fn button_state_for(infos: Seq<JobInfo>) -> JobButtonState {
    if infos.len() == 0 {
        JobButtonState::Hidden
    } else if any_has_status(infos, JobStatus::RequiresAttention) {
        JobButtonState::HaveRequiresAttention
    } else if any_has_status(infos, JobStatus::Failed) {
        JobButtonState::HaveFailure
    } else if any_has_status(infos, JobStatus::Completed) {
        JobButtonState::HaveSuccess
    } else {
        JobButtonState::Idle
    }
}

/// The jobs button hides without unfinished jobs; otherwise it shows that a
/// job needs attention whenever one does, else that one failed whenever one
/// did, else that one completed whenever one did, and otherwise that the
/// jobs are running.
pub proof fn law_button_state_follows_the_most_urgent_job(infos: Seq<JobInfo>)
    ensures
        (button_state_for(infos) == JobButtonState::Hidden) == (infos.len() == 0),
        (button_state_for(infos) == JobButtonState::HaveRequiresAttention) == (exists|i: int|
            0 <= i < infos.len() && #[trigger] infos[i].status == JobStatus::RequiresAttention),
        (button_state_for(infos) == JobButtonState::HaveFailure) == ((exists|i: int|
            0 <= i < infos.len() && #[trigger] infos[i].status == JobStatus::Failed) && forall|
            i: int,
        | 0 <= i < infos.len() ==> #[trigger] infos[i].status != JobStatus::RequiresAttention),
        (button_state_for(infos) == JobButtonState::HaveSuccess) == ((exists|i: int|
            0 <= i < infos.len() && #[trigger] infos[i].status == JobStatus::Completed) && forall|
            i: int,
        | 0 <= i < infos.len() ==> #[trigger] infos[i].status != JobStatus::RequiresAttention
            && infos[i].status != JobStatus::Failed),
        (button_state_for(infos) == JobButtonState::Idle) == (infos.len() > 0 && forall|i: int|
            0 <= i < infos.len() ==> #[trigger] infos[i].status == JobStatus::InProgress),
{
    if infos.len() > 0 && forall|i: int|
        0 <= i < infos.len() ==> #[trigger] infos[i].status == JobStatus::InProgress {
        assert(!any_has_status(infos, JobStatus::RequiresAttention));
        assert(!any_has_status(infos, JobStatus::Failed));
        assert(!any_has_status(infos, JobStatus::Completed));
    }
    if button_state_for(infos) == JobButtonState::Idle {
        assert forall|i: int| 0 <= i < infos.len() implies #[trigger] infos[i].status
            == JobStatus::InProgress by {
            if infos[i].status != JobStatus::InProgress {
                match infos[i].status {
                    JobStatus::RequiresAttention => assert(any_has_status(infos, JobStatus::RequiresAttention)),
                    JobStatus::Failed => assert(any_has_status(infos, JobStatus::Failed)),
                    JobStatus::Completed => assert(any_has_status(infos, JobStatus::Completed)),
                    JobStatus::InProgress => {},
                }
            }
        }
    }
}

/// What a job manager holds.
pub struct JobManagerView {
    pub jobs: Seq<u64>,
    pub is_job_menu_open: bool,
    pub unfinished_jobs: Seq<u64>,
}

impl JobManagerView {
    /// Every unfinished job is a tracked job.
    pub open spec fn unfinished_are_tracked(self) -> bool {
        forall|j: u64| #[trigger] self.unfinished_jobs.contains(j) ==> self.jobs.contains(j)
    }
}

/// Keeps the jobs that are tracked, by their handles, and those of them that
/// are unfinished (not yet seen complete by the user).
pub struct JobManager {
    jobs: Vec<u64>,
    pub is_job_menu_open: bool,
    unfinished_jobs: Vec<u64>,
}

impl View for JobManager {
    type V = JobManagerView;

    closed spec fn view(&self) -> JobManagerView {
        JobManagerView {
            jobs: self.jobs@,
            is_job_menu_open: self.is_job_menu_open,
            unfinished_jobs: self.unfinished_jobs@,
        }
    }
}

impl JobManager {
    pub fn new() -> (m: Self)
        ensures
            m@.jobs == Seq::<u64>::empty(),
            m@.unfinished_jobs == Seq::<u64>::empty(),
            !m@.is_job_menu_open,
            m@.unfinished_are_tracked(),
    {
        JobManager { jobs: Vec::new(), is_job_menu_open: false, unfinished_jobs: Vec::new() }
    }

    /// The tracked jobs, oldest first.
    pub fn jobs(&self) -> (r: &Vec<u64>)
        ensures
            r@ == self@.jobs,
    {
        &self.jobs
    }

    /// The unfinished jobs, oldest first.
    pub fn unfinished_jobs(&self) -> (r: &Vec<u64>)
        ensures
            r@ == self@.unfinished_jobs,
    {
        &self.unfinished_jobs
    }

    /// Starts tracking `job`: it is listed and unfinished.
    pub fn track_job(&mut self, job: u64)
        ensures
            final(self)@ == (JobManagerView {
                jobs: old(self)@.jobs.push(job),
                unfinished_jobs: old(self)@.unfinished_jobs.push(job),
                ..old(self)@
            }),
            old(self)@.unfinished_are_tracked() ==> final(self)@.unfinished_are_tracked(),
    {
        self.jobs.push(job);
        self.unfinished_jobs.push(job);
        proof {
            if old(self)@.unfinished_are_tracked() {
                assert forall|j: u64| #[trigger] self@.unfinished_jobs.contains(j) implies self@.jobs.contains(j) by {
                    if j != job {
                        let k = choose|k: int| 0 <= k < self@.unfinished_jobs.len() && self@.unfinished_jobs[k] == j;
                        assert(old(self)@.unfinished_jobs[k] == j);
                        assert(old(self)@.unfinished_jobs.contains(j));
                        let m = choose|m: int| 0 <= m < old(self)@.jobs.len() && old(self)@.jobs[m] == j;
                        assert(self@.jobs[m] == j);
                    } else {
                        assert(self@.jobs[self@.jobs.len() - 1] == j);
                    }
                }
            }
        }
    }

    /// A tracked job changed: a job that is complete and does not stay around
    /// (is not transient) is no longer unfinished.
    pub fn job_updated(&mut self, job: u64, info: JobInfo)
        ensures
            final(self)@ == (if !info.transient && info.status.spec_is_complete()
                && old(self)@.unfinished_jobs.contains(job) {
                JobManagerView {
                    unfinished_jobs: old(self)@.unfinished_jobs.filter(|j: u64| j != job),
                    ..old(self)@
                }
            } else {
                old(self)@
            }),
            !final(self)@.unfinished_jobs.contains(job) || !(!info.transient
                && info.status.spec_is_complete()),
            old(self)@.unfinished_are_tracked() ==> final(self)@.unfinished_are_tracked(),
    {
        broadcast use Seq::lemma_filter_contains_rev;

        if !info.transient && info.status.is_complete() && contains_job(&self.unfinished_jobs, job) {
            let mut removed = Vec::new();
            removed.push(job);
            proof {
                assert(removed@ =~= seq![job]);
            }
            let kept = remove_jobs(&self.unfinished_jobs, &removed);
            proof {
                assert(kept@ =~= old(self)@.unfinished_jobs.filter(|j: u64| j != job)) by {
                    assert((|j: u64| !seq![job].contains(j)) =~= (|j: u64| j != job)) by {
                        assert forall|j: u64| seq![job].contains(j) <==> j == job by {
                            if j == job {
                                assert(seq![job][0] == job);
                            }
                        }
                    }
                }
                lemma_filter_drops(old(self)@.unfinished_jobs, job);
            }
            self.unfinished_jobs = kept;
        }
    }

    /// The listed jobs, oldest first; `infos` describes the tracked jobs
    /// position by position.
    pub fn tracked_jobs(&self, infos: &Vec<JobInfo>) -> (r: Vec<u64>)
        requires
            infos@.len() == self@.jobs.len(),
        ensures
            r@ == listed_jobs(self@.jobs, infos@, infos@.len() as int),
            forall|i: int|
                0 <= i < infos@.len() && (infos@[i].transient || infos@[i].status
                    == JobStatus::InProgress || infos@[i].status == JobStatus::RequiresAttention)
                    ==> #[trigger] r@.contains(self@.jobs[i]),
            forall|x: u64|
                #[trigger] r@.contains(x) ==> exists|i: int|
                    0 <= i < infos@.len() && #[trigger] self@.jobs[i] == x && (infos@[i].transient
                        || infos@[i].status == JobStatus::InProgress || infos@[i].status
                        == JobStatus::RequiresAttention),
    {
        proof {
            law_listed_jobs_are_those_that_stay_or_run(self@.jobs, infos@);
        }
        let mut r: Vec<u64> = Vec::new();
        let mut i: usize = 0;
        while i < infos.len()
            invariant
                i <= infos@.len(),
                infos@.len() == self@.jobs.len(),
                self@.jobs == self.jobs@,
                r@ == listed_jobs(self@.jobs, infos@, i as int),
            decreases infos@.len() - i,
        {
            let info = infos[i];
            if info.transient || info.status == JobStatus::InProgress || info.status
                == JobStatus::RequiresAttention {
                r.push(self.jobs[i]);
            }
            i = i + 1;
        }
        r
    }

    /// How many jobs are listed.
    pub fn job_len(&self, infos: &Vec<JobInfo>) -> (r: usize)
        requires
            infos@.len() == self@.jobs.len(),
        ensures
            r == listed_jobs(self@.jobs, infos@, infos@.len() as int).len(),
    {
        self.tracked_jobs(infos).len()
    }

    /// The listed job at `index`.
    pub fn job(&self, index: usize, infos: &Vec<JobInfo>) -> (r: Option<u64>)
        requires
            infos@.len() == self@.jobs.len(),
        ensures
            ({
                let listed = listed_jobs(self@.jobs, infos@, infos@.len() as int);
                r == if index < listed.len() {
                    Some(listed[index as int])
                } else {
                    None
                }
            }),
    {
        let listed = self.tracked_jobs(infos);
        if index < listed.len() {
            Some(listed[index])
        } else {
            None
        }
    }

    /// Opens or closes the jobs menu. Opening it shows the user every listed
    /// job, so those that are complete are no longer unfinished.
    pub fn set_job_menu_open(&mut self, open: bool, infos: &Vec<JobInfo>)
        requires
            infos@.len() == old(self)@.jobs.len(),
        ensures
            final(self)@.is_job_menu_open == open,
            final(self)@.jobs == old(self)@.jobs,
            final(self)@.unfinished_jobs == if open {
                without_jobs(
                    old(self)@.unfinished_jobs,
                    listed_complete_jobs(old(self)@.jobs, infos@, infos@.len() as int),
                )
            } else {
                old(self)@.unfinished_jobs
            },
            open ==> forall|j: u64|
                #[trigger] final(self)@.unfinished_jobs.contains(j) ==> !listed_complete_jobs(
                    old(self)@.jobs,
                    infos@,
                    infos@.len() as int,
                ).contains(j),
            old(self)@.unfinished_are_tracked() ==> final(self)@.unfinished_are_tracked(),
    {
        broadcast use Seq::lemma_filter_contains_rev;

        self.is_job_menu_open = open;
        if open {
            let mut complete: Vec<u64> = Vec::new();
            let mut i: usize = 0;
            while i < infos.len()
                invariant
                    i <= infos@.len(),
                    infos@.len() == self@.jobs.len(),
                    self@.jobs == self.jobs@,
                    complete@ == listed_complete_jobs(self@.jobs, infos@, i as int),
                decreases infos@.len() - i,
            {
                let info = infos[i];
                if (info.transient || info.status == JobStatus::InProgress || info.status
                    == JobStatus::RequiresAttention) && info.status.is_complete() {
                    complete.push(self.jobs[i]);
                }
                i = i + 1;
            }
            let kept = remove_jobs(&self.unfinished_jobs, &complete);
            proof {
                lemma_without_jobs_excludes(self.unfinished_jobs@, complete@);
            }
            self.unfinished_jobs = kept;
            proof {
                if old(self)@.unfinished_are_tracked() {
                    assert forall|j: u64| #[trigger] self@.unfinished_jobs.contains(j) implies self@.jobs.contains(j) by {
                        old(self)@.unfinished_jobs.lemma_filter_contains_rev(
                            |x: u64| !complete@.contains(x),
                            j,
                        );
                    }
                }
            }
        }
    }

    /// What the jobs button shows; `infos` describes the unfinished jobs
    /// position by position.
    pub fn job_button_state(&self, infos: &Vec<JobInfo>) -> (r: JobButtonState)
        requires
            infos@.len() == self@.unfinished_jobs.len(),
        ensures
            r == button_state_for(infos@),
    {
        if infos.len() == 0 {
            JobButtonState::Hidden
        } else if has_status(infos, JobStatus::RequiresAttention) {
            JobButtonState::HaveRequiresAttention
        } else if has_status(infos, JobStatus::Failed) {
            JobButtonState::HaveFailure
        } else if has_status(infos, JobStatus::Completed) {
            JobButtonState::HaveSuccess
        } else {
            JobButtonState::Idle
        }
    }
}

impl Default for JobManager {
    fn default() -> (m: Self)
        ensures
            m@.jobs == Seq::<u64>::empty(),
            m@.unfinished_jobs == Seq::<u64>::empty(),
            !m@.is_job_menu_open,
    {
        JobManager::new()
    }
}

/// Some job described in `infos` has the status `status`.
fn has_status(infos: &Vec<JobInfo>, status: JobStatus) -> (r: bool)
    ensures
        r == any_has_status(infos@, status),
{
    let mut i: usize = 0;
    while i < infos.len()
        invariant
            i <= infos@.len(),
            forall|k: int| 0 <= k < i ==> infos@[k].status != status,
        decreases infos@.len() - i,
    {
        if infos[i].status == status {
            return true;
        }
        i = i + 1;
    }
    false
}

/// `job` is in `jobs`.
fn contains_job(jobs: &Vec<u64>, job: u64) -> (r: bool)
    ensures
        r == jobs@.contains(job),
{
    let mut i: usize = 0;
    while i < jobs.len()
        invariant
            i <= jobs@.len(),
            forall|k: int| 0 <= k < i ==> jobs@[k] != job,
        decreases jobs@.len() - i,
    {
        if jobs[i] == job {
            return true;
        }
        i = i + 1;
    }
    false
}

/// `jobs` without those in `removed`, in order.
fn remove_jobs(jobs: &Vec<u64>, removed: &Vec<u64>) -> (r: Vec<u64>)
    ensures
        r@ == without_jobs(jobs@, removed@),
{
    let mut r: Vec<u64> = Vec::new();
    let mut i: usize = 0;
    while i < jobs.len()
        invariant
            i <= jobs@.len(),
            r@ == without_jobs(jobs@.take(i as int), removed@),
        decreases jobs@.len() - i,
    {
        let j = jobs[i];
        proof {
            assert(jobs@.take(i + 1).drop_last() =~= jobs@.take(i as int));
            assert(jobs@.take(i + 1).last() == j);
            reveal(Seq::filter);
        }
        if !contains_job(removed, j) {
            r.push(j);
        }
        i = i + 1;
    }
    proof {
        assert(jobs@.take(jobs@.len() as int) =~= jobs@);
    }
    r
}

proof fn lemma_without_jobs_excludes(jobs: Seq<u64>, removed: Seq<u64>)
    ensures
        forall|j: u64| #[trigger] without_jobs(jobs, removed).contains(j) ==> !removed.contains(j),
{
    assert forall|j: u64| #[trigger] without_jobs(jobs, removed).contains(j) implies !removed.contains(j) by {
        let f = |x: u64| !removed.contains(x);
        let k = choose|k: int| 0 <= k < jobs.filter(f).len() && jobs.filter(f)[k] == j;
        broadcast use vstd::seq_lib::group_filter_ensures;

    }
}

proof fn lemma_filter_drops(jobs: Seq<u64>, job: u64)
    ensures
        !jobs.filter(|j: u64| j != job).contains(job),
{
    let f = |j: u64| j != job;
    broadcast use vstd::seq_lib::group_filter_ensures;

    if jobs.filter(f).contains(job) {
        let k = choose|k: int| 0 <= k < jobs.filter(f).len() && jobs.filter(f)[k] == job;
    }
}

/// A job that is tracked after a delay is tracked once the delay is over if
/// it is not completed and the delayed tracking was not cancelled.
pub fn should_track_after_delay(status: JobStatus, cancelled: bool) -> (r: bool)
    ensures
        r == (status != JobStatus::Completed && !cancelled),
{
    status != JobStatus::Completed && !cancelled
}

/// A job whose tracking is delayed is tracked at once (and the delay
/// cancelled) when it needs attention or has failed.
pub fn should_track_immediately(status: JobStatus) -> (r: bool)
    ensures
        r == should_track_immediately_spec(status),
{
    match status {
        JobStatus::RequiresAttention | JobStatus::Failed => true,
        _ => false,
    }
}

/// The delayed tracking of one job, as `track_job_delayed` runs it: the job
/// is tracked when the delay is over, unless it has completed or the delay was
/// cancelled; it is tracked at once, and the delay cancelled, when it needs
/// attention or fails in the meantime.
pub struct DelayedTracking {
    pub cancelled: bool,
}

impl DelayedTracking {
    /// The tracking after the job changed to `status`.
    pub open spec fn after_job_changed(self, status: JobStatus) -> DelayedTracking {
        DelayedTracking {
            cancelled: self.cancelled || status == JobStatus::RequiresAttention || status
                == JobStatus::Failed,
        }
    }

    /// The job, with `status` when the delay is over, is tracked then.
    pub open spec fn tracks_after_delay(self, status: JobStatus) -> bool {
        status != JobStatus::Completed && !self.cancelled
    }

    /// A delay that has just started.
    pub fn new() -> (t: Self)
        ensures
            !t.cancelled,
    {
        DelayedTracking { cancelled: false }
    }

    /// The delay is over and the job has `status`: answers whether it is
    /// tracked now.
    pub fn delay_elapsed(&self, status: JobStatus) -> (track: bool)
        ensures
            track == self.tracks_after_delay(status),
    {
        should_track_after_delay(status, self.cancelled)
    }

    /// The job changed to `status`: answers whether it is tracked at once;
    /// if so, the delay is cancelled.
    pub fn job_changed(&mut self, status: JobStatus) -> (track: bool)
        ensures
            track == should_track_immediately_spec(status),
            *final(self) == old(self).after_job_changed(status),
    {
        let track = should_track_immediately(status);
        if track {
            self.cancelled = true;
        }
        track
    }
}

/// A job whose tracking is delayed is tracked at once when it needs
/// attention or has failed.
pub open spec fn should_track_immediately_spec(status: JobStatus) -> bool {
    status == JobStatus::RequiresAttention || status == JobStatus::Failed
}

/// A job that was tracked at once, because it needed attention or failed
/// during the delay, is not tracked again when the delay is over, whatever
/// its status is then.
pub proof fn law_delayed_tracking_tracks_once(t: DelayedTracking, changed: JobStatus, later: JobStatus)
    requires
        should_track_immediately_spec(changed),
    ensures
        !t.after_job_changed(changed).tracks_after_delay(later),
{
}

/// What a standard job holds.
pub struct StandardJobView {
    pub progress: u64,
    pub max_progress: u64,
    pub title: Seq<char>,
    pub description: Seq<char>,
    pub status: JobStatus,
    pub transient: bool,
    /// A cancellation callback was given.
    pub cancellable: bool,
}

/// A job with a title, a description, a status and a progress out of a
/// maximum (a maximum of 0 means that the progress is unknown).
/// `C` is the callback that cancels the job, where one was given.
pub struct StandardJob<C = ()> {
    progress: u64,
    max_progress: u64,
    title: String,
    description: String,
    status: JobStatus,
    transient: bool,
    cancellation_callback: Option<C>,
}

impl<C> View for StandardJob<C> {
    type V = StandardJobView;

    closed spec fn view(&self) -> StandardJobView {
        StandardJobView {
            progress: self.progress,
            max_progress: self.max_progress,
            title: self.title@,
            description: self.description@,
            status: self.status,
            transient: self.transient,
            cancellable: self.cancellation_callback is Some,
        }
    }
}

impl StandardJob {
    /// A running job at 0 of 100.
    pub fn new(title: String, description: String) -> (job: Self)
        ensures
            job@ == (StandardJobView {
                progress: 0,
                max_progress: 100,
                title: title@,
                description: description@,
                status: JobStatus::InProgress,
                transient: false,
                cancellable: false,
            }),
    {
        StandardJob {
            progress: 0,
            max_progress: 100,
            title,
            description,
            status: JobStatus::InProgress,
            transient: false,
            cancellation_callback: None,
        }
    }

    /// A running job whose progress is unknown.
    pub fn new_indeterminate(title: String, description: String) -> (job: Self)
        ensures
            job@ == (StandardJobView {
                progress: 0,
                max_progress: 0,
                title: title@,
                description: description@,
                status: JobStatus::InProgress,
                transient: false,
                cancellable: false,
            }),
    {
        let mut job = StandardJob::new(title, description);
        job.max_progress = 0;
        job
    }

    /// A running job that is transient: it stays around after it is complete.
    pub fn new_transient(title: String, description: String) -> (job: Self)
        ensures
            job@ == (StandardJobView {
                progress: 0,
                max_progress: 100,
                title: title@,
                description: description@,
                status: JobStatus::InProgress,
                transient: true,
                cancellable: false,
            }),
    {
        let mut job = StandardJob::new(title, description);
        job.transient = true;
        job
    }

}

impl<C> StandardJob<C> {
    pub fn update_job_status(&mut self, description: String, status: JobStatus)
        ensures
            final(self)@ == (StandardJobView { description: description@, status, ..old(self)@ }),
    {
        self.description = description;
        self.status = status;
    }

    pub fn update_job_progress(&mut self, progress: u64, max_progress: u64)
        ensures
            final(self)@ == (StandardJobView { progress, max_progress, ..old(self)@ }),
    {
        self.progress = progress;
        self.max_progress = max_progress;
    }

    pub fn set_job_progress_indeterminate(&mut self)
        ensures
            final(self)@ == (StandardJobView { max_progress: 0, ..old(self)@ }),
    {
        self.max_progress = 0;
    }

    /// The job with a callback that cancels it.
    pub fn with_cancellation_callback<F: Fn() + 'static>(self, callback: F) -> (job: StandardJob<F>)
        ensures
            job@ == (StandardJobView { cancellable: true, ..self@ }),
    {
        StandardJob {
            progress: self.progress,
            max_progress: self.max_progress,
            title: self.title,
            description: self.description,
            status: self.status,
            transient: self.transient,
            cancellation_callback: Some(callback),
        }
    }

    /// The progress as a fraction (numerator, denominator) between 0 and 1:
    /// a complete or failed job is done (1 of 1); a running one is at its
    /// progress of its maximum, no further than the maximum, or at 0 where
    /// the maximum is 0.
    pub fn progress_fraction(&self) -> (r: (u64, u64))
        ensures
            r == match self@.status {
                JobStatus::Completed | JobStatus::Failed => (1u64, 1u64),
                _ => if self@.max_progress == 0 {
                    (0u64, 1u64)
                } else if self@.progress > self@.max_progress {
                    (self@.max_progress, self@.max_progress)
                } else {
                    (self@.progress, self@.max_progress)
                },
            },
            r.1 > 0,
            r.0 <= r.1,
    {
        match self.status {
            JobStatus::InProgress | JobStatus::RequiresAttention => {
                if self.max_progress == 0 {
                    (0, 1)
                } else if self.progress > self.max_progress {
                    (self.max_progress, self.max_progress)
                } else {
                    (self.progress, self.max_progress)
                }
            },
            JobStatus::Completed | JobStatus::Failed => (1, 1),
        }
    }

    /// The progress is unknown: the job runs (or needs attention) and its
    /// maximum is 0.
    pub fn progress_indeterminate(&self) -> (r: bool)
        ensures
            r == ((self@.status == JobStatus::InProgress || self@.status
                == JobStatus::RequiresAttention) && self@.max_progress == 0),
    {
        match self.status {
            JobStatus::InProgress | JobStatus::RequiresAttention => self.max_progress == 0,
            JobStatus::Completed | JobStatus::Failed => false,
        }
    }

    pub fn status(&self) -> (r: JobStatus)
        ensures
            r == self@.status,
    {
        self.status
    }

    pub fn transient(&self) -> (r: bool)
        ensures
            r == self@.transient,
    {
        self.transient
    }

    pub fn title(&self) -> (r: &str)
        ensures
            r@ == self@.title,
    {
        self.title.as_str()
    }

    pub fn description(&self) -> (r: &str)
        ensures
            r@ == self@.description,
    {
        self.description.as_str()
    }

    /// What the manager reads of this job.
    pub fn info(&self) -> (r: JobInfo)
        ensures
            r == (JobInfo { status: self@.status, transient: self@.transient }),
    {
        JobInfo { status: self.status, transient: self.transient }
    }

    /// The job's pane shows a progress bar while the job runs.
    pub fn shows_progress_bar(&self) -> (r: bool)
        ensures
            r == (self@.status == JobStatus::InProgress),
    {
        self.status == JobStatus::InProgress
    }
}

/// The jobs button's memory of what it showed and since when (in
/// milliseconds of a clock that the caller keeps).
pub struct JobButton {
    pub is_first_update: bool,
    pub old_job_button_state: JobButtonState,
    pub old_job_button_state_since: u64,
}

impl JobButton {
    /// A button that has shown nothing yet, as of `now`.
    pub fn new(now: u64) -> (b: Self)
        ensures
            b.is_first_update,
            b.old_job_button_state == JobButtonState::Hidden,
            b.old_job_button_state_since == now,
    {
        JobButton {
            is_first_update: true,
            old_job_button_state: JobButtonState::Hidden,
            old_job_button_state_since: now,
        }
    }

    /// Whether this is the first update (when the button starts following
    /// the job manager); afterwards it is not.
    pub fn take_first_update(&mut self) -> (first: bool)
        ensures
            first == old(self).is_first_update,
            !final(self).is_first_update,
            final(self).old_job_button_state == old(self).old_job_button_state,
            final(self).old_job_button_state_since == old(self).old_job_button_state_since,
    {
        let first = self.is_first_update;
        self.is_first_update = false;
        first
    }

    /// The button is drawn showing `state` at `now`: where the state
    /// changed, the time of the change is remembered.
    pub fn observe_state(&mut self, state: JobButtonState, now: u64)
        ensures
            final(self).is_first_update == old(self).is_first_update,
            final(self).old_job_button_state == state,
            final(self).old_job_button_state_since == if old(self).old_job_button_state != state {
                now
            } else {
                old(self).old_job_button_state_since
            },
    {
        if self.old_job_button_state != state {
            self.old_job_button_state = state;
            self.old_job_button_state_since = now;
        }
    }

    /// How long the current state has been shown at `now` (0 where the clock
    /// reads earlier than the change).
    pub fn time_since_state_change(&self, now: u64) -> (r: u64)
        ensures
            r == if now >= self.old_job_button_state_since {
                now - self.old_job_button_state_since
            } else {
                0
            },
    {
        if now >= self.old_job_button_state_since {
            now - self.old_job_button_state_since
        } else {
            0
        }
    }
}

/// The button animates (a ping) while it reports a job that needs
/// attention, failed or completed.
pub fn job_button_animates(state: JobButtonState) -> (r: bool)
    ensures
        r == job_button_animates_spec(state),
{
    match state {
        JobButtonState::HaveRequiresAttention
        | JobButtonState::HaveFailure
        | JobButtonState::HaveSuccess => true,
        _ => false,
    }
}

/// The jobs menu.
pub struct JobsMenu {}

/// The jobs menu.
pub fn jobs_menu() -> (m: JobsMenu)
    ensures
        m == (JobsMenu {}),
{
    JobsMenu {}
}

/// The colour (as `0xRRGGBB`) of the ping the jobs button shows, or none:
/// yellow for a job that needs attention, red for a failure, green for a
/// success.
pub fn ping_color(state: JobButtonState) -> (r: Option<u32>)
    ensures
        r == match state {
            JobButtonState::Hidden | JobButtonState::Idle => None,
            JobButtonState::HaveRequiresAttention => Some(0xFFFF00u32),
            JobButtonState::HaveFailure => Some(0xFF0000u32),
            JobButtonState::HaveSuccess => Some(0x00FF00u32),
        },
        r.is_some() == job_button_animates_spec(state),
{
    match state {
        JobButtonState::Hidden => None,
        JobButtonState::Idle => None,
        JobButtonState::HaveRequiresAttention => Some(0xFFFF00),
        JobButtonState::HaveFailure => Some(0xFF0000),
        JobButtonState::HaveSuccess => Some(0x00FF00),
    }
}

pub open spec fn job_button_animates_spec(state: JobButtonState) -> bool {
    state == JobButtonState::HaveRequiresAttention || state == JobButtonState::HaveFailure
        || state == JobButtonState::HaveSuccess
}

} // verus!
