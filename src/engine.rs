//! The scheduler: jobs in declared order, skips on failed dependencies,
//! cleanup after every attempted job, and the run's final result.
use vstd::prelude::*;

use linked_hash_map::LinkedHashMap;

use crate::env::env_view;
use crate::executor::{do_job, job_fits, job_start, JobRun, RunError};
use crate::model::{needs_of, Job, Workflow, WorkflowOptions};
use crate::ordered::{job_at, job_count, job_entries};
use crate::runtime::{calls_view, clean_job, cleanup_calls, Call, Invocation};

verus! {

/// What became of a job.
#[derive(Clone, Copy, Debug, PartialEq, Eq, Structural)]
pub enum JobStatus {
    /// Visited, not yet decided.
    NoStatus,
    /// Not run, because a job it needs failed.
    Skipped,
    Success,
    Failed,
}

/// Where a run stands.
pub struct Schedule {
    /// The job being run or cleaned up.
    pub job: usize,
    /// The status of each job visited so far, in declared order.
    pub statuses: Vec<JobStatus>,
    /// The current job's progress, while it runs.
    pub run: JobRun,
    /// Whether the current job is being cleaned up.
    pub cleaning: bool,
    /// The position within the cleanup calls.
    pub pos: usize,
    /// How the run ended, once it has.
    pub result: Option<Result<(), RunError>>,
}

/// A run's state over plain values.
pub struct ScheduleView {
    pub job: int,
    pub statuses: Seq<JobStatus>,
    pub run: JobRun,
    pub cleaning: bool,
    pub pos: int,
    pub result: Option<Result<(), RunError>>,
}

impl View for Schedule {
    type V = ScheduleView;

    open spec fn view(&self) -> ScheduleView {
        ScheduleView {
            job: self.job as int,
            statuses: self.statuses@,
            run: self.run,
            cleaning: self.cleaning,
            pos: self.pos as int,
            result: self.result,
        }
    }
}

/// The executor state kept while no job runs.
pub open spec fn idle() -> JobRun {
    JobRun { unit: 0, pos: 0, services_ok: true, outcome: None }
}

/// Need `i` names job `j`, and job `j` failed.
pub open spec fn need_failed(
    needs: Seq<String>,
    entries: Seq<(String, Job)>,
    st: Seq<JobStatus>,
    i: int,
    j: int,
) -> bool {
    &&& 0 <= i < needs.len()
    &&& 0 <= j < st.len()
    &&& j < entries.len()
    &&& entries[j].0@ == needs[i]@
    &&& st[j] == JobStatus::Failed
}

/// Some job named in `needs` has failed.
pub open spec fn skip_needed(needs: Seq<String>, entries: Seq<(String, Job)>, st: Seq<JobStatus>) -> bool {
    exists|i: int, j: int| #[trigger] need_failed(needs, entries, st, i, j)
}

/// Every job's call counts fit a machine word.
pub open spec fn jobs_fit(jobs: LinkedHashMap<String, Job>) -> bool {
    forall|k: int| 0 <= k < job_entries(jobs).len() ==> job_fits(#[trigger] job_entries(jobs)[k].1)
}

/// The state on reaching job `k`, the statuses of the jobs before it being
/// `st`: a job with a failed dependency is skipped; a job refused at once is
/// concluded at once; otherwise the job starts.
pub open spec fn enter(
    jobs: LinkedHashMap<String, Job>,
    opts: WorkflowOptions,
    k: int,
    st: Seq<JobStatus>,
) -> ScheduleView
    decreases job_entries(jobs).len() - k, 1int,
{
    let e = job_entries(jobs);
    if k < 0 || k >= e.len() {
        ScheduleView { job: k, statuses: st, run: idle(), cleaning: false, pos: 0, result: Some(Ok(())) }
    } else if skip_needed(needs_of(e[k].1), e, st) {
        enter(jobs, opts, k + 1, st.push(JobStatus::Skipped))
    } else {
        let run = job_start(e[k].0, e[k].1);
        match run.outcome {
            Some(o) => conclude(jobs, opts, k, st.push(JobStatus::NoStatus), o),
            None => ScheduleView {
                job: k,
                statuses: st.push(JobStatus::NoStatus),
                run,
                cleaning: false,
                pos: 0,
                result: None,
            },
        }
    }
}

/// The state once job `k` has ended with `o`: its status is recorded; a
/// failure that may not be continued past ends the run; otherwise the job is
/// cleaned up and the next one is reached.
pub open spec fn conclude(
    jobs: LinkedHashMap<String, Job>,
    opts: WorkflowOptions,
    k: int,
    st: Seq<JobStatus>,
    o: Result<(), RunError>,
) -> ScheduleView
    decreases job_entries(jobs).len() - k, 0int,
{
    let e = job_entries(jobs);
    let st2 = st.update(k, if o is Ok { JobStatus::Success } else { JobStatus::Failed });
    if k < 0 || k >= e.len() {
        ScheduleView { job: k, statuses: st2, run: idle(), cleaning: false, pos: 0, result: Some(o) }
    } else if o is Err && !e[k].1.continue_on_error {
        ScheduleView { job: k, statuses: st2, run: idle(), cleaning: false, pos: 0, result: Some(o) }
    } else if cleanup_calls(e[k].1, opts).len() > 0 {
        ScheduleView { job: k, statuses: st2, run: idle(), cleaning: true, pos: 0, result: None }
    } else {
        enter(jobs, opts, k + 1, st2)
    }
}

impl ScheduleView {
    /// A state that the run's operations can work from.
    pub open spec fn valid(self, jobs: LinkedHashMap<String, Job>, opts: WorkflowOptions) -> bool {
        let e = job_entries(jobs);
        &&& jobs_fit(jobs)
        &&& self.result is None ==> {
            &&& 0 <= self.job < e.len()
            &&& self.statuses.len() == self.job + 1
            &&& self.cleaning ==> 0 <= self.pos < cleanup_calls(e[self.job].1, opts).len()
            &&& !self.cleaning ==> self.run.valid(e[self.job].1) && self.run.outcome is None
        }
        &&& self.result matches Some(Ok(_)) ==> self.statuses.len() == e.len()
    }

    /// The call the run waits on; none once it has ended.
    pub open spec fn next_call(
        self,
        jobs: LinkedHashMap<String, Job>,
        inherited: Seq<(Seq<char>, Seq<char>)>,
        opts: WorkflowOptions,
    ) -> Option<Call> {
        let e = job_entries(jobs);
        if self.result is Some {
            None
        } else if self.cleaning {
            Some(cleanup_calls(e[self.job].1, opts)[self.pos])
        } else {
            self.run.next_call(e[self.job].1, inherited, opts)
        }
    }

    /// The state after the awaited call reported `ok`. A cleanup call's
    /// result changes nothing.
    pub open spec fn after(
        self,
        jobs: LinkedHashMap<String, Job>,
        opts: WorkflowOptions,
        ok: bool,
    ) -> ScheduleView {
        let e = job_entries(jobs);
        if self.result is Some {
            self
        } else if self.cleaning {
            if self.pos + 1 < cleanup_calls(e[self.job].1, opts).len() {
                ScheduleView { pos: self.pos + 1, ..self }
            } else {
                enter(jobs, opts, self.job + 1, self.statuses)
            }
        } else {
            let r = self.run.after(e[self.job].0, e[self.job].1, opts, ok);
            match r.outcome {
                Some(o) => conclude(jobs, opts, self.job, self.statuses, o),
                None => ScheduleView { run: r, ..self },
            }
        }
    }
}

/// Whether a job named in `needs` has failed, `statuses` holding the status
/// of each job visited so far.
fn needs_failed(n: &Vec<String>, jobs: &LinkedHashMap<String, Job>, statuses: &Vec<JobStatus>) -> (r:
    bool)
    requires
        statuses@.len() <= job_entries(*jobs).len(),
    ensures
        r == skip_needed(n@, job_entries(*jobs), statuses@),
{
    let ghost e = job_entries(*jobs);
    let mut i: usize = 0;
    while i < n.len()
        invariant
            i <= n@.len(),
            statuses@.len() <= e.len(),
            e == job_entries(*jobs),
            forall|ii: int, jj: int| 0 <= ii < i ==> !#[trigger] need_failed(n@, e, statuses@, ii, jj),
        decreases n@.len() - i,
    {
        let mut j: usize = 0;
        while j < statuses.len()
            invariant
                i < n@.len(),
                j <= statuses@.len(),
                statuses@.len() <= e.len(),
                e == job_entries(*jobs),
                forall|ii: int, jj: int| 0 <= ii < i ==> !#[trigger] need_failed(n@, e, statuses@, ii, jj),
                forall|jj: int| 0 <= jj < j ==> !#[trigger] need_failed(n@, e, statuses@, i as int, jj),
            decreases statuses@.len() - j,
        {
            let (name, _) = job_at(jobs, j);
            if statuses[j] == JobStatus::Failed && name.eq(&n[i]) {
                assert(need_failed(n@, e, statuses@, i as int, j as int));
                return true;
            }
            j = j + 1;
        }
        assert forall|ii: int, jj: int| 0 <= ii < i + 1 implies !#[trigger] need_failed(n@, e, statuses@, ii, jj) by {
            if ii == i && 0 <= jj < statuses@.len() {
            }
        }
        i = i + 1;
    }
    false
}

impl Schedule {
    /// Moves on from job `k`: it concludes that job with `outcome` when one
    /// is given, else reaches it, and goes on until a call is awaited or the
    /// run has ended.
    fn settle(
        &mut self,
        jobs: &LinkedHashMap<String, Job>,
        opts: &WorkflowOptions,
        from: usize,
        ended: Option<Result<(), RunError>>,
    )
        requires
            jobs_fit(*jobs),
            match ended {
                Some(_) => from < job_entries(*jobs).len() && old(self).statuses@.len() == from + 1,
                None => from <= job_entries(*jobs).len() && old(self).statuses@.len() == from,
            },
        ensures
            final(self)@ == match ended {
                Some(o) => conclude(*jobs, *opts, from as int, old(self).statuses@, o),
                None => enter(*jobs, *opts, from as int, old(self).statuses@),
            },
            final(self)@.valid(*jobs, *opts),
    {
        let ghost target = if ended is Some {
            conclude(*jobs, *opts, from as int, self.statuses@, ended->0)
        } else {
            enter(*jobs, *opts, from as int, self.statuses@)
        };
        let n = job_count(jobs);
        let mut k = from;
        let mut outcome = ended;
        loop
            invariant_except_break
                target == if outcome is Some {
                    conclude(*jobs, *opts, k as int, self.statuses@, outcome->0)
                } else {
                    enter(*jobs, *opts, k as int, self.statuses@)
                },
                outcome is Some ==> k < n && self.statuses@.len() == k + 1,
                outcome is None ==> k <= n && self.statuses@.len() == k,
            invariant
                jobs_fit(*jobs),
                n == job_entries(*jobs).len(),
            ensures
                self@ == target,
                self@.valid(*jobs, *opts),
            decreases n - k, if outcome is Some { 0int } else { 1int },
        {
            match outcome {
                Some(o) => {
                    let (_, job) = job_at(jobs, k);
                    let failed = o.is_err();
                    self.statuses.set(k, if failed { JobStatus::Failed } else { JobStatus::Success });
                    if failed && !job.continue_on_error {
                        self.job = k;
                        self.run = JobRun { unit: 0, pos: 0, services_ok: true, outcome: None };
                        self.cleaning = false;
                        self.pos = 0;
                        self.result = Some(o);
                        break;
                    }
                    let plan = clean_job(job, opts);
                    assert(calls_view(plan@).len() == plan@.len());
                    if plan.len() > 0 {
                        self.job = k;
                        self.run = JobRun { unit: 0, pos: 0, services_ok: true, outcome: None };
                        self.cleaning = true;
                        self.pos = 0;
                        self.result = None;
                        break;
                    }
                    k = k + 1;
                    outcome = None;
                },
                None => {
                    if k == n {
                        self.job = k;
                        self.run = JobRun { unit: 0, pos: 0, services_ok: true, outcome: None };
                        self.cleaning = false;
                        self.pos = 0;
                        self.result = Some(Ok(()));
                        break;
                    }
                    let (name, job) = job_at(jobs, k);
                    let skip = match &job.needs {
                        Some(needs) => needs_failed(needs, jobs, &self.statuses),
                        None => false,
                    };
                    if skip {
                        self.statuses.push(JobStatus::Skipped);
                        k = k + 1;
                    } else {
                        self.statuses.push(JobStatus::NoStatus);
                        assert(job_fits(job_entries(*jobs)[k as int].1));
                        let run = do_job(name, job);
                        match run.outcome {
                            Some(o) => {
                                outcome = Some(o);
                            },
                            None => {
                                self.job = k;
                                self.run = run;
                                self.cleaning = false;
                                self.pos = 0;
                                self.result = None;
                                break;
                            },
                        }
                    }
                },
            }
        }
    }
}

impl Schedule {
    /// The invocation the run waits on; none once it has ended.
    pub fn next_invocation(
        &self,
        jobs: &LinkedHashMap<String, Job>,
        inherited: &Option<Vec<(String, String)>>,
        opts: &WorkflowOptions,
    ) -> (r: Option<Invocation>)
        requires
            self@.valid(*jobs, *opts),
        ensures
            match r {
                Some(i) => self@.next_call(*jobs, env_view(*inherited), *opts) == Some(i@),
                None => self@.next_call(*jobs, env_view(*inherited), *opts) is None,
            },
    {
        if self.result.is_some() {
            return None;
        }
        let (_, job) = job_at(jobs, self.job);
        if self.cleaning {
            let mut plan = clean_job(job, opts);
            assert(calls_view(plan@)[self.pos as int] == plan@[self.pos as int]@);
            Some(plan.remove(self.pos))
        } else {
            self.run.next_invocation(job, inherited, opts)
        }
    }

    /// Takes the result of the awaited invocation and moves on to the next
    /// call, or to the end of the run.
    pub fn advance(&mut self, jobs: &LinkedHashMap<String, Job>, opts: &WorkflowOptions, ok: bool)
        requires
            old(self)@.valid(*jobs, *opts),
        ensures
            final(self)@ == old(self)@.after(*jobs, *opts, ok),
            final(self)@.valid(*jobs, *opts),
    {
        if self.result.is_some() {
            return;
        }
        let (name, job) = job_at(jobs, self.job);
        if self.cleaning {
            let plan = clean_job(job, opts);
            assert(calls_view(plan@).len() == plan@.len());
            let n = job_count(jobs);
            assert(self.pos < cleanup_calls(*job, *opts).len());
            assert(self.pos < plan.len());
            if self.pos + 1 < plan.len() {
                self.pos = self.pos + 1;
            } else {
                let k = self.job;
                assert(k < n);
                self.settle(jobs, opts, k + 1, None);
            }
        } else {
            self.run.advance(name, job, opts, ok);
            if self.run.outcome.is_some() {
                let o = self.run.outcome.take();
                let k = self.job;
                self.settle(jobs, opts, k, o);
            }
        }
    }

    /// How the run ended: the status of every job in declared order, or the
    /// failure that stopped it.
    pub fn finish(self, jobs: &LinkedHashMap<String, Job>) -> (r: Result<Vec<(String, JobStatus)>, RunError>)
        requires
            self@.result is Some,
            self@.result matches Some(Ok(_)) ==> self@.statuses.len() == job_entries(*jobs).len(),
        ensures
            self@.result matches Some(Ok(_)) ==> {
                &&& r is Ok
                &&& r->Ok_0@.len() == job_entries(*jobs).len()
                &&& forall|i: int|
                    0 <= i < r->Ok_0@.len() ==> #[trigger] r->Ok_0@[i] == (
                        job_entries(*jobs)[i].0,
                        self@.statuses[i],
                    )
            },
            self@.result matches Some(Err(e)) ==> r == Err::<Vec<(String, JobStatus)>, RunError>(e),
    {
        let ghost v = self@;
        match self.result {
            Some(Err(e)) => Err(e),
            None => Err(RunError::NoJobs),
            Some(Ok(())) => {
                let n = job_count(jobs);
                let mut r: Vec<(String, JobStatus)> = Vec::new();
                let mut i: usize = 0;
                while i < n
                    invariant
                        n == job_entries(*jobs).len(),
                        v.statuses.len() == n,
                        v.statuses == self.statuses@,
                        i <= n,
                        r@.len() == i,
                        forall|j: int| 0 <= j < i ==> #[trigger] r@[j] == (job_entries(*jobs)[j].0, v.statuses[j]),
                    decreases n - i,
                {
                    let (name, _) = job_at(jobs, i);
                    r.push((name.clone(), self.statuses[i]));
                    i = i + 1;
                }
                Ok(r)
            },
        }
    }
}

/// A job among the first `k + 1` is named `n`.
pub open spec fn scheduled_by(entries: Seq<(String, Job)>, k: int, n: Seq<char>) -> bool {
    exists|j: int| 0 <= j <= k && j < entries.len() && #[trigger] entries[j].0@ == n
}

/// The names in `needs`, in order, that no job up to job `k` bears: at job
/// `k`'s turn nothing has been recorded for them, so they cannot cause a skip.
pub open spec fn unscheduled(needs: Seq<String>, entries: Seq<(String, Job)>, k: int) -> Seq<String>
    decreases needs.len(),
{
    if needs.len() == 0 {
        Seq::empty()
    } else {
        unscheduled(needs.drop_last(), entries, k) + if scheduled_by(entries, k, needs.last()@) {
            Seq::empty()
        } else {
            seq![needs.last()]
        }
    }
}

/// The dependencies of job `k` that are not scheduled by its turn, for the
/// driver to warn about.
pub fn unscheduled_needs(jobs: &LinkedHashMap<String, Job>, k: usize) -> (r: Vec<String>)
    requires
        k < job_entries(*jobs).len(),
    ensures
        r@ == unscheduled(needs_of(job_entries(*jobs)[k as int].1), job_entries(*jobs), k as int),
{
    let ghost e = job_entries(*jobs);
    let n = job_count(jobs);
    let (_, job) = job_at(jobs, k);
    let mut r: Vec<String> = Vec::new();
    match &job.needs {
        None => {
            assert(needs_of(*job) =~= Seq::<String>::empty());
        },
        Some(needs) => {
            let mut i: usize = 0;
            while i < needs.len()
                invariant
                    k < e.len(),
                    n == e.len(),
                    e == job_entries(*jobs),
                    i <= needs@.len(),
                    r@ == unscheduled(needs@.subrange(0, i as int), e, k as int),
                decreases needs@.len() - i,
            {
                let mut j: usize = 0;
                let mut found = false;
                while j <= k && !found
                    invariant
                        k < e.len(),
                        n == e.len(),
                        e == job_entries(*jobs),
                        i < needs@.len(),
                        j <= k + 1,
                        found ==> scheduled_by(e, k as int, needs@[i as int]@),
                        !found ==> forall|jj: int| 0 <= jj < j ==> e[jj].0@ != needs@[i as int]@,
                    decreases k + 1 - j, if found { 0int } else { 1int },
                {
                    let (name, _) = job_at(jobs, j);
                    if name.eq(&needs[i]) {
                        assert(e[j as int].0@ == needs@[i as int]@);
                        found = true;
                    } else {
                        j = j + 1;
                    }
                }
                let ghost part = needs@.subrange(0, i + 1);
                assert(part.drop_last() =~= needs@.subrange(0, i as int));
                assert(part.last() == needs@[i as int]);
                if !found {
                    r.push(needs[i].clone());
                }
                i = i + 1;
                assert(r@ =~= unscheduled(needs@.subrange(0, i as int), e, k as int));
            }
            assert(needs@.subrange(0, i as int) =~= needs@);
        },
    }
    r
}

/// Starts running `jobs` in their declared order.
pub fn do_jobs(jobs: &LinkedHashMap<String, Job>, opts: &WorkflowOptions) -> (r: Schedule)
    requires
        jobs_fit(*jobs),
    ensures
        r@ == enter(*jobs, *opts, 0, Seq::empty()),
        r@.valid(*jobs, *opts),
{
    let mut r = Schedule {
        job: 0,
        statuses: Vec::new(),
        run: JobRun { unit: 0, pos: 0, services_ok: true, outcome: None },
        cleaning: false,
        pos: 0,
        result: None,
    };
    r.settle(jobs, opts, 0, None);
    r
}

/// Starts running a workflow; one without jobs is refused before anything
/// is issued.
pub fn do_workflow(wf: &Workflow, opts: &WorkflowOptions) -> (r: Result<Schedule, RunError>)
    requires
        jobs_fit(wf.jobs),
    ensures
        job_entries(wf.jobs).len() == 0 <==> r is Err,
        r is Err ==> r == Err::<Schedule, RunError>(RunError::NoJobs),
        r matches Ok(s) ==> s@ == enter(wf.jobs, *opts, 0, Seq::empty()) && s@.valid(wf.jobs, *opts),
{
    if job_count(&wf.jobs) == 0 {
        return Err(RunError::NoJobs);
    }
    Ok(do_jobs(&wf.jobs, opts))
}

} // verus!
