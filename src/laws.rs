//! What holds of every run.
use vstd::prelude::*;

use linked_hash_map::LinkedHashMap;

use crate::engine::{conclude, enter, idle, skip_needed, JobStatus, ScheduleView};
use crate::env::{env_map, env_view, lemma_layered, unique_keys};
use crate::executor::{job_start, unit_calls, unit_container, JobRun, RunError};
use crate::model::{needs_of, services_of, Job, WorkflowOptions};
use crate::ordered::job_entries;
use crate::runtime::{cleanup_calls, Call};

verus! {

/// The calls a run issues from state `s` when the calls report `outcomes`
/// in turn.
pub open spec fn trace(
    jobs: LinkedHashMap<String, Job>,
    inherited: Seq<(Seq<char>, Seq<char>)>,
    opts: WorkflowOptions,
    s: ScheduleView,
    outcomes: Seq<bool>,
) -> Seq<Call>
    decreases outcomes.len(),
{
    if outcomes.len() == 0 {
        Seq::empty()
    } else {
        match s.next_call(jobs, inherited, opts) {
            None => Seq::empty(),
            Some(c) => seq![c] + trace(
                jobs,
                inherited,
                opts,
                s.after(jobs, opts, outcomes[0]),
                outcomes.drop_first(),
            ),
        }
    }
}

/// A job whose main image is empty fails at once, with nothing issued.
pub proof fn lemma_empty_image_issues_nothing(
    name: String,
    job: Job,
    inherited: Seq<(Seq<char>, Seq<char>)>,
    opts: WorkflowOptions,
)
    requires
        job.container.image@.len() == 0,
    ensures
        job_start(name, job).outcome == Some(Err::<(), RunError>(RunError::EmptyImage { job: name })),
        job_start(name, job).next_call(job, inherited, opts) is None,
{
}

/// A job that needs a job which has already failed is marked skipped, and
/// the run goes straight on to the next job without issuing anything for it.
pub proof fn lemma_failed_need_skips(
    jobs: LinkedHashMap<String, Job>,
    opts: WorkflowOptions,
    k: int,
    st: Seq<JobStatus>,
)
    requires
        0 <= k < job_entries(jobs).len(),
        st.len() == k,
        skip_needed(needs_of(job_entries(jobs)[k].1), job_entries(jobs), st),
    ensures
        enter(jobs, opts, k, st) == enter(jobs, opts, k + 1, st.push(JobStatus::Skipped)),
        enter(jobs, opts, k, st).statuses[k] == JobStatus::Skipped,
        enter(jobs, opts, k, st).result is None ==> enter(jobs, opts, k, st).job > k,
{
    lemma_enter_keeps(jobs, opts, k + 1, st.push(JobStatus::Skipped));
    let r = enter(jobs, opts, k + 1, st.push(JobStatus::Skipped));
    assert(r.statuses[k] == r.statuses.subrange(0, k + 1)[k]);
}

proof fn lemma_enter_keeps(jobs: LinkedHashMap<String, Job>, opts: WorkflowOptions, k: int, st: Seq<JobStatus>)
    requires
        0 <= k,
        st.len() == k,
    ensures
        enter(jobs, opts, k, st).statuses.len() >= k,
        enter(jobs, opts, k, st).statuses.subrange(0, k) == st,
        enter(jobs, opts, k, st).result is None ==> enter(jobs, opts, k, st).job >= k,
    decreases job_entries(jobs).len() - k, 1int,
{
    let e = job_entries(jobs);
    if k >= e.len() {
        assert(st.subrange(0, k) =~= st);
    } else if skip_needed(needs_of(e[k].1), e, st) {
        lemma_enter_keeps(jobs, opts, k + 1, st.push(JobStatus::Skipped));
        let r = enter(jobs, opts, k + 1, st.push(JobStatus::Skipped));
        assert(r.statuses.subrange(0, k) =~= r.statuses.subrange(0, k + 1).subrange(0, k));
        assert(st.push(JobStatus::Skipped).subrange(0, k) =~= st);
    } else {
        let run = job_start(e[k].0, e[k].1);
        let st2 = st.push(JobStatus::NoStatus);
        assert(st2.subrange(0, k) =~= st);
        if run.outcome is Some {
            lemma_conclude_keeps(jobs, opts, k, st2, run.outcome->0);
        }
    }
}

proof fn lemma_conclude_keeps(
    jobs: LinkedHashMap<String, Job>,
    opts: WorkflowOptions,
    k: int,
    st: Seq<JobStatus>,
    o: Result<(), RunError>,
)
    requires
        0 <= k,
        st.len() == k + 1,
    ensures
        conclude(jobs, opts, k, st, o).statuses.len() >= k + 1,
        conclude(jobs, opts, k, st, o).statuses.subrange(0, k) == st.subrange(0, k),
        conclude(jobs, opts, k, st, o).result is None ==> conclude(jobs, opts, k, st, o).job >= k,
    decreases job_entries(jobs).len() - k, 0int,
{
    let e = job_entries(jobs);
    let st2 = st.update(k, if o is Ok { JobStatus::Success } else { JobStatus::Failed });
    assert(st2.subrange(0, k) =~= st.subrange(0, k));
    if k < e.len() && !(o is Err && !e[k].1.continue_on_error) && !(cleanup_calls(e[k].1, opts).len() > 0) {
        lemma_enter_keeps(jobs, opts, k + 1, st2);
        let r = enter(jobs, opts, k + 1, st2);
        assert(r.statuses.subrange(0, k) =~= r.statuses.subrange(0, k + 1).subrange(0, k));
        assert(st2.subrange(0, k + 1) =~= st2);
    }
}

/// Once the run has moved past a job, that job's recorded status never
/// changes: in particular a skipped job stays skipped.
pub proof fn lemma_earlier_status_kept(
    jobs: LinkedHashMap<String, Job>,
    opts: WorkflowOptions,
    s: ScheduleView,
    ok: bool,
)
    requires
        s.valid(jobs, opts),
    ensures
        s.after(jobs, opts, ok).statuses.len() >= s.statuses.len() || s.result is Some,
        s.result is None ==> s.after(jobs, opts, ok).statuses.subrange(0, s.job) == s.statuses.subrange(0, s.job),
        s.result is None && s.after(jobs, opts, ok).result is None ==> s.after(jobs, opts, ok).job >= s.job,
{
    if s.result is None {
        let e = job_entries(jobs);
        if s.cleaning {
            if s.pos + 1 >= cleanup_calls(e[s.job].1, opts).len() {
                lemma_enter_keeps(jobs, opts, s.job + 1, s.statuses);
                let r = enter(jobs, opts, s.job + 1, s.statuses);
                assert(r.statuses.subrange(0, s.job) =~= r.statuses.subrange(0, s.job + 1).subrange(0, s.job));
                assert(s.statuses.subrange(0, s.job + 1) =~= s.statuses);
            }
        } else {
            let r = s.run.after(e[s.job].0, e[s.job].1, opts, ok);
            if r.outcome is Some {
                lemma_conclude_keeps(jobs, opts, s.job, s.statuses, r.outcome->0);
            }
        }
    }
}

/// A job that fails and may not be continued past ends the run with its
/// error: it is recorded failed, nothing more is issued, and no later job is
/// evaluated.
pub proof fn lemma_failure_aborts(
    jobs: LinkedHashMap<String, Job>,
    inherited: Seq<(Seq<char>, Seq<char>)>,
    opts: WorkflowOptions,
    k: int,
    st: Seq<JobStatus>,
    e: RunError,
)
    requires
        0 <= k < job_entries(jobs).len(),
        st.len() == k + 1,
        !job_entries(jobs)[k].1.continue_on_error,
    ensures
        conclude(jobs, opts, k, st, Err(e)).result == Some(Err::<(), RunError>(e)),
        conclude(jobs, opts, k, st, Err(e)).statuses == st.update(k, JobStatus::Failed),
        conclude(jobs, opts, k, st, Err(e)).next_call(jobs, inherited, opts) is None,
{
}

/// A job that fails but may be continued past is recorded failed and the run
/// goes on: to its cleanup when there is any, else to the next job.
pub proof fn lemma_failure_continues(
    jobs: LinkedHashMap<String, Job>,
    opts: WorkflowOptions,
    k: int,
    st: Seq<JobStatus>,
    e: RunError,
)
    requires
        0 <= k < job_entries(jobs).len(),
        st.len() == k + 1,
        job_entries(jobs)[k].1.continue_on_error,
    ensures
        cleanup_calls(job_entries(jobs)[k].1, opts).len() > 0 ==> conclude(jobs, opts, k, st, Err(e))
            == (ScheduleView {
            job: k,
            statuses: st.update(k, JobStatus::Failed),
            run: idle(),
            cleaning: true,
            pos: 0,
            result: None,
        }),
        cleanup_calls(job_entries(jobs)[k].1, opts).len() == 0 ==> conclude(jobs, opts, k, st, Err(e))
            == enter(jobs, opts, k + 1, st.update(k, JobStatus::Failed)),
{
}

/// Services are started best effort, and the main container only after all
/// of them: a failed service lets the next one be tried, and once the last
/// has ended with any service failed the job fails naming itself.
pub proof fn lemma_services_first(name: String, job: Job, opts: WorkflowOptions, s: JobRun, ok: bool)
    requires
        s.valid(job),
        s.outcome is None,
        s.unit == services_of(job).len() ==> s.services_ok,
    ensures
        s.after(name, job, opts, ok).outcome is None && s.after(name, job, opts, ok).unit
            == services_of(job).len() ==> s.after(name, job, opts, ok).services_ok,
        s.unit + 1 < services_of(job).len() && !(ok || opts.dry_run) ==> s.after(name, job, opts, ok)
            == (JobRun { unit: (s.unit + 1) as usize, pos: 0, services_ok: false, outcome: None }),
        s.unit < services_of(job).len() && s.after(name, job, opts, ok).outcome is Some
            ==> s.after(name, job, opts, ok).outcome == Some(
            Err::<(), RunError>(RunError::ServiceFailed { job: name }),
        ),
{
}

/// In a dry run a job that has started never fails, and no service is
/// counted failed.
pub proof fn lemma_dry_run_job_succeeds(name: String, job: Job, opts: WorkflowOptions, s: JobRun, ok: bool)
    requires
        opts.dry_run,
        s.valid(job),
        s.outcome is None,
        s.services_ok,
    ensures
        s.after(name, job, opts, ok).services_ok,
        !(s.after(name, job, opts, ok).outcome matches Some(Err(_))),
{
}

/// Every container is run with the inherited environment overlaid by its own
/// (its keys win), one pair per key; a service never sees the main
/// container's environment.
pub proof fn lemma_run_env(
    job: Job,
    inherited: Seq<(Seq<char>, Seq<char>)>,
    opts: WorkflowOptions,
    u: int,
)
    requires
        0 <= u <= services_of(job).len(),
    ensures
        u < services_of(job).len() ==> unit_container(job, u) == services_of(job)[u].1,
        u == services_of(job).len() ==> unit_container(job, u) == job.container,
        unit_calls(job, inherited, opts, u).last() matches Call::Run { env, .. } && unique_keys(env)
            && env_map(env) == env_map(inherited).union_prefer_right(
            env_map(env_view(unit_container(job, u).env)),
        ),
{
    lemma_layered(inherited, env_view(unit_container(job, u).env));
}

/// In a dry run every call counts as a success, so what the calls report
/// cannot change the next state.
pub proof fn lemma_dry_run_ignores_outcome(
    jobs: LinkedHashMap<String, Job>,
    opts: WorkflowOptions,
    s: ScheduleView,
    a: bool,
    b: bool,
)
    requires
        opts.dry_run,
    ensures
        s.after(jobs, opts, a) == s.after(jobs, opts, b),
{
}

/// A dry run issues the same calls each time it is made: what it issues
/// depends on the workflow and the options alone.
pub proof fn lemma_dry_run_repeatable(
    jobs: LinkedHashMap<String, Job>,
    inherited: Seq<(Seq<char>, Seq<char>)>,
    opts: WorkflowOptions,
    s: ScheduleView,
    first: Seq<bool>,
    second: Seq<bool>,
)
    requires
        opts.dry_run,
        first.len() == second.len(),
    ensures
        trace(jobs, inherited, opts, s, first) == trace(jobs, inherited, opts, s, second),
    decreases first.len(),
{
    if first.len() > 0 {
        lemma_dry_run_ignores_outcome(jobs, opts, s, first[0], second[0]);
        lemma_dry_run_repeatable(
            jobs,
            inherited,
            opts,
            s.after(jobs, opts, first[0]),
            first.drop_first(),
            second.drop_first(),
        );
    }
}

} // verus!
