//! Running one job: services first, best effort, then the main container.
use vstd::prelude::*;

use crate::env::{env_view, layered, merged_env};
use crate::model::{services_of, volumes_of, Container, Job, WorkflowOptions};
use crate::runtime::{calls_view, container_calls, container_plan, Call, Invocation};

verus! {

/// Why a run or a job failed.
#[derive(Clone, Debug, PartialEq, Eq)]
pub enum RunError {
    /// The workflow has no jobs.
    NoJobs,
    /// The named job has no image.
    EmptyImage { job: String },
    /// A service container of the named job could not be started.
    ServiceFailed { job: String },
    /// The main image of the named job could not be prepared.
    PrepareFailed { job: String },
    /// The main container with this image could not be started.
    StartFailed { image: String },
}

/// Where a job stands: which unit of work, which call within it, and how it
/// ended once it has.
///
/// Units `0 .. n` are the job's `n` services in order; unit `n` is the main
/// container.
pub struct JobRun {
    pub unit: usize,
    pub pos: usize,
    pub services_ok: bool,
    pub outcome: Option<Result<(), RunError>>,
}

/// The container of a unit.
pub open spec fn unit_container(job: Job, u: int) -> Container {
    if u < services_of(job).len() {
        services_of(job)[u].1
    } else {
        job.container
    }
}

/// The calls of a unit: a service runs detached, the main container attached;
/// each gets the inherited environment overlaid by its own, one pair per key.
pub open spec fn unit_calls(
    job: Job,
    inherited: Seq<(Seq<char>, Seq<char>)>,
    opts: WorkflowOptions,
    u: int,
) -> Seq<Call> {
    let c = unit_container(job, u);
    container_calls(c, u < services_of(job).len(), layered(inherited, env_view(c.env)), opts)
}

pub open spec fn unit_len(job: Job, u: int) -> int {
    volumes_of(unit_container(job, u)).len() as int + 2
}

/// Every unit's call count fits a machine word.
pub open spec fn job_fits(job: Job) -> bool {
    forall|u: int| 0 <= u <= services_of(job).len() ==> unit_len(job, u) <= usize::MAX
}

/// The state in which a job starts: refused at once when it has no image.
pub open spec fn job_start(name: String, job: Job) -> JobRun {
    if job.container.image@.len() == 0 {
        JobRun {
            unit: 0,
            pos: 0,
            services_ok: true,
            outcome: Some(Err(RunError::EmptyImage { job: name })),
        }
    } else {
        JobRun { unit: 0, pos: 0, services_ok: true, outcome: None }
    }
}

impl JobRun {
    /// A state that `advance` and `next_call` can work from.
    pub open spec fn valid(self, job: Job) -> bool {
        &&& job_fits(job)
        &&& self.outcome is None ==> {
            &&& self.unit <= services_of(job).len()
            &&& self.pos < unit_len(job, self.unit as int)
        }
    }

    /// The call the job waits on; none once it has ended.
    pub open spec fn next_call(
        self,
        job: Job,
        inherited: Seq<(Seq<char>, Seq<char>)>,
        opts: WorkflowOptions,
    ) -> Option<Call> {
        if self.outcome is None {
            Some(unit_calls(job, inherited, opts, self.unit as int)[self.pos as int])
        } else {
            None
        }
    }

    /// The state after the awaited call reported `ok`. In a dry run every
    /// call counts as a success. A unit stops at its first failed call; a
    /// failed service does not stop the next one, but the main container is
    /// reached only when every service started.
    pub open spec fn after(self, name: String, job: Job, opts: WorkflowOptions, ok: bool) -> JobRun {
        let ok = ok || opts.dry_run;
        let n = services_of(job).len();
        if self.outcome is Some {
            self
        } else if ok && self.pos + 1 < unit_len(job, self.unit as int) {
            JobRun { pos: (self.pos + 1) as usize, ..self }
        } else if self.unit < n {
            let services_ok = self.services_ok && ok;
            if self.unit + 1 < n || services_ok {
                JobRun { unit: (self.unit + 1) as usize, pos: 0, services_ok, outcome: None }
            } else {
                JobRun {
                    services_ok,
                    outcome: Some(Err(RunError::ServiceFailed { job: name })),
                    ..self
                }
            }
        } else if ok {
            JobRun { outcome: Some(Ok(())), ..self }
        } else if self.pos == 0 {
            JobRun { outcome: Some(Err(RunError::PrepareFailed { job: name })), ..self }
        } else {
            JobRun {
                outcome: Some(Err(RunError::StartFailed { image: job.container.image })),
                ..self
            }
        }
    }

    /// The calls of the current unit.
    fn unit_plan(&self, job: &Job, inherited: &Option<Vec<(String, String)>>, opts: &WorkflowOptions) -> (r:
        Vec<Invocation>)
        requires
            self.valid(*job),
            self.outcome is None,
        ensures
            calls_view(r@) == unit_calls(*job, env_view(*inherited), *opts, self.unit as int),
            r@.len() == unit_len(*job, self.unit as int),
    {
        match &job.services {
            Some(s) if self.unit < s.len() => {
                let c = &s[self.unit].1;
                let env = merged_env(inherited, &c.env);
                let r = container_plan(c, true, env, opts);
                assert(calls_view(r@).len() == r@.len());
                r
            },
            _ => {
                let env = merged_env(inherited, &job.container.env);
                let r = container_plan(&job.container, false, env, opts);
                assert(calls_view(r@).len() == r@.len());
                r
            },
        }
    }

    /// The invocation the job waits on; none once it has ended.
    pub fn next_invocation(
        &self,
        job: &Job,
        inherited: &Option<Vec<(String, String)>>,
        opts: &WorkflowOptions,
    ) -> (r: Option<Invocation>)
        requires
            self.valid(*job),
        ensures
            match r {
                Some(i) => self.next_call(*job, env_view(*inherited), *opts) == Some(i@),
                None => self.next_call(*job, env_view(*inherited), *opts) is None,
            },
    {
        if self.outcome.is_some() {
            return None;
        }
        let mut plan = self.unit_plan(job, inherited, opts);
        assert(calls_view(plan@)[self.pos as int] == plan@[self.pos as int]@);
        Some(plan.remove(self.pos))
    }

    /// Takes the result of the awaited invocation.
    pub fn advance(&mut self, name: &String, job: &Job, opts: &WorkflowOptions, ok: bool)
        requires
            old(self).valid(*job),
        ensures
            *final(self) == old(self).after(*name, *job, *opts, ok),
            final(self).valid(*job),
    {
        if self.outcome.is_some() {
            return;
        }
        let ok = ok || opts.dry_run;
        let n: usize = match &job.services {
            Some(s) => s.len(),
            None => 0,
        };
        let c: &Container = match &job.services {
            Some(s) if self.unit < s.len() => &s[self.unit].1,
            _ => &job.container,
        };
        let len: usize = match &c.volumes {
            Some(v) => v.len(),
            None => 0,
        };
        if ok && self.pos <= len {
            self.pos = self.pos + 1;
        } else if self.unit < n {
            self.services_ok = self.services_ok && ok;
            if self.unit + 1 < n || self.services_ok {
                self.unit = self.unit + 1;
                self.pos = 0;
            } else {
                self.outcome = Some(Err(RunError::ServiceFailed { job: name.clone() }));
            }
        } else if ok {
            self.outcome = Some(Ok(()));
        } else if self.pos == 0 {
            self.outcome = Some(Err(RunError::PrepareFailed { job: name.clone() }));
        } else {
            self.outcome = Some(Err(RunError::StartFailed { image: job.container.image.clone() }));
        }
    }
}

/// Starts running `job` under `name`: it fails at once when its image is empty.
pub fn do_job(name: &String, job: &Job) -> (r: JobRun)
    requires
        job_fits(*job),
    ensures
        r == job_start(*name, *job),
        r.valid(*job),
{
    if job.container.image.unicode_len() == 0 {
        JobRun {
            unit: 0,
            pos: 0,
            services_ok: true,
            outcome: Some(Err(RunError::EmptyImage { job: name.clone() })),
        }
    } else {
        JobRun { unit: 0, pos: 0, services_ok: true, outcome: None }
    }
}

} // verus!
