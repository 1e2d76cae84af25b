//! The in-memory workflow description.
use vstd::prelude::*;

use linked_hash_map::LinkedHashMap;

verus! {

/// A container: an image reference, its own environment and its volumes.
pub struct Container {
    pub image: String,
    pub env: Option<Vec<(String, String)>>,
    /// Volume specifications in `source:target` form.
    pub volumes: Option<Vec<String>>,
}

/// A step of a job; declared but not executed.
pub struct Step {
    pub name: Option<String>,
    pub run: String,
    pub uses: Option<String>,
    pub with: Option<String>,
    pub env: Option<Vec<(String, String)>>,
}

/// A job: one main container, its services, its dependencies.
pub struct Job {
    pub container: Container,
    /// Service containers, started before the main container, in this order.
    pub services: Option<Vec<(String, Container)>>,
    /// Names of jobs that must not have failed for this job to run.
    pub needs: Option<Vec<String>>,
    pub steps: Option<Vec<Step>>,
    pub continue_on_error: bool,
}

/// A workflow: jobs in execution order and the environment they inherit.
pub struct Workflow {
    pub name: Option<String>,
    pub jobs: LinkedHashMap<String, Job>,
    pub env: Option<Vec<(String, String)>>,
}

/// Run-wide switches.
#[derive(Clone, Copy, Debug, PartialEq, Eq)]
pub struct WorkflowOptions {
    /// Issue nothing to the runtime; every invocation counts as a success.
    pub dry_run: bool,
    /// Keep containers and images for inspection.
    pub debug: bool,
    /// Give containers the host's devices and elevated privileges.
    pub privileged: bool,
}

/// The services of a job, in order (none when absent).
pub open spec fn services_of(job: Job) -> Seq<(String, Container)> {
    match job.services {
        Some(s) => s@,
        None => Seq::empty(),
    }
}

/// The dependency names of a job (none when absent).
pub open spec fn needs_of(job: Job) -> Seq<String> {
    match job.needs {
        Some(n) => n@,
        None => Seq::empty(),
    }
}

/// The volume specifications of a container (none when absent).
pub open spec fn volumes_of(c: Container) -> Seq<String> {
    match c.volumes {
        Some(v) => v@,
        None => Seq::empty(),
    }
}

} // verus!
