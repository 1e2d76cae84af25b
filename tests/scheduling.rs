use iguana::engine::{do_jobs, do_workflow, JobStatus, Schedule};
use iguana::executor::RunError;
use iguana::model::{Container, Job, Workflow, WorkflowOptions};
use iguana::runtime::Invocation;
use linked_hash_map::LinkedHashMap;

fn s(x: &str) -> String {
    x.to_string()
}

fn container(image: &str) -> Container {
    Container { image: s(image), env: None, volumes: None }
}

fn job(image: &str) -> Job {
    Job { container: container(image), services: None, needs: None, steps: None, continue_on_error: false }
}

fn opts(dry_run: bool, debug: bool) -> WorkflowOptions {
    WorkflowOptions { dry_run, debug, privileged: false }
}

fn workflow(jobs: Vec<(&str, Job)>, env: Option<Vec<(String, String)>>) -> Workflow {
    let mut m = LinkedHashMap::new();
    for (n, j) in jobs {
        m.insert(s(n), j);
    }
    Workflow { name: None, jobs: m, env }
}

/// Drives a run, failing every invocation for which `fails` holds.
fn drive(
    wf: &Workflow,
    o: WorkflowOptions,
    fails: &dyn Fn(&Invocation) -> bool,
) -> (Vec<Invocation>, Schedule) {
    let mut sched = do_workflow(wf, &o).expect("workflow has jobs");
    let mut issued = Vec::new();
    while let Some(inv) = sched.next_invocation(&wf.jobs, &wf.env, &o) {
        let ok = !fails(&inv);
        issued.push(inv);
        sched.advance(&wf.jobs, &o, ok);
    }
    (issued, sched)
}

fn pulls_of(image: &str) -> impl Fn(&Invocation) -> bool + '_ {
    move |inv: &Invocation| matches!(inv, Invocation::Pull { image: i } if i == image)
}

fn never(_: &Invocation) -> bool {
    false
}

#[test]
fn empty_workflow_is_refused() {
    let wf = workflow(vec![], None);
    assert!(matches!(do_workflow(&wf, &opts(false, false)), Err(RunError::NoJobs)));
}

#[test]
fn empty_image_fails_without_invocation() {
    let wf = workflow(vec![("build", job(""))], None);
    let (issued, sched) = drive(&wf, opts(false, false), &never);
    assert!(issued.is_empty());
    assert_eq!(sched.finish(&wf.jobs), Err(RunError::EmptyImage { job: s("build") }));
}

#[test]
fn empty_image_with_continue_is_cleaned_and_recorded() {
    let mut j = job("");
    j.continue_on_error = true;
    let wf = workflow(vec![("build", j), ("next", job("img"))], None);
    let (issued, sched) = drive(&wf, opts(false, false), &never);
    assert_eq!(issued[0], Invocation::RemoveImage { image: s("") });
    assert_eq!(
        sched.finish(&wf.jobs),
        Ok(vec![(s("build"), JobStatus::Failed), (s("next"), JobStatus::Success)])
    );
}

#[test]
fn failed_dependency_skips_job() {
    let mut build = job("builder");
    build.continue_on_error = true;
    let mut test = job("tester");
    test.needs = Some(vec![s("build")]);
    let wf = workflow(vec![("build", build), ("test", test)], None);
    let (issued, sched) = drive(&wf, opts(false, false), &pulls_of("builder"));
    assert!(issued.iter().all(|i| !matches!(i, Invocation::Pull { image } if image == "tester")));
    assert_eq!(
        sched.finish(&wf.jobs),
        Ok(vec![(s("build"), JobStatus::Failed), (s("test"), JobStatus::Skipped)])
    );
}

#[test]
fn unscheduled_dependency_does_not_skip() {
    let mut first = job("a");
    first.needs = Some(vec![s("later")]);
    let wf = workflow(vec![("first", first), ("later", job("b"))], None);
    let (_, sched) = drive(&wf, opts(false, false), &never);
    assert_eq!(
        sched.finish(&wf.jobs),
        Ok(vec![(s("first"), JobStatus::Success), (s("later"), JobStatus::Success)])
    );
}

#[test]
fn environments_are_layered_per_container() {
    let mut j = job("main");
    j.container.env = Some(vec![(s("B"), s("job")), (s("M"), s("1"))]);
    let mut svc = container("svc");
    svc.env = Some(vec![(s("S"), s("1"))]);
    j.services = Some(vec![(s("db"), svc)]);
    let wf = workflow(vec![("j", j)], Some(vec![(s("A"), s("wf")), (s("B"), s("wf"))]));
    let (issued, _) = drive(&wf, opts(true, false), &never);
    let runs: Vec<&Invocation> = issued.iter().filter(|i| matches!(i, Invocation::Run { .. })).collect();
    assert_eq!(runs.len(), 2);
    match runs[0] {
        Invocation::Run { image, service, env, .. } => {
            assert_eq!(image, "svc");
            assert!(*service);
            assert_eq!(env, &vec![(s("A"), s("wf")), (s("B"), s("wf")), (s("S"), s("1"))]);
        }
        _ => unreachable!(),
    }
    match runs[1] {
        Invocation::Run { image, service, env, .. } => {
            assert_eq!(image, "main");
            assert!(!*service);
            assert_eq!(env, &vec![(s("A"), s("wf")), (s("B"), s("job")), (s("M"), s("1"))]);
            let args = runs[1].args();
            let b: Vec<&String> = args.iter().filter(|a| a.starts_with("--env=B=")).collect();
            assert_eq!(b, vec!["--env=B=job"]);
        }
        _ => unreachable!(),
    }
}

#[test]
fn dry_run_twice_issues_the_same() {
    let mut j = job("main");
    j.services = Some(vec![(s("db"), container("pg"))]);
    let wf = workflow(vec![("a", j), ("b", job("other"))], None);
    let (first, _) = drive(&wf, opts(true, false), &never);
    let (second, _) = drive(&wf, opts(true, false), &|_: &Invocation| true);
    assert_eq!(first, second);
    assert_eq!(first.len(), 10);
}

#[test]
fn scenario_abort_on_failure() {
    let build = job("builder");
    let mut test = job("tester");
    test.needs = Some(vec![s("build")]);
    let wf = workflow(vec![("build", build), ("test", test)], None);
    let (issued, sched) = drive(&wf, opts(false, false), &pulls_of("builder"));
    assert_eq!(issued, vec![Invocation::Pull { image: s("builder") }]);
    assert_eq!(sched.statuses, vec![JobStatus::Failed]);
    assert_eq!(sched.finish(&wf.jobs), Err(RunError::PrepareFailed { job: s("build") }));
}

#[test]
fn scenario_continue_then_skip() {
    let mut build = job("builder");
    build.continue_on_error = true;
    let mut test = job("tester");
    test.needs = Some(vec![s("build")]);
    let wf = workflow(vec![("build", build), ("test", test)], None);
    let (issued, sched) = drive(&wf, opts(false, false), &pulls_of("builder"));
    assert_eq!(
        issued,
        vec![Invocation::Pull { image: s("builder") }, Invocation::RemoveImage { image: s("builder") }]
    );
    assert_eq!(
        sched.finish(&wf.jobs),
        Ok(vec![(s("build"), JobStatus::Failed), (s("test"), JobStatus::Skipped)])
    );
}

#[test]
fn scenario_service_failure() {
    let mut j = job("main");
    j.services = Some(vec![(s("bad"), container("broken")), (s("good"), container("fine"))]);
    let wf = workflow(vec![("j", j)], None);
    let (issued, sched) = drive(&wf, opts(false, false), &pulls_of("broken"));
    assert_eq!(issued[0], Invocation::Pull { image: s("broken") });
    assert_eq!(issued[1], Invocation::Pull { image: s("fine") });
    assert!(matches!(&issued[2], Invocation::Run { image, service: true, .. } if image == "fine"));
    assert_eq!(issued.len(), 3);
    assert_eq!(sched.statuses, vec![JobStatus::Failed]);
    assert_eq!(sched.finish(&wf.jobs), Err(RunError::ServiceFailed { job: s("j") }));
}

#[test]
fn scenario_dry_run_success() {
    let wf = workflow(vec![("j", job("alpine"))], None);
    let (issued, sched) = drive(&wf, opts(true, false), &|_: &Invocation| true);
    assert_eq!(issued.len(), 3);
    assert_eq!(issued[0], Invocation::Pull { image: s("alpine") });
    assert_eq!(issued[2], Invocation::RemoveImage { image: s("alpine") });
    assert_eq!(sched.finish(&wf.jobs), Ok(vec![(s("j"), JobStatus::Success)]));
}

#[test]
fn main_start_failure_names_image() {
    let wf = workflow(vec![("j", job("alpine"))], None);
    let fails = |i: &Invocation| matches!(i, Invocation::Run { .. });
    let (_, sched) = drive(&wf, opts(false, false), &fails);
    assert_eq!(sched.finish(&wf.jobs), Err(RunError::StartFailed { image: s("alpine") }));
}

#[test]
fn volume_failure_stops_the_container() {
    let mut j = job("alpine");
    j.container.volumes = Some(vec![s("data:/data"), s("cache:/cache")]);
    let wf = workflow(vec![("j", j)], None);
    let fails = |i: &Invocation| matches!(i, Invocation::CreateVolume { name } if name == "data");
    let (issued, sched) = drive(&wf, opts(false, false), &fails);
    assert_eq!(issued.len(), 2);
    assert_eq!(sched.finish(&wf.jobs), Err(RunError::StartFailed { image: s("alpine") }));
}

#[test]
fn cleanup_failures_change_nothing() {
    let mut j = job("alpine");
    j.services = Some(vec![(s("db"), container("pg"))]);
    let wf = workflow(vec![("j", j), ("k", job("busybox"))], None);
    let fails = |i: &Invocation| matches!(i, Invocation::Stop { .. } | Invocation::RemoveImage { .. });
    let (issued, sched) = drive(&wf, opts(false, false), &fails);
    assert_eq!(issued.len(), 10);
    assert_eq!(
        sched.finish(&wf.jobs),
        Ok(vec![(s("j"), JobStatus::Success), (s("k"), JobStatus::Success)])
    );
}

#[test]
fn debug_keeps_images() {
    let wf = workflow(vec![("j", job("alpine"))], None);
    let (issued, _) = drive(&wf, opts(true, true), &never);
    assert_eq!(issued.len(), 2);
    assert!(matches!(&issued[1], Invocation::Run { remove: false, .. }));
}

#[test]
fn do_jobs_starts_at_first_job() {
    let wf = workflow(vec![("j", job("alpine"))], None);
    let o = opts(false, false);
    let sched = do_jobs(&wf.jobs, &o);
    assert_eq!(sched.next_invocation(&wf.jobs, &wf.env, &o), Some(Invocation::Pull { image: s("alpine") }));
}

#[test]
fn unscheduled_needs_are_named() {
    let mut first = job("a");
    first.needs = Some(vec![s("later"), s("first"), s("ghost")]);
    let mut later = job("b");
    later.needs = Some(vec![s("first")]);
    let wf = workflow(vec![("first", first), ("later", later)], None);
    assert_eq!(iguana::engine::unscheduled_needs(&wf.jobs, 0), vec![s("later"), s("ghost")]);
    assert!(iguana::engine::unscheduled_needs(&wf.jobs, 1).is_empty());
}
