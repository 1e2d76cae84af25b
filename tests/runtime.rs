use iguana::env::{merge_from_ref, merged_env};
use iguana::executor::{do_job, RunError};
use iguana::model::{Container, Job, WorkflowOptions};
use iguana::runtime::{clean_job, container_plan, volume_name, Invocation};

fn s(x: &str) -> String {
    x.to_string()
}

fn strs(v: &[&str]) -> Vec<String> {
    v.iter().map(|x| x.to_string()).collect()
}

#[test]
fn volume_name_takes_source() {
    assert_eq!(volume_name(&s("data:/data")), "data");
    assert_eq!(volume_name(&s("plain")), "plain");
    assert_eq!(volume_name(&s(":/x")), "");
    assert_eq!(volume_name(&s("a:b:c")), "a");
}

#[test]
fn merge_overwrites_shared_keys() {
    let mut m = vec![(s("A"), s("1"))];
    merge_from_ref(&mut m, &vec![(s("A"), s("2")), (s("B"), s("3"))]);
    assert_eq!(m, vec![(s("A"), s("2")), (s("B"), s("3"))]);
    let e = merged_env(&None, &Some(vec![(s("X"), s("y"))]));
    assert_eq!(e, vec![(s("X"), s("y"))]);
    let d = merged_env(&Some(vec![(s("A"), s("1")), (s("A"), s("3"))]), &Some(vec![(s("A"), s("2"))]));
    assert_eq!(d, vec![(s("A"), s("2"))]);
}

#[test]
fn pull_stop_remove_args() {
    assert_eq!(
        Invocation::Pull { image: s("alpine") }.args(),
        strs(&["image", "pull", "--tls-verify=false", "--", "alpine"])
    );
    assert_eq!(
        Invocation::Stop { name: s("pg") }.args(),
        strs(&["container", "stop", "--ignore", "--", "pg"])
    );
    assert_eq!(
        Invocation::RemoveImage { image: s("pg") }.args(),
        strs(&["image", "rm", "--force", "--", "pg"])
    );
    assert_eq!(Invocation::CreateVolume { name: s("data") }.args(), strs(&["volume", "create", "data"]));
}

#[test]
fn run_args_for_main_container() {
    let inv = Invocation::Run {
        image: s("alpine"),
        service: false,
        env: vec![(s("K"), s("v"))],
        volumes: vec![s("data:/data")],
        privileged: true,
        remove: true,
    };
    assert_eq!(
        inv.args(),
        strs(&[
            "run",
            "--network=host",
            "--annotation=iguana=true",
            "--env=iguana=true",
            "--mount=type=bind,source=/iguana,target=/iguana",
            "--volume=/dev:/dev",
            "--privileged",
            "--volume=data:/data",
            "--tty",
            "--interactive",
            "--rm",
            "--env=K=v",
            "--",
            "alpine",
        ])
    );
}

#[test]
fn run_args_for_service_in_debug() {
    let inv = Invocation::Run {
        image: s("pg"),
        service: true,
        env: vec![],
        volumes: vec![],
        privileged: false,
        remove: false,
    };
    assert_eq!(
        inv.args(),
        strs(&[
            "run",
            "--network=host",
            "--annotation=iguana=true",
            "--env=iguana=true",
            "--mount=type=bind,source=/iguana,target=/iguana",
            "--detach",
            "--",
            "pg",
        ])
    );
}

#[test]
fn container_plan_creates_volumes_first() {
    let c = Container { image: s("alpine"), env: None, volumes: Some(vec![s("data:/data")]) };
    let o = WorkflowOptions { dry_run: false, debug: true, privileged: false };
    let plan = container_plan(&c, true, vec![], &o);
    assert_eq!(plan.len(), 3);
    assert_eq!(plan[0], Invocation::Pull { image: s("alpine") });
    assert_eq!(plan[1], Invocation::CreateVolume { name: s("data") });
    assert!(matches!(&plan[2], Invocation::Run { service: true, remove: false, volumes, .. } if volumes == &vec![s("data:/data")]));
}

#[test]
fn clean_job_lists_services_then_main() {
    let j = Job {
        container: Container { image: s("main"), env: None, volumes: None },
        services: Some(vec![(s("db"), Container { image: s("pg"), env: None, volumes: None })]),
        needs: None,
        steps: None,
        continue_on_error: false,
    };
    let o = WorkflowOptions { dry_run: false, debug: false, privileged: false };
    assert_eq!(
        clean_job(&j, &o),
        vec![
            Invocation::Stop { name: s("pg") },
            Invocation::RemoveImage { image: s("pg") },
            Invocation::RemoveImage { image: s("main") },
        ]
    );
    let d = WorkflowOptions { dry_run: false, debug: true, privileged: false };
    assert_eq!(clean_job(&j, &d), vec![Invocation::Stop { name: s("pg") }]);
}

#[test]
fn do_job_refuses_empty_image() {
    let j = Job {
        container: Container { image: s(""), env: None, volumes: None },
        services: None,
        needs: None,
        steps: None,
        continue_on_error: false,
    };
    let r = do_job(&s("x"), &j);
    assert_eq!(r.outcome, Some(Err(RunError::EmptyImage { job: s("x") })));
}
