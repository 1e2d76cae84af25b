//! Requests to the container runtime, and the plans that sequence them.
use vstd::prelude::*;

use crate::env::{merge_from_ref, pairs_view};
use crate::model::{services_of, volumes_of, Container, Job, WorkflowOptions};

verus! {

/// One request to the container runtime.
#[derive(Clone, Debug, PartialEq, Eq)]
pub enum Invocation {
    /// Fetch an image.
    Pull { image: String },
    /// Make sure a named volume exists.
    CreateVolume { name: String },
    /// Launch a container.
    Run {
        image: String,
        /// Detached service rather than attached main container.
        service: bool,
        env: Vec<(String, String)>,
        /// Volume specifications to attach.
        volumes: Vec<String>,
        privileged: bool,
        /// Remove the container when it exits.
        remove: bool,
    },
    /// Stop a running container, if there is one.
    Stop { name: String },
    /// Force the removal of an image.
    RemoveImage { image: String },
}

/// What an invocation asks for, over plain sequences.
pub enum Call {
    Pull(Seq<char>),
    CreateVolume(Seq<char>),
    Run {
        image: Seq<char>,
        service: bool,
        env: Seq<(Seq<char>, Seq<char>)>,
        volumes: Seq<Seq<char>>,
        privileged: bool,
        remove: bool,
    },
    Stop(Seq<char>),
    RemoveImage(Seq<char>),
}

pub open spec fn strings_view(s: Seq<String>) -> Seq<Seq<char>> {
    s.map_values(|x: String| x@)
}

impl View for Invocation {
    type V = Call;

    open spec fn view(&self) -> Call {
        match self {
            Invocation::Pull { image } => Call::Pull(image@),
            Invocation::CreateVolume { name } => Call::CreateVolume(name@),
            Invocation::Run { image, service, env, volumes, privileged, remove } => Call::Run {
                image: image@,
                service: *service,
                env: pairs_view(env@),
                volumes: strings_view(volumes@),
                privileged: *privileged,
                remove: *remove,
            },
            Invocation::Stop { name } => Call::Stop(name@),
            Invocation::RemoveImage { image } => Call::RemoveImage(image@),
        }
    }
}

pub open spec fn calls_view(s: Seq<Invocation>) -> Seq<Call> {
    s.map_values(|i: Invocation| i@)
}

/// The volume name in a `source:target` specification: what precedes the
/// first `:`, or all of it.
pub open spec fn volume_source(s: Seq<char>) -> Seq<char>
    decreases s.len(),
{
    if s.len() == 0 {
        s
    } else if s[0] == ':' {
        Seq::empty()
    } else {
        seq![s[0]] + volume_source(s.drop_first())
    }
}

proof fn lemma_volume_source_prefix(s: Seq<char>, i: int)
    requires
        0 <= i <= s.len(),
        forall|j: int| 0 <= j < i ==> s[j] != ':',
        i == s.len() || s[i] == ':',
    ensures
        volume_source(s) == s.subrange(0, i),
    decreases s.len(),
{
    if s.len() == 0 {
    } else if i == 0 {
        assert(s.subrange(0, 0) =~= Seq::<char>::empty());
    } else {
        lemma_volume_source_prefix(s.drop_first(), i - 1);
        assert(s.subrange(0, i) =~= seq![s[0]] + s.drop_first().subrange(0, i - 1));
    }
}

/// The name of the volume that a specification asks to be created.
pub fn volume_name(spec: &String) -> (r: String)
    ensures
        r@ == volume_source(spec@),
{
    let n = spec.unicode_len();
    let mut i: usize = 0;
    while i < n && spec.get_char(i) != ':'
        invariant
            n == spec@.len(),
            i <= n,
            forall|j: int| 0 <= j < i ==> spec@[j] != ':',
        decreases n - i,
    {
        i = i + 1;
    }
    proof {
        lemma_volume_source_prefix(spec@, i as int);
    }
    String::from_str(spec.substring_char(0, i))
}

/// The calls that start one container: pull its image, create its volumes,
/// run it. They are issued in this order and stop at the first failure.
pub open spec fn container_calls(
    c: Container,
    service: bool,
    env: Seq<(Seq<char>, Seq<char>)>,
    opts: WorkflowOptions,
) -> Seq<Call> {
    seq![Call::Pull(c.image@)] + volumes_of(c).map_values(
        |v: String| Call::CreateVolume(volume_source(v@)),
    ) + seq![
        Call::Run {
            image: c.image@,
            service,
            env,
            volumes: strings_view(volumes_of(c)),
            privileged: opts.privileged,
            remove: !opts.debug,
        },
    ]
}

fn copy_strings(v: &Vec<String>) -> (r: Vec<String>)
    ensures
        r@ == v@,
{
    let mut r: Vec<String> = Vec::new();
    let mut i: usize = 0;
    while i < v.len()
        invariant
            i <= v@.len(),
            r@ == v@.subrange(0, i as int),
        decreases v@.len() - i,
    {
        r.push(v[i].clone());
        i = i + 1;
        assert(r@ =~= v@.subrange(0, i as int));
    }
    assert(v@.subrange(0, i as int) =~= v@);
    r
}

/// The invocations that start container `c` with environment `env`.
pub fn container_plan(c: &Container, service: bool, env: Vec<(String, String)>, opts: &WorkflowOptions) -> (r:
    Vec<Invocation>)
    ensures
        calls_view(r@) == container_calls(*c, service, pairs_view(env@), *opts),
{
    let ghost vols = volumes_of(*c);
    let ghost target = container_calls(*c, service, pairs_view(env@), *opts);
    let mut r: Vec<Invocation> = Vec::new();
    r.push(Invocation::Pull { image: c.image.clone() });
    let mut volumes: Vec<String> = Vec::new();
    if let Some(vs) = &c.volumes {
        volumes = copy_strings(vs);
    }
    assert(volumes@ == vols);
    let mut i: usize = 0;
    while i < volumes.len()
        invariant
            i <= vols.len(),
            volumes@ == vols,
            calls_view(r@) == seq![Call::Pull(c.image@)] + vols.subrange(0, i as int).map_values(
                |v: String| Call::CreateVolume(volume_source(v@)),
            ),
        decreases vols.len() - i,
    {
        let name = volume_name(&volumes[i]);
        let ghost prev = r@;
        r.push(Invocation::CreateVolume { name });
        i = i + 1;
        assert(calls_view(r@) =~= calls_view(prev).push(Call::CreateVolume(volume_source(vols[i - 1]@))));
        assert(vols.subrange(0, i as int) =~= vols.subrange(0, i - 1).push(vols[i - 1]));
        assert(calls_view(r@) =~= seq![Call::Pull(c.image@)] + vols.subrange(0, i as int).map_values(
            |v: String| Call::CreateVolume(volume_source(v@)),
        ));
    }
    assert(vols.subrange(0, i as int) =~= vols);
    r.push(
        Invocation::Run {
            image: c.image.clone(),
            service,
            env,
            volumes,
            privileged: opts.privileged,
            remove: !opts.debug,
        },
    );
    assert(calls_view(r@) =~= target);
    r
}

/// The calls that tear down the given services: stop each, then remove its
/// image unless artifacts are kept.
pub open spec fn service_cleanup_calls(s: Seq<(String, Container)>, debug: bool) -> Seq<Call>
    decreases s.len(),
{
    if s.len() == 0 {
        Seq::empty()
    } else {
        service_cleanup_calls(s.drop_last(), debug) + seq![Call::Stop(s.last().1.image@)] + if debug {
            Seq::empty()
        } else {
            seq![Call::RemoveImage(s.last().1.image@)]
        }
    }
}

/// The calls that clean up after a job: its services, then the main image
/// unless artifacts are kept. A failure among them changes nothing.
pub open spec fn cleanup_calls(job: Job, opts: WorkflowOptions) -> Seq<Call> {
    service_cleanup_calls(services_of(job), opts.debug) + if opts.debug {
        Seq::empty()
    } else {
        seq![Call::RemoveImage(job.container.image@)]
    }
}

/// The invocations that clean up after `job`.
pub fn clean_job(job: &Job, opts: &WorkflowOptions) -> (r: Vec<Invocation>)
    ensures
        calls_view(r@) == cleanup_calls(*job, *opts),
{
    let mut r: Vec<Invocation> = Vec::new();
    let ghost svcs = services_of(*job);
    let n: usize = match &job.services {
        Some(s) => s.len(),
        None => 0,
    };
    let mut i: usize = 0;
    while i < n
        invariant
            n == svcs.len(),
            i <= n,
            svcs == services_of(*job),
            calls_view(r@) == service_cleanup_calls(svcs.subrange(0, i as int), opts.debug),
        decreases n - i,
    {
        let image: &String = match &job.services {
            Some(s) => &s[i].1.image,
            None => &job.container.image,
        };
        r.push(Invocation::Stop { name: image.clone() });
        if !opts.debug {
            r.push(Invocation::RemoveImage { image: image.clone() });
        }
        i = i + 1;
        assert(svcs.subrange(0, i as int).drop_last() =~= svcs.subrange(0, i - 1));
        assert(calls_view(r@) =~= service_cleanup_calls(svcs.subrange(0, i as int), opts.debug));
    }
    assert(svcs.subrange(0, i as int) =~= svcs);
    if !opts.debug {
        r.push(Invocation::RemoveImage { image: job.container.image.clone() });
    }
    assert(calls_view(r@) =~= cleanup_calls(*job, *opts));
    r
}

/// The runtime's arguments for `--volume=` with each specification.
pub open spec fn volume_flags(v: Seq<Seq<char>>) -> Seq<Seq<char>> {
    v.map_values(|x: Seq<char>| "--volume="@ + x)
}

/// The runtime's arguments for `--env=` with each pair.
pub open spec fn env_flags(e: Seq<(Seq<char>, Seq<char>)>) -> Seq<Seq<char>> {
    e.map_values(|p: (Seq<char>, Seq<char>)| "--env="@ + p.0 + "="@ + p.1)
}

/// The arguments handed to the runtime's command for a call.
pub open spec fn call_args(c: Call) -> Seq<Seq<char>> {
    match c {
        Call::Pull(image) => seq!["image"@, "pull"@, "--tls-verify=false"@, "--"@, image],
        Call::CreateVolume(name) => seq!["volume"@, "create"@, name],
        Call::Run { image, service, env, volumes, privileged, remove } => seq![
            "run"@,
            "--network=host"@,
            "--annotation=iguana=true"@,
            "--env=iguana=true"@,
            "--mount=type=bind,source=/iguana,target=/iguana"@,
        ] + (if privileged {
            seq!["--volume=/dev:/dev"@, "--privileged"@]
        } else {
            Seq::empty()
        }) + volume_flags(volumes) + (if service {
            seq!["--detach"@]
        } else {
            seq!["--tty"@, "--interactive"@]
        }) + (if remove {
            seq!["--rm"@]
        } else {
            Seq::empty()
        }) + env_flags(env) + seq!["--"@, image],
        Call::Stop(name) => seq!["container"@, "stop"@, "--ignore"@, "--"@, name],
        Call::RemoveImage(image) => seq!["image"@, "rm"@, "--force"@, "--"@, image],
    }
}

fn push_str(args: &mut Vec<String>, s: &str)
    ensures
        strings_view(final(args)@) == strings_view(old(args)@).push(s@),
{
    args.push(String::from_str(s));
    assert(strings_view(args@) =~= strings_view(old(args)@).push(s@));
}

impl Invocation {
    /// The program arguments that carry out this invocation.
    pub fn args(&self) -> (r: Vec<String>)
        ensures
            strings_view(r@) == call_args(self@),
    {
        let mut r: Vec<String> = Vec::new();
        match self {
            Invocation::Pull { image } => {
                push_str(&mut r, "image");
                push_str(&mut r, "pull");
                push_str(&mut r, "--tls-verify=false");
                push_str(&mut r, "--");
                push_str(&mut r, image.as_str());
            },
            Invocation::CreateVolume { name } => {
                push_str(&mut r, "volume");
                push_str(&mut r, "create");
                push_str(&mut r, name.as_str());
            },
            Invocation::Run { image, service, env, volumes, privileged, remove } => {
                push_str(&mut r, "run");
                push_str(&mut r, "--network=host");
                push_str(&mut r, "--annotation=iguana=true");
                push_str(&mut r, "--env=iguana=true");
                push_str(&mut r, "--mount=type=bind,source=/iguana,target=/iguana");
                let ghost base = strings_view(r@);
                if *privileged {
                    push_str(&mut r, "--volume=/dev:/dev");
                    push_str(&mut r, "--privileged");
                }
                let ghost head = strings_view(r@);
                let mut i: usize = 0;
                while i < volumes.len()
                    invariant
                        i <= volumes@.len(),
                        strings_view(r@) == head + volume_flags(strings_view(volumes@.subrange(0, i as int))),
                    decreases volumes@.len() - i,
                {
                    let flag = String::from_str("--volume=").concat(volumes[i].as_str());
                    let ghost prev = r@;
                    r.push(flag);
                    i = i + 1;
                    assert(strings_view(r@) =~= strings_view(prev).push("--volume="@ + volumes@[i - 1]@));
                    assert(strings_view(volumes@.subrange(0, i as int)) =~= strings_view(
                        volumes@.subrange(0, i - 1),
                    ).push(volumes@[i - 1]@));
                    assert(strings_view(r@) =~= head + volume_flags(
                        strings_view(volumes@.subrange(0, i as int)),
                    ));
                }
                assert(volumes@.subrange(0, i as int) =~= volumes@);
                if *service {
                    push_str(&mut r, "--detach");
                } else {
                    push_str(&mut r, "--tty");
                    push_str(&mut r, "--interactive");
                }
                if *remove {
                    push_str(&mut r, "--rm");
                }
                let ghost mid = strings_view(r@);
                let mut j: usize = 0;
                while j < env.len()
                    invariant
                        j <= env@.len(),
                        strings_view(r@) == mid + env_flags(pairs_view(env@.subrange(0, j as int))),
                    decreases env@.len() - j,
                {
                    let flag = String::from_str("--env=").concat(env[j].0.as_str()).concat("=").concat(
                        env[j].1.as_str(),
                    );
                    let ghost prev = r@;
                    r.push(flag);
                    j = j + 1;
                    assert(strings_view(r@) =~= strings_view(prev).push(
                        "--env="@ + env@[j - 1].0@ + "="@ + env@[j - 1].1@,
                    ));
                    assert(pairs_view(env@.subrange(0, j as int)) =~= pairs_view(
                        env@.subrange(0, j - 1),
                    ).push((env@[j - 1].0@, env@[j - 1].1@)));
                    assert(strings_view(r@) =~= mid + env_flags(pairs_view(env@.subrange(0, j as int))));
                }
                assert(env@.subrange(0, j as int) =~= env@);
                push_str(&mut r, "--");
                push_str(&mut r, image.as_str());
            },
            Invocation::Stop { name } => {
                push_str(&mut r, "container");
                push_str(&mut r, "stop");
                push_str(&mut r, "--ignore");
                push_str(&mut r, "--");
                push_str(&mut r, name.as_str());
            },
            Invocation::RemoveImage { image } => {
                push_str(&mut r, "image");
                push_str(&mut r, "rm");
                push_str(&mut r, "--force");
                push_str(&mut r, "--");
                push_str(&mut r, image.as_str());
            },
        }
        assert(strings_view(r@) =~= call_args(self@));
        r
    }
}

} // verus!
