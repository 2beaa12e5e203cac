//! Docker Compose: the command line the program hands to `docker compose`,
//! the environment it runs under, and the project model built from a parsed
//! Compose file.
use vstd::prelude::*;
use vstd::string::*;
use crate::collections::views;
use crate::model::opt_view;
use crate::strings::{seq_lt, str_eq, str_lt};

verus! {

/// One environment change for a child process: set `key` to `value`, or, with
/// no value, remove `key` from the inherited environment.
#[derive(Debug, Clone, PartialEq, Eq)]
pub struct EnvVar {
    pub key: String,
    pub value: Option<String>,
}

/// The view of an environment change.
pub open spec fn env_view(e: EnvVar) -> (Seq<char>, Option<Seq<char>>) {
    (e.key@, opt_view(e.value))
}

/// The views of a list of environment changes.
pub open spec fn env_views(s: Seq<EnvVar>) -> Seq<(Seq<char>, Option<Seq<char>>)> {
    s.map_values(|e: EnvVar| env_view(e))
}

pub fn set_var(key: &str, value: &str) -> (r: EnvVar)
    ensures
        env_view(r) == (key@, Some(value@)),
{
    EnvVar { key: key.to_owned(), value: Some(value.to_owned()) }
}

pub fn remove_var(key: &str) -> (r: EnvVar)
    ensures
        env_view(r) == (key@, None::<Seq<char>>),
{
    EnvVar { key: key.to_owned(), value: None }
}

/// How `docker compose` is invoked: the Compose files, project name, profiles
/// and the Docker endpoint it talks to.
#[derive(Debug, Clone, PartialEq, Eq)]
pub struct ComposeInvocation {
    files: Vec<String>,
    project_name: Option<String>,
    docker_host: Option<String>,
    docker_context: Option<String>,
    profiles: Vec<String>,
    docker_cert_path: Option<String>,
}

pub struct ComposeInvocationView {
    pub files: Seq<Seq<char>>,
    pub project_name: Option<Seq<char>>,
    pub docker_host: Option<Seq<char>>,
    pub docker_context: Option<Seq<char>>,
    pub profiles: Seq<Seq<char>>,
    pub docker_cert_path: Option<Seq<char>>,
}

impl View for ComposeInvocation {
    type V = ComposeInvocationView;

    closed spec fn view(&self) -> ComposeInvocationView {
        ComposeInvocationView {
            files: views(self.files@),
            project_name: opt_view(self.project_name),
            docker_host: opt_view(self.docker_host),
            docker_context: opt_view(self.docker_context),
            profiles: views(self.profiles@),
            docker_cert_path: opt_view(self.docker_cert_path),
        }
    }
}

impl Default for ComposeInvocation {
    /// No files, project name or endpoint: Compose finds its files itself.
    fn default() -> (r: ComposeInvocation)
        ensures
            r@ == (ComposeInvocationView {
                files: Seq::empty(),
                project_name: None,
                docker_host: None,
                docker_context: None,
                profiles: Seq::empty(),
                docker_cert_path: None,
            }),
    {
        let r = ComposeInvocation {
            files: Vec::new(),
            project_name: None,
            docker_host: None,
            docker_context: None,
            profiles: Vec::new(),
            docker_cert_path: None,
        };
        assert(views(r.files@) =~= Seq::<Seq<char>>::empty());
        assert(views(r.profiles@) =~= Seq::<Seq<char>>::empty());
        r
    }
}

/// `flag` before each of `values`, in order.
pub open spec fn flagged(flag: Seq<char>, values: Seq<Seq<char>>) -> Seq<Seq<char>>
    decreases values.len(),
{
    if values.len() == 0 {
        Seq::empty()
    } else {
        flagged(flag, values.drop_last()) + seq![flag, values.last()]
    }
}

/// The arguments of `docker` for a Compose action: `compose`, each file after
/// `-f`, the project name after `-p`, each profile after `--profile`, then
/// the action's own arguments.
pub open spec fn spec_compose_args(inv: ComposeInvocationView, action: Seq<Seq<char>>) -> Seq<Seq<char>> {
    seq!["compose"@] + flagged("-f"@, inv.files) + (match inv.project_name {
        Some(p) => seq!["-p"@, p],
        None => Seq::empty(),
    }) + flagged("--profile"@, inv.profiles) + action
}

/// The environment a Compose command runs under: a context replaces any
/// inherited endpoint settings; otherwise a host is passed on, with the TLS
/// settings where a certificate directory was given.
pub open spec fn spec_compose_env(inv: ComposeInvocationView) -> Seq<(Seq<char>, Option<Seq<char>>)> {
    match inv.docker_context {
        Some(c) => seq![
            ("DOCKER_CONTEXT"@, Some(c)),
            ("DOCKER_HOST"@, None),
            ("DOCKER_TLS_VERIFY"@, None),
            ("DOCKER_CERT_PATH"@, None),
        ],
        None => match inv.docker_host {
            Some(h) => seq![("DOCKER_HOST"@, Some(h))] + match inv.docker_cert_path {
                Some(p) => seq![("DOCKER_TLS_VERIFY"@, Some("1"@)), ("DOCKER_CERT_PATH"@, Some(p))],
                None => Seq::empty(),
            },
            None => Seq::empty(),
        },
    }
}

/// Appends `flag` and each of `values` to `out`.
fn push_flagged(out: &mut Vec<String>, flag: &str, values: &Vec<String>)
    ensures
        views(final(out)@) == views(old(out)@) + flagged(flag@, views(values@)),
{
    let ghost start = views(out@);
    let mut i: usize = 0;
    assert(views(values@).take(0) =~= Seq::<Seq<char>>::empty());
    assert(start + Seq::<Seq<char>>::empty() =~= start);
    while i < values.len()
        invariant
            i <= values@.len(),
            views(out@) == start + flagged(flag@, views(values@).take(i as int)),
        decreases values@.len() - i,
    {
        let ghost before = views(out@);
        out.push(flag.to_owned());
        out.push(values[i].clone());
        assert(views(values@).take(i + 1).drop_last() =~= views(values@).take(i as int));
        assert(views(out@) =~= before + seq![flag@, values@[i as int]@]);
        assert(start + flagged(flag@, views(values@).take(i + 1)) =~= before + seq![flag@, values@[i as int]@]);
        i = i + 1;
    }
    assert(views(values@).take(i as int) =~= views(values@));
}

impl ComposeInvocation {
    pub fn new(files: Vec<String>, project_name: Option<String>, docker_host: Option<String>) -> (r: Self)
        ensures
            r@ == (ComposeInvocationView {
                files: views(files@),
                project_name: opt_view(project_name),
                docker_host: opt_view(docker_host),
                docker_context: None,
                profiles: Seq::empty(),
                docker_cert_path: None,
            }),
    {
        let r = ComposeInvocation {
            files,
            project_name,
            docker_host,
            docker_context: None,
            profiles: Vec::new(),
            docker_cert_path: None,
        };
        assert(views(r.profiles@) =~= Seq::<Seq<char>>::empty());
        r
    }

    pub fn with_context(self, docker_context: Option<String>) -> (r: Self)
        ensures
            r@ == (ComposeInvocationView { docker_context: opt_view(docker_context), ..self@ }),
    {
        let mut r = self;
        r.docker_context = docker_context;
        r
    }

    pub fn with_profiles(self, profiles: Vec<String>) -> (r: Self)
        ensures
            r@ == (ComposeInvocationView { profiles: views(profiles@), ..self@ }),
    {
        let mut r = self;
        r.profiles = profiles;
        r
    }

    pub fn with_tls_cert_path(self, docker_cert_path: Option<String>) -> (r: Self)
        ensures
            r@ == (ComposeInvocationView { docker_cert_path: opt_view(docker_cert_path), ..self@ }),
    {
        let mut r = self;
        r.docker_cert_path = docker_cert_path;
        r
    }

    /// The first Compose file, or the empty string where none was given.
    pub fn first_file(&self) -> (r: String)
        ensures
            r@ == (if self@.files.len() > 0 { self@.files[0] } else { Seq::<char>::empty() }),
    {
        if self.files.len() > 0 {
            self.files[0].clone()
        } else {
            String::new()
        }
    }

    /// The arguments of `docker` that run `action` under this invocation.
    pub fn args(&self, action: &[&str]) -> (r: Vec<String>)
        ensures
            views(r@) == spec_compose_args(self@, action@.map_values(|a: &str| a@)),
    {
        let mut r: Vec<String> = Vec::new();
        r.push("compose".to_owned());
        assert(views(r@) =~= seq!["compose"@]);
        push_flagged(&mut r, "-f", &self.files);
        let ghost after_files = views(r@);
        match &self.project_name {
            Some(p) => {
                r.push("-p".to_owned());
                r.push(p.clone());
                assert(views(r@) =~= after_files + seq!["-p"@, p@]);
            },
            None => {
                assert(after_files + Seq::<Seq<char>>::empty() =~= after_files);
            },
        }
        push_flagged(&mut r, "--profile", &self.profiles);
        let ghost before_action = views(r@);
        let mut i: usize = 0;
        assert(before_action + Seq::<Seq<char>>::empty() =~= before_action);
        while i < action.len()
            invariant
                i <= action@.len(),
                views(r@) == before_action + action@.take(i as int).map_values(|a: &str| a@),
            decreases action@.len() - i,
        {
            let ghost before = views(r@);
            let a: &str = action[i];
            r.push(a.to_owned());
            assert(views(r@) =~= before.push(a@));
            assert(action@.take(i + 1).map_values(|a: &str| a@) =~= action@.take(i as int).map_values(|a: &str| a@).push(action@[i as int]@));
            i = i + 1;
        }
        assert(action@.take(i as int) =~= action@);
        r
    }

    /// The environment changes under which a Compose command runs.
    pub fn env_plan(&self) -> (r: Vec<EnvVar>)
        ensures
            env_views(r@) == spec_compose_env(self@),
    {
        let mut r: Vec<EnvVar> = Vec::new();
        match &self.docker_context {
            Some(c) => {
                r.push(set_var("DOCKER_CONTEXT", c.as_str()));
                r.push(remove_var("DOCKER_HOST"));
                r.push(remove_var("DOCKER_TLS_VERIFY"));
                r.push(remove_var("DOCKER_CERT_PATH"));
            },
            None => match &self.docker_host {
                Some(h) => {
                    r.push(set_var("DOCKER_HOST", h.as_str()));
                    match &self.docker_cert_path {
                        Some(p) => {
                            r.push(set_var("DOCKER_TLS_VERIFY", "1"));
                            r.push(set_var("DOCKER_CERT_PATH", p.as_str()));
                        },
                        None => {},
                    }
                },
                None => {},
            },
        }
        assert(env_views(r@) =~= spec_compose_env(self@));
        r
    }
}

/// A Compose project: its services, sorted by name.
#[derive(Debug, Clone)]
pub struct ComposeProject {
    pub name: String,
    pub path: String,
    pub services: Vec<ComposeService>,
}

/// One service of a Compose project.
#[derive(Debug, Clone)]
pub struct ComposeService {
    pub name: String,
    pub image: Option<String>,
    pub depends_on: Vec<String>,
    pub profiles: Vec<String>,
    pub has_build: bool,
}

/// A service as plain values: name, image, dependencies, profiles and whether
/// it is built from source.
pub struct ServiceView {
    pub name: Seq<char>,
    pub image: Option<Seq<char>>,
    pub depends_on: Seq<Seq<char>>,
    pub profiles: Seq<Seq<char>>,
    pub has_build: bool,
}

impl View for ComposeService {
    type V = ServiceView;

    open spec fn view(&self) -> ServiceView {
        ServiceView {
            name: self.name@,
            image: opt_view(self.image),
            depends_on: views(self.depends_on@),
            profiles: views(self.profiles@),
            has_build: self.has_build,
        }
    }
}

/// The views of a list of services.
pub open spec fn service_views(s: Seq<ComposeService>) -> Seq<ServiceView> {
    s.map_values(|c: ComposeService| c@)
}

/// How a Compose file lists a service's dependencies: as a list of names, or
/// as a map whose keys are the names (given here in the order read).
#[derive(Debug, Clone)]
pub enum DependsOn {
    List(Vec<String>),
    Mapping(Vec<String>),
}

/// A service definition as a Compose file gives it.
#[derive(Debug, Clone)]
pub struct ServiceDef {
    pub image: Option<String>,
    pub depends_on: Option<DependsOn>,
    pub profiles: Vec<String>,
    pub has_build: bool,
}

/// The parts of a Compose file that the project model reads.
#[derive(Debug, Clone)]
pub struct ComposeFile {
    pub name: Option<String>,
    pub services: Option<Vec<(String, ServiceDef)>>,
}

/// The service that a named definition describes.
pub open spec fn spec_service(name: String, def: ServiceDef) -> ServiceView {
    ServiceView {
        name: name@,
        image: opt_view(def.image),
        depends_on: match def.depends_on {
            Some(DependsOn::List(l)) => views(l@),
            Some(DependsOn::Mapping(m)) => views(m@),
            None => Seq::empty(),
        },
        profiles: views(def.profiles@),
        has_build: def.has_build,
    }
}

/// `out` with `x` placed after every service whose name is not greater.
pub open spec fn insert_by_name(out: Seq<ServiceView>, x: ServiceView) -> Seq<ServiceView>
    decreases out.len(),
{
    if out.len() == 0 {
        seq![x]
    } else if seq_lt(x.name, out[0].name) {
        seq![x] + out
    } else {
        seq![out[0]] + insert_by_name(out.drop_first(), x)
    }
}

/// The services stably sorted by name.
pub open spec fn sort_by_name(s: Seq<ServiceView>) -> Seq<ServiceView>
    decreases s.len(),
{
    if s.len() == 0 {
        Seq::empty()
    } else {
        insert_by_name(sort_by_name(s.drop_last()), s.last())
    }
}

/// The services a Compose file defines, in the order given.
pub open spec fn file_services(file: ComposeFile) -> Seq<ServiceView> {
    match file.services {
        Some(entries) => entries@.map_values(|e: (String, ServiceDef)| spec_service(e.0, e.1)),
        None => Seq::empty(),
    }
}

/// The project a Compose file describes: named by the file, else by
/// `project_name`, with its services sorted by name and no path yet.
pub open spec fn spec_project(file: ComposeFile, project_name: Seq<char>) -> (Seq<char>, Seq<char>, Seq<ServiceView>) {
    (
        match opt_view(file.name) {
            Some(n) => n,
            None => project_name,
        },
        Seq::empty(),
        sort_by_name(file_services(file)),
    )
}

/// The view of a project: name, path and services.
pub open spec fn project_view(p: ComposeProject) -> (Seq<char>, Seq<char>, Seq<ServiceView>) {
    (p.name@, p.path@, service_views(p.services@))
}

proof fn lemma_insert_by_name(out: Seq<ServiceView>, x: ServiceView, p: int)
    requires
        0 <= p <= out.len(),
        forall|j: int| 0 <= j < p ==> !seq_lt(x.name, #[trigger] out[j].name),
        p < out.len() ==> seq_lt(x.name, out[p].name),
    ensures
        insert_by_name(out, x) == out.insert(p, x),
    decreases out.len(),
{
    if out.len() == 0 {
        assert(out.insert(p, x) =~= seq![x]);
    } else if p == 0 {
        assert(out.insert(0, x) =~= seq![x] + out);
    } else {
        assert forall|j: int| 0 <= j < p - 1 implies !seq_lt(x.name, #[trigger] out.drop_first()[j].name) by {
            assert(out.drop_first()[j] == out[j + 1]);
        }
        lemma_insert_by_name(out.drop_first(), x, p - 1);
        assert(out.insert(p, x) =~= seq![out[0]] + out.drop_first().insert(p - 1, x));
    }
}

/// The service a named definition describes.
fn make_service(name: String, def: ServiceDef) -> (r: ComposeService)
    ensures
        r@ == spec_service(name, def),
{
    let depends_on = match def.depends_on {
        Some(DependsOn::List(l)) => l,
        Some(DependsOn::Mapping(m)) => m,
        None => Vec::new(),
    };
    let r = ComposeService {
        name,
        image: def.image,
        depends_on,
        profiles: def.profiles,
        has_build: def.has_build,
    };
    assert(r@.depends_on =~= spec_service(name, def).depends_on);
    r
}

/// The project a Compose file describes, its services sorted by name; where
/// the file names no project, it takes `project_name`.
pub fn compose_file_to_project(file: ComposeFile, project_name: &str) -> (r: ComposeProject)
    ensures
        project_view(r) == spec_project(file, project_name@),
{
    let ghost services = file_services(file);
    let ghost orig_file = file;
    let name = match file.name {
        Some(n) => n,
        None => project_name.to_owned(),
    };
    let mut entries: Vec<(String, ServiceDef)> = match file.services {
        Some(e) => e,
        None => Vec::new(),
    };
    let ghost entries0 = entries@;
    assert(entries0.map_values(|e: (String, ServiceDef)| spec_service(e.0, e.1)) =~= services);
    let n = entries.len();
    let mut out: Vec<ComposeService> = Vec::new();
    let mut i: usize = 0;
    assert(services.take(0) =~= Seq::<ServiceView>::empty());
    assert(service_views(out@) =~= Seq::<ServiceView>::empty());
    while entries.len() > 0
        invariant
            n == entries0.len(),
            services.len() == n,
            forall|j: int| 0 <= j < n ==> #[trigger] services[j] == spec_service(entries0[j].0, entries0[j].1),
            i + entries@.len() == n,
            entries@ == entries0.skip(i as int),
            service_views(out@) == sort_by_name(services.take(i as int)),
        decreases entries@.len(),
    {
        let (svc_name, def) = entries.remove(0);
        let x = make_service(svc_name, def);
        proof {
            assert(entries0.skip(i as int)[0] == entries0[i as int]);
            assert(x@ == services[i as int]);
            assert(services.take(i + 1).drop_last() =~= services.take(i as int));
            assert(services.take(i + 1).last() == services[i as int]);
        }
        let ghost ov = service_views(out@);
        let mut p: usize = 0;
        while p < out.len() && !str_lt(x.name.as_str(), out[p].name.as_str())
            invariant
                p <= out@.len(),
                ov == service_views(out@),
                forall|j: int| 0 <= j < p ==> !seq_lt(x@.name, #[trigger] ov[j].name),
            decreases out@.len() - p,
        {
            p = p + 1;
        }
        proof {
            lemma_insert_by_name(ov, x@, p as int);
        }
        out.insert(p, x);
        assert(service_views(out@) =~= ov.insert(p as int, x@));
        assert(entries0.skip(i as int).drop_first() =~= entries0.skip(i + 1));
        i = i + 1;
    }
    assert(services.take(n as int) =~= services);
    ComposeProject { name, path: String::new(), services: out }
}

/// The project that `docker compose config` renders: named by the model, or
/// `compose` where it names none.
pub fn effective_project(file: ComposeFile) -> (r: ComposeProject)
    ensures
        project_view(r) == spec_project(file, "compose"@),
{
    compose_file_to_project(file, "compose")
}

/// Whether a file name is one of the names Compose looks for.
pub fn is_compose_file_name(name: &str) -> (r: bool)
    ensures
        r == (name@ == "docker-compose.yml"@ || name@ == "docker-compose.yaml"@ || name@ == "compose.yml"@
            || name@ == "compose.yaml"@),
{
    str_eq(name, "docker-compose.yml") || str_eq(name, "docker-compose.yaml") || str_eq(name, "compose.yml")
        || str_eq(name, "compose.yaml")
}

} // verus!
