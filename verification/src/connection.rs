//! Which Docker endpoint to talk to: a command-line or environment context,
//! then `DOCKER_HOST`, then the configured context or host, else the local
//! socket; and how an endpoint address becomes a connection.
use vstd::prelude::*;
use vstd::string::*;
use crate::compose::{env_view, env_views, remove_var, set_var, EnvVar};
use crate::config::AppConfig;
use crate::model::{clone_opt, opt_view};
use crate::strings::{is_prefix, starts_with, str_eq};

verus! {

/// How the program connects to the Docker daemon.
#[derive(Debug, Clone, PartialEq, Eq)]
pub enum ConnectionSpec {
    Local,
    Unix { socket: String },
    Http { host: String },
    Tls { host: String, cert_path: String },
    Ssh { host: String, key_path: Option<String> },
}

/// A connection as plain values.
pub enum ConnView {
    Local,
    Unix(Seq<char>),
    Http(Seq<char>),
    Tls(Seq<char>, Seq<char>),
    Ssh(Seq<char>, Option<Seq<char>>),
}

impl View for ConnectionSpec {
    type V = ConnView;

    open spec fn view(&self) -> ConnView {
        match self {
            ConnectionSpec::Local => ConnView::Local,
            ConnectionSpec::Unix { socket } => ConnView::Unix(socket@),
            ConnectionSpec::Http { host } => ConnView::Http(host@),
            ConnectionSpec::Tls { host, cert_path } => ConnView::Tls(host@, cert_path@),
            ConnectionSpec::Ssh { host, key_path } => ConnView::Ssh(host@, opt_view(*key_path)),
        }
    }
}

/// The address of a connection's endpoint, if it has one.
pub open spec fn spec_host(c: ConnView) -> Option<Seq<char>> {
    match c {
        ConnView::Local => None,
        ConnView::Unix(s) => Some(s),
        ConnView::Http(h) => Some(h),
        ConnView::Tls(h, _) => Some(h),
        ConnView::Ssh(h, _) => Some(h),
    }
}

/// The connection that was chosen, with the Docker context it came from.
#[derive(Debug, Clone)]
pub struct ResolvedConnection {
    pub spec: ConnectionSpec,
    pub context: Option<String>,
}

/// Why no connection could be made.
#[derive(Debug, Clone, PartialEq, Eq)]
pub enum ConnectionError {
    /// TLS was asked for, but no certificate directory was given.
    MissingCertDir,
    /// A file of the certificate bundle is not there.
    TlsFileMissing { file: String },
    /// The endpoint address has a scheme the program does not speak.
    UnsupportedEndpoint { host: String },
    /// Reading a Docker context failed.
    ContextInspect { message: String },
}

/// A connection error as plain values.
pub enum ConnErr {
    MissingCertDir,
    TlsFileMissing(Seq<char>),
    UnsupportedEndpoint(Seq<char>),
    ContextInspect(Seq<char>),
}

impl View for ConnectionError {
    type V = ConnErr;

    open spec fn view(&self) -> ConnErr {
        match self {
            ConnectionError::MissingCertDir => ConnErr::MissingCertDir,
            ConnectionError::TlsFileMissing { file } => ConnErr::TlsFileMissing(file@),
            ConnectionError::UnsupportedEndpoint { host } => ConnErr::UnsupportedEndpoint(host@),
            ConnectionError::ContextInspect { message } => ConnErr::ContextInspect(message@),
        }
    }
}

/// The message an error is reported with.
pub open spec fn spec_error_message(e: ConnErr) -> Seq<char> {
    match e {
        ConnErr::MissingCertDir => "TLS is enabled but no certificate directory was found; set DOCKER_CERT_PATH or docker_cert_path"@,
        ConnErr::TlsFileMissing(f) => "Docker TLS file is missing: "@ + f,
        ConnErr::UnsupportedEndpoint(h) => "Unsupported Docker endpoint: "@ + h,
        ConnErr::ContextInspect(m) => m,
    }
}

impl ConnectionError {
    /// The message the error is reported with.
    pub fn message(&self) -> (r: String)
        ensures
            r@ == spec_error_message(self@),
    {
        match self {
            ConnectionError::MissingCertDir => "TLS is enabled but no certificate directory was found; set DOCKER_CERT_PATH or docker_cert_path".to_owned(),
            ConnectionError::TlsFileMissing { file } => "Docker TLS file is missing: ".to_owned().concat(file.as_str()),
            ConnectionError::UnsupportedEndpoint { host } => "Unsupported Docker endpoint: ".to_owned().concat(host.as_str()),
            ConnectionError::ContextInspect { message } => message.clone(),
        }
    }
}

/// The view of a connection result.
pub open spec fn conn_result_view(r: Result<ConnectionSpec, ConnectionError>) -> Result<ConnView, ConnErr> {
    match r {
        Ok(c) => Ok(c@),
        Err(e) => Err(e@),
    }
}

/// The view of a resolution: the connection and its context, or the error.
pub open spec fn resolved_view(r: Result<ResolvedConnection, ConnectionError>) -> Result<(ConnView, Option<Seq<char>>), ConnErr> {
    match r {
        Ok(c) => Ok((c.spec@, opt_view(c.context))),
        Err(e) => Err(e@),
    }
}

impl ConnectionSpec {
    /// The address of the endpoint: the socket, or the host; none for the
    /// local default.
    pub fn host(&self) -> (r: Option<&str>)
        ensures
            match r {
                Some(h) => spec_host(self@) == Some(h@),
                None => spec_host(self@) is None,
            },
    {
        match self {
            ConnectionSpec::Local => None,
            ConnectionSpec::Unix { socket } => Some(socket.as_str()),
            ConnectionSpec::Http { host } => Some(host.as_str()),
            ConnectionSpec::Tls { host, .. } => Some(host.as_str()),
            ConnectionSpec::Ssh { host, .. } => Some(host.as_str()),
        }
    }

    /// The environment changes under which the `docker` command line reaches
    /// the same endpoint: a context replaces any inherited endpoint settings;
    /// otherwise the host is passed on, with the TLS settings for a TLS
    /// connection.
    pub fn cli_env_plan(&self, context: Option<&str>) -> (r: Vec<EnvVar>)
        ensures
            env_views(r@) == spec_cli_env(self@, match context {
                Some(c) => Some(c@),
                None => None,
            }),
    {
        let mut r: Vec<EnvVar> = Vec::new();
        match context {
            Some(c) => {
                r.push(set_var("DOCKER_CONTEXT", c));
                r.push(remove_var("DOCKER_HOST"));
                r.push(remove_var("DOCKER_TLS_VERIFY"));
                r.push(remove_var("DOCKER_CERT_PATH"));
            },
            None => {
                match self.host() {
                    Some(h) => r.push(set_var("DOCKER_HOST", h)),
                    None => {},
                }
                match self {
                    ConnectionSpec::Tls { cert_path, .. } => {
                        r.push(set_var("DOCKER_TLS_VERIFY", "1"));
                        r.push(set_var("DOCKER_CERT_PATH", cert_path.as_str()));
                    },
                    _ => {},
                }
            },
        }
        assert(env_views(r@) =~= spec_cli_env(self@, match context {
            Some(c) => Some(c@),
            None => None,
        }));
        r
    }
}

/// The environment changes for the `docker` command line.
pub open spec fn spec_cli_env(c: ConnView, context: Option<Seq<char>>) -> Seq<(Seq<char>, Option<Seq<char>>)> {
    match context {
        Some(ctx) => seq![
            ("DOCKER_CONTEXT"@, Some(ctx)),
            ("DOCKER_HOST"@, None),
            ("DOCKER_TLS_VERIFY"@, None),
            ("DOCKER_CERT_PATH"@, None),
        ],
        None => (match spec_host(c) {
            Some(h) => seq![("DOCKER_HOST"@, Some(h))],
            None => Seq::empty(),
        }) + (match c {
            ConnView::Tls(_, p) => seq![("DOCKER_TLS_VERIFY"@, Some("1"@)), ("DOCKER_CERT_PATH"@, Some(p))],
            _ => Seq::empty(),
        }),
    }
}

/// Whether TLS was asked for: `DOCKER_TLS_VERIFY` set to something other than
/// empty or `0`, or `docker_tls_verify` in the configuration.
pub open spec fn spec_tls_requested(env_tls_verify: Option<Seq<char>>, config_tls_verify: bool) -> bool {
    (match env_tls_verify {
        Some(v) => v.len() > 0 && v != "0"@,
        None => false,
    }) || config_tls_verify
}

pub fn tls_requested(env_tls_verify: Option<&str>, config: &AppConfig) -> (r: bool)
    ensures
        r == spec_tls_requested(
            match env_tls_verify {
                Some(v) => Some(v@),
                None => None,
            },
            config.docker_tls_verify,
        ),
{
    let from_env = match env_tls_verify {
        Some(v) => !v.is_empty() && !str_eq(v, "0"),
        None => false,
    };
    from_env || config.docker_tls_verify
}

/// The path of file `name` in directory `dir`, as `Path::join` forms it.
pub uninterp spec fn path_join(dir: Seq<char>, name: Seq<char>) -> Seq<char>;

/// Calls `Path::join` on `dir` and `name` and displays the result; it is
/// named `path_join`.
#[verifier::external_body]
fn join_path(dir: &str, name: &str) -> (r: String)
    ensures
        r@ == path_join(dir@, name@),
{
    std::path::Path::new(dir).join(name).display().to_string()
}

/// Calls `Path::is_file`, which asks the file system; what it finds there is
/// not stated.
#[verifier::external_body]
fn is_file(path: &str) -> (r: bool) {
    std::path::Path::new(path).is_file()
}

/// The first missing file of a certificate bundle in `dir`, given which of
/// `ca.pem`, `cert.pem` and `key.pem` are there.
pub open spec fn spec_missing_cert(dir: Seq<char>, present: (bool, bool, bool)) -> Option<ConnErr> {
    if !present.0 {
        Some(ConnErr::TlsFileMissing(path_join(dir, "ca.pem"@)))
    } else if !present.1 {
        Some(ConnErr::TlsFileMissing(path_join(dir, "cert.pem"@)))
    } else if !present.2 {
        Some(ConnErr::TlsFileMissing(path_join(dir, "key.pem"@)))
    } else {
        None
    }
}

/// The view of a check that passes or fails with an error.
pub open spec fn check_view(r: Result<(), ConnectionError>) -> Option<ConnErr> {
    match r {
        Ok(()) => None,
        Err(e) => Some(e@),
    }
}

/// The verdict on a certificate bundle in `dir`, given which of `ca.pem`,
/// `cert.pem` and `key.pem` are there: an error naming the first missing one.
pub fn missing_cert_file(dir: &str, present: (bool, bool, bool)) -> (r: Result<(), ConnectionError>)
    ensures
        check_view(r) == spec_missing_cert(dir@, present),
{
    if !present.0 {
        Err(ConnectionError::TlsFileMissing { file: join_path(dir, "ca.pem") })
    } else if !present.1 {
        Err(ConnectionError::TlsFileMissing { file: join_path(dir, "cert.pem") })
    } else if !present.2 {
        Err(ConnectionError::TlsFileMissing { file: join_path(dir, "key.pem") })
    } else {
        Ok(())
    }
}

/// Whether `probe`, asked about `ca.pem`, `cert.pem` and `key.pem` in `dir`,
/// may have answered `present`: each flag is a possible answer of the probe
/// for the path of that file.
pub open spec fn bundle_probed<P: Fn(&str) -> bool>(probe: P, dir: Seq<char>, present: (bool, bool, bool)) -> bool {
    &&& exists|s: &str| s@ == path_join(dir, "ca.pem"@) && #[trigger] call_ensures(probe, (s,), present.0)
    &&& exists|s: &str| s@ == path_join(dir, "cert.pem"@) && #[trigger] call_ensures(probe, (s,), present.1)
    &&& exists|s: &str| s@ == path_join(dir, "key.pem"@) && #[trigger] call_ensures(probe, (s,), present.2)
}

/// Checks that `dir` holds `ca.pem`, `cert.pem` and `key.pem`, asking
/// `probe` whether each path in `dir` is a file: the error names the first
/// one missing.
pub fn validate_cert_path_with<P: Fn(&str) -> bool>(dir: &str, probe: P) -> (r: Result<(), ConnectionError>)
    requires
        forall|p: &str| call_requires(probe, (p,)),
    ensures
        exists|present: (bool, bool, bool)|
            bundle_probed(probe, dir@, present) && check_view(r) == spec_missing_cert(dir@, present),
{
    let ca_path = join_path(dir, "ca.pem");
    let cert_path = join_path(dir, "cert.pem");
    let key_path = join_path(dir, "key.pem");
    let ca_s = ca_path.as_str();
    let cert_s = cert_path.as_str();
    let key_s = key_path.as_str();
    let ca = probe(ca_s);
    let cert = probe(cert_s);
    let key = probe(key_s);
    let r = missing_cert_file(dir, (ca, cert, key));
    let ghost present = (ca, cert, key);
    assert(call_ensures(probe, (ca_s,), present.0) && ca_s@ == path_join(dir@, "ca.pem"@));
    assert(call_ensures(probe, (cert_s,), present.1) && cert_s@ == path_join(dir@, "cert.pem"@));
    assert(call_ensures(probe, (key_s,), present.2) && key_s@ == path_join(dir@, "key.pem"@));
    assert(bundle_probed(probe, dir@, present));
    r
}

/// Whether `present` is what `Path::is_file` may have answered for
/// `ca.pem`, `cert.pem` and `key.pem` in `dir`: the file system is asked
/// about exactly those three paths.
pub closed spec fn disk_bundle(dir: Seq<char>, present: (bool, bool, bool)) -> bool {
    bundle_probed(is_file, dir, present)
}

/// Checks that `dir` holds `ca.pem`, `cert.pem` and `key.pem` on the file
/// system; the error names the first one missing.
pub fn validate_cert_path(dir: &str) -> (r: Result<(), ConnectionError>)
    ensures
        exists|present: (bool, bool, bool)|
            disk_bundle(dir@, present) && check_view(r) == spec_missing_cert(dir@, present),
{
    validate_cert_path_with(dir, is_file)
}

/// The connection an endpoint address gives, where the certificate check, if
/// one is made, finds the files `present`: sockets and named pipes by their
/// path, SSH with the key path, TLS where the address is `https://` or TLS is
/// asked for or a certificate directory is given, plain HTTP for `tcp://` and
/// `http://`; any other address is refused.
pub open spec fn spec_connection(
    host: Seq<char>,
    cert_path: Option<Seq<char>>,
    verify_tls: bool,
    ssh_key_path: Option<Seq<char>>,
    present: (bool, bool, bool),
) -> Result<ConnView, ConnErr> {
    if is_prefix("unix://"@, host) || is_prefix("npipe://"@, host) {
        Ok(ConnView::Unix(host))
    } else if is_prefix("ssh://"@, host) {
        Ok(ConnView::Ssh(host, ssh_key_path))
    } else if is_prefix("https://"@, host) || verify_tls || cert_path is Some {
        match cert_path {
            None => Err(ConnErr::MissingCertDir),
            Some(p) => match spec_missing_cert(p, present) {
                Some(e) => Err(e),
                None => Ok(ConnView::Tls(host, p)),
            },
        }
    } else if is_prefix("tcp://"@, host) || is_prefix("http://"@, host) {
        Ok(ConnView::Http(host))
    } else {
        Err(ConnErr::UnsupportedEndpoint(host))
    }
}

/// The directory whose certificate bundle an address's connection checks:
/// the certificate directory, where the address takes TLS.
pub open spec fn spec_checked_dir(host: Seq<char>, cert_path: Option<Seq<char>>, verify_tls: bool) -> Option<Seq<char>> {
    if is_prefix("unix://"@, host) || is_prefix("npipe://"@, host) || is_prefix("ssh://"@, host) {
        None
    } else if is_prefix("https://"@, host) || verify_tls || cert_path is Some {
        cert_path
    } else {
        None
    }
}

/// The connection an endpoint address gives; see `spec_connection`. Where a
/// certificate bundle is checked, `probe` is asked whether each of its three
/// paths is a file, and its answers decide between the TLS connection and the
/// error naming the first missing file.
pub fn connection_from_host_with<P: Fn(&str) -> bool>(
    host: String,
    cert_path: Option<String>,
    verify_tls: bool,
    ssh_key_path: Option<String>,
    probe: P,
) -> (r: Result<ConnectionSpec, ConnectionError>)
    requires
        forall|p: &str| call_requires(probe, (p,)),
    ensures
        exists|present: (bool, bool, bool)|
            {
                &&& (spec_checked_dir(host@, opt_view(cert_path), verify_tls) matches Some(d) ==> bundle_probed(
                    probe,
                    d,
                    present,
                ))
                &&& conn_result_view(r) == spec_connection(
                    host@,
                    opt_view(cert_path),
                    verify_tls,
                    opt_view(ssh_key_path),
                    present,
                )
            },
{
    let ghost hv = host@;
    let ghost cert_view = opt_view(cert_path);
    let ghost key_view = opt_view(ssh_key_path);
    if starts_with(host.as_str(), "unix://") || starts_with(host.as_str(), "npipe://") {
        let r = Ok(ConnectionSpec::Unix { socket: host });
        assert(conn_result_view(r) == spec_connection(hv, cert_view, verify_tls, key_view, (true, true, true)));
        return r;
    }
    if starts_with(host.as_str(), "ssh://") {
        let r = Ok(ConnectionSpec::Ssh { host, key_path: ssh_key_path });
        assert(conn_result_view(r) == spec_connection(hv, cert_view, verify_tls, key_view, (true, true, true)));
        return r;
    }
    if starts_with(host.as_str(), "https://") || verify_tls || cert_path.is_some() {
        match cert_path {
            None => {
                let r = Err(ConnectionError::MissingCertDir);
                assert(conn_result_view(r) == spec_connection(hv, cert_view, verify_tls, key_view, (true, true, true)));
                return r;
            },
            Some(p) => {
                let check = validate_cert_path_with(p.as_str(), probe);
                let ghost present = choose|present: (bool, bool, bool)|
                    bundle_probed(probe, p@, present) && check_view(check) == spec_missing_cert(p@, present);
                let r = match check {
                    Err(e) => Err(e),
                    Ok(()) => Ok(ConnectionSpec::Tls { host, cert_path: p }),
                };
                assert(spec_checked_dir(hv, cert_view, verify_tls) == Some(p@));
                assert(conn_result_view(r) == spec_connection(hv, cert_view, verify_tls, key_view, present));
                return r;
            },
        }
    }
    if starts_with(host.as_str(), "tcp://") || starts_with(host.as_str(), "http://") {
        let r = Ok(ConnectionSpec::Http { host });
        assert(conn_result_view(r) == spec_connection(hv, cert_view, verify_tls, key_view, (true, true, true)));
        return r;
    }
    let r = Err(ConnectionError::UnsupportedEndpoint { host });
    assert(conn_result_view(r) == spec_connection(hv, cert_view, verify_tls, key_view, (true, true, true)));
    r
}

/// The connection an endpoint address gives; see `spec_connection`. Where a
/// certificate bundle is checked, the file system is asked about its three
/// paths, and what it finds decides between the TLS connection and the error
/// naming the first missing file.
pub fn connection_from_host(
    host: String,
    cert_path: Option<String>,
    verify_tls: bool,
    ssh_key_path: Option<String>,
) -> (r: Result<ConnectionSpec, ConnectionError>)
    ensures
        exists|present: (bool, bool, bool)|
            {
                &&& (spec_checked_dir(host@, opt_view(cert_path), verify_tls) matches Some(d) ==> disk_bundle(
                    d,
                    present,
                ))
                &&& conn_result_view(r) == spec_connection(
                    host@,
                    opt_view(cert_path),
                    verify_tls,
                    opt_view(ssh_key_path),
                    present,
                )
            },
{
    connection_from_host_with(host, cert_path, verify_tls, ssh_key_path, is_file)
}

/// What a Docker context's metadata says of its endpoint: the address,
/// whether TLS verification is skipped, how many TLS files the context
/// stores for Docker, and where they are stored.
#[derive(Debug, Clone)]
pub struct ContextInfo {
    pub host: String,
    pub skip_tls_verify: bool,
    pub tls_material_entries: usize,
    pub tls_path: Option<String>,
}

/// The environment variables that choose an endpoint, as read.
#[derive(Debug, Clone)]
pub struct DockerEnv {
    pub context: Option<String>,
    pub host: Option<String>,
    pub cert_path: Option<String>,
    pub tls_verify: Option<String>,
}

/// The connection a context's metadata gives, where the certificate check
/// finds the files `present`: its TLS directory counts only where the context
/// stores TLS files, and TLS is verified unless the context skips it.
pub open spec fn spec_context_connection(
    name: Seq<char>,
    m: Result<ContextInfo, ConnectionError>,
    config: AppConfig,
    present: (bool, bool, bool),
) -> Result<(ConnView, Option<Seq<char>>), ConnErr> {
    match m {
        Err(e) => Err(e@),
        Ok(info) => {
            let cert = if info.tls_material_entries > 0 {
                opt_view(info.tls_path)
            } else {
                None
            };
            let verify = !info.skip_tls_verify && cert is Some;
            match spec_connection(info.host@, cert, verify, opt_view(config.docker_ssh_key_path), present) {
                Ok(c) => Ok((c, Some(name))),
                Err(e) => Err(e),
            }
        },
    }
}

/// The directory whose certificate bundle the connection of a context
/// checks, where its metadata was read and its address takes TLS.
pub open spec fn spec_context_checked_dir(m: Result<ContextInfo, ConnectionError>) -> Option<Seq<char>> {
    match m {
        Err(_) => None,
        Ok(info) => {
            let cert = if info.tls_material_entries > 0 {
                opt_view(info.tls_path)
            } else {
                None
            };
            spec_checked_dir(info.host@, cert, !info.skip_tls_verify && cert is Some)
        },
    }
}

/// The connection a context gives, from the outcome of reading its metadata.
pub fn resolve_context(name: String, metadata: Result<ContextInfo, ConnectionError>, config: &AppConfig) -> (r: Result<
    ResolvedConnection,
    ConnectionError,
>)
    ensures
        exists|present: (bool, bool, bool)|
            {
                &&& (spec_context_checked_dir(metadata) matches Some(d) ==> disk_bundle(d, present))
                &&& resolved_view(r) == spec_context_connection(name@, metadata, *config, present)
            },
{
    let ghost m0 = metadata;
    match metadata {
        Err(e) => {
            let r = Err(e);
            assert(resolved_view(r) == spec_context_connection(name@, m0, *config, (true, true, true)));
            r
        },
        Ok(info) => {
            let ghost info0 = info;
            let cert = if info.tls_material_entries > 0 {
                info.tls_path
            } else {
                None
            };
            let verify = !info.skip_tls_verify && cert.is_some();
            let ghost cert_view = opt_view(cert);
            let c = connection_from_host(info.host, cert, verify, clone_opt(&config.docker_ssh_key_path));
            let ghost present = choose|present: (bool, bool, bool)|
                (spec_checked_dir(info0.host@, cert_view, verify) matches Some(d) ==> disk_bundle(d, present))
                    && conn_result_view(c) == spec_connection(
                    info0.host@,
                    cert_view,
                    verify,
                    opt_view(config.docker_ssh_key_path),
                    present,
                );
            let r = match c {
                Ok(spec) => Ok(ResolvedConnection { spec, context: Some(name) }),
                Err(e) => Err(e),
            };
            assert(resolved_view(r) == spec_context_connection(name@, m0, *config, present));
            r
        },
    }
}

/// The first decision of resolving an endpoint, before anything is inspected.
pub enum ConnectionStep {
    /// Read the metadata of this Docker context.
    Inspect(String),
    /// Connect to this address.
    Connect { host: String, cert_path: Option<String>, verify_tls: bool },
    /// Use the local default.
    Local,
}

/// The first decision as plain values.
pub enum StepView {
    Inspect(Seq<char>),
    Connect(Seq<char>, Option<Seq<char>>, bool),
    Local,
}

/// The view of a step.
pub open spec fn step_view(s: ConnectionStep) -> StepView {
    match s {
        ConnectionStep::Inspect(n) => StepView::Inspect(n@),
        ConnectionStep::Connect { host, cert_path, verify_tls } => StepView::Connect(host@, opt_view(cert_path), verify_tls),
        ConnectionStep::Local => StepView::Local,
    }
}

/// The order in which endpoints are chosen: a command-line context, then
/// `DOCKER_CONTEXT`, then `DOCKER_HOST`, then the configured context, then the
/// configured host, else the local default. A host takes its certificate
/// directory from `DOCKER_CERT_PATH`, else from the configuration.
pub open spec fn spec_step(cli_context: Option<Seq<char>>, config: AppConfig, env: DockerEnv) -> StepView {
    let cert = match opt_view(env.cert_path) {
        Some(p) => Some(p),
        None => opt_view(config.docker_cert_path),
    };
    let tls = spec_tls_requested(opt_view(env.tls_verify), config.docker_tls_verify);
    match cli_context {
        Some(c) => StepView::Inspect(c),
        None => match opt_view(env.context) {
            Some(c) => StepView::Inspect(c),
            None => match opt_view(env.host) {
                Some(h) => StepView::Connect(h, cert, tls),
                None => match opt_view(config.docker_context) {
                    Some(c) => StepView::Inspect(c),
                    None => match opt_view(config.docker_host) {
                        Some(h) => StepView::Connect(h, cert, tls),
                        None => StepView::Local,
                    },
                },
            },
        },
    }
}

/// The view of an optional string slice.
pub open spec fn cli_view(s: Option<&str>) -> Option<Seq<char>> {
    match s {
        Some(c) => Some(c@),
        None => None,
    }
}

/// The first decision of resolving an endpoint.
pub fn resolve_step(cli_context: Option<&str>, config: &AppConfig, env: &DockerEnv) -> (r: ConnectionStep)
    ensures
        step_view(r) == spec_step(
            match cli_context {
                Some(c) => Some(c@),
                None => None,
            },
            *config,
            *env,
        ),
{
    let cert_path = match &env.cert_path {
        Some(p) => Some(p.clone()),
        None => clone_opt(&config.docker_cert_path),
    };
    let tls_env = match &env.tls_verify {
        Some(v) => Some(v.as_str()),
        None => None,
    };
    let verify_tls = tls_requested(tls_env, config);
    match cli_context {
        Some(c) => ConnectionStep::Inspect(c.to_owned()),
        None => match &env.context {
            Some(c) => ConnectionStep::Inspect(c.clone()),
            None => match &env.host {
                Some(h) => ConnectionStep::Connect { host: h.clone(), cert_path, verify_tls },
                None => match &config.docker_context {
                    Some(c) => ConnectionStep::Inspect(c.clone()),
                    None => match &config.docker_host {
                        Some(h) => ConnectionStep::Connect { host: h.clone(), cert_path, verify_tls },
                        None => ConnectionStep::Local,
                    },
                },
            },
        },
    }
}

/// Whether the program should ask Docker for its current context: only where
/// nothing else names an endpoint.
pub fn should_query_current_context(cli_context: Option<&str>, env: &DockerEnv, config: &AppConfig) -> (r: bool)
    ensures
        r == (cli_context is None && env.context is None && env.host is None && config.docker_context is None
            && config.docker_host is None),
{
    cli_context.is_none() && env.context.is_none() && env.host.is_none() && config.docker_context.is_none()
        && config.docker_host.is_none()
}

/// The directory whose certificate bundle a resolution checks, for the first
/// decision `step`, where the context, if one is read, reads as `m`.
pub open spec fn spec_resolution_checked_dir(step: StepView, m: Result<ContextInfo, ConnectionError>) -> Option<Seq<char>> {
    match step {
        StepView::Inspect(_) => spec_context_checked_dir(m),
        StepView::Connect(h, cert, tls) => spec_checked_dir(h, cert, tls),
        StepView::Local => None,
    }
}

/// What a resolution gives for the first decision `step`, where the context,
/// if one is read, reads as `m`, and the certificate check, if one is made,
/// finds the files `present`.
pub open spec fn spec_resolution(
    step: StepView,
    config: AppConfig,
    m: Result<ContextInfo, ConnectionError>,
    present: (bool, bool, bool),
) -> Result<(ConnView, Option<Seq<char>>), ConnErr> {
    match step {
        StepView::Inspect(name) => spec_context_connection(name, m, config, present),
        StepView::Connect(h, cert, tls) => match spec_connection(h, cert, tls, opt_view(config.docker_ssh_key_path), present) {
            Ok(c) => Ok((c, None)),
            Err(e) => Err(e),
        },
        StepView::Local => Ok((ConnView::Local, None)),
    }
}

/// Resolves the endpoint: `env` reads an environment variable and `inspect`
/// reads a context's metadata. The environment is read once per variable.
/// `inspect` need accept only the one context name that the decision picks
/// from what `env` gave back, and it is called with that name alone: where a
/// host or the local socket wins, it is never called.
pub fn resolve_with<E, I>(cli_context: Option<&str>, config: &AppConfig, env: E, inspect: I) -> (r: Result<
    ResolvedConnection,
    ConnectionError,
>) where E: Fn(&str) -> Option<String>, I: Fn(&str) -> Result<ContextInfo, ConnectionError>
    requires
        forall|k: &str| call_requires(env, (k,)),
        forall|denv: DockerEnv, s: &str|
            #![trigger call_requires(inspect, (s,)), spec_step(cli_view(cli_context), *config, denv)]
            call_ensures(env, ("DOCKER_CONTEXT",), denv.context) && call_ensures(env, ("DOCKER_HOST",), denv.host)
                && call_ensures(env, ("DOCKER_CERT_PATH",), denv.cert_path) && call_ensures(
                env,
                ("DOCKER_TLS_VERIFY",),
                denv.tls_verify,
            ) && (spec_step(cli_view(cli_context), *config, denv) matches StepView::Inspect(name) && s@ == name)
                ==> call_requires(inspect, (s,)),
    ensures
        exists|denv: DockerEnv, m: Result<ContextInfo, ConnectionError>, present: (bool, bool, bool)|
            #![trigger spec_resolution(spec_step(cli_view(cli_context), *config, denv), *config, m, present)]
            {
                &&& call_ensures(env, ("DOCKER_CONTEXT",), denv.context)
                &&& call_ensures(env, ("DOCKER_HOST",), denv.host)
                &&& call_ensures(env, ("DOCKER_CERT_PATH",), denv.cert_path)
                &&& call_ensures(env, ("DOCKER_TLS_VERIFY",), denv.tls_verify)
                &&& (spec_step(cli_view(cli_context), *config, denv) matches StepView::Inspect(name) ==> exists|s: &str|
                    s@ == name && #[trigger] call_ensures(inspect, (s,), m))
                &&& (spec_resolution_checked_dir(spec_step(cli_view(cli_context), *config, denv), m) matches Some(d)
                    ==> disk_bundle(d, present))
                &&& resolved_view(r) == spec_resolution(spec_step(cli_view(cli_context), *config, denv), *config, m, present)
            },
{
    let denv = DockerEnv {
        context: env("DOCKER_CONTEXT"),
        host: env("DOCKER_HOST"),
        cert_path: env("DOCKER_CERT_PATH"),
        tls_verify: env("DOCKER_TLS_VERIFY"),
    };
    let ghost cli = cli_view(cli_context);
    let step = resolve_step(cli_context, config, &denv);
    match step {
        ConnectionStep::Inspect(name) => {
            let ghost name_view = name@;
            let ns = name.as_str();
            assert(spec_step(cli_view(cli_context), *config, denv) == StepView::Inspect(name_view));
            assert(call_requires(inspect, (ns,)));
            let m = inspect(ns);
            let ghost m0 = m;
            let r = resolve_context(name, m, config);
            let ghost present = choose|present: (bool, bool, bool)|
                (spec_context_checked_dir(m0) matches Some(d) ==> disk_bundle(d, present)) && resolved_view(r)
                    == spec_context_connection(name_view, m0, *config, present);
            assert(resolved_view(r) == spec_resolution(spec_step(cli, *config, denv), *config, m0, present));
            r
        },
        ConnectionStep::Connect { host, cert_path, verify_tls } => {
            let ghost hv = host@;
            let ghost cv = opt_view(cert_path);
            let c = connection_from_host(host, cert_path, verify_tls, clone_opt(&config.docker_ssh_key_path));
            let ghost present = choose|present: (bool, bool, bool)|
                (spec_checked_dir(hv, cv, verify_tls) matches Some(d) ==> disk_bundle(d, present)) && conn_result_view(c)
                    == spec_connection(hv, cv, verify_tls, opt_view(config.docker_ssh_key_path), present);
            let r = match c {
                Ok(spec) => Ok(ResolvedConnection { spec, context: None }),
                Err(e) => Err(e),
            };
            let ghost m: Result<ContextInfo, ConnectionError> = Err(ConnectionError::MissingCertDir);
            assert(resolved_view(r) == spec_resolution(spec_step(cli, *config, denv), *config, m, present));
            r
        },
        ConnectionStep::Local => {
            let r = Ok(ResolvedConnection { spec: ConnectionSpec::Local, context: None });
            let ghost m: Result<ContextInfo, ConnectionError> = Err(ConnectionError::MissingCertDir);
            assert(resolved_view(r) == spec_resolution(spec_step(cli, *config, denv), *config, m, (true, true, true)));
            r
        },
    }
}

} // verus!
