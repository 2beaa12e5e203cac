//! User configuration that the library reads: hooks, custom commands and the
//! settings that shape the UI and the Docker connection.
use vstd::prelude::*;
use vstd::string::*;

verus! {

/// A shell command run when a Docker event of the given name arrives.
#[derive(Debug, Clone)]
pub struct Hook {
    pub event: String,
    pub command: String,
}

/// A user-defined command, offered by number in the custom-commands popup.
#[derive(Debug, Clone)]
pub struct CustomCommand {
    pub name: String,
    pub command: String,
    pub attach: bool,
}

/// The settings read from `config.toml`, less the alert thresholds, which are
/// floating-point values kept beside the library by the program.
#[derive(Debug, Clone)]
pub struct AppConfig {
    pub tick_rate_ms: u64,
    pub log_tail_lines: String,
    pub sidebar_width: u16,
    pub custom_commands: Vec<CustomCommand>,
    pub hooks: Vec<Hook>,
    pub docker_host: Option<String>,
    pub docker_context: Option<String>,
    pub docker_cert_path: Option<String>,
    pub docker_ssh_key_path: Option<String>,
    pub docker_tls_verify: bool,
    pub compose_profiles: Vec<String>,
    pub theme: String,
}

impl Default for AppConfig {
    fn default() -> (r: AppConfig)
        ensures
            r.tick_rate_ms == 250,
            r.log_tail_lines@ == "100"@,
            r.sidebar_width == 40,
            r.custom_commands@.len() == 0,
            r.hooks@.len() == 0,
            r.docker_host is None,
            r.docker_context is None,
            r.docker_cert_path is None,
            r.docker_ssh_key_path is None,
            !r.docker_tls_verify,
            r.compose_profiles@.len() == 0,
            r.theme@ == "ember"@,
    {
        AppConfig {
            tick_rate_ms: 250,
            log_tail_lines: String::from_str("100"),
            sidebar_width: 40,
            custom_commands: Vec::new(),
            hooks: Vec::new(),
            docker_host: None,
            docker_context: None,
            docker_cert_path: None,
            docker_ssh_key_path: None,
            docker_tls_verify: false,
            compose_profiles: Vec::new(),
            theme: String::from_str("ember"),
        }
    }
}

} // verus!
