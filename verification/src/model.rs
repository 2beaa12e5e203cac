//! The Docker objects the interface lists: containers, images, volumes and
//! networks, holding the fields that the library and the program read.
use vstd::prelude::*;

verus! {

/// A port mapping of a container.
#[derive(Debug, Clone, Default)]
pub struct ContainerPort {
    pub ip: Option<String>,
    pub private_port: u16,
    pub public_port: Option<u16>,
    pub typ: Option<String>,
}

/// A container as listed by the Docker daemon.
#[derive(Debug, Clone, Default)]
pub struct ContainerSummary {
    pub id: Option<String>,
    pub names: Option<Vec<String>>,
    pub image: Option<String>,
    pub state: Option<String>,
    pub status: Option<String>,
    pub ports: Option<Vec<ContainerPort>>,
    pub created: Option<i64>,
}

/// An image as listed by the Docker daemon.
#[derive(Debug, Clone, Default)]
pub struct ImageSummary {
    pub id: String,
    pub repo_tags: Vec<String>,
    pub size: i64,
    pub created: i64,
}

/// A volume as listed by the Docker daemon.
#[derive(Debug, Clone, Default)]
pub struct Volume {
    pub name: String,
    pub driver: String,
    pub mountpoint: String,
    pub scope: Option<String>,
}

/// A network as listed by the Docker daemon.
#[derive(Debug, Clone, Default)]
pub struct Network {
    pub id: Option<String>,
    pub name: Option<String>,
    pub driver: Option<String>,
    pub scope: Option<String>,
}

/// The view of an optional string.
pub open spec fn opt_view(s: Option<String>) -> Option<Seq<char>> {
    match s {
        Some(v) => Some(v@),
        None => None,
    }
}

/// A copy of an optional string.
pub fn clone_opt(s: &Option<String>) -> (r: Option<String>)
    ensures
        opt_view(r) == opt_view(*s),
{
    match s {
        Some(v) => Some(v.clone()),
        None => None,
    }
}

/// The container's state (`running`, `exited`, ...), if the daemon gave one.
pub fn container_state(container: &ContainerSummary) -> (r: Option<&str>)
    ensures
        r matches Some(s) ==> container.state matches Some(st) && s@ == st@,
        r is None <==> container.state is None,
{
    match &container.state {
        Some(s) => Some(s.as_str()),
        None => None,
    }
}

} // verus!
