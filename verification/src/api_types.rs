//! Request and response bodies of the gateway's container endpoints. The
//! HTTP layer decodes requests into these types and encodes responses from
//! them; the library's checks and parsers work on their fields.

use vstd::prelude::*;

verus! {

use std::collections::HashMap;

/// Payload to create and start a container.
#[derive(Debug)]
pub struct ContainerCreate {
    pub name: String,
    pub image: String,
    /// CPU quota, e.g. `"2"` or `"1.5"`.
    pub cpu: Option<String>,
    /// Memory limit, e.g. `"1g"`.
    pub memory: Option<String>,
    /// Swap limit, e.g. `"2g"`.
    pub swap: Option<String>,
    pub env: Option<Vec<String>>,
    pub ports: Option<Vec<PortMap>>,
    /// Network name; defaults to `"bridge"`.
    pub network: Option<String>,
    pub volumes: Option<Vec<VolumeMap>>,
    pub labels: Option<HashMap<String, String>>,
}

/// One container-to-host port mapping; a missing host port asks the
/// gateway to pick a free one.
#[derive(Debug, Clone, Copy, PartialEq, Eq, Structural)]
pub struct PortMap {
    pub container: u16,
    pub host: Option<u16>,
}

/// One host-to-container bind mount.
#[derive(Debug)]
pub struct VolumeMap {
    pub source: String,
    pub target: String,
    pub ro: Option<bool>,
}

/// What container creation answers: the name, the daemon's id, and the
/// port mappings that were set up.
#[derive(Debug)]
pub struct ContainerInfo {
    pub name: String,
    pub id: String,
    pub ports: HashMap<String, u16>,
}

/// Options accepted when removing a container.
#[derive(Debug, Clone, Copy)]
pub struct RemoveContainerRequest {
    pub force: Option<bool>,
    pub v: Option<bool>,
}

/// Options accepted when stopping a container.
#[derive(Debug)]
pub struct StopContainerRequest {
    /// Grace period in seconds; capped at 60.
    pub t: Option<u64>,
    pub signal: Option<String>,
}

/// Filters accepted when listing containers, each a comma-separated list.
#[derive(Debug)]
pub struct ContainerQuery {
    pub status: Option<String>,
    pub label: Option<String>,
    pub name: Option<String>,
    pub all: Option<bool>,
}

/// A command to run inside a container.
#[derive(Debug)]
pub struct ExecRequest {
    pub cmd: Vec<String>,
    /// Optional user to run as, e.g. `"1000:1000"`.
    pub user: Option<String>,
}

/// Captured output and exit code of a one-shot command.
#[derive(Debug)]
pub struct ExecResponse {
    pub stdout: String,
    pub stderr: String,
    pub exit_code: i64,
}

/// Body of a read-file request: the absolute path inside the container.
#[derive(Debug)]
pub struct ReadFileRequest {
    pub path: String,
}

/// The grace period a stop request is given: the requested seconds capped
/// at 60, the default of 5 when no body was sent.
pub fn stop_grace_seconds(req: Option<&StopContainerRequest>) -> (r: Option<u64>)
    ensures
        r == match req {
            Some(q) => match q.t {
                Some(t) => Some(if t < 60 {
                    t
                } else {
                    60u64
                }),
                None => None::<u64>,
            },
            None => Some(5u64),
        },
{
    match req {
        Some(q) => match q.t {
            Some(t) => Some(
                if t < 60 {
                    t
                } else {
                    60
                },
            ),
            None => None,
        },
        None => Some(5),
    }
}

} // verus!
