use vstd::prelude::*;

use crate::log_line::same_text;

verus! {

/// The kind of system that runs the groups' server resources.
#[derive(Clone, Copy, Debug, PartialEq, Eq, Structural)]
pub enum BackendType {
    Docker,
    Kubernetes,
}

/// A lifecycle operation asked of the backend.
#[derive(Clone, Debug, PartialEq, Eq)]
pub enum BackendAction {
    Start(String),
    Stop(String),
    StopAll,
    ListGroupConfigs,
}

/// What became of a lifecycle operation. Failures of the underlying API are
/// reported, never raised.
#[derive(Clone, Debug, PartialEq, Eq)]
pub enum BackendOutcome {
    Done,
    Failed(String),
    Unsupported,
}

pub open spec fn backend_type_of_key(key: Seq<char>) -> Option<BackendType> {
    if key == seq!['d', 'o', 'c', 'k', 'e', 'r'] {
        Some(BackendType::Docker)
    } else if key == seq!['k', 'u', 'b', 'e', 'r', 'n', 'e', 't', 'e', 's'] {
        Some(BackendType::Kubernetes)
    } else {
        None
    }
}

/// Selects the backend from its configured name: `docker` or `kubernetes`.
pub fn parse_backend_type(key: &str) -> (r: Option<BackendType>)
    ensures
        r == backend_type_of_key(key@),
{
    proof {
        reveal_strlit("docker");
        reveal_strlit("kubernetes");
        assert("docker"@ =~= seq!['d', 'o', 'c', 'k', 'e', 'r']);
        assert("kubernetes"@ =~= seq!['k', 'u', 'b', 'e', 'r', 'n', 'e', 't', 'e', 's']);
    }
    if same_text(key, "docker") {
        Some(BackendType::Docker)
    } else if same_text(key, "kubernetes") {
        Some(BackendType::Kubernetes)
    } else {
        None
    }
}

} // verus!
