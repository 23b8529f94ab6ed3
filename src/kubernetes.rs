use vstd::prelude::*;

use std::collections::HashMap;

use crate::backend::BackendOutcome;

verus! {

/// Stopping a group's StatefulSet is not available on this backend.
pub fn stop(group: String) -> (r: BackendOutcome)
    ensures
        r == BackendOutcome::Unsupported,
{
    BackendOutcome::Unsupported
}

/// Stopping every managed StatefulSet is not available on this backend.
pub fn stop_all_containers() -> (r: BackendOutcome)
    ensures
        r == BackendOutcome::Unsupported,
{
    BackendOutcome::Unsupported
}

/// Label discovery is not available on this backend: it finds no group, so
/// callers fall back to the configuration taken from the environment.
pub fn get_container_labels() -> (r: Vec<HashMap<String, String>>)
    ensures
        r@.len() == 0,
{
    Vec::new()
}

} // verus!
