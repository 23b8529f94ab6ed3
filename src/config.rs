use vstd::prelude::*;

verus! {

/// How one group's supervised process is launched.
#[derive(Clone, Debug, PartialEq, Eq)]
pub struct GroupConfig {
    pub group: String,
    pub program: String,
    pub args: Vec<String>,
}

/// The configurations to launch: those found by label discovery, or, where
/// discovery found none, the single configuration taken from the environment.
pub fn resolve_configs(discovered: Vec<GroupConfig>, fallback: GroupConfig) -> (r: Vec<
    GroupConfig,
>)
    ensures
        discovered@.len() == 0 ==> r@ == seq![fallback],
        discovered@.len() > 0 ==> r@ == discovered@,
        r@.len() >= 1,
{
    if discovered.len() == 0 {
        let mut r = Vec::new();
        r.push(fallback);
        assert(r@ =~= seq![fallback]);
        r
    } else {
        discovered
    }
}

} // verus!
