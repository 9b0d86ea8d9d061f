//! Locating the repository root and the configuration file.
//!
//! Both walk from a starting directory up to the filesystem root. The walk
//! is given as the list of directories from the (canonical) start upwards,
//! with, for each, what the filesystem showed there.

use vstd::prelude::*;
use crate::error::AetherError;
use crate::state::{join, join_path};

verus! {

/// The first index at or after `i` whose directory holds the repository marker, or the length.
pub open spec fn first_marked(marked: Seq<bool>, i: int) -> int
    decreases marked.len() - i,
{
    if i >= marked.len() {
        marked.len() as int
    } else if marked[i] {
        i
    } else {
        first_marked(marked, i + 1)
    }
}

/// The first index at or after `i` whose directory holds a configuration file
/// or the repository marker, or the length.
pub open spec fn config_stop(has_config: Seq<bool>, marked: Seq<bool>, i: int) -> int
    decreases has_config.len() - i,
{
    if i >= has_config.len() {
        has_config.len() as int
    } else if has_config[i] || marked[i] {
        i
    } else {
        config_stop(has_config, marked, i + 1)
    }
}

/// The repository root: the first of `ancestors` (the start directory, then
/// each parent in turn) where `marked` shows a `.jj` directory.
pub fn find_repo_root(ancestors: &Vec<String>, marked: &Vec<bool>) -> (r: Result<String, AetherError>)
    requires
        ancestors@.len() == marked@.len(),
    ensures
        ({
            let k = first_marked(marked@, 0);
            &&& k < marked@.len() ==> (r matches Ok(root) && root@ == ancestors@[k]@)
            &&& k == marked@.len() ==> (r matches Err(AetherError::Config(m)) && m@
                == "Not in a jj repository"@)
        }),
{
    let mut i: usize = 0;
    while i < marked.len()
        invariant
            ancestors@.len() == marked@.len(),
            i <= marked@.len(),
            first_marked(marked@, 0) == first_marked(marked@, i as int),
        decreases marked.len() - i,
    {
        if marked[i] {
            return Ok(ancestors[i].clone());
        }
        i = i + 1;
    }
    Err(AetherError::Config(String::from_str("Not in a jj repository")))
}

/// The configuration file: `aether.toml` in the first of `ancestors` that
/// holds one, looking no higher than the first directory that holds the
/// repository marker.
pub fn find_config(ancestors: &Vec<String>, has_config: &Vec<bool>, marked: &Vec<bool>) -> (r:
    Result<String, AetherError>)
    requires
        ancestors@.len() == marked@.len(),
        has_config@.len() == marked@.len(),
    ensures
        ({
            let k = config_stop(has_config@, marked@, 0);
            &&& (k < marked@.len() && has_config@[k]) ==> (r matches Ok(p) && p@ == join_path(
                ancestors@[k]@,
                "aether.toml"@,
            ))
            &&& (k < marked@.len() && !has_config@[k]) ==> (r matches Err(AetherError::Config(m))
                && m@ == "aether.toml not found in repo"@)
            &&& k == marked@.len() ==> (r matches Err(AetherError::Config(m)) && m@
                == "aether.toml not found"@)
        }),
{
    let mut i: usize = 0;
    while i < marked.len()
        invariant
            ancestors@.len() == marked@.len(),
            has_config@.len() == marked@.len(),
            i <= marked@.len(),
            config_stop(has_config@, marked@, 0) == config_stop(has_config@, marked@, i as int),
        decreases marked.len() - i,
    {
        if has_config[i] {
            return Ok(join(ancestors[i].as_str(), "aether.toml"));
        }
        if marked[i] {
            return Err(AetherError::Config(String::from_str("aether.toml not found in repo")));
        }
        i = i + 1;
    }
    Err(AetherError::Config(String::from_str("aether.toml not found")))
}

} // verus!
