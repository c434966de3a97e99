//! Where the service's settings live.
use vstd::prelude::*;

verus! {

/// The settings file read at start-up and watched for changes.
pub fn default_path() -> (r: String)
    ensures
        r@ == "config.toml"@,
{
    proof {
        reveal_strlit("config.toml");
    }
    String::from_str("config.toml")
}

} // verus!
