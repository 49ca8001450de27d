use vstd::prelude::*;

verus! {

/// Deterministic root directory for configuration lookup, used when no
/// explicit configuration path is given.
pub fn config_dir() -> (r: Option<String>)
    ensures
        r matches Some(d) && d@ == "/tmp/"@,
{
    Some(String::from_str("/tmp/"))
}

} // verus!
