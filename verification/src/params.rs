use vstd::prelude::*;

verus! {

/// Command-line options for a run.
pub struct UpCli {
    /// Whether the system should be rebooted after the update.
    pub reboot: bool,
    /// Optional explicit path to the configuration file.
    pub config: Option<String>,
}

} // verus!
