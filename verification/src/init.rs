//! What is done once, before any record is looked at.

use crate::cmd::{commands_of, run_array};
use crate::config::Config;
use vstd::prelude::*;

verus! {

/// How the program starts: a wait for the network, then commands to run.
#[derive(Clone, Debug)]
pub struct Startup {
    /// How many seconds to wait first.
    pub wait_seconds: u64,
    /// The commands to run after the wait, in this order.
    pub commands: Vec<String>,
}

/// How the program starts under a configuration: it waits as long as the
/// configuration says and then runs the commands of its start line.
pub fn init(toml_config: &Config) -> (startup: Startup)
    ensures
        startup.wait_seconds == toml_config.global.post_up_wait,
        startup.commands.deep_view() == commands_of(toml_config.global.post_up_cmd@),
{
    Startup {
        wait_seconds: toml_config.global.post_up_wait,
        commands: run_array(toml_config.global.post_up_cmd.as_str()),
    }
}

} // verus!
