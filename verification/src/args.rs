//! What the command line tells the proxy.

use vstd::prelude::*;
use vstd::string::StringExecFns;

verus! {

/// The command-line arguments.
#[derive(Debug, Clone, PartialEq, Eq)]
pub struct Args {
    /// The path to the configuration file. If the file does not exist yet, a
    /// default configuration is written there.
    pub config: String,
}

impl Default for Args {
    /// The arguments of a proxy started without any: the configuration is
    /// looked for at `/etc/simpleproxy/config.toml`.
    fn default() -> (r: Args)
        ensures
            r.config@ == "/etc/simpleproxy/config.toml"@,
    {
        Args { config: String::from_str("/etc/simpleproxy/config.toml") }
    }
}

} // verus!
