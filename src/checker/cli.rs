use vstd::prelude::*;

use crate::types::Term;

verus! {

/// What the command line asks for.
pub struct Cli {
    pub command: Commands,
}

pub enum Commands {
    /// Serve an interactive browser of the state space.
    Explore(CommandArgs),
    /// Search the state space and report on the two properties.
    Check(CommandArgs),
}

/// How the simulated network delivers messages.
#[derive(Clone, Copy, Debug, PartialEq, Eq, Hash, Structural)]
pub enum NetworkArg {
    Ordered,
    UnorderedDuplicating,
    UnorderedNonDuplicating,
}

/// The parameters of one exploration run.
#[derive(Clone, Copy, Debug, PartialEq, Eq, Structural)]
pub struct CommandArgs {
    pub server_count: usize,
    pub network: NetworkArg,
    pub lossy_network: bool,
    pub max_term: Term,
    pub max_timeouts: usize,
    pub max_crashes: usize,
}

/// A run configuration that is refused before any node is built.
#[derive(Clone, Copy, Debug, PartialEq, Eq, Structural)]
pub enum ConfigError {
    /// Tolerating `max_crashes` crashes takes at least `2 * max_crashes + 1` servers.
    TooFewServers { server_count: usize, max_crashes: usize },
}

impl CommandArgs {
    /// The cluster can survive the requested number of crashes.
    pub open spec fn tolerates_crashes(&self) -> bool {
        self.server_count >= 2 * self.max_crashes + 1
    }

    /// Accept the run only where the cluster can survive the requested number of crashes.
    pub fn validate(&self) -> (r: Result<(), ConfigError>)
        ensures
            r is Ok <==> self.tolerates_crashes(),
            r is Err ==> r == Err::<(), ConfigError>(
                ConfigError::TooFewServers { server_count: self.server_count, max_crashes: self.max_crashes },
            ),
    {
        if self.server_count >= 1 && self.max_crashes <= (self.server_count - 1) / 2 {
            Ok(())
        } else {
            Err(ConfigError::TooFewServers { server_count: self.server_count, max_crashes: self.max_crashes })
        }
    }
}

} // verus!
