//! What a server runs.
use vstd::prelude::*;

use crate::execution::Command;

verus! {

/// The logic that a server keeps warm, and launches anew for every command.
pub trait Nail: Clone + Send + Sync + 'static {
    /// A launched command.
    type Child;

    /// Launches a command, or says why it could not be launched: the text becomes part of a message.
    fn spawn(&self, cmd: Command) -> Result<Self::Child, String>;
}

} // verus!
