//! The command configuration: the shared secret that every inbound
//! request must present. Loading it from disk is the transport layer's
//! business; the core only compares secrets.

use vstd::prelude::*;

verus! {

/// The configuration for the slash command: the shared secret.
pub struct CommandConfig {
    pub token: String,
}

impl CommandConfig {
    /// Whether `provided` matches the configured shared secret.
    pub fn token_matches(&self, provided: &String) -> (r: bool)
        ensures
            r == (self.token@ == provided@),
    {
        self.token == *provided
    }
}

} // verus!
