//! Discord connector settings that the library reads.

use vstd::prelude::*;

verus! {

/// How streaming responses are delivered.
#[derive(Debug, Clone, Copy, PartialEq, Eq, Structural)]
pub enum StreamMode {
    /// Edit a placeholder message in place as tokens arrive.
    EditInPlace,
    /// Send the final response as a single message.
    Off,
}

impl Default for StreamMode {
    fn default() -> (r: StreamMode)
        ensures
            r == StreamMode::EditInPlace,
    {
        StreamMode::EditInPlace
    }
}

} // verus!
