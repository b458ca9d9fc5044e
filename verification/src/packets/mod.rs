//! The packet tables, one for each phase and direction.

use vstd::prelude::*;

pub mod client;
pub mod server;

verus! {

/// The phase of a conversation. It selects the table that packets are read
/// with.
#[derive(Debug, Clone, Copy, PartialEq, Eq, Structural)]
pub enum State {
    Handshake,
    Status,
    Login,
    Play,
}

impl State {
    /// The number of the phase.
    pub open spec fn spec_id(self) -> i32 {
        match self {
            State::Handshake => 0,
            State::Status => 1,
            State::Login => 2,
            State::Play => 3,
        }
    }

    /// The number of the phase.
    #[verifier::when_used_as_spec(spec_id)]
    pub fn id(self) -> (id: i32)
        ensures
            id == self.spec_id(),
    {
        match self {
            State::Handshake => 0,
            State::Status => 1,
            State::Login => 2,
            State::Play => 3,
        }
    }
}

} // verus!
