//! Configuration for the engine.
use vstd::prelude::*;

verus! {

/// Which messages the engine generates.
#[derive(Debug, Clone, Copy, PartialEq, Eq, Structural)]
pub struct Config {
    /// Whether to generate messages to be sent to the viewer.
    pub generate_viewer_messages: bool,
    /// Whether to generate turn messages.
    pub generate_turn_messages: bool,
}

impl Config {
    /// A player generates turn messages but no viewer messages.
    pub fn player_config() -> (r: Config)
        ensures
            r == (Config { generate_viewer_messages: false, generate_turn_messages: true }),
    {
        Config { generate_viewer_messages: false, generate_turn_messages: true }
    }

    /// A runner generates both turn and viewer messages.
    pub fn runner_config() -> (r: Config)
        ensures
            r == (Config { generate_viewer_messages: true, generate_turn_messages: true }),
    {
        Config { generate_viewer_messages: true, generate_turn_messages: true }
    }
}

} // verus!
