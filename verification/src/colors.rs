//! The configurable color scheme of the overlay renderer.

use vstd::prelude::*;

verus! {

/// CSS color strings for the overlay's command and clock fields, keyed by
/// which team or game state they color.
pub struct Colors {
    pub command_blue_team: String,
    pub command_yellow_team: String,
    pub command_start: String,
    pub command_stop: String,
    pub clock_running: String,
    pub clock_stopped: String,
}

impl Default for Colors {
    /// The built-in scheme: pale blue and yellow for the teams, green for
    /// commands that start play, red for ones that stop it or hold the clock.
    fn default() -> (c: Colors)
        ensures
            c.command_blue_team@ == "rgb(168, 168, 255)"@,
            c.command_yellow_team@ == "rgb(255, 255, 168)"@,
            c.command_start@ == "rgb(168, 255, 168)"@,
            c.command_stop@ == "rgb(255, 145, 145)"@,
            c.clock_running@ == "rgb(255, 255, 255)"@,
            c.clock_stopped@ == "rgb(255, 145, 145)"@,
    {
        Colors {
            command_blue_team: String::from_str("rgb(168, 168, 255)"),
            command_yellow_team: String::from_str("rgb(255, 255, 168)"),
            command_start: String::from_str("rgb(168, 255, 168)"),
            command_stop: String::from_str("rgb(255, 145, 145)"),
            clock_running: String::from_str("rgb(255, 255, 255)"),
            clock_stopped: String::from_str("rgb(255, 145, 145)"),
        }
    }
}

} // verus!
