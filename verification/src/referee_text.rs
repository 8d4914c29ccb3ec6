//! Overlay labels and colors for referee game state.
//!
//! The referee protocol announces the current stage of the game and the last
//! command issued; the overlay shows both as short labels and picks a color
//! for the command and the game clock. The mappings here are total over the
//! two closed enumerations.

use crate::colors::Colors;
use vstd::prelude::*;

verus! {

/// The commands a referee message can announce.
#[allow(non_camel_case_types)]
#[derive(PartialEq, Eq, Structural, Clone, Copy, Debug)]
pub enum Command {
    HALT,
    STOP,
    NORMAL_START,
    FORCE_START,
    PREPARE_KICKOFF_YELLOW,
    PREPARE_KICKOFF_BLUE,
    PREPARE_PENALTY_YELLOW,
    PREPARE_PENALTY_BLUE,
    DIRECT_FREE_YELLOW,
    DIRECT_FREE_BLUE,
    INDIRECT_FREE_YELLOW,
    INDIRECT_FREE_BLUE,
    TIMEOUT_YELLOW,
    TIMEOUT_BLUE,
    GOAL_YELLOW,
    GOAL_BLUE,
    BALL_PLACEMENT_YELLOW,
    BALL_PLACEMENT_BLUE,
}

/// The stages of a game a referee message can announce.
#[allow(non_camel_case_types)]
#[derive(PartialEq, Eq, Structural, Clone, Copy, Debug)]
pub enum Stage {
    NORMAL_FIRST_HALF_PRE,
    NORMAL_FIRST_HALF,
    NORMAL_HALF_TIME,
    NORMAL_SECOND_HALF_PRE,
    NORMAL_SECOND_HALF,
    EXTRA_TIME_BREAK,
    EXTRA_FIRST_HALF_PRE,
    EXTRA_FIRST_HALF,
    EXTRA_HALF_TIME,
    EXTRA_SECOND_HALF_PRE,
    EXTRA_SECOND_HALF,
    PENALTY_SHOOTOUT_BREAK,
    PENALTY_SHOOTOUT,
    POST_GAME,
}

/// The overlay label of each command. Paired commands for the two teams share
/// one label: the color, not the text, tells the teams apart.
pub open spec fn command_label(c: Command) -> Seq<char> {
    match c {
        Command::HALT => "HALT"@,
        Command::STOP => "STOP"@,
        Command::NORMAL_START => "NORMAL START"@,
        Command::FORCE_START => "FORCE START"@,
        Command::PREPARE_KICKOFF_YELLOW => "KICKOFF"@,
        Command::PREPARE_KICKOFF_BLUE => "KICKOFF"@,
        Command::PREPARE_PENALTY_YELLOW => "PREPARE PENALTY"@,
        Command::PREPARE_PENALTY_BLUE => "PREPARE PENALTY"@,
        Command::DIRECT_FREE_YELLOW => "DIRECT FREE"@,
        Command::DIRECT_FREE_BLUE => "DIRECT FREE"@,
        Command::INDIRECT_FREE_YELLOW => "INDIRECT FREE"@,
        Command::INDIRECT_FREE_BLUE => "INDIRECT FREE"@,
        Command::TIMEOUT_YELLOW => "TIMEOUT"@,
        Command::TIMEOUT_BLUE => "TIMEOUT"@,
        Command::GOAL_YELLOW => "GOAL"@,
        Command::GOAL_BLUE => "GOAL"@,
        Command::BALL_PLACEMENT_YELLOW => "BALL PLACEMENT"@,
        Command::BALL_PLACEMENT_BLUE => "BALL PLACEMENT"@,
    }
}

/// The color scheme entry each command is shown in: the issuing team's color
/// where one team is addressed, else the start or stop color.
pub open spec fn command_color_of(c: Command, colors: Colors) -> Seq<char> {
    match c {
        Command::HALT => colors.command_stop@,
        Command::STOP => colors.command_stop@,
        Command::NORMAL_START => colors.command_start@,
        Command::FORCE_START => colors.command_start@,
        Command::PREPARE_KICKOFF_YELLOW => colors.command_yellow_team@,
        Command::PREPARE_KICKOFF_BLUE => colors.command_blue_team@,
        Command::PREPARE_PENALTY_YELLOW => colors.command_yellow_team@,
        Command::PREPARE_PENALTY_BLUE => colors.command_blue_team@,
        Command::DIRECT_FREE_YELLOW => colors.command_yellow_team@,
        Command::DIRECT_FREE_BLUE => colors.command_blue_team@,
        Command::INDIRECT_FREE_YELLOW => colors.command_yellow_team@,
        Command::INDIRECT_FREE_BLUE => colors.command_blue_team@,
        Command::TIMEOUT_YELLOW => colors.command_yellow_team@,
        Command::TIMEOUT_BLUE => colors.command_blue_team@,
        Command::GOAL_YELLOW => colors.command_yellow_team@,
        Command::GOAL_BLUE => colors.command_blue_team@,
        Command::BALL_PLACEMENT_YELLOW => colors.command_yellow_team@,
        Command::BALL_PLACEMENT_BLUE => colors.command_blue_team@,
    }
}

/// The clock color for each command: the game clock is stopped under `HALT`
/// and `STOP` and runs under everything else.
pub open spec fn clock_color_of(c: Command, colors: Colors) -> Seq<char> {
    match c {
        Command::HALT => colors.clock_stopped@,
        Command::STOP => colors.clock_stopped@,
        _ => colors.clock_running@,
    }
}

/// The overlay label of each stage.
pub open spec fn stage_label(s: Stage) -> Seq<char> {
    match s {
        Stage::NORMAL_FIRST_HALF_PRE => "PREPARE FIRST HALF"@,
        Stage::NORMAL_FIRST_HALF => "FIRST HALF"@,
        Stage::NORMAL_HALF_TIME => "HALF TIME"@,
        Stage::NORMAL_SECOND_HALF_PRE => "PREPARE SECOND HALF"@,
        Stage::NORMAL_SECOND_HALF => "SECOND HALF"@,
        Stage::EXTRA_TIME_BREAK => "EXTRA TIME"@,
        Stage::EXTRA_FIRST_HALF_PRE => "PREPARE FIRST EXTRA HALF"@,
        Stage::EXTRA_FIRST_HALF => "FIRST EXTRA HALF"@,
        Stage::EXTRA_HALF_TIME => "HALF TIME"@,
        Stage::EXTRA_SECOND_HALF_PRE => "PREPARE SECOND EXTRA HALF"@,
        Stage::EXTRA_SECOND_HALF => "SECOND EXTRA HALF"@,
        Stage::PENALTY_SHOOTOUT_BREAK => "PENALTY SHOOTOUT BREAK"@,
        Stage::PENALTY_SHOOTOUT => "PENALTY SHOOTOUT"@,
        Stage::POST_GAME => "POST GAME"@,
    }
}

/// Returns the overlay label of `command`.
pub fn command_to_string(command: &Command) -> (r: &'static str)
    ensures
        r@ == command_label(*command),
{
    match command {
        Command::HALT => "HALT",
        Command::STOP => "STOP",
        Command::NORMAL_START => "NORMAL START",
        Command::FORCE_START => "FORCE START",
        Command::PREPARE_KICKOFF_YELLOW => "KICKOFF",
        Command::PREPARE_KICKOFF_BLUE => "KICKOFF",
        Command::PREPARE_PENALTY_YELLOW => "PREPARE PENALTY",
        Command::PREPARE_PENALTY_BLUE => "PREPARE PENALTY",
        Command::DIRECT_FREE_YELLOW => "DIRECT FREE",
        Command::DIRECT_FREE_BLUE => "DIRECT FREE",
        Command::INDIRECT_FREE_YELLOW => "INDIRECT FREE",
        Command::INDIRECT_FREE_BLUE => "INDIRECT FREE",
        Command::TIMEOUT_YELLOW => "TIMEOUT",
        Command::TIMEOUT_BLUE => "TIMEOUT",
        Command::GOAL_YELLOW => "GOAL",
        Command::GOAL_BLUE => "GOAL",
        Command::BALL_PLACEMENT_YELLOW => "BALL PLACEMENT",
        Command::BALL_PLACEMENT_BLUE => "BALL PLACEMENT",
    }
}

/// Returns the scheme color `command` is shown in.
pub fn command_color<'a>(command: &Command, colors: &'a Colors) -> (r: &'a String)
    ensures
        r@ == command_color_of(*command, *colors),
{
    match command {
        Command::HALT => &colors.command_stop,
        Command::STOP => &colors.command_stop,
        Command::NORMAL_START => &colors.command_start,
        Command::FORCE_START => &colors.command_start,
        Command::PREPARE_KICKOFF_YELLOW => &colors.command_yellow_team,
        Command::PREPARE_KICKOFF_BLUE => &colors.command_blue_team,
        Command::PREPARE_PENALTY_YELLOW => &colors.command_yellow_team,
        Command::PREPARE_PENALTY_BLUE => &colors.command_blue_team,
        Command::DIRECT_FREE_YELLOW => &colors.command_yellow_team,
        Command::DIRECT_FREE_BLUE => &colors.command_blue_team,
        Command::INDIRECT_FREE_YELLOW => &colors.command_yellow_team,
        Command::INDIRECT_FREE_BLUE => &colors.command_blue_team,
        Command::TIMEOUT_YELLOW => &colors.command_yellow_team,
        Command::TIMEOUT_BLUE => &colors.command_blue_team,
        Command::GOAL_YELLOW => &colors.command_yellow_team,
        Command::GOAL_BLUE => &colors.command_blue_team,
        Command::BALL_PLACEMENT_YELLOW => &colors.command_yellow_team,
        Command::BALL_PLACEMENT_BLUE => &colors.command_blue_team,
    }
}

/// Returns the clock color under `command`.
pub fn clock_color<'a>(command: &Command, colors: &'a Colors) -> (r: &'a String)
    ensures
        r@ == clock_color_of(*command, *colors),
{
    match command {
        Command::HALT => &colors.clock_stopped,
        Command::STOP => &colors.clock_stopped,
        _ => &colors.clock_running,
    }
}

/// Returns the overlay label of `stage`.
pub fn stage_to_string(stage: &Stage) -> (r: &'static str)
    ensures
        r@ == stage_label(*stage),
{
    match stage {
        Stage::NORMAL_FIRST_HALF_PRE => "PREPARE FIRST HALF",
        Stage::NORMAL_FIRST_HALF => "FIRST HALF",
        Stage::NORMAL_HALF_TIME => "HALF TIME",
        Stage::NORMAL_SECOND_HALF_PRE => "PREPARE SECOND HALF",
        Stage::NORMAL_SECOND_HALF => "SECOND HALF",
        Stage::EXTRA_TIME_BREAK => "EXTRA TIME",
        Stage::EXTRA_FIRST_HALF_PRE => "PREPARE FIRST EXTRA HALF",
        Stage::EXTRA_FIRST_HALF => "FIRST EXTRA HALF",
        Stage::EXTRA_HALF_TIME => "HALF TIME",
        Stage::EXTRA_SECOND_HALF_PRE => "PREPARE SECOND EXTRA HALF",
        Stage::EXTRA_SECOND_HALF => "SECOND EXTRA HALF",
        Stage::PENALTY_SHOOTOUT_BREAK => "PENALTY SHOOTOUT BREAK",
        Stage::PENALTY_SHOOTOUT => "PENALTY SHOOTOUT",
        Stage::POST_GAME => "POST GAME",
    }
}

} // verus!
