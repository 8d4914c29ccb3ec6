use ssl_loglib::colors::Colors;
use ssl_loglib::referee_text::{
    clock_color, command_color, command_to_string, stage_to_string, Command, Stage,
};
use ssl_loglib::text_helpers::limit_str_length;

#[test]
fn short_text_is_unchanged() {
    assert_eq!(limit_str_length("HALT", 10), "HALT");
    assert_eq!(limit_str_length("HALT", 4), "HALT");
    assert_eq!(limit_str_length("", 3), "");
}

#[test]
fn long_text_gets_ellipsis() {
    assert_eq!(limit_str_length("BALL PLACEMENT", 10), "BALL PL...");
    assert_eq!(limit_str_length("ABCDEF", 5), "AB...");
    assert_eq!(limit_str_length("ABCD", 3), "...");
}

#[test]
fn default_colors_scheme() {
    let colors = Colors::default();
    assert_eq!(colors.command_blue_team, "rgb(168, 168, 255)");
    assert_eq!(colors.command_yellow_team, "rgb(255, 255, 168)");
    assert_eq!(colors.command_start, "rgb(168, 255, 168)");
    assert_eq!(colors.command_stop, "rgb(255, 145, 145)");
    assert_eq!(colors.clock_running, "rgb(255, 255, 255)");
    assert_eq!(colors.clock_stopped, "rgb(255, 145, 145)");
}

#[test]
fn command_labels() {
    assert_eq!(command_to_string(&Command::HALT), "HALT");
    assert_eq!(command_to_string(&Command::NORMAL_START), "NORMAL START");
    assert_eq!(command_to_string(&Command::PREPARE_KICKOFF_YELLOW), "KICKOFF");
    assert_eq!(command_to_string(&Command::PREPARE_KICKOFF_BLUE), "KICKOFF");
    assert_eq!(
        command_to_string(&Command::BALL_PLACEMENT_BLUE),
        "BALL PLACEMENT"
    );
}

#[test]
fn command_colors_follow_team_and_kind() {
    let colors = Colors::default();
    assert_eq!(
        command_color(&Command::HALT, &colors),
        &colors.command_stop
    );
    assert_eq!(
        command_color(&Command::FORCE_START, &colors),
        &colors.command_start
    );
    assert_eq!(
        command_color(&Command::GOAL_YELLOW, &colors),
        &colors.command_yellow_team
    );
    assert_eq!(
        command_color(&Command::GOAL_BLUE, &colors),
        &colors.command_blue_team
    );
}

#[test]
fn clock_colors_stop_on_halt_and_stop() {
    let colors = Colors::default();
    assert_eq!(clock_color(&Command::HALT, &colors), &colors.clock_stopped);
    assert_eq!(clock_color(&Command::STOP, &colors), &colors.clock_stopped);
    assert_eq!(
        clock_color(&Command::NORMAL_START, &colors),
        &colors.clock_running
    );
    assert_eq!(
        clock_color(&Command::TIMEOUT_BLUE, &colors),
        &colors.clock_running
    );
}

#[test]
fn stage_labels() {
    assert_eq!(stage_to_string(&Stage::NORMAL_FIRST_HALF_PRE), "PREPARE FIRST HALF");
    assert_eq!(stage_to_string(&Stage::NORMAL_HALF_TIME), "HALF TIME");
    assert_eq!(stage_to_string(&Stage::EXTRA_HALF_TIME), "HALF TIME");
    assert_eq!(stage_to_string(&Stage::PENALTY_SHOOTOUT), "PENALTY SHOOTOUT");
    assert_eq!(stage_to_string(&Stage::POST_GAME), "POST GAME");
}
