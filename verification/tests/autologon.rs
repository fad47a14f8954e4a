use std::time::{Duration, Instant};

use new_iris_terminal::config::Profile;
use new_iris_terminal::features::autologon::{
    looks_like_iris_prompt, looks_like_password_prompt, looks_like_username_prompt, Autologon,
    State, STEP_TIMEOUT,
};
use new_iris_terminal::term::grid::Grid;

fn grid_showing(lines: &[&str]) -> Grid {
    let mut grid = Grid::new(40, lines.len().max(1), 100);
    for (r, line) in lines.iter().enumerate() {
        grid.screen[r].set_text(&line.chars().take(40).collect::<String>());
    }
    grid.touch();
    grid
}

fn profile() -> Profile {
    Profile {
        name: "test".into(),
        instance: "CONSISTEM".into(),
        username: "dev".into(),
        autologon: true,
        ..Profile::default()
    }
}

#[test]
fn inactive_without_a_username() {
    let p = Profile {
        autologon: true,
        username: String::new(),
        ..Profile::default()
    };
    assert_eq!(Autologon::new(&p, None).state(), State::Inactive);
}

#[test]
fn sends_the_username_at_the_username_prompt() {
    let mut auto = Autologon::new(&profile(), Some("secret".into()));
    let grid = grid_showing(&["Node: DEV", "Username:"]);
    assert_eq!(auto.observe(&grid).as_deref(), Some("dev\r"));
    assert_eq!(auto.state(), State::WaitPassword);
}

#[test]
fn a_repeated_screen_does_not_resend() {
    let mut auto = Autologon::new(&profile(), Some("secret".into()));
    let grid = grid_showing(&["Username:"]);
    assert!(auto.observe(&grid).is_some());
    // Same revision — nothing new arrived.
    assert!(auto.observe(&grid).is_none());
}

#[test]
fn stops_at_the_password_prompt_when_no_secret_is_stored() {
    let mut auto = Autologon::new(&profile(), Some("secret".into()));
    auto.state = State::WaitPassword;
    auto.password = None;
    let grid = grid_showing(&["Password:"]);
    assert!(auto.observe(&grid).is_none());
    assert_eq!(auto.state(), State::TimedOut);
}

#[test]
fn post_login_commands_run_once_the_prompt_appears() {
    let mut auto = Autologon::new(
        &Profile {
            post_login: vec!["ZN \"%SYS\"".into()],
            ..profile()
        },
        None,
    );
    auto.state = State::WaitPrompt;
    let grid = grid_showing(&["USER>"]);
    assert_eq!(auto.observe(&grid).as_deref(), Some("ZN \"%SYS\"\r"));
    assert_eq!(auto.state(), State::Done);
}

#[test]
fn prompt_detection_accepts_real_iris_prompts() {
    assert!(looks_like_iris_prompt("user>"));
    assert!(looks_like_iris_prompt("%sys>"));
    assert!(looks_like_iris_prompt("rdb1>"));
}

#[test]
fn prompt_detection_rejects_prose_ending_in_a_bracket() {
    assert!(!looks_like_iris_prompt("press enter to continue >"));
    assert!(!looks_like_iris_prompt("nothing here"));
}

#[test]
fn portuguese_prompts_are_recognised() {
    assert!(looks_like_username_prompt("usuário:"));
    assert!(looks_like_password_prompt("senha:"));
}

#[test]
fn the_password_follows_the_username_and_is_sent_once() {
    let mut auto = Autologon::new(&profile(), Some("secret".into()));
    assert_eq!(auto.observe(&grid_showing(&["Username:"])).as_deref(), Some("dev\r"));
    let mut grid = grid_showing(&["Password:"]);
    grid.touch();
    assert_eq!(auto.observe(&grid).as_deref(), Some("secret\r"));
    assert_eq!(auto.state(), State::WaitPrompt);
    assert!(auto.password.is_none(), "it is not kept once it is sent");
}

#[test]
fn a_step_that_takes_too_long_gives_up() {
    let mut auto = Autologon::new(&profile(), None);
    let grid = grid_showing(&["Username:"]);
    assert!(auto.observe_after(&grid, STEP_TIMEOUT + 1, Instant::now()).is_none());
    assert_eq!(auto.state(), State::TimedOut);
    assert!(!auto.is_running());
    assert!(auto.status_note().is_some());
}

/// A session that says nothing more gives up too.
#[test]
fn a_silent_session_gives_up() {
    let mut auto = Autologon::new(&profile(), None);
    let grid = grid_showing(&["Welcome"]);
    assert!(auto.observe_after(&grid, 0, Instant::now()).is_none());
    let since = auto.since;
    assert!(auto.is_running());
    assert!(auto.observe_after(&grid, STEP_TIMEOUT, Instant::now()).is_none());
    assert!(auto.is_running(), "the time is not up yet");
    assert!(auto.observe_after(&grid, STEP_TIMEOUT + 1, Instant::now()).is_none());
    assert_eq!(auto.state(), State::TimedOut);
    assert_eq!(auto.since, since);
}

/// The time runs from the last step, and anew from the one that was just taken.
#[test]
fn the_clock_of_a_step_starts_with_the_step() {
    let long_ago = Instant::now()
        .checked_sub(Duration::from_secs(11))
        .expect("a moment before this one");
    let mut auto = Autologon::new_at(&profile(), Some("secret".to_string()), long_ago);
    assert!(auto.observe(&grid_showing(&["Username:"])).is_none());
    assert_eq!(auto.state(), State::TimedOut);

    let recently = Instant::now()
        .checked_sub(Duration::from_secs(5))
        .expect("a moment before this one");
    let mut auto = Autologon::new_at(&profile(), Some("secret".to_string()), recently);
    assert_eq!(auto.observe(&grid_showing(&["Username:"])).as_deref(), Some("dev\r"));
    assert_eq!(auto.state(), State::WaitPassword);
    assert!(auto.since > recently);

    let now = Instant::now();
    let mut grid = grid_showing(&["Password:"]);
    grid.touch();
    assert_eq!(auto.observe_after(&grid, 0, now).as_deref(), Some("secret\r"));
    assert_eq!(auto.since, now);
}
