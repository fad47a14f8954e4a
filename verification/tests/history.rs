use new_iris_terminal::features::history::{
    push_recent, step_back, step_forward, History, LIMIT, MAX_LEN,
};

#[test]
fn commands_are_recorded_newest_last() {
    let mut h = History::default();
    h.record("write 1");
    h.record("write 2");
    assert_eq!(h.entries(), ["write 1", "write 2"]);
}

#[test]
fn blank_and_oversized_commands_are_ignored() {
    let mut h = History::default();
    h.record("   ");
    h.record("");
    h.record(&"x".repeat(MAX_LEN + 1));
    assert!(h.is_empty());
}

/// Recalling and re-running a command must not fill the list with it.
#[test]
fn a_repeat_moves_to_the_end_instead_of_being_added_again() {
    let mut h = History::default();
    h.record("a");
    h.record("b");
    h.record("a");
    assert_eq!(h.entries(), ["b", "a"]);
}

#[test]
fn the_list_is_capped() {
    let mut h = History::default();
    for i in 0..LIMIT + 10 {
        h.record(&format!("write {i}"));
    }
    assert_eq!(h.entries().len(), LIMIT);
    assert_eq!(h.entries()[0], format!("write {}", 10));
}

/// Up walks back from the newest and stops at the oldest.
#[test]
fn walking_back_starts_at_the_newest_and_stops_at_the_oldest() {
    assert_eq!(step_back(None, 2), Some(Some(0)), "the newest first");
    assert_eq!(step_back(Some(0), 2), Some(Some(1)));
    assert_eq!(
        step_back(Some(1), 2),
        None,
        "there is nothing older to reach"
    );
}

/// Down walks forward and then back out to the empty line the user was on.
#[test]
fn walking_forward_ends_on_the_line_the_user_started_from() {
    assert_eq!(step_forward(Some(1)), Some(Some(0)));
    assert_eq!(step_forward(Some(0)), Some(None), "back to an empty line");
    assert_eq!(
        step_forward(None),
        None,
        "Down with nothing recalled is not ours to handle"
    );
}

#[test]
fn an_empty_history_has_nothing_to_recall() {
    assert_eq!(step_back(None, 0), None);
    assert_eq!(step_forward(None), None);
}

/// The whole point of the split list: a tab offers back what was typed in
/// it, and only then what earlier runs left behind. What another tab typed
/// while this one was open is not offered at all.
#[test]
fn a_session_recalls_its_own_commands_before_the_inherited_ones() {
    let file = "old one\nold two\n";
    let mut h = History::load("history.txt", true, Some(file));
    // Typed in another tab during this run.
    h.record("someone else's");

    let own = vec!["mine one".to_string(), "mine two".to_string()];
    assert_eq!(
        h.recall_list(&own),
        ["mine two", "mine one", "old two", "old one"]
    );
    // ... and it is still saved, for the next start to inherit.
    assert!(h.entries().iter().any(|e| e == "someone else's"));
}

/// A command the session has already typed is not offered twice just
/// because an earlier run left it in the file.
#[test]
fn an_inherited_command_the_session_has_retyped_is_offered_once() {
    let file = "write 1\nwrite 2\n";
    let h = History::load("history.txt", true, Some(file));
    let own = vec!["write 2".to_string()];
    assert_eq!(h.recall_list(&own), ["write 2", "write 1"]);
}

/// A session with nothing typed in it yet still reaches yesterday's work.
#[test]
fn a_fresh_session_falls_straight_through_to_the_inherited_commands() {
    let file = "old one\n";
    let h = History::load("history.txt", true, Some(file));
    assert_eq!(h.recall_list(&[]), ["old one"]);
    assert!(
        History::default().recall_list(&[]).is_empty(),
        "and one with nothing behind it recalls nothing"
    );
}

#[test]
fn saving_round_trips_through_the_file() {
    let mut h = History::load("history.txt", true, None);
    h.record("write 1");
    h.record("zn \"USER\"");

    let file = h.to_save().expect("something to save");
    let back = History::load("history.txt", true, Some(&file));
    assert_eq!(back.entries(), ["write 1", "zn \"USER\""]);
}

/// Off means off: nothing may be written, and nothing already written may
/// be read back.
#[test]
fn nothing_touches_the_disk_when_saving_is_off() {
    let mut h = History::load("history.txt", false, Some("earlier\n"));
    assert!(h.is_empty(), "an earlier file must not be loaded");
    h.record("write 1");
    assert_eq!(h.to_save(), None);
}

/// Turning the setting on mid-session writes what is already remembered,
/// so the switch is not a promise that only starts applying tomorrow.
#[test]
fn turning_saving_on_writes_what_is_already_remembered() {
    let mut h = History::load("history.txt", false, None);
    h.record("write 1");
    assert!(h.set_persist("history.txt", true), "it is to be written now");
    assert_eq!(h.to_save().as_deref(), Some("write 1\n"));

    assert!(!h.set_persist("history.txt", false));
    h.record("write 2");
    assert_eq!(h.to_save(), None, "turning it off must stop the writes");
}

#[test]
fn a_hand_edited_file_is_trimmed_on_load() {
    let text: String = (0..LIMIT + 5)
        .map(|i| format!("write {i}\n"))
        .collect::<Vec<_>>()
        .concat();
    let entries = History::from_text(&text);
    assert_eq!(entries.len(), LIMIT);
    assert_eq!(entries[0], "write 5");
}

/// The list a session builds up follows the same rules as the file's.
#[test]
fn a_sessions_own_list_keeps_the_newest_last_and_never_repeats() {
    let mut own = Vec::new();
    assert!(push_recent(&mut own, "write 1"));
    assert!(push_recent(&mut own, "write 2"));
    assert!(
        push_recent(&mut own, "write 1"),
        "a repeat moves to the end"
    );
    assert_eq!(own, ["write 2", "write 1"]);
    assert!(!push_recent(&mut own, "   "), "blank is not a command");
    assert!(!push_recent(&mut own, &"x".repeat(MAX_LEN + 1)));
    assert_eq!(own.len(), 2);
}

#[test]
fn clearing_empties_the_file_too() {
    let mut h = History::load("history.txt", true, None);
    h.record("write 1");
    h.clear();
    assert!(h.is_empty());
    assert_eq!(h.to_save().as_deref(), Some("\n"));
}
