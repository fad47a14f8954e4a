use new_iris_terminal::config::LogMode;
use new_iris_terminal::features::logging::{
    is_stale, log_name, retention, rotated_name, sanitize, SessionLog, Write,
};

/// A log and the files it was written to.
struct Log {
    decides: SessionLog,
    files: Vec<Vec<u8>>,
}

impl Log {
    fn open(mode: LogMode, max_bytes: u64) -> Log {
        Log {
            decides: SessionLog::new(mode, max_bytes),
            files: vec![Vec::new()],
        }
    }

    fn perform(&mut self, write: Write) {
        match write {
            Write::Nothing => {}
            Write::Rotate(bytes) => self.files.push(bytes),
            Write::Append(bytes) => {
                let last = self.files.len() - 1;
                self.files[last].extend_from_slice(&bytes);
            }
        }
    }

    fn write_raw(&mut self, bytes: &[u8]) {
        let write = self.decides.write_raw(bytes);
        self.perform(write);
    }

    fn write_settled(&mut self, lines: &[String], settled: usize) {
        let write = self.decides.write_settled(lines, settled);
        self.perform(write);
    }

    fn text(&self) -> String {
        String::from_utf8(self.files[0].clone()).unwrap()
    }
}


#[test]
fn raw_mode_writes_bytes_verbatim() {
    let mut log = Log::open(LogMode::Raw, 0);
    log.write_raw(b"\x1b[2JUSER>");

    let content = log.files[0].clone();
    assert_eq!(content, b"\x1b[2JUSER>");
}

/// The bug this guards: the transcript is read while the session is still
/// open, and a buffered writer left the file empty until 8 KB had piled up.
/// Nothing here calls `flush` - the write is expected to have reached the
/// disk on its own.
#[test]
fn output_is_on_disk_before_the_session_ends() {
    let mut log = Log::open(LogMode::Raw, 0);
    log.write_raw(b"USER>write 1");
    assert_eq!(
        log.files[0].clone(),
        b"USER>write 1",
        "the chunk should already be in the file"
    );

    let mut clean = Log::open(LogMode::Clean, 0);
    clean.write_settled(&["one".to_string()], 1);
    assert_eq!(clean.text(), "one\n");
}

#[test]
fn clean_mode_only_writes_lines_that_have_scrolled_away() {
    let mut log = Log::open(LogMode::Clean, 0);

    let lines = vec!["one".to_string(), "two".to_string(), "three".to_string()];
    // Only the first two have left the screen.
    log.write_settled(&lines, 2);

    let content = log.text();
    assert_eq!(content, "one\ntwo\n");

    // The third settles later and must not duplicate the first two.
    log.write_settled(&lines, 3);
    let content = log.text();
    assert_eq!(content, "one\ntwo\nthree\n");
}

/// The count follows the cursor, and a routine that addresses the cursor
/// moves it back up the screen. That must not rewind the count: the lines
/// it moved back over are already in the file, and writing them again on
/// the way down would double them.
#[test]
fn a_cursor_moving_back_up_the_screen_does_not_double_the_lines() {
    let mut log = Log::open(LogMode::Clean, 0);

    let lines: Vec<String> = ["one", "two", "three", "four"]
        .iter()
        .map(|s| s.to_string())
        .collect();
    log.write_settled(&lines, 3);
    // The cursor goes back to the second row, then walks down again.
    log.write_settled(&lines, 1);
    log.write_settled(&lines, 4);

    let content = log.text();
    assert_eq!(content, "one\ntwo\nthree\nfour\n");
}

/// Ctrl+Delete throws the scrollback away, so the count the log follows
/// drops. It has to start counting again from there, or the transcript goes
/// quiet until the history grows back past the old mark.
#[test]
fn a_cleared_scrollback_does_not_silence_the_log() {
    let mut log = Log::open(LogMode::Clean, 0);

    let before: Vec<String> = ["one", "two", "three"]
        .iter()
        .map(|s| s.to_string())
        .collect();
    log.write_settled(&before, 3);

    // The clear, and then a fresh line settling on the empty scrollback.
    let after: Vec<String> = vec!["afterwards".to_string()];
    log.write_settled(&after, 0);
    log.write_settled(&after, 1);

    let content = log.text();
    assert_eq!(content, "one\ntwo\nthree\nafterwards\n");
}

/// The whole point of muting: an autologon password must never reach disk.
#[test]
fn muted_output_is_not_written() {
    let mut log = Log::open(LogMode::Raw, 0);

    log.write_raw(b"Password:");
    log.decides.mute();
    assert!(log.decides.is_muted());
    log.write_raw(b"hunter2\r");
    log.decides.unmute();
    log.write_raw(b"USER>");

    let content = String::from_utf8(log.files[0].clone()).unwrap();
    assert!(
        !content.contains("hunter2"),
        "password leaked into {content:?}"
    );
    assert!(content.contains("USER>"));
}

#[test]
fn a_mode_mismatch_writes_nothing() {
    let mut log = Log::open(LogMode::Clean, 0);
    log.write_raw(b"ignored");
    assert_eq!(log.files[0].clone().len(), 0);
}

#[test]
fn rotation_starts_a_new_file_once_the_limit_is_passed() {
    let mut log = Log::open(LogMode::Raw, 8);

    log.write_raw(b"0123456789"); // past the 8-byte limit
    log.write_raw(b"next"); // triggers rotation

    assert_eq!(log.files.len(), 2, "should have rotated");
    assert_eq!(log.files[1], b"next", "and nothing of the stream is lost");
    assert_ne!(
        rotated_name("test-20260101-120000", "120001"),
        log_name("test", "20260101-120000")
    );
}

#[test]
fn profile_names_with_path_characters_are_made_safe() {
    assert_eq!(sanitize("RDB/test:1"), "RDB-test-1");
    assert_eq!(sanitize("///"), "session");
}

#[test]
fn prune_is_a_no_op_when_retention_is_zero() {
    assert_eq!(retention(0), None);
    assert_eq!(retention(30), Some(2_592_000));
}

#[test]
fn a_log_that_is_off_says_nothing() {
    let log = SessionLog::new(LogMode::Off, 0);
    assert!(!log.wants_settled());
    assert!(matches!(log.write_note("12:00", "started"), Write::Nothing));
    let log = SessionLog::new(LogMode::Raw, 0);
    match log.write_note("12:00", "started") {
        Write::Append(bytes) => assert_eq!(bytes, b"\n=== 12:00 started ===\n"),
        _ => panic!("a note is written"),
    }
}

#[test]
fn the_size_counts_every_byte_and_every_line_feed() {
    let mut log = SessionLog::new(LogMode::Clean, 100);
    log.write_settled(&["N\u{f3}".to_string(), "x".to_string()], 2);
    assert_eq!(log.written, 6);
    assert_eq!(log.next_line, 2);
}

#[test]
fn lines_that_start_a_new_file_are_written_to_it_next() {
    let mut log = Log::open(LogMode::Clean, 4);
    let lines = vec!["one".to_string(), "two".to_string()];
    log.write_settled(&lines, 1);
    log.write_settled(&lines, 2);
    assert_eq!(log.files, vec![b"one\n".to_vec(), Vec::new()]);
    log.write_settled(&lines, 2);
    assert_eq!(log.files[1], b"two\n");
}

#[test]
fn a_log_is_named_after_its_profile_and_the_moment() {
    assert_eq!(
        log_name("RDB/test:1", "20260101-120000"),
        "RDB-test-1-20260101-120000.log"
    );
}

#[test]
fn only_a_log_older_than_the_cutoff_is_stale() {
    assert!(is_stale(Some("log"), 9, 10));
    assert!(!is_stale(Some("log"), 10, 10));
    assert!(!is_stale(Some("txt"), 9, 10));
    assert!(!is_stale(None, 9, 10));
}
