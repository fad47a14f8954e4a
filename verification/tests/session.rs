use new_iris_terminal::pty::session::{
    is_wrapper, line_bytes, process_to_report, session_under, settled_size, size_change, started,
    Drain, Process, Received, SessionEvent,
};

fn output(bytes: &[u8]) -> Received {
    Received::Event(SessionEvent::Output(bytes.to_vec()))
}

#[test]
fn a_drain_puts_the_chunks_together_and_stops_at_nothing() {
    let mut drain = Drain::new();
    assert!(drain.take(output(b"US")));
    assert!(drain.take(output(b"ER>")));
    assert!(!drain.take(Received::Empty));
    assert_eq!(drain.bytes, b"USER>");
    assert!(!drain.ended);
    // Nothing more is taken.
    assert!(!drain.take(output(b"late")));
    assert_eq!(drain.bytes, b"USER>");
}

#[test]
fn a_closed_or_lost_reader_ends_the_session() {
    let mut closed = Drain::new();
    closed.take(output(b"bye"));
    assert!(!closed.take(Received::Event(SessionEvent::Closed)));
    assert!(closed.ended);
    assert_eq!(closed.bytes, b"bye");

    let mut lost = Drain::new();
    assert!(!lost.take(Received::Disconnected));
    assert!(lost.ended);
}

#[test]
fn a_size_is_at_least_two_by_two_and_changes_only_if_it_is_another() {
    assert_eq!(settled_size(0, 50), (2, 50));
    assert_eq!(size_change((2, 50), 1, 50), None);
    assert_eq!(size_change((80, 24), 80, 25), Some((80, 25)));
}

#[test]
fn a_line_ends_with_a_carriage_return() {
    assert_eq!(line_bytes("HALT"), b"HALT\r");
    assert_eq!(started("IRIS"), "IRIS session for instance IRIS");
}

fn process(pid: u32, parent: u32, name: &str) -> Process {
    Process {
        pid,
        parent,
        name: name.to_string(),
    }
}

#[test]
fn the_process_under_a_shell_is_the_session_if_there_is_one() {
    let processes = vec![
        process(1, 0, "irissession.exe"),
        process(2, 9, "chcp.com"),
        process(3, 9, "IRISSESSION.EXE"),
    ];
    assert_eq!(session_under(&processes, 9), Some(3));
    assert_eq!(session_under(&processes, 0), Some(1));
    assert_eq!(session_under(&processes, 7), None);
    assert_eq!(session_under(&vec![process(2, 9, "chcp.com")], 9), Some(2));

    assert!(is_wrapper("C:\\Windows\\CMD.EXE"));
    assert!(!is_wrapper("iris"));
    assert_eq!(process_to_report(Some(9), false, None, Some(3)), Some(9));
    assert_eq!(process_to_report(Some(9), true, None, Some(3)), Some(3));
    assert_eq!(process_to_report(Some(9), true, Some(4), Some(3)), Some(4));
    assert_eq!(process_to_report(None, true, Some(4), None), None);
}
