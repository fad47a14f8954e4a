use new_iris_terminal::pty::remote::{endpoint, TelnetSession};
use new_iris_terminal::pty::session::{local_reaction, Read, SessionEvent};
use new_iris_terminal::pty::telnet::{DO, IAC, OPT_NAWS, OPT_SGA, OPT_TTYPE, SB, SE, WILL};

fn output(event: Option<SessionEvent>) -> Option<Vec<u8>> {
    match event {
        Some(SessionEvent::Output(bytes)) => Some(bytes),
        _ => None,
    }
}

#[test]
fn a_connection_opens_with_the_greeting() {
    let (session, greeting) = TelnetSession::connect("10.0.0.102", 23, 1, 50);
    assert_eq!(greeting[..3], [IAC, WILL, OPT_TTYPE]);
    assert_eq!(session.size(), (2, 50));
    assert_eq!(session.endpoint, "10.0.0.102:23");
    assert!(session.is_alive());
    assert_eq!(endpoint("h", 65535), "h:65535");
}

#[test]
fn a_chunk_of_pure_protocol_is_answered_and_not_shown() {
    let (mut session, _) = TelnetSession::connect("h", 23, 80, 24);
    let reaction = session.heard(Read::Bytes(vec![IAC, DO, OPT_SGA]));
    assert_eq!(reaction.reply, vec![IAC, WILL, OPT_SGA]);
    assert!(reaction.event.is_none());
    assert!(reaction.again);

    let reaction = session.heard(Read::Bytes(b"Username:".to_vec()));
    assert_eq!(output(reaction.event), Some(b"Username:".to_vec()));
    assert!(session.heard(Read::Interrupted).again);
}

#[test]
fn a_stream_that_is_over_or_broken_closes_the_session() {
    for read in [Read::Bytes(Vec::new()), Read::Failed] {
        let (mut session, _) = TelnetSession::connect("h", 23, 80, 24);
        let reaction = session.heard(read);
        assert!(matches!(reaction.event, Some(SessionEvent::Closed)));
        assert!(!reaction.again);
        assert!(!session.is_alive());
    }
    let (mut session, _) = TelnetSession::connect("h", 23, 80, 24);
    session.kill();
    assert!(!session.is_alive());
}

#[test]
fn a_resize_is_reported_once_the_server_wants_sizes() {
    let (mut session, _) = TelnetSession::connect("h", 23, 80, 24);
    assert!(session.resize(80, 24).is_empty());
    assert!(session.resize(100, 24).is_empty());
    session.heard(Read::Bytes(vec![IAC, DO, OPT_NAWS]));
    assert_eq!(
        session.resize(100, 40),
        vec![IAC, SB, OPT_NAWS, 0, 100, 0, 40, IAC, SE]
    );
}

#[test]
fn what_is_typed_goes_out_by_the_rules_of_the_wire() {
    let (session, _) = TelnetSession::connect("h", 23, 80, 24);
    assert_eq!(session.write(b"a\r"), b"a\r\0");
    assert_eq!(session.request_halt(), b"HALT\r\0");
}

#[test]
fn a_local_session_shows_everything_it_reads() {
    let reaction = local_reaction(Read::Bytes(vec![IAC, 1]));
    assert_eq!(output(reaction.event), Some(vec![IAC, 1]));
    assert!(reaction.reply.is_empty() && reaction.again);
    assert!(!local_reaction(Read::Failed).again);
    assert!(local_reaction(Read::Interrupted).event.is_none());
}
