use new_iris_terminal::pty::telnet::{
    Codec, DO, DONT, IAC, OPT_BINARY, OPT_ECHO, OPT_NAWS, OPT_SGA, OPT_TTYPE, SB, SE, TTYPE_IS,
    TTYPE_SEND, WILL, WONT,
};

fn codec() -> Codec {
    Codec::default()
}

/// Verbatim from `localhost:23` on this machine: the first thing IRIS says
/// is an option offer, and a terminal that treated it as text would print
/// mojibake before the login prompt.
#[test]
fn the_opening_bytes_of_a_real_iris_telnet_service_are_not_text() {
    let mut codec = codec();
    let out = codec.feed(&[IAC, WILL, OPT_SGA]);
    assert!(out.data.is_empty(), "protocol leaked into the terminal");
    assert_eq!(out.replies, vec![IAC, DO, OPT_SGA]);
}

/// Verbatim from `10.0.0.102:23`: four requests, two of which we do not
/// implement and must refuse rather than ignore.
#[test]
fn the_other_instances_opening_requests_are_answered_one_for_one() {
    let mut codec = codec();
    const OPT_TSPEED: u8 = 32;
    const OPT_XDISPLOC: u8 = 35;
    const OPT_NEW_ENVIRON: u8 = 39;
    let out = codec.feed(&[
        IAC,
        DO,
        OPT_TTYPE,
        IAC,
        DO,
        OPT_TSPEED,
        IAC,
        DO,
        OPT_XDISPLOC,
        IAC,
        DO,
        OPT_NEW_ENVIRON,
    ]);
    assert!(out.data.is_empty());
    assert_eq!(
        out.replies,
        vec![
            IAC,
            WILL,
            OPT_TTYPE,
            IAC,
            WONT,
            OPT_TSPEED,
            IAC,
            WONT,
            OPT_XDISPLOC,
            IAC,
            WONT,
            OPT_NEW_ENVIRON,
        ]
    );
}

#[test]
fn the_terminal_type_request_is_answered_with_vt100() {
    let mut codec = codec();
    let out = codec.feed(&[IAC, SB, OPT_TTYPE, TTYPE_SEND, IAC, SE]);
    let mut expected = vec![IAC, SB, OPT_TTYPE, TTYPE_IS];
    expected.extend_from_slice(b"vt100");
    expected.extend_from_slice(&[IAC, SE]);
    assert_eq!(out.replies, expected);
    assert!(out.data.is_empty());
}

/// Agreeing to NAWS owes the size straight away, and the size known before
/// the agreement is the one that must be reported.
#[test]
fn agreeing_to_report_the_window_size_reports_it_immediately() {
    let mut codec = codec();
    codec.us[OPT_NAWS as usize] = false;
    assert!(
        codec.set_size(200, 50).is_empty(),
        "a size must not be sent before the server asks for one"
    );

    let out = codec.feed(&[IAC, DO, OPT_NAWS]);
    assert_eq!(
        out.replies,
        vec![IAC, WILL, OPT_NAWS, IAC, SB, OPT_NAWS, 0, 200, 0, 50, IAC, SE]
    );

    // And a later resize goes out on its own.
    assert_eq!(
        codec.set_size(100, 40),
        vec![IAC, SB, OPT_NAWS, 0, 100, 0, 40, IAC, SE]
    );
}

/// A dimension of exactly 255 collides with IAC and has to be escaped, or
/// the server reads the size as a command.
#[test]
fn a_255_wide_window_escapes_its_size_bytes() {
    let mut codec = codec();
    codec.feed(&[IAC, DO, OPT_NAWS]);
    assert_eq!(
        codec.set_size(255, 24),
        vec![IAC, SB, OPT_NAWS, 0, 255, 255, 0, 24, IAC, SE]
    );
}

/// The server declining something we never had does not put us in a
/// negotiation loop.
#[test]
fn a_refusal_is_not_answered() {
    let mut codec = codec();
    assert_eq!(codec.feed(&[IAC, WONT, OPT_ECHO]).replies, Vec::<u8>::new());
}

/// RFC 854's loop rule, and the reason a Linux `telnetd` was flushing a
/// SYNCH into the middle of the login banner: the greeting already asked
/// for ECHO and SGA, so the server agreeing to them settles the matter and
/// must not be acknowledged again.
#[test]
fn an_agreement_to_what_the_greeting_asked_for_is_not_re_acknowledged() {
    let mut codec = codec();
    let greeting = codec.greeting();
    assert!(greeting.windows(3).any(|w| w == [IAC, DO, OPT_ECHO]));

    let out = codec.feed(&[IAC, WILL, OPT_SGA, IAC, WILL, OPT_ECHO]);
    assert_eq!(
        out.replies,
        Vec::<u8>::new(),
        "re-acknowledging a state already held is what starts a loop"
    );
}

/// The same rule in the other direction: being told twice to do something
/// is answered once.
#[test]
fn a_repeated_request_is_answered_once() {
    let mut codec = codec();
    codec.greeting();
    let first = codec.feed(&[IAC, DO, OPT_TTYPE]);
    assert_eq!(
        first.replies,
        Vec::<u8>::new(),
        "the greeting already offered TTYPE"
    );

    // Something the greeting did not claim is answered the first time and
    // not the second.
    let mut fresh = Codec::default();
    assert_eq!(
        fresh.feed(&[IAC, DO, OPT_BINARY]).replies,
        vec![IAC, WILL, OPT_BINARY]
    );
    assert_eq!(fresh.feed(&[IAC, DO, OPT_BINARY]).replies, Vec::<u8>::new());
}

/// A refusal must still be sent every time it is asked for: a server that
/// gets no answer to `DO TSPEED` waits for one.
#[test]
fn an_unsupported_option_is_refused_every_time_it_is_requested() {
    let mut codec = codec();
    const OPT_TSPEED: u8 = 32;
    assert_eq!(
        codec.feed(&[IAC, DO, OPT_TSPEED]).replies,
        vec![IAC, WONT, OPT_TSPEED]
    );
    assert_eq!(
        codec.feed(&[IAC, DO, OPT_TSPEED]).replies,
        vec![IAC, WONT, OPT_TSPEED],
        "a server that hears nothing keeps waiting"
    );
}

/// IRIS echoes what is typed, so the terminal accepting that offer is what
/// stops every keystroke appearing twice.
#[test]
fn the_servers_offer_to_echo_is_accepted() {
    let mut codec = codec();
    assert_eq!(
        codec.feed(&[IAC, WILL, OPT_ECHO]).replies,
        vec![IAC, DO, OPT_ECHO]
    );
}

/// A server withdrawing its echo is followed, or the terminal would stay
/// silent while nothing else echoes either.
#[test]
fn a_withdrawn_echo_is_acknowledged() {
    let mut codec = codec();
    codec.feed(&[IAC, WILL, OPT_ECHO]);
    assert_eq!(
        codec.feed(&[IAC, WONT, OPT_ECHO]).replies,
        vec![IAC, DONT, OPT_ECHO]
    );
}

#[test]
fn terminal_data_passes_through_with_the_protocol_removed() {
    let mut codec = codec();
    let mut wire = b"USER".to_vec();
    wire.extend_from_slice(&[IAC, WILL, OPT_SGA]);
    wire.extend_from_slice(b">write 1");
    let out = codec.feed(&wire);
    assert_eq!(out.data, b"USER>write 1");
}

/// A doubled 255 is one byte of data. It matters for the codepages: CP850
/// uses the whole high half, so 0xFF is ordinary text here.
#[test]
fn a_doubled_escape_byte_is_one_byte_of_data() {
    let mut codec = codec();
    assert_eq!(
        codec.feed(&[b'a', IAC, IAC, b'b']).data,
        vec![b'a', IAC, b'b']
    );
}

/// The NUL that NVT pads a bare CR with is not content: printing it would
/// step the cursor over a cell holding nothing.
#[test]
fn the_padding_nul_after_a_carriage_return_is_dropped() {
    let mut codec = codec();
    assert_eq!(codec.feed(b"a\r\0b").data, b"a\rb");
    // CR LF is a real pair and must survive intact.
    assert_eq!(codec.feed(b"a\r\nb").data, b"a\r\nb");
}

/// The rule holds across a chunk boundary, which is where a stream-based
/// implementation gets it wrong.
#[test]
fn the_carriage_return_rule_survives_a_split_chunk() {
    let mut codec = codec();
    assert_eq!(codec.feed(b"a\r").data, b"a\r");
    assert_eq!(codec.feed(b"\0b").data, b"b");
}

/// A negotiation split across two reads must not be printed as text.
#[test]
fn a_command_split_across_chunks_is_still_a_command() {
    let mut codec = codec();
    assert!(codec.feed(&[b'x', IAC]).data == b"x");
    let out = codec.feed(&[DO, OPT_TTYPE]);
    assert!(out.data.is_empty());
    assert_eq!(out.replies, vec![IAC, WILL, OPT_TTYPE]);
}

/// Enter is a bare CR everywhere else in the app; NVT requires the NUL.
#[test]
fn enter_is_padded_until_the_server_agrees_to_binary() {
    let mut codec = codec();
    assert_eq!(codec.encode(b"zw\r"), b"zw\r\0");
    // CR LF is already unambiguous.
    assert_eq!(codec.encode(b"zw\r\n"), b"zw\r\n");

    codec.feed(&[IAC, DO, OPT_BINARY]);
    assert_eq!(
        codec.encode(b"zw\r"),
        b"zw\r",
        "binary mode needs no padding"
    );
}

/// Typed text containing 0xFF — an accented character in CP850 — must not
/// be read by the server as the start of a command.
#[test]
fn an_escape_byte_in_typed_text_is_doubled() {
    let codec = codec();
    assert_eq!(codec.encode(&[b'a', IAC, b'b']), vec![b'a', IAC, IAC, b'b']);
}

/// A server that opens a sub-negotiation and never closes it must not grow
/// the buffer for the rest of the session.
#[test]
fn an_unterminated_subnegotiation_is_capped() {
    let mut codec = codec();
    codec.feed(&[IAC, SB, OPT_TTYPE]);
    codec.feed(&vec![b'x'; 4096]);
    assert!(codec.sb.len() <= 64);
}

/// The greeting has to claim the terminal type: one of the two instances
/// never asks, and IRIS falls back to dumb-terminal behaviour without it.
#[test]
fn the_greeting_offers_the_terminal_type_and_size() {
    let mut codec = codec();
    let greeting = codec.greeting();
    assert_eq!(
        greeting,
        vec![IAC, WILL, OPT_TTYPE, IAC, WILL, OPT_NAWS, IAC, DO, OPT_SGA, IAC, DO, OPT_ECHO,]
    );
}
