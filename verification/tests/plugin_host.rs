use new_iris_terminal::plugins::api::{pack, Hook, Manifest};
use new_iris_terminal::plugins::host::{
    read_replacement, read_request, Answer, Exports, Pass, PluginHost, Rejected, MAX_BUFFER,
};

const ALL: Exports = Exports {
    on_output: true,
    on_input: true,
    command: true,
};

/// A host with plugins of these names loaded, each offering a command.
fn host_with(names: &[&str]) -> PluginHost {
    let mut host = PluginHost::disabled();
    for name in names {
        let hooks = vec![Hook::RegisterCommand("go".into()), Hook::SetStatus("up".into())];
        host.add(&Manifest::default(), name, &hooks, ALL);
    }
    host
}

/// Sends a stream past the plugins, each of which adds a letter to it; the one
/// named `bad` traps.
fn run(host: &mut PluginHost, mut pass: Pass) -> Vec<u8> {
    while let Some(i) = host.next(&pass) {
        let answer = if host.loaded()[i].name == "bad" {
            Answer::Trapped("trap".into())
        } else if host.loaded()[i].name == "idle" {
            Answer::PassThrough
        } else {
            let mut bytes = pass.current.clone();
            bytes.push(b'a' + i as u8);
            Answer::Replacement(bytes)
        };
        host.answered(&mut pass, i, answer);
    }
    pass.current
}

#[test]
fn with_no_plugins_the_streams_pass_through_untouched() {
    let mut host = PluginHost::disabled();
    let pass = host.on_output(b"USER>");
    assert_eq!(run(&mut host, pass), b"USER>".to_vec());
    let pass = host.on_input(b"halt\r");
    assert_eq!(run(&mut host, pass), b"halt\r".to_vec());
    assert!(PluginHost::is_enabled());
}

#[test]
fn a_missing_plugin_directory_yields_no_plugins() {
    assert!(PluginHost::disabled().loaded().is_empty());
}

/// A corrupt module must be reported and skipped, never fatal.
#[test]
fn an_invalid_wasm_file_is_reported_not_fatal() {
    let mut host = PluginHost::disabled();
    host.add_failed("broken", "definitely not wasm");
    assert_eq!(host.loaded().len(), 1);
    assert!(host.loaded()[0].error.is_some());
    let pass = host.on_output(b"x");
    assert!(host.next(&pass).is_none());
}

#[test]
fn plugins_are_chained_and_a_trap_spoils_nothing() {
    let mut host = host_with(&["one", "bad", "idle", "last"]);
    let pass = host.on_output(b"x");
    assert_eq!(run(&mut host, pass), b"xad".to_vec());
    assert_eq!(host.loaded()[1].error.as_deref(), Some("trap"));

    // Never called again.
    let pass = host.on_input(b"y");
    assert_eq!(run(&mut host, pass), b"yad".to_vec());
    assert_eq!(host.next_running("go", 0), Some(0));
    assert_eq!(host.next_running("go", 1), Some(2));
    assert_eq!(host.next_running("stop", 0), None);
}

#[test]
fn a_plugin_is_named_by_its_manifest_or_its_file() {
    let mut host = host_with(&["file"]);
    let manifest = Manifest {
        name: "Named".into(),
        ..Manifest::default()
    };
    host.add(&manifest, "file", &Vec::new(), ALL);
    assert_eq!(host.loaded()[0].name, "file");
    assert_eq!(host.loaded()[0].commands, vec!["go".to_string()]);
    assert_eq!(host.loaded()[1].name, "Named");
}

#[test]
fn a_returned_buffer_has_to_be_in_memory_and_within_the_limit() {
    let memory = b"0123456789";
    assert_eq!(read_replacement(0, memory), Ok(None));
    assert_eq!(read_replacement(pack(2, 3), memory), Ok(Some(b"234".to_vec())));
    assert_eq!(read_replacement(pack(5, 0), memory), Ok(Some(Vec::new())));
    assert_eq!(read_replacement(pack(8, 3), memory), Err(Rejected::OutOfBounds));
    let too_big = read_replacement(pack(0, MAX_BUFFER + 1), memory).unwrap_err();
    assert_eq!(
        too_big.message(),
        "returned buffer of 8388609 bytes exceeds the limit"
    );
}

#[test]
fn a_request_out_of_bounds_is_dropped() {
    let memory = b"hi\xff!";
    assert_eq!(read_request(0, 2, memory).as_deref(), Some("hi"));
    assert_eq!(read_request(-5, 2, memory).as_deref(), Some("hi"));
    assert_eq!(read_request(2, 2, memory).as_deref(), Some("\u{fffd}!"));
    assert_eq!(read_request(0, -1, memory), None);
    assert_eq!(read_request(3, 2, memory), None);
}
