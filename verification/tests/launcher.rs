use new_iris_terminal::pty::launcher::{
    add_listed, escape_for_cmd, find_binary, first_found, folder_instances, parse_iris_list,
    search_dirs, session_args, unix_session_command, unix_shell_command, windows_session_command,
    windows_shell_command, Folder, Launch, LaunchSpec, Place, Probed,
};

/// The command line `cmd` will parse, as one string.
fn command_line(launch: &Launch) -> String {
    format!("{} {}", launch.program, launch.args.join(" "))
}

fn place(name: &str, dir: &str) -> Option<Place> {
    Some(Place {
        name: name.to_string(),
        dir: dir.to_string(),
    })
}

/// The bug this pins, and it is worth pinning because the failure is
/// entirely invisible from this side: the tab opens, `cmd` says
/// `'C:\Program' is not recognized`, and the shell never runs. A path
/// with a space in it cannot go on a line `cmd` parses, so the program
/// is named bare and its directory goes on PATH instead.
#[test]
fn a_shell_under_program_files_is_named_bare() {
    let launch = windows_shell_command(
        r"C:\Program Files\Git\bin\bash.exe",
        &place("bash.exe", r"C:\Program Files\Git\bin"),
        &vec!["--login".to_string(), "-i".to_string()],
        &Some(r"C:\Windows".to_string()),
        &None,
    );

    let line = command_line(&launch);
    assert!(
        line.contains("bash.exe --login -i"),
        "the shell is not on the line: {line}"
    );
    assert!(
        !line.contains("Program Files"),
        "the path is on the line, so cmd will split it: {line}"
    );
    assert_eq!(
        launch.path.as_deref(),
        Some(r"C:\Program Files\Git\bin;C:\Windows"),
        "its directory has to come first on PATH"
    );
    assert_eq!(launch.term.as_deref(), Some("xterm-256color"));
}

/// And the console still gets its codepage, which is the other half of
/// why a shell is wrapped in `cmd` at all.
#[test]
fn a_shell_is_started_with_the_console_in_utf8() {
    let launch = windows_shell_command(
        r"C:\Windows\System32\cmd.exe",
        &place("cmd.exe", r"C:\Windows\System32"),
        &Vec::new(),
        &None,
        &None,
    );
    assert_eq!(launch.program, "cmd.exe");
    assert!(command_line(&launch).contains("chcp 65001>nul &"));
    assert_eq!(launch.path.as_deref(), Some(r"C:\Windows\System32"));
}

/// An IRIS session is named the same way, for the same reason: the
/// standard install root is under `C:\Program Files\InterSystems`.
#[test]
fn an_iris_session_is_named_bare_too() {
    let spec = LaunchSpec {
        instance: "CONSISTEM".into(),
        ..LaunchSpec::default()
    };
    let launch = windows_session_command(
        r"C:\Program Files\InterSystems\IRIS\bin\irissession.exe",
        &place("irissession.exe", r"C:\Program Files\InterSystems\IRIS\bin"),
        &spec,
        &Some("x".to_string()),
    );

    let line = command_line(&launch);
    assert!(line.contains("irissession.exe CONSISTEM"), "{line}");
    assert!(!line.contains("Program Files"), "{line}");
    assert!(launch
        .path
        .unwrap()
        .starts_with(r"C:\Program Files\InterSystems\IRIS\bin;"));
    assert_eq!(launch.term.as_deref(), Some("vt100"));
}

/// A routine name is the reason the escaping exists: `^MYROUTINE`
/// reaches IRIS whole only if the caret survives cmd's own parsing.
#[test]
fn cmd_metacharacters_are_escaped_in_a_session_argument() {
    assert_eq!(escape_for_cmd("^MYROUTINE"), "^^MYROUTINE");
    assert_eq!(escape_for_cmd("^%CSW1GEN"), "^^%CSW1GEN");
    assert_eq!(escape_for_cmd("CONSISTEM"), "CONSISTEM");
    assert_eq!(escape_for_cmd("a&b|c>d"), "a^&b^|c^>d");
}

#[test]
fn launcher_parses_instance_names_from_iris_list() {
    let text = "\
Instance 'CONSISTEM'   (C:\\InterSystems\\CONSISTEM)
    directory:  C:\\InterSystems\\CONSISTEM
    status:     running

Instance 'consistemdb'   (C:\\InterSystems\\consistemdb)
    status:     down
";
    assert_eq!(parse_iris_list(text), vec!["CONSISTEM", "consistemdb"]);

    let text = "Instance 'IRISHEALTH'\t(/usr/irissys)\n    status:\trunning\n";
    assert_eq!(parse_iris_list(text), vec!["IRISHEALTH"]);
}

/// Verbatim from `iris.exe list` on IRIS 2025.1 with a custom install —
/// note the keyword is `Configuration`, and the instance name differs
/// from the directory name.
#[test]
fn parses_the_configuration_keyword_used_by_custom_installs() {
    let text = "\
Configuration 'CONSISETM'\t(Custom installation)
\tdirectory:    C:\\InterSystems\\CONSISTEM
\tversionid:    2025.1.3.481.1
\tstatus:       running, since Wed Aug 26 09:44:40 2026
";
    assert_eq!(parse_iris_list(text), vec!["CONSISETM"]);
}

fn spec() -> LaunchSpec {
    LaunchSpec {
        instance: "IRIS".into(),
        namespace: Some("USER".into()),
        routine: Some("^MENU".into()),
        binary_override: None,
    }
}

#[test]
fn a_session_is_given_its_namespace_and_routine() {
    assert_eq!(session_args(&spec()), vec!["-U", "USER", "^MENU"]);
    let bare = LaunchSpec {
        namespace: Some(String::new()),
        routine: None,
        ..spec()
    };
    assert!(session_args(&bare).is_empty());

    let launch = windows_session_command("x", &place("x.exe", "d"), &spec(), &None);
    assert!(launch.args[2].ends_with("x.exe IRIS -U USER ^^MENU"));
}

#[test]
fn csession_takes_the_instance_directly() {
    let iris = unix_session_command("/usr/bin/iris", &Some("iris".into()), &spec());
    assert_eq!(iris.args[..2], ["session", "IRIS"]);
    let csession = unix_session_command("/usr/bin/csession", &Some("csession".into()), &spec());
    assert_eq!(csession.args[0], "IRIS");
}

fn probed(path: &str, is_file: bool) -> Probed {
    Probed {
        path: path.to_string(),
        is_file,
    }
}

#[test]
fn a_binary_is_the_override_or_the_first_there_is_or_its_name() {
    let candidates = vec![probed("/a/iris", false), probed("/b/iris", true)];
    assert_eq!(
        find_binary(&Some(probed("/mine", true)), &candidates, "iris"),
        Ok("/mine".to_string())
    );
    assert_eq!(
        find_binary(&Some(probed("/mine", false)), &candidates, "iris"),
        Err("configured IRIS binary not found: /mine".to_string())
    );
    assert_eq!(
        find_binary(&None, &candidates, "iris"),
        Ok("/b/iris".to_string())
    );
    assert_eq!(
        find_binary(&None, &Vec::new(), "iris"),
        Ok("iris".to_string())
    );
}

#[test]
fn an_instance_is_found_once_and_its_own_directory_comes_first() {
    let mut found = Vec::new();
    add_listed(&mut found, "Instance 'A'\nInstance 'a'\nConfiguration 'B'\n", "/one");
    add_listed(&mut found, "Instance 'b'\nInstance 'C'\n", "/two");
    let names: Vec<&str> = found.iter().map(|i| i.name.as_str()).collect();
    assert_eq!(names, vec!["A", "B", "C"]);
    assert_eq!(
        search_dirs(&found, "c", &vec!["/usual".to_string()]),
        vec!["/two".to_string(), "/usual".to_string()]
    );
}

#[test]
fn a_shell_elsewhere_is_started_as_it_is() {
    let launch = unix_shell_command("/bin/bash", &vec!["-l".into()], &Some("/tmp".into()));
    assert_eq!(launch.program, "/bin/bash");
    assert_eq!(launch.args, vec!["-l".to_string()]);
    assert_eq!(launch.cwd.as_deref(), Some("/tmp"));
    assert_eq!(launch.path, None);
}

#[test]
fn the_first_directory_that_lists_anything_is_believed() {
    let names = |list: &[&str]| list.iter().map(|n| n.to_string()).collect::<Vec<String>>();
    let found = vec![names(&[]), names(&["IRIS", "TEST"]), names(&["OTHER"])];
    assert_eq!(first_found(&found), names(&["IRIS", "TEST"]));
    assert!(first_found(&vec![names(&[]), names(&[])]).is_empty());
    assert!(first_found(&Vec::new()).is_empty());
}

#[test]
fn an_install_directory_is_named_for_its_instance() {
    let folder = |name: Option<&str>, has_session: bool| Folder {
        name: name.map(str::to_string),
        bin: "C:/bin".to_string(),
        has_session,
    };
    let found = folder_instances(&vec![
        folder(Some("IRIS"), true),
        folder(Some("DOCS"), false),
        folder(None, true),
        folder(Some("TEST"), true),
    ]);
    let names: Vec<&str> = found.iter().map(|i| i.name.as_str()).collect();
    assert_eq!(names, vec!["IRIS", "TEST"]);
    assert_eq!(found[0].bin_dir.as_deref(), Some("C:/bin"));
}
