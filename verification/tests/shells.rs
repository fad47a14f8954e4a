use new_iris_terminal::plugins::shells::{
    declaration, declared, discover, free_path, generated_file, is_notes, read_stamp, same_program,
    stamp_text, to_write, unix_probes, windows_probes, Candidate, Entry, Shell, ShellFile,
    GENERATED_HEADER,
};

/// A folder of shell files, and the stamp beside them.
struct Folder {
    files: Vec<(String, ShellFile)>,
    stamp: String,
}

impl Folder {
    fn new() -> Folder {
        Folder {
            files: Vec::new(),
            stamp: String::new(),
        }
    }

    fn shells(&self) -> Vec<Shell> {
        let entries: Vec<Entry> = self
            .files
            .iter()
            .map(|(file, declares)| Entry {
                file: file.clone(),
                declares: declares.clone(),
                there: !declares.program.contains("nowhere"),
            })
            .collect();
        declared(&entries)
    }

    fn materialise(&mut self, found: &Vec<Candidate>) {
        let stamped = read_stamp(&self.stamp);
        let existing: Vec<String> = self.shells().into_iter().map(|s| s.program).collect();
        let mut added = Vec::new();
        for i in to_write(found, &stamped, &existing, false) {
            let taken: Vec<String> = self.files.iter().map(|(file, _)| file.clone()).collect();
            let file = free_path(&found[i].name, &taken);
            self.files.push((file, declaration(&found[i])));
            added.push(found[i].program.clone());
        }
        if !added.is_empty() {
            self.stamp = stamp_text(&stamped, &added);
        }
    }
}

fn candidate(name: &str, program: &str) -> Candidate {
    Candidate {
        name: name.to_string(),
        program: program.to_string(),
        args: vec!["--login".to_string()],
    }
}

fn file(name: &str, program: &str) -> ShellFile {
    ShellFile {
        name: name.to_string(),
        program: program.to_string(),
        args: Vec::new(),
        generated: false,
    }
}

const PROGRAM: &str = "/opt/it/shell";

/// The whole point of the folder being the list: a shell found installed
/// arrives as a file, with its name and arguments in it, that the user can
/// then edit like any other.
#[test]
fn a_found_shell_is_written_into_the_folder() {
    let mut folder = Folder::new();
    folder.materialise(&vec![candidate("Test Shell", PROGRAM)]);

    let shells = folder.shells();
    assert_eq!(shells.len(), 1, "one file, one shell");
    assert_eq!(shells[0].name, "Test Shell");
    assert_eq!(shells[0].program, PROGRAM);
    assert_eq!(shells[0].args, vec!["--login".to_string()]);
    assert!(shells[0].generated, "the app wrote this one");
    assert_eq!(
        shells[0].file, "test-shell.toml",
        "named after the shell, so the folder reads as a list of shells"
    );
    assert_eq!(shells[0].command_line(), "/opt/it/shell --login");
    assert_eq!(shells[0].source_label(), "found on this machine");
}

/// Deleting a generated file has to stick. Without the stamp, every start
/// would put back the shell the user had just thrown away.
#[test]
fn a_deleted_file_is_not_written_again() {
    let mut folder = Folder::new();
    let found = vec![candidate("Test Shell", PROGRAM)];

    folder.materialise(&found);
    assert_eq!(folder.files.len(), 1);
    folder.files.clear();

    folder.materialise(&found);
    assert!(folder.files.is_empty(), "it must stay deleted");
    assert!(folder.shells().is_empty());
}

/// And an edited one is left exactly as edited, however many times the app
/// starts.
#[test]
fn an_edited_file_is_left_alone() {
    let mut folder = Folder::new();
    let found = vec![candidate("Test Shell", PROGRAM)];

    folder.materialise(&found);
    folder.files[0].1 = file("Mine", PROGRAM);

    folder.materialise(&found);
    let shells = folder.shells();
    assert_eq!(shells.len(), 1, "and no second file beside it");
    assert_eq!(shells[0].name, "Mine");
    assert!(!shells[0].generated, "an edited file is the user's");
    assert_eq!(shells[0].source_label(), "declared");
}

/// A shell the user declared by hand, for a program the probes also find,
/// is not doubled up: the file already there is the answer for that
/// program.
#[test]
fn a_hand_written_file_stops_the_same_program_being_written() {
    let mut folder = Folder::new();
    folder.files.push(("mine.toml".to_string(), file("Mine", PROGRAM)));

    folder.materialise(&vec![candidate("Test Shell", PROGRAM)]);
    let shells = folder.shells();
    assert_eq!(shells.len(), 1);
    assert_eq!(shells[0].name, "Mine");
}

/// A shell installed after the first run still turns up: the stamp names
/// programs, not "we have looked once".
#[test]
fn a_shell_installed_later_is_still_written() {
    let mut folder = Folder::new();
    folder.materialise(&vec![candidate("First", PROGRAM)]);
    assert_eq!(folder.shells().len(), 1);

    // Same program under a different spelling of the path, so it is still
    // one shell - which is the case `same_program` is there for.
    folder.materialise(&vec![candidate("First", PROGRAM), candidate("Second", "/opt//it/./shell")]);
    assert_eq!(folder.shells().len(), 1);

    folder.materialise(&vec![candidate("First", PROGRAM), candidate("Third", "/opt/it/other")]);
    assert_eq!(folder.shells().len(), 2);
}

/// Two shells with the same name must not fight over one file name.
#[test]
fn two_shells_with_one_name_get_two_files() {
    let none: Vec<String> = Vec::new();
    assert_eq!(free_path("Git Bash", &none), "git-bash.toml");
    let taken = vec!["git-bash.toml".to_string()];
    assert_eq!(free_path("Git Bash", &taken), "git-bash-2.toml");
    // A name with nothing usable in it still gets a file.
    assert_eq!(free_path("***", &none), "shell.toml");
}

/// A file naming a program that is not on this machine is dropped: a menu
/// entry that cannot start anything is worse than no entry.
#[test]
fn a_file_pointing_at_nothing_is_dropped() {
    let mut folder = Folder::new();
    folder
        .files
        .push(("ghost.toml".to_string(), file("Ghost", "/nowhere/at/all/ghost")));
    folder.files.push(("blank.toml".to_string(), file("  ", PROGRAM)));
    folder.files.push(("empty.toml".to_string(), file("Empty", "")));
    assert!(folder.shells().is_empty());
}

/// Whatever this machine has, every probe hit has to name a program that
/// is really there and a name to show.
#[test]
fn every_discovered_shell_exists_and_is_named() {
    for probe in windows_probes("C:\\Windows", "C:\\Program Files", "D:\\x86\\") {
        let mut files = vec![false; probe.paths.len()];
        assert!(discover(&probe, &files).is_none());
        let last = files.len() - 1;
        files[last] = true;
        let found = discover(&probe, &files).expect("there is one");
        assert!(!found.name.is_empty());
        assert_eq!(found.program, probe.paths[last]);
    }
}

/// Windows paths differ in case and in slash direction between a probe and
/// a hand-written file, and both name the same program.
#[test]
fn the_same_program_is_recognised_however_it_is_spelled() {
    assert!(same_program(
        "C:/Windows/System32/cmd.exe",
        "C:/Windows/System32/cmd.exe",
        true
    ));
    assert!(same_program(
        r"C:\Windows\System32\cmd.exe",
        "c:/windows/system32/CMD.EXE",
        true
    ));
    assert!(!same_program(
        r"C:\Windows\System32\cmd.exe",
        "c:/windows/system32/CMD.EXE",
        false
    ));
    assert!(!same_program("/bin/bash", "/bin/zsh", false));
    assert!(same_program("/bin/bash/", "/bin//./bash", false));
    assert!(!same_program("bin/bash", "/bin/bash", false));
    assert!(!same_program("./bash", "bash", false));
}

#[test]
fn the_probes_look_where_the_platform_keeps_its_shells() {
    let probes = windows_probes("C:\\Windows", "C:\\PF", "D:\\x86\\");
    assert_eq!(probes.len(), 5);
    assert_eq!(probes[0].paths, vec!["C:\\Windows\\System32\\cmd.exe".to_string()]);
    assert_eq!(probes[3].paths[1], "D:\\x86\\Git\\bin\\bash.exe");

    let names = |listed: &str| -> Vec<String> {
        unix_probes(listed).into_iter().map(|p| p.name).collect()
    };
    assert_eq!(names(""), vec!["Bash", "Zsh", "Fish", "Sh"]);
    assert_eq!(names("# shells\n /bin/sh \n/bin/dash\n"), vec!["Sh"]);
}

#[test]
fn a_stamp_is_read_as_it_was_written() {
    let text = stamp_text(&vec!["/a".to_string()], &vec!["/b c".to_string()]);
    assert!(text.starts_with("# Programs newIrisTerminal"));
    assert!(text.ends_with("\n/a\n/b c\n"));
    assert_eq!(read_stamp(&text), vec!["/a".to_string(), "/b c".to_string()]);
}

#[test]
fn notes_are_not_a_broken_plugin() {
    assert!(is_notes("# just\n\n  # notes\n"));
    assert!(!is_notes("# a\nname = \n"));
    assert!(generated_file("name = 1").starts_with(GENERATED_HEADER));
}

/// A bare drive stands for the directory that is current on it, so nothing is
/// put behind it.
#[test]
fn a_path_below_a_bare_drive_has_no_separator() {
    let probes = windows_probes("C:", "C:\\PF", "D:\\x86\\");
    assert_eq!(probes[0].paths, vec!["C:System32\\cmd.exe".to_string()]);
}
