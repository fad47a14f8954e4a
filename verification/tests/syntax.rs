use new_iris_terminal::term::cell::Cell;
use new_iris_terminal::term::syntax::{scan, scan_chars, Kind, Span};

fn kinds(text: &str) -> Vec<(Kind, String)> {
    let chars: Vec<char> = text.chars().collect();
    scan_chars(&chars)
        .into_iter()
        .map(|s| (s.kind, chars[s.start..s.end].iter().collect()))
        .collect()
}

/// The renderer's entry point takes cells, so it has to keep working too.
#[test]
fn scanning_cells_matches_scanning_text() {
    let cells: Vec<Cell> = r#"zw ^CCDU"#
        .chars()
        .map(|ch| Cell {
            ch,
            ..Cell::default()
        })
        .collect();
    assert_eq!(
        scan(&cells),
        vec![Span {
            start: 3,
            end: 8,
            kind: Kind::Global
        }]
    );
}

#[test]
fn a_global_reference_is_found_without_its_subscripts() {
    assert_eq!(kinds("zw ^CCDU"), vec![(Kind::Global, "^CCDU".to_string())]);
}

#[test]
fn a_percent_global_is_a_global() {
    assert_eq!(
        kinds("^%CSW1GATCUST"),
        vec![(Kind::Global, "^%CSW1GATCUST".to_string())]
    );
}

/// The case that makes the "letter after the caret" rule necessary: `^` is
/// also the piece delimiter, and ERP values are full of it.
#[test]
fn a_piece_delimiter_is_not_a_global() {
    let spans = kinds("300^1^1^67222^48220");
    assert!(
        spans.iter().all(|(kind, _)| *kind == Kind::Number),
        "{spans:?}"
    );
}

#[test]
fn a_caret_inside_a_string_stays_part_of_the_string() {
    assert_eq!(
        kinds(r#""1^350^2^2^64329""#),
        vec![(Kind::Str, r#""1^350^2^2^64329""#.to_string())]
    );
}

#[test]
fn a_doubled_quote_does_not_end_the_string() {
    assert_eq!(
        kinds(r#""a""b" x"#),
        vec![(Kind::Str, r#""a""b""#.to_string())]
    );
}

/// Output is cut at the device margin all the time, so a value that never
/// closes its quote must still be coloured to where the row ends.
#[test]
fn an_unterminated_string_runs_to_the_end_of_the_row() {
    assert_eq!(
        kinds(r#"x="1^350^2"#),
        vec![(Kind::Str, r#""1^350^2"#.to_string())]
    );
}

#[test]
fn a_real_zwrite_line_splits_into_a_global_and_its_value() {
    assert_eq!(
        kinds(r#"^CCDU(1,1)="1^350^2^2^64329""#),
        vec![
            (Kind::Global, "^CCDU".to_string()),
            (Kind::Number, "1".to_string()),
            (Kind::Number, "1".to_string()),
            (Kind::Str, r#""1^350^2^2^64329""#.to_string()),
        ]
    );
}

/// A caret with no name after it is the delimiter or the operator, never a
/// global - the digit is the only thing coloured here.
#[test]
fn a_lone_caret_is_left_alone() {
    assert_eq!(kinds("^ ^^ ^1"), vec![(Kind::Number, "1".to_string())]);
}

/// Command words only count on a command line, which is what the prompt
/// marks. Prose that happens to contain one is left alone.
#[test]
fn a_command_is_only_a_command_after_a_prompt() {
    assert_eq!(
        kinds("USER>set x=1"),
        vec![
            (Kind::Command, "set".to_string()),
            (Kind::Operator, "=".to_string()),
            (Kind::Number, "1".to_string()),
        ]
    );
    assert!(kinds("Please set the flag").is_empty());
}

/// The abbreviations are the whole point of a terminal, and `w #` - the
/// clear-screen - is the shortest command line there is.
#[test]
fn abbreviations_and_their_arguments_are_recognised() {
    assert_eq!(
        kinds("%SYS>w #"),
        vec![
            (Kind::Command, "w".to_string()),
            (Kind::Operator, "#".to_string()),
        ]
    );
}

/// A variable that happens to be spelled like an abbreviation is not a
/// command: `s=1` assigns, `s x=1` sets.
#[test]
fn a_word_in_an_expression_is_not_a_command() {
    assert_eq!(
        kinds("USER>w s=1"),
        vec![
            (Kind::Command, "w".to_string()),
            (Kind::Operator, "=".to_string()),
            (Kind::Number, "1".to_string()),
        ]
    );
}

#[test]
fn a_tag_and_its_routine_are_told_apart() {
    assert_eq!(
        kinds("GetScrollableRS^%CSW1APICONTROLLER"),
        vec![
            (Kind::Label, "GetScrollableRS".to_string()),
            (Kind::Routine, "^%CSW1APICONTROLLER".to_string()),
        ]
    );
}

/// `do ^ROU` runs a routine; the same text without the command is a global
/// being written or read.
#[test]
fn a_call_argument_is_a_routine_rather_than_a_global() {
    assert_eq!(
        kinds("USER>do ^%CSW1GATCUST")
            .into_iter()
            .map(|(k, _)| k)
            .collect::<Vec<_>>(),
        vec![Kind::Command, Kind::Routine]
    );
    assert_eq!(
        kinds("USER>zw ^%CSW1GATCUST")
            .into_iter()
            .map(|(k, _)| k)
            .collect::<Vec<_>>(),
        vec![Kind::Command, Kind::Global]
    );
}

#[test]
fn dollar_constructs_split_four_ways() {
    assert_eq!(
        kinds("$$$OK $horolog $piece(x) $$Tag^ROU"),
        vec![
            (Kind::PreProcessor, "$$$OK".to_string()),
            (Kind::SystemVariable, "$horolog".to_string()),
            (Kind::Function, "$piece".to_string()),
            (Kind::Extrinsic, "$$Tag".to_string()),
            (Kind::Routine, "^ROU".to_string()),
        ]
    );
}

#[test]
fn a_class_reference_names_its_class() {
    let spans = kinds("USER>w ##class(Src2.Classe).%New()");
    assert!(
        spans.contains(&(Kind::Command, "##class".to_string())),
        "{spans:?}"
    );
    assert!(
        spans.contains(&(Kind::ObjectClass, "Src2.Classe".to_string())),
        "{spans:?}"
    );
    // The dot is punctuation, not part of the method name.
    assert!(
        spans.contains(&(Kind::ObjectMethod, "%New".to_string())),
        "{spans:?}"
    );
}

#[test]
fn members_methods_and_attributes_are_told_apart() {
    let spans = kinds("USER>w obj.Nome_..Codigo_obj.Calcular()");
    assert!(
        spans.contains(&(Kind::ObjectMember, "Nome".to_string())),
        "{spans:?}"
    );
    assert!(
        spans.contains(&(Kind::ObjectAttribute, "Codigo".to_string())),
        "{spans:?}"
    );
    assert!(
        spans.contains(&(Kind::ObjectMethod, "Calcular".to_string())),
        "{spans:?}"
    );
    // And nothing coloured starts on a dot.
    assert!(
        !spans.iter().any(|(_, text)| text.starts_with('.')),
        "a dot was coloured: {spans:?}"
    );
}

/// A dotted name in ordinary output is not an object reference: there is no
/// prompt on the row, so the member rules never run.
#[test]
fn a_file_name_in_output_is_not_an_object_member() {
    assert!(kinds("Loaded config.toml").is_empty());
}

#[test]
fn a_decimal_is_one_number_and_a_full_stop_is_not_part_of_it() {
    assert_eq!(
        kinds("Total 1234.56 done."),
        vec![(Kind::Number, "1234.56".to_string())]
    );
}

/// A number inside an identifier belongs to the identifier.
#[test]
fn digits_inside_a_name_are_not_a_number() {
    assert_eq!(kinds("CCTTGPRG005"), Vec::new());
    assert_eq!(
        kinds("^CCTTGPRG005"),
        vec![(Kind::Global, "^CCTTGPRG005".to_string())]
    );
}

#[test]
fn a_preprocessor_directive_is_found_on_a_command_line() {
    assert_eq!(
        kinds("USER>#dim conta"),
        vec![(Kind::PreProcessor, "#dim".to_string())]
    );
}

/// The prompt itself is output, not code: nothing before the `>` may be
/// coloured as a command.
#[test]
fn the_prompt_is_not_part_of_the_command_line() {
    let spans = kinds("TL1:USER>w 1");
    assert_eq!(
        spans,
        vec![
            (Kind::Command, "w".to_string()),
            (Kind::Number, "1".to_string()),
        ]
    );
}
