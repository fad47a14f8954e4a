use new_iris_terminal::features::global_browser::{
    build_script, parse, split_subscripts, strip_ansi, Query,
};

fn query(global: &str) -> Query {
    Query {
        global: global.to_string(),
        ..Query::default()
    }
}

#[test]
fn the_global_is_normalised_to_one_caret() {
    assert_eq!(query("CSW1").normalized_global(), "^CSW1");
    assert_eq!(query("^CSW1").normalized_global(), "^CSW1");
    assert_eq!(query("  CSW1 ").normalized_global(), "^CSW1");
}

#[test]
fn an_empty_or_hostile_global_is_not_runnable() {
    assert!(!query("").is_runnable());
    assert!(!query("   ").is_runnable());
    assert!(query("CSW1").is_runnable());
    // No room for command injection through the name.
    assert!(!query("X Set ^EVIL=1").is_runnable());
}

/// The script must never contain anything that writes.
#[test]
fn the_script_is_read_only() {
    let script = build_script(&query("CSW1"));
    for forbidden in [" Set ^", "Kill", "Merge ", "TSTART", "Do ^"] {
        assert!(
            !script.contains(forbidden),
            "script contains {forbidden:?}: {script}"
        );
    }
    assert!(script.contains("$Query("));
    assert!(script.contains("$Get("));
}

#[test]
fn the_script_starts_at_the_global_or_the_resume_point() {
    assert!(build_script(&query("CSW1")).contains("nitQ=\"^CSW1\""));

    let resumed = Query {
        start: "^CSW1(12,3)".into(),
        ..query("CSW1")
    };
    assert!(build_script(&resumed).contains("nitQ=\"^CSW1(12,3)\""));
}

#[test]
fn the_script_honours_the_limit_and_delimiter() {
    let q = Query {
        limit: 42,
        delimiter: "|".into(),
        ..query("CSW1")
    };
    let script = build_script(&q);
    assert!(script.contains("nitC>=42"));
    assert!(script.contains("$Piece(nitV,\"|\""));
}

/// A quote in a resume reference must not break out of the literal.
#[test]
fn quotes_in_the_resume_point_are_escaped() {
    let q = Query {
        start: "^CSW1(\"a\")".into(),
        ..query("CSW1")
    };
    assert!(build_script(&q).contains("^CSW1(\"\"a\"\")"));
}

const OUTPUT: &str = "COMP80>Try { Set nitC=0 ... }\n@N@^CSW1(1)\n@P@1@ABC\n@P@2@2024\n@P@3@12.50\n@N@^CSW1(2)\n@P@1@DEF\n@P@2@2025\n@E@2\nCOMP80>";

#[test]
fn parses_nodes_and_pieces() {
    let page = parse(OUTPUT, 500);
    assert!(page.error.is_none());
    assert_eq!(page.reported, Some(2));
    assert_eq!(page.nodes.len(), 2);

    assert_eq!(page.nodes[0].reference, "^CSW1(1)");
    assert_eq!(page.nodes[0].pieces, vec!["ABC", "2024", "12.50"]);
    assert_eq!(page.nodes[1].pieces, vec!["DEF", "2025"]);
}

#[test]
fn ignores_the_echo_and_the_prompt() {
    let page = parse(OUTPUT, 500);
    assert!(page.nodes.iter().all(|n| !n.reference.contains("COMP80")));
}

#[test]
fn column_counts_come_from_the_widest_row() {
    let page = parse(OUTPUT, 500);
    assert_eq!(page.piece_columns(), 3);
    assert_eq!(page.subscript_columns(), 1);
}

#[test]
fn a_piece_containing_an_at_sign_survives() {
    let page = parse("@N@^X(1)\n@P@1@a@b@c\n@E@1\n", 500);
    assert_eq!(page.nodes[0].pieces, vec!["a@b@c"]);
}

#[test]
fn an_empty_piece_is_preserved_in_position() {
    let page = parse("@N@^X(1)\n@P@1@a\n@P@2@\n@P@3@c\n@E@1\n", 500);
    assert_eq!(page.nodes[0].pieces, vec!["a", "", "c"]);
}

/// A dropped line must not shift every later piece into the wrong column,
/// which would silently misattribute ERP data.
#[test]
fn a_missing_piece_line_leaves_a_gap_rather_than_shifting() {
    let page = parse("@N@^X(1)\n@P@1@a\n@P@3@c\n@E@1\n", 500);
    assert_eq!(page.nodes[0].pieces, vec!["a", "", "c"]);
}

#[test]
fn an_iris_error_is_reported_not_swallowed() {
    let page = parse("@X@<SYNTAX>zTest+1^%G\n", 500);
    assert_eq!(page.error.as_deref(), Some("<SYNTAX>zTest+1^%G"));
    assert!(page.nodes.is_empty());
}

#[test]
fn reaching_the_limit_marks_the_page_truncated_and_gives_a_resume_point() {
    let page = parse("@N@^X(1)\n@P@1@a\n@N@^X(2)\n@P@1@b\n", 2);
    assert!(page.truncated);
    assert_eq!(page.resume_from().as_deref(), Some("^X(2)"));

    let complete = parse("@N@^X(1)\n@P@1@a\n@E@1\n", 500);
    assert!(!complete.truncated);
    assert!(complete.resume_from().is_none());
}

#[test]
fn escape_sequences_are_stripped_from_captured_output() {
    let raw = "\u{1b}[2J\u{1b}[1;1H@N@^X(1)\r\n\u{1b}[K@P@1@abc\u{1b}[0m\r\n@E@1\r\n";
    let page = parse(raw, 500);
    assert_eq!(page.nodes.len(), 1);
    assert_eq!(page.nodes[0].reference, "^X(1)");
    assert_eq!(
        page.nodes[0].pieces,
        vec!["abc"],
        "an escape sequence leaked into the value"
    );
}

#[test]
fn stripping_leaves_ordinary_text_intact() {
    assert_eq!(strip_ansi("plain text 123"), "plain text 123");
    assert_eq!(strip_ansi("acentuacao especial"), "acentuacao especial");
}

#[test]
fn stripping_removes_osc_titles() {
    assert_eq!(strip_ansi("\u{1b}]0;a title\u{7}data"), "data");
}

#[test]
fn subscripts_split_on_commas() {
    assert_eq!(split_subscripts("^CSW1(12,3)"), vec!["12", "3"]);
    assert_eq!(split_subscripts("^CSW1"), Vec::<String>::new());
}

/// A quoted subscript may contain commas and parentheses; splitting on the
/// raw comma would break the reference apart in the wrong place.
#[test]
fn subscripts_respect_quoting() {
    assert_eq!(
        split_subscripts("^CSW1(1,\"a,b\",3)"),
        vec!["1", "\"a,b\"", "3"]
    );
    assert_eq!(split_subscripts("^CSW1(\"x(y)\")"), vec!["\"x(y)\""]);
}

#[test]
fn search_matches_reference_and_pieces_case_insensitively() {
    let page = parse(OUTPUT, 500);
    let node = &page.nodes[0];
    assert!(node.matches("abc"));
    assert!(node.matches("ABC"));
    assert!(node.matches("csw1(1)"));
    assert!(!node.matches("zzz"));
    assert!(node.matches(""), "an empty search matches everything");
}

#[test]
fn the_value_is_reassembled_with_the_delimiter() {
    let page = parse(OUTPUT, 500);
    assert_eq!(page.nodes[0].value("^"), "ABC^2024^12.50");
}

/// The echo of the command holds every tag there is, and says nothing.
#[test]
fn an_echoed_script_changes_nothing() {
    let q = Query {
        global: "CSW1".to_string(),
        start: "^CSW1(\"a\")".to_string(),
        delimiter: "@E@7".to_string(),
        ..Query::default()
    };
    assert!(q.is_runnable());
    let error = "@X@<UNDEFINED>zTest\n".to_string();
    for out in [OUTPUT.to_string(), error, String::new()] {
        let alone = parse(&out, 500);
        assert_eq!(parse(&format!("USER>{}\n{}", build_script(&q), out), 500), alone);
        assert_eq!(parse(&format!("%SYS>{}\r\n{}", build_script(&q), out), 500), alone);
    }
}

/// The text of a piece may hold anything, a tag too.
#[test]
fn a_piece_holding_a_tag_is_a_piece() {
    let page = parse("@N@^X(1)\n@P@1@a@E@b\n@P@2@@N@c\n@E@1\n", 500);
    assert_eq!(page.nodes[0].pieces, vec!["a@E@b", "@N@c"]);
    assert_eq!(page.reported, Some(1));
    assert_eq!(page.error, None);
}

/// An error is one wherever it stands on a line, but for the line of the echo.
#[test]
fn an_error_is_reported_wherever_it_stands() {
    let page = parse("USER>@X@<SYNTAX>zTest+1^%G\n", 500);
    assert_eq!(page.error.as_deref(), Some("<SYNTAX>zTest+1^%G"));
    let page = parse("TL1:%SYS>@X@ <UNDEFINED>\r\n", 500);
    assert_eq!(page.error.as_deref(), Some("<UNDEFINED>"));
    let page = parse("@N@^X(1)\n@P@1@a\n@P@2@par@X@<INTERRUPT>\n", 500);
    assert_eq!(page.error.as_deref(), Some("<INTERRUPT>"));
    assert_eq!(page.nodes[0].pieces, vec!["a"]);
    let script = build_script(&Query { global: "X".to_string(), ..Query::default() });
    assert_eq!(parse(&format!("USER>{script}\n"), 500).error, None);
    // Text that only mentions the script is no echo of it.
    let page = parse(&format!("@N@^X(1)\n@P@1@{script}\n"), 500);
    assert!(page.error.is_some());
}

/// Escape sequences in the query do not matter as long as they end.
#[test]
fn an_echo_with_whole_escape_sequences_changes_nothing() {
    for delimiter in ["\u{1b}[1m", "\u{1b}[", "\u{1b}]0;x\u{7}", "\u{1b}"] {
        let q = Query {
            global: "CSW1".to_string(),
            delimiter: delimiter.to_string(),
            ..Query::default()
        };
        assert!(q.is_runnable());
        let alone = parse(OUTPUT, 500);
        let echoed = format!("USER>{}\n{}", build_script(&q), OUTPUT);
        assert_eq!(parse(&echoed, 500), alone);
    }
}
