use std::time::{Duration, Instant};

use new_iris_terminal::config::{Profile, ShellCommand};
use new_iris_terminal::features::doc_answer::{build_query, parse_answer, MARK_END};
use new_iris_terminal::features::doc_lookup::{describe, format_value, Formatted, PieceInfo};
use new_iris_terminal::features::doc_session::{
    ready_to_ask, DocLookup, Lookup, Sidecar, Step, ANSWER_TIMEOUT, IDLE_TIMEOUT,
};
use new_iris_terminal::term::grid::Grid;

/// The lines of an answer, end marker included.
fn answer(lines: &[&str]) -> Vec<String> {
    lines
        .iter()
        .map(|s| s.to_string())
        .chain(std::iter::once(MARK_END.to_string()))
        .collect()
}

// --- formatting precedence -------------------------------------------

fn piece(kind: &str, size: &str, value_list: &[(&str, &str)]) -> PieceInfo {
    PieceInfo {
        piece: 1,
        sub: None,
        sub_delim: None,
        description: "Test".into(),
        size: size.into(),
        kind: kind.into(),
        value_list: value_list
            .iter()
            .map(|(v, l)| (v.to_string(), l.to_string()))
            .collect(),
    }
}

/// `DataType.SimNao`'s hardcoded default: 0 is "Não", 1 is "Sim".
#[test]
fn a_sim_nao_value_list_formats_as_nao_or_sim() {
    let p = piece("DataType.SimNao", "1", &[("0", "Não"), ("1", "Sim")]);
    assert_eq!(format_value(&p, "0"), Formatted::Value("Não".into()));
    assert_eq!(format_value(&p, "1"), Formatted::Value("Sim".into()));
}

/// A real class-level display list works exactly the same way - nothing
/// SimNao-specific in the rule itself.
#[test]
fn a_property_level_display_list_is_used_the_same_way() {
    let p = piece(
        "%Integer",
        "1",
        &[("0", "Sem Comissão"), ("1", "Com Comissão")],
    );
    assert_eq!(
        format_value(&p, "0"),
        Formatted::Value("Sem Comissão".into())
    );
}

/// A code the list does not mention is not called invalid: these lists
/// are often partial, and there is nothing wrong with the stored value.
#[test]
fn a_code_outside_the_display_list_is_not_called_invalid() {
    let p = piece("%Integer", "1", &[("0", "Não"), ("1", "Sim")]);
    assert_eq!(format_value(&p, "7"), Formatted::Nothing);
}

#[test]
fn a_date_piece_converts_from_the_1840_epoch() {
    let p = piece("%Date", "5", &[]);
    // 67043 days after 1840-12-31.
    assert_eq!(
        format_value(&p, "67043"),
        Formatted::Value("22/07/2024".into())
    );
}

/// `%Time` is whole seconds since midnight - the second half of `$H`.
#[test]
fn a_time_piece_converts_from_seconds_since_midnight() {
    let p = piece("%Time", "5", &[]);
    assert_eq!(
        format_value(&p, "29376"),
        Formatted::Value("08:09:36".into())
    );
    assert_eq!(format_value(&p, "0"), Formatted::Value("00:00:00".into()));
    assert_eq!(
        format_value(&p, "86399"),
        Formatted::Value("23:59:59".into())
    );
}

/// The whole point of the type rules is that they say when the data is
/// wrong. A `%Date` holding a word is a fault worth naming, not a gap in
/// what this knows how to format.
#[test]
fn a_value_a_rule_cannot_read_is_reported_as_invalid() {
    assert_eq!(
        format_value(&piece("%Date", "5", &[]), "ABC"),
        Formatted::Invalid
    );
    assert_eq!(
        format_value(&piece("%Time", "5", &[]), "ABC"),
        Formatted::Invalid
    );
    assert_eq!(
        format_value(&piece("DataType.Valor", "5,2", &[]), "ABC"),
        Formatted::Invalid
    );
}

/// Out of range counts as unreadable too: there is no day before the
/// epoch and no time of day at or past the following midnight.
#[test]
fn a_value_outside_its_types_range_is_invalid() {
    assert_eq!(
        format_value(&piece("%Date", "5", &[]), "-1"),
        Formatted::Invalid
    );
    assert_eq!(
        format_value(&piece("%Time", "5", &[]), "86400"),
        Formatted::Invalid
    );
}

/// An unset piece is not a fault. Every rule would refuse it, and calling
/// each empty date in a row invalid would bury the ones that are.
#[test]
fn an_empty_piece_is_not_called_invalid() {
    assert_eq!(
        format_value(&piece("%Date", "5", &[]), ""),
        Formatted::Nothing
    );
    assert_eq!(
        format_value(&piece("%Time", "5", &[]), "   "),
        Formatted::Nothing
    );
    assert_eq!(
        format_value(&piece("DataType.Valor", "5,2", &[]), ""),
        Formatted::Nothing
    );
}

/// `%DateTime` and `%TimeStamp` hold something else entirely, and reading
/// either through the day-count or seconds-since-midnight rule would turn
/// a good value into a wrong one.
#[test]
fn a_longer_type_name_is_not_mistaken_for_the_one_it_starts_with() {
    assert_eq!(
        format_value(&piece("%DateTime", "", &[]), "67043"),
        Formatted::Nothing
    );
    assert_eq!(
        format_value(&piece("%TimeStamp", "", &[]), "29376"),
        Formatted::Nothing
    );
}

#[test]
fn a_decimal_scaled_size_groups_thousands_and_uses_a_comma() {
    let p = piece("DataType.Valor", "5,2", &[]);
    assert_eq!(
        format_value(&p, "100000"),
        Formatted::Value("1.000,00".into())
    );
    assert_eq!(format_value(&p, "0"), Formatted::Value("0,00".into()));
}

#[test]
fn a_bare_size_with_no_comma_is_not_treated_as_decimal() {
    let p = piece("%Integer", "5", &[]);
    assert_eq!(format_value(&p, "100000"), Formatted::Nothing);
}

/// A value list wins even where a type-based rule would also match -
/// the most specific thing a property can carry.
#[test]
fn a_value_list_takes_precedence_over_a_type_rule() {
    let p = piece("%Date", "5", &[("67043", "Feriado")]);
    assert_eq!(
        format_value(&p, "67043"),
        Formatted::Value("Feriado".into())
    );
}

#[test]
fn nothing_formats_a_value_with_no_rule_that_applies() {
    let p = piece("%String", "40", &[]);
    assert_eq!(format_value(&p, "anything"), Formatted::Nothing);
}

// --- sentinel-line parsing ---------------------------------------------

/// The two-pass answer for a global mapped by one class, exactly as a
/// live instance writes it.
#[test]
fn a_complete_answer_parses_a_map_and_its_pieces() {
    let maps = parse_answer(&answer(&[
        "##CSWMAP##Cre.DuplicataAberta|CCDUMap|2|##",
        "##CSWTIP##Cre.DuplicataAberta|CCDUMap|1||Código do cliente|5|%Integer||##",
        "##CSWTIP##Cre.DuplicataAberta|CCDUMap|6||Data de Vencimento|5|%Date||##",
        "##CSWTIP##Cre.DuplicataAberta|CCDUMap|12,1|;|Primeira Nota Fiscal|10|%String||##",
    ]))
    .expect("a complete answer");
    assert_eq!(maps.len(), 1);
    assert_eq!(maps[0].keys, 2);
    assert!(maps[0].fixed.is_empty());
    assert_eq!(maps[0].pieces.len(), 3);
    assert_eq!(maps[0].pieces[1].piece, 6);
    assert_eq!(maps[0].pieces[1].kind, "%Date");
    assert_eq!(maps[0].pieces[2].piece, 12);
    assert_eq!(maps[0].pieces[2].sub, Some(1));
    assert_eq!(maps[0].pieces[2].sub_delim, Some(';'));
    assert_eq!(maps[0].pieces[2].label(), "12,1");
}

/// The bug this whole shape exists for: one global, several classes, told
/// apart by how many subscripts a row has and what the constant ones
/// hold. Taking the first map described every `^FTCL` row as the first
/// class alphabetically.
#[test]
fn the_map_is_chosen_by_the_rows_own_subscript_shape() {
    let maps = parse_answer(&answer(&[
        "##CSWMAP##Fat.Cliente|FTCLMap|2|##",
        "##CSWMAP##Fat.CliInscEst|FTCLMap|4|3:19,##",
        "##CSWMAP##Fat.CliComplemento31|FTCLMap|6|3:3,4:1,##",
        "##CSWTIP##Fat.Cliente|FTCLMap|1||Nome do cliente|40|%String||##",
        "##CSWTIP##Fat.CliInscEst|FTCLMap|1||Endereco|60|%String||##",
        "##CSWTIP##Fat.CliComplemento31|FTCLMap|1||Código do Operador||%Integer||##",
    ]))
    .expect("a complete answer");

    let subs = |s: &str| -> Vec<String> { s.split(',').map(str::to_string).collect() };
    let named = |subs: Vec<String>| {
        describe(&maps, &subs, 1, "99", 0)
            .map(|d| d.info.description.clone())
            .unwrap_or_default()
    };
    assert_eq!(named(subs("1,1")), "Nome do cliente");
    assert_eq!(named(subs("1,1,19,7")), "Endereco");
    assert_eq!(
        named(subs("1,1,3,1,67774,29376")),
        "Código do Operador",
        "the row from the screenshot: six subscripts, two of them constants"
    );
}

/// Same depth, different constant: the fixed subscript is the only thing
/// telling these two apart.
#[test]
fn two_maps_of_the_same_depth_are_told_apart_by_their_constant() {
    let maps = parse_answer(&answer(&[
        "##CSWMAP##Fat.CliInscEst|FTCLMap|4|3:19,##",
        "##CSWMAP##Fat.ClienteHistCadastral|FTCLMap|4|3:24,##",
        "##CSWTIP##Fat.CliInscEst|FTCLMap|1||Endereco|60|%String||##",
        "##CSWTIP##Fat.ClienteHistCadastral|FTCLMap|1||Histórico|60|%String||##",
    ]))
    .expect("a complete answer");
    let at = |k: &str| {
        let subs: Vec<String> = k.split(',').map(str::to_string).collect();
        describe(&maps, &subs, 1, "x", 0).map(|d| d.info.description.clone())
    };
    assert_eq!(at("1,1,19,7").as_deref(), Some("Endereco"));
    assert_eq!(at("1,1,24,7").as_deref(), Some("Histórico"));
    assert_eq!(at("1,1,99,7"), None, "no map claims this shape");
}

/// A piece the map subdivides again: which run of its own delimiter the
/// pointer is in decides both the description and the value to format.
#[test]
fn a_subdivided_piece_resolves_by_where_the_pointer_sits_inside_it() {
    let maps = parse_answer(&answer(&[
        "##CSWMAP##Cre.DuplicataAberta|CCDUMap|2|##",
        "##CSWTIP##Cre.DuplicataAberta|CCDUMap|12,1|;|Primeira Nota Fiscal|10|%String||##",
        "##CSWTIP##Cre.DuplicataAberta|CCDUMap|12,2|;|Quantidade de Notas|3|%Integer||##",
    ]))
    .expect("a complete answer");
    let subs = vec!["1".to_string(), "1".to_string()];

    let first = describe(&maps, &subs, 12, "1234;7", 0).expect("the first run");
    assert_eq!(first.info.description, "Primeira Nota Fiscal");
    assert_eq!(first.raw, "1234");

    let second = describe(&maps, &subs, 12, "1234;7", 5).expect("the second run");
    assert_eq!(second.info.description, "Quantidade de Notas");
    assert_eq!(
        second.raw, "7",
        "the value shown is the sub-piece, not all of it"
    );
}

/// A piece nothing describes - the gaps in a map's numbering are real -
/// is not guessed at.
#[test]
fn an_undescribed_piece_resolves_to_nothing() {
    let maps = parse_answer(&answer(&[
        "##CSWMAP##Cre.DuplicataAberta|CCDUMap|2|##",
        "##CSWTIP##Cre.DuplicataAberta|CCDUMap|1||Empresa|4|%Integer||##",
    ]))
    .expect("a complete answer");
    let subs = vec!["1".to_string(), "1".to_string()];
    assert!(describe(&maps, &subs, 16, "x", 0).is_none());
}

/// A piece line naming a map no header introduced is dropped rather than
/// inventing a map for it: a truncated answer must not become a wrong one.
#[test]
fn a_piece_with_no_map_of_its_own_is_dropped() {
    let maps = parse_answer(&answer(&[
        "##CSWMAP##Fat.Cliente|FTCLMap|2|##",
        "##CSWTIP##Fat.Orphan|FTCLMap|1||Nowhere|4|%Integer||##",
    ]))
    .expect("a complete answer");
    assert_eq!(maps.len(), 1);
    assert!(maps[0].pieces.is_empty());
}

#[test]
fn an_answer_missing_its_end_marker_is_not_ready_yet() {
    let lines = vec!["##CSWMAP##Fat.Cliente|FTCLMap|2|##".to_string()];
    assert_eq!(parse_answer(&lines), None);
}

/// A global with nothing to say for itself still ends cleanly - no maps,
/// but a definite answer rather than an eternal wait.
#[test]
fn an_answer_with_no_maps_at_all_is_still_complete() {
    let lines = vec!["##CSWTIPEND##".to_string()];
    assert_eq!(parse_answer(&lines), Some(Vec::new()));
}

// --- the query's shape --------------------------------------------------

/// The two ways a terminal's command line refuses to carry this query.
/// Both cost a full debugging session the first time, and neither shows
/// up as anything but silence or a `<SYNTAX>` on the second iteration.
#[test]
fn the_query_puts_the_end_marker_on_a_line_of_its_own_and_uses_no_braces() {
    let query = build_query("RDB81-TR", "CCDU");
    assert!(
        !query.contains('{'),
        "a DO block only compiles once in direct mode: {query}"
    );
    let last = query
        .trim_end_matches('\r')
        .rsplit('\r')
        .next()
        .expect("a last line");
    assert_eq!(
        last,
        format!("W \"{MARK_END}\",!"),
        "an argumentless FOR swallows the rest of its line, so the end \
         marker cannot share one with the loop"
    );
}

#[test]
fn the_query_switches_namespace_and_checks_it_got_there() {
    let query = build_query("RDB81-TR", "CCDU");
    assert!(query.contains("ZN \"RDB81-TR\""), "{query}");
    assert!(query.contains("$ZNSPACE"), "{query}");
    assert!(query.contains("\"CCDU\""), "{query}");
}

// --- when the sidecar is free to be asked ------------------------------

/// Builds a grid holding `lines`, cursor at the end of the last one.
fn grid_showing(lines: &[&str]) -> Grid {
    let mut grid = Grid::new(120, lines.len().max(1), 100);
    for (row, line) in lines.iter().enumerate() {
        grid.screen[row].set_text(line);
    }
    grid.cursor.row = lines.len().saturating_sub(1);
    grid.cursor.col = lines.last().map_or(0, |l| l.chars().count());
    grid
}

/// The prompt IRIS prints after an answer is what says the sidecar is free
/// for the next question. Wiping the grid on the way out of one answer
/// threw it away, and since an idle session prints nothing unprompted,
/// every later hover then sat on "Looking up…" for ever.
#[test]
fn the_prompt_left_by_an_answer_frees_the_sidecar_for_the_next_one() {
    let answered = grid_showing(&[
        "COMP80>K cswT,cc,mm,kk,pp",
        "##CSWMAP##Cre.DuplicataAberta|CCDUMap|2|##",
        MARK_END,
        "COMP80>",
    ]);
    assert!(ready_to_ask(&answered));

    let mut wiped = answered;
    wiped.reset();
    assert!(
        !ready_to_ask(&wiped),
        "a cleared grid has no prompt, and nothing will print another one"
    );
}

/// While the answer is still arriving the cursor is not on a prompt, so
/// nothing else gets asked over the top of it.
#[test]
fn a_sidecar_mid_answer_is_not_free() {
    let grid = grid_showing(&["COMP80>K cswT,cc,mm,kk,pp", "##CSWMAP##X|XMap|2|##"]);
    assert!(!ready_to_ask(&grid));
}

/// A prompt with something already typed at it is not free either.
#[test]
fn a_prompt_with_something_typed_at_it_is_not_free() {
    assert!(!ready_to_ask(&grid_showing(&["COMP80>zw ^CCDU"])));
}

/// The question waiting to be asked, without the clock beside it.
fn wanted(lookup: &DocLookup) -> Option<(String, String)> {
    lookup
        .want
        .as_ref()
        .map(|want| (want.namespace.clone(), want.global.clone()))
}

// --- what a hover asks for ----------------------------------------------

#[test]
fn a_hover_records_what_it_wants_and_reports_it_as_pending() {
    let mut lookup = DocLookup::default();
    assert_eq!(lookup.request("RDB81-TR", "CCDU"), Lookup::Pending);
    assert_eq!(
        wanted(&lookup),
        Some(("RDB81-TR".into(), "CCDU".into())),
        "the hover has to leave something for `pump` to act on"
    );
}

/// A hover drifting across a `zw` dump must not replace the question
/// already waiting to be asked, or nothing is ever asked at all.
#[test]
fn a_second_hover_does_not_displace_the_question_already_waiting() {
    let mut lookup = DocLookup::default();
    lookup.request("RDB81-TR", "CCDU");
    lookup.request("RDB81-TR", "OTHER");
    assert_eq!(wanted(&lookup), Some(("RDB81-TR".into(), "CCDU".into())));
}

#[test]
fn a_known_answer_is_returned_without_asking_for_anything() {
    let mut lookup = DocLookup::default();
    lookup.remember("RDB81-TR".into(), "CCDU".into(), Some(Vec::new()));
    assert_eq!(
        lookup.request("RDB81-TR", "CCDU"),
        Lookup::Ready(Vec::new())
    );
    assert_eq!(wanted(&lookup), None, "nothing should have been queued");
}

#[test]
fn a_global_that_failed_once_is_not_asked_about_again() {
    let mut lookup = DocLookup::default();
    lookup.remember("RDB81-TR".into(), "NOPE".into(), None);
    assert_eq!(lookup.request("RDB81-TR", "NOPE"), Lookup::NotFound);
    assert_eq!(wanted(&lookup), None);
}

#[test]
fn different_namespaces_are_cached_separately() {
    let mut lookup = DocLookup::default();
    lookup.remember("USER".into(), "CCDU".into(), Some(Vec::new()));
    assert_eq!(
        lookup.request("RDB81-TR", "CCDU"),
        Lookup::Pending,
        "a different namespace must not hit the other one's cache"
    );
}

/// A profile with no instance behind it - a shell - has no globals to
/// describe, and asking again every frame would try to start one.
#[test]
fn a_shell_profile_is_written_off_once_and_never_retried() {
    let mut lookup = DocLookup::default();
    let mut profile = Profile::default();
    profile.shell = Some(ShellCommand {
        program: "cmd.exe".to_string(),
        args: Vec::new(),
        cwd: None,
    });
    lookup.request("USER", "CCDU");
    assert!(lookup.wants_session());
    assert!(lookup.open(&profile).is_none());
    lookup.pump(false);
    assert!(lookup.sidecar.is_none());
    assert_eq!(lookup.request("USER", "CCDU"), Lookup::Unavailable);
}

/// The whole way from a hover to an answer: a session is opened, its prompt
/// appears, the question is asked, and what it prints is what is known.
#[test]
fn an_answer_on_the_screen_is_remembered() {
    let mut lookup = DocLookup::default();
    let profile = Profile::default();
    lookup.request("COMP80", "CCDU");
    assert!(lookup.wants_session());
    lookup.session_opened(Sidecar::new(&profile, None));

    let encoding = profile.wire_encoding();
    lookup.sidecar.as_mut().unwrap().hear(b"COMP80>", encoding);
    let pumped = lookup.pump(false);
    assert_eq!(pumped.query, Some(build_query("COMP80", "CCDU")));

    let answer = b"\r\n##CSWMAP##Cre.DuplicataAberta|CCDUMap|2|##\r\n##CSWTIPEND##\r\nCOMP80>";
    lookup.sidecar.as_mut().unwrap().hear(answer, encoding);
    assert!(lookup.pump(false).moved);
    match lookup.request("COMP80", "CCDU") {
        Lookup::Ready(maps) => assert_eq!(maps.len(), 1),
        other => panic!("{other:?}"),
    }
}

#[test]
fn an_answer_that_never_comes_is_given_up() {
    let mut lookup = DocLookup::default();
    lookup.request("COMP80", "CCDU");
    lookup.session_opened(Sidecar::new(&Profile::default(), None));
    lookup
        .sidecar
        .as_mut()
        .unwrap()
        .hear(b"COMP80>", Profile::default().wire_encoding());
    assert!(lookup.pump(false).query.is_some());
    lookup.pump_after(ANSWER_TIMEOUT + 1, 0, false, Instant::now());
    assert_eq!(lookup.request("COMP80", "CCDU"), Lookup::NotFound);
}

/// A question is written off by its own time, and a session let go by how long
/// it has had nothing to do. One does not stand in for the other.
#[test]
fn each_clock_is_read_for_what_it_is_for() {
    let ago = |secs: u64| {
        Instant::now()
            .checked_sub(Duration::from_secs(secs))
            .expect("a moment before this one")
    };
    let encoding = Profile::default().wire_encoding();
    let asked = || {
        let mut lookup = DocLookup::default();
        lookup.request("COMP80", "CCDU");
        lookup.session_opened(Sidecar::new(&Profile::default(), None));
        lookup.sidecar.as_mut().unwrap().hear(b"COMP80>", encoding);
        assert!(lookup.pump(false).query.is_some());
        lookup
    };

    // Idle for an hour by its own clock, and just asked: it goes on waiting.
    let mut lookup = asked();
    lookup.sidecar.as_mut().unwrap().idle_since = ago(3600);
    assert!(!lookup.pump(false).moved);
    assert_eq!(lookup.request("COMP80", "CCDU"), Lookup::Pending);

    // Asked too long ago: written off, and the session stays.
    let mut lookup = asked();
    let late = ago(31);
    if let Step::Asking { since, .. } = &mut lookup.sidecar.as_mut().unwrap().step {
        *since = late;
    }
    assert!(lookup.pump(false).moved);
    assert_eq!(lookup.request("COMP80", "CCDU"), Lookup::NotFound);
    assert!(lookup.sidecar.is_some());

    // Nothing to do for longer than a session is kept.
    assert!(!lookup.pump(false).moved);
    lookup.sidecar.as_mut().unwrap().idle_since = ago(121);
    assert!(lookup.pump(false).moved);
    assert!(lookup.sidecar.is_none());

    // A question and its answer start both clocks at the given moment.
    let mut lookup = asked();
    let now = Instant::now();
    assert!(lookup.pump_after(ANSWER_TIMEOUT + 1, 0, false, now).moved);
    assert_eq!(lookup.sidecar.as_ref().unwrap().idle_since, now);
    assert!(!lookup.pump_after(0, IDLE_TIMEOUT, false, now).moved);
    assert!(lookup.pump_after(0, IDLE_TIMEOUT + 1, false, now).moved);
}

#[test]
fn days_past_what_a_calendar_holds_are_invalid() {
    assert_eq!(
        format_value(&piece("%Date", "5", &[]), "9999999999"),
        Formatted::Invalid
    );
}
