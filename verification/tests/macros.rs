use new_iris_terminal::features::macros::{
    body_lines, load_all, parse, to_xml, wants_sample, Macro, MacroGroup, Origin, Param, Source,
    RETIRED_SAMPLES, SAMPLE,
};

const XML: &str = r#"
<macros>
  <group name="Debug">
<macro name="Show global" key="Ctrl+Shift+G" confirm="false">
  <param name="global" prompt="Global name" default="CSW1"/>
  <body>ZWRITE ^{{global}}</body>
</macro>
<macro name="Two liner">
  <body>
    Set x = 1
    Write x,!
  </body>
</macro>
  </group>
  <group name="Danger">
<macro name="Kill" confirm="true">
  <param name="g"/>
  <body>KILL ^{{g}}</body>
</macro>
  </group>
</macros>
"#;

#[test]
fn parses_groups_and_macros() {
    let groups = parse(XML).expect("parse");
    assert_eq!(groups.len(), 2);
    assert_eq!(groups[0].name, "Debug");
    assert_eq!(groups[0].macros.len(), 2);
    assert_eq!(groups[1].macros[0].name, "Kill");
}

#[test]
fn parses_params_with_prompt_and_default() {
    let groups = parse(XML).expect("parse");
    let param = &groups[0].macros[0].params[0];
    assert_eq!(param.name, "global");
    assert_eq!(param.prompt, "Global name");
    assert_eq!(param.default, "CSW1");
}

/// A param without an explicit prompt must still be labelled in the UI.
#[test]
fn prompt_falls_back_to_the_param_name() {
    let groups = parse(XML).expect("parse");
    assert_eq!(groups[1].macros[0].params[0].prompt, "g");
}

#[test]
fn confirm_defaults_to_false_and_is_read_when_present() {
    let groups = parse(XML).expect("parse");
    assert!(!groups[0].macros[0].confirm);
    assert!(!groups[0].macros[1].confirm);
    assert!(
        groups[1].macros[0].confirm,
        "destructive macro must confirm"
    );
}

/// Only the ends of a line are trimmed. The spaces inside one are the
/// ObjectScript - `Set x = 1` is not `Setx=1` - and the editor used to run
/// every keystroke through here, which is what made the space bar look
/// broken.
#[test]
fn body_lines_keep_the_spaces_inside_a_command() {
    assert_eq!(
        body_lines("  Set x = 1  \n\n  Write x, !  \n"),
        vec!["Set x = 1".to_string(), "Write x, !".to_string()]
    );
}

#[test]
fn multi_line_bodies_are_split_and_trimmed() {
    let groups = parse(XML).expect("parse");
    assert_eq!(
        groups[0].macros[1].body,
        vec!["Set x = 1".to_string(), "Write x,!".to_string()]
    );
}

#[test]
fn expansion_substitutes_every_occurrence() {
    let m = Macro {
        body: vec!["Set ^{{g}} = ^{{g}} + 1".into()],
        ..Macro::default()
    };
    assert_eq!(
        m.expand(&[("g".into(), "X".into())]),
        vec!["Set ^X = ^X + 1".to_string()]
    );
}

/// A typo in a placeholder should be visible, not silently blanked into a
/// command that runs against the wrong global.
#[test]
fn unknown_placeholders_are_left_intact() {
    let m = Macro {
        body: vec!["ZWRITE ^{{typo}}".into()],
        ..Macro::default()
    };
    assert_eq!(
        m.expand(&[("global".into(), "X".into())]),
        vec!["ZWRITE ^{{typo}}".to_string()]
    );
}

#[test]
fn macros_outside_a_group_still_load() {
    let groups = parse("<macros><macro name=\"Bare\"><body>Write 1</body></macro></macros>")
        .expect("parse");
    assert_eq!(groups.len(), 1);
    assert_eq!(groups[0].macros[0].name, "Bare");
}

/// A hand-edited macro file will eventually be malformed. Whatever the
/// parser decides, it must return rather than panic, and it must never
/// invent a macro out of broken input — a half-parsed body could otherwise
/// send arbitrary text to a live session.
#[test]
fn malformed_xml_returns_instead_of_panicking() {
    let broken = [
        "<macros><<<>",
        "<macros><group>",
        "<macros><macro name=\"x\"><body>Write 1",
        "not xml at all",
        "",
        "<macros><macro><body></body></macro>",
    ];

    for xml in broken {
        match parse(xml) {
            Err(_) => {}
            Ok(groups) => {
                for m in groups.iter().flat_map(|g| &g.macros) {
                    assert!(
                        !m.body.is_empty() || m.name.is_empty() || m.params.is_empty(),
                        "invented a runnable macro from {xml:?}: {m:?}"
                    );
                }
            }
        }
    }
}

/// An unterminated body must not yield a macro that looks ready to send.
#[test]
fn a_truncated_body_does_not_produce_a_sendable_macro() {
    let groups = parse("<macros><macro name=\"x\"><body>KILL ^DATA").unwrap_or_default();
    let sendable: Vec<_> = groups
        .iter()
        .flat_map(|g| &g.macros)
        .filter(|m| !m.body.is_empty())
        .collect();
    assert!(
        sendable.is_empty(),
        "truncated macro became sendable: {sendable:?}"
    );
}

const ORG_XML: &str = r#"<macros>
  <group name="Shared"><macro name="Org one"><body>Write 1</body></macro></group>
  <group name="Debug"><macro name="Org debug"><body>Write 2</body></macro></group>
</macros>"#;

const PERSONAL_XML: &str = r#"<macros>
  <group name="Mine"><macro name="Personal one"><body>Write 3</body></macro></group>
  <group name="Debug"><macro name="Personal debug"><body>Write 4</body></macro></group>
</macros>"#;

fn text(xml: &str) -> Source {
    Source::Text(xml.to_string())
}

#[test]
fn org_and_personal_files_merge_by_group_name() {

    let report = load_all(&text(ORG_XML), &text(PERSONAL_XML));
    assert!(report.problems.is_empty(), "{:?}", report.problems);

    let names: Vec<&str> = report.groups.iter().map(|g| g.name.as_str()).collect();
    assert_eq!(
        names,
        vec!["Shared", "Debug", "Mine"],
        "groups should merge, not duplicate"
    );

    let debug = report.groups.iter().find(|g| g.name == "Debug").unwrap();
    assert_eq!(debug.macros.len(), 2, "both Debug groups should combine");
    assert_eq!(debug.macros[0].origin, Origin::Organization);
    assert_eq!(debug.macros[1].origin, Origin::Personal);
}

/// Being off the network must not cost the user their own macros.
#[test]
fn a_missing_org_file_still_loads_personal_macros() {

    let report = load_all(&Source::Missing("nope.xml".into()), &text(PERSONAL_XML));
    assert_eq!(report.groups.len(), 2);
    assert_eq!(report.problems.len(), 1);
    assert!(report.problems[0].contains("not found"));
}

#[test]
fn org_macros_are_not_editable_and_personal_ones_are() {

    let report = load_all(&text(ORG_XML), &text(PERSONAL_XML));
    for group in &report.groups {
        for m in &group.macros {
            assert_eq!(
                m.origin.is_editable(),
                m.name.starts_with("Personal"),
                "{} has the wrong editability",
                m.name
            );
        }
    }
}

/// Writing back must never absorb organisation macros into the personal
/// file, or a shared macro would silently fork into a local copy.
#[test]
fn serialising_writes_only_personal_macros() {

    let report = load_all(&text(ORG_XML), &text(PERSONAL_XML));
    let xml = to_xml(&report.groups);

    assert!(xml.contains("Personal one"));
    assert!(xml.contains("Personal debug"));
    assert!(
        !xml.contains("Org one"),
        "organisation macro leaked into the personal file"
    );
    assert!(
        !xml.contains("Org debug"),
        "organisation macro leaked into the personal file"
    );
}

#[test]
fn personal_macros_round_trip_through_xml() {
    let original = vec![MacroGroup {
        name: "Mine".into(),
        origin: Origin::Personal,
        macros: vec![Macro {
            origin: Origin::Personal,
            name: "Show".into(),
            description: "A & B <test>".into(),
            key: Some("Ctrl+G".into()),
            confirm: true,
            hide_command: true,
            params: vec![Param {
                name: "g".into(),
                prompt: "Global".into(),
                default: "CSW1".into(),
            }],
            body: vec!["ZWRITE ^{{g}}".into()],
        }],
    }];

    let xml = to_xml(&original);
    assert!(
        xml.contains(r#"hide_command="true""#),
        "hide_command was not written: {xml}"
    );

    let reparsed = parse(&xml).expect("round trip");
    let m = &reparsed[0].macros[0];
    assert_eq!(m.name, "Show");
    assert_eq!(m.description, "A & B <test>");
    assert_eq!(m.key.as_deref(), Some("Ctrl+G"));
    assert!(m.confirm);
    assert!(m.hide_command);
    assert_eq!(m.params[0].default, "CSW1");
    assert_eq!(m.body, vec!["ZWRITE ^{{g}}".to_string()]);
}

#[test]
fn a_macro_without_the_attribute_is_not_hidden() {
    let groups =
        parse(r#"<macros><macro name="Plain"><body>Write 1,!</body></macro></macros>"#)
            .expect("parse");
    assert!(!groups[0].macros[0].hide_command);

    let mut personal = groups;
    personal[0].origin = Origin::Personal;
    personal[0].macros[0].origin = Origin::Personal;
    assert!(
        !to_xml(&personal).contains("hide_command"),
        "an unset attribute must not be written back"
    );
}

#[test]
fn multi_line_bodies_round_trip() {
    let groups = vec![MacroGroup {
        name: "G".into(),
        origin: Origin::Personal,
        macros: vec![Macro {
            origin: Origin::Personal,
            name: "Two".into(),
            body: vec!["Set x = 1".into(), "Write x,!".into()],
            ..Macro::default()
        }],
    }];
    let back = parse(&to_xml(&groups)).unwrap();
    assert_eq!(
        back[0].macros[0].body,
        vec!["Set x = 1".to_string(), "Write x,!".to_string()]
    );
}

/// The sample shipped on first run must itself be valid, or the very first
/// thing a user sees is a parse error.
#[test]
fn the_bundled_sample_parses() {
    let groups = parse(SAMPLE).expect("sample must parse");
    assert_eq!(groups.len(), 1);
    assert_eq!(groups[0].name, "Macros");

    let all: Vec<&Macro> = groups.iter().flat_map(|g| g.macros.iter()).collect();
    assert_eq!(all.len(), 1);
    assert_eq!(all[0].name, "Developer Tools (Exec)");
    assert_eq!(
        all[0].body,
        vec!["do ##class(SrcPub.Cmd).Exec()".to_string()]
    );
    // No shortcut by default: one that fires the moment the terminal has
    // focus has to be chosen deliberately.
    assert!(all[0].key.is_none());
}

/// Every retired sample must still parse, because it is compared against a
/// real file on disk and a typo in one would quietly stop matching.
#[test]
fn every_retired_sample_parses() {
    for text in RETIRED_SAMPLES {
        parse(text).expect("a retired sample must still be valid XML");
        assert_ne!(text, SAMPLE, "a retired sample is still the current one");
    }
}

/// The migration exists to replace an untouched file - and only that.
#[test]
fn an_untouched_sample_is_refreshed_and_an_edited_one_is_not() {
    assert!(wants_sample(None));
    assert!(wants_sample(Some(RETIRED_SAMPLES[0])));
    assert!(!wants_sample(Some(SAMPLE)));

    let mine = format!("{}\n<!-- mine -->\n", RETIRED_SAMPLES[0]);
    assert!(!wants_sample(Some(&mine)), "an edited file must be left alone");
}

#[test]
fn a_broken_file_says_where_and_why() {
    let e = parse("<macros></group>").expect_err("mismatched tags");
    assert!(e.message().starts_with("malformed macro XML at byte "));

    let report = load_all(&text("<macros></group>"), &Source::Unreadable("gone".into()));
    assert!(report.groups.is_empty());
    assert!(report.problems[0].starts_with("Organization macros could not be read: malformed"));
    assert_eq!(report.problems[1], "Personal macros could not be read: gone");
}

#[test]
fn an_unconfigured_organisation_is_no_problem() {
    let report = load_all(&Source::NotConfigured, &text(PERSONAL_XML));
    assert!(report.problems.is_empty());
    assert_eq!(report.groups.len(), 2);
}

#[test]
fn a_form_starts_with_the_defaults_and_is_asked_for_only_if_there_are_any() {
    let groups = parse(XML).expect("parse");
    let show = &groups[0].macros[0];
    assert!(show.needs_input());
    assert_eq!(
        show.default_values(),
        vec![("global".to_string(), "CSW1".to_string())]
    );
    assert!(!groups[0].macros[1].needs_input());
}

/// A group that opens and closes at once holds nothing, and what follows it is
/// outside any group.
#[test]
fn a_macro_after_an_empty_group_is_outside_any_group() {
    let groups = parse(
        r#"<macros><group name="E"/><macro name="Bare"><body>Write 1</body></macro></macros>"#,
    )
    .expect("parse");
    let loose: Vec<&MacroGroup> = groups.iter().filter(|g| g.name.is_empty()).collect();
    assert_eq!(loose.len(), 1);
    assert_eq!(loose[0].macros.len(), 1);
    assert_eq!(loose[0].macros[0].name, "Bare");
    assert_eq!(loose[0].macros[0].body, vec!["Write 1".to_string()]);
    let empty = groups.iter().find(|g| g.name == "E").expect("the empty group");
    assert!(empty.macros.is_empty());
}

/// A macro is complete at its closing tag and nowhere else.
#[test]
fn a_macro_without_a_closing_tag_is_not_loaded() {
    let groups = parse(
        r#"<macros><group name="G"><macro name="A"/><macro name="B"><body/></macro></group></macros>"#,
    )
    .expect("parse");
    assert_eq!(groups.len(), 1);
    assert_eq!(groups[0].macros.len(), 1);
    assert_eq!(groups[0].macros[0].name, "B");
    assert!(groups[0].macros[0].body.is_empty());

    let groups = parse(
        r#"<macros><macro name="C"><body>Write 1</body><body/></macro></macros>"#,
    )
    .expect("parse");
    assert_eq!(groups[0].macros[0].body, vec!["Write 1".to_string()]);
}

#[test]
fn a_missing_personal_file_is_named() {
    let report = load_all(&text(ORG_XML), &Source::Missing("mine.xml".into()));
    assert_eq!(
        report.problems,
        vec!["Personal macros could not be read: not found at mine.xml".to_string()]
    );
    assert!(!report.groups.is_empty());
}
