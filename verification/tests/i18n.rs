use new_iris_terminal::i18n::{tr, tr1, tr2, Lang, PT_BR, PT_BR_LEN};

/// A duplicate key would mean one of the two translations is unreachable,
/// and which one is decided by the order of the table.
#[test]
fn no_english_string_appears_twice() {
    let mut seen: Vec<&str> = Vec::new();
    for (en, _) in PT_BR {
        assert!(!seen.contains(&en), "{en:?} is in the table twice");
        seen.push(en);
    }
    assert_eq!(PT_BR_LEN, PT_BR.len());
}

/// An empty translation would blank a label out, which is worse than
/// leaving it in English.
#[test]
fn nothing_translates_to_nothing() {
    for (en, pt) in PT_BR {
        assert!(!en.trim().is_empty());
        assert!(!pt.trim().is_empty(), "{en:?} has no translation");
    }
}

/// A sentence with a placeholder has to keep it, or the value it stands for
/// is dropped on the floor.
#[test]
fn a_placeholder_survives_translation() {
    for (en, pt) in PT_BR {
        assert_eq!(
            en.matches("{}").count(),
            pt.matches("{}").count(),
            "{en:?} loses or gains a placeholder"
        );
    }
}

#[test]
fn each_language_answers_for_itself() {
    assert_eq!(tr(Lang::En, "Settings"), "Settings");
    assert_eq!(tr1(Lang::En, "Logs: {}", "C:/logs"), "Logs: C:/logs");

    assert_eq!(tr(Lang::PtBr, "Settings"), "Configurações");
    assert_eq!(tr(Lang::PtBr, "Scrollback lines"), "Núm. de Linhas de Rolagem");
    assert_eq!(
        tr(Lang::PtBr, "A string nobody has translated"),
        "A string nobody has translated"
    );
    assert_eq!(tr1(Lang::PtBr, "Saved in {}", "x.toml"), "Salvo em x.toml");
}

#[test]
fn values_go_where_the_placeholders_are() {
    assert_eq!(tr2(Lang::En, "{} of {}", "1", "2"), "1 of 2");
    assert_eq!(tr1(Lang::En, "no place", "x"), "no place");
    assert_eq!(Lang::ALL.len(), 2);
    assert_ne!(Lang::En.label(), Lang::PtBr.label());
}

/// What is filled in is not looked at again for a placeholder.
#[test]
fn an_argument_that_looks_like_a_placeholder_stays() {
    assert_eq!(tr2(Lang::En, "{} of {}", "{}", "3"), "{} of 3");
    assert_eq!(tr2(Lang::En, "only {}", "one", "two"), "only one");
    assert_eq!(tr2(Lang::En, "none", "one", "two"), "none");
}
