use new_iris_terminal::features::natives::Native;
use new_iris_terminal::i18n::Lang;

fn values(items: &[&str]) -> Vec<String> {
    items.iter().map(|s| s.to_string()).collect()
}

#[test]
fn compiling_a_package_quotes_both_arguments() {
    let inv = Native::CompileClasses.build(Lang::En, &values(&["Utils", "bkf1"]));
    assert_eq!(
        inv.lines,
        vec!["do $SYSTEM.OBJ.CompilePackage(\"Utils\",\"bkf1\")".to_string()]
    );
}

/// The flag is the one field nobody wants to retype.
#[test]
fn the_compile_flag_starts_at_bkf1() {
    assert_eq!(
        Native::CompileClasses.default_values(),
        vec![String::new(), "bkf1".to_string()]
    );
}

#[test]
fn generating_an_interface_passes_the_routine_or_group() {
    let inv = Native::GenerateInterface.build(Lang::En, &values(&["CCPV005"]));
    assert_eq!(inv.lines, vec!["do ^%CSW1GEN(\"CCPV005\")".to_string()]);
}

#[test]
fn arguments_are_trimmed_before_use() {
    let inv = Native::GenerateInterface.build(Lang::En, &values(&["  CCPV005  "]));
    assert_eq!(inv.lines, vec!["do ^%CSW1GEN(\"CCPV005\")".to_string()]);
}

/// A quote in a value must not break out of the string literal.
#[test]
fn embedded_quotes_are_doubled() {
    let inv = Native::GenerateInterface.build(Lang::En, &values(&["a\"b"]));
    assert_eq!(inv.lines, vec!["do ^%CSW1GEN(\"a\"\"b\")".to_string()]);
}

/// The panel previews the line as it is typed, so a form with fewer values
/// than parameters must still build rather than panic.
#[test]
fn a_half_filled_form_still_builds() {
    let inv = Native::CompileClasses.build(Lang::En, &values(&["Utils"]));
    assert_eq!(
        inv.lines,
        vec!["do $SYSTEM.OBJ.CompilePackage(\"Utils\",\"\")".to_string()]
    );
    assert_eq!(Native::CompileClasses.build(Lang::En, &[]).lines.len(), 1);
}

#[test]
fn every_native_has_a_label_and_a_field_for_each_default() {
    for native in Native::ALL {
        assert!(!native.label().is_empty());
        assert_eq!(native.default_values().len(), native.params().len());
        for param in native.params() {
            assert!(
                !param.label.is_empty(),
                "{native:?} has an unlabelled field"
            );
        }
    }
}

#[test]
fn the_summary_is_in_the_language_of_the_window() {
    let english = Native::GenerateInterface.build(Lang::En, &values(&["X"]));
    let portuguese = Native::GenerateInterface.build(Lang::PtBr, &values(&["X"]));
    assert_eq!(english.lines, portuguese.lines);
    assert_ne!(english.summary, portuguese.summary);
}
