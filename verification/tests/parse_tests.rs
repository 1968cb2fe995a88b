//! Parsing entry point tests: aliases and predicates by label.
use cfg_boost::parse::parse_alias_from_label;
use cfg_boost::parse::parse_cfg_predicate;

fn test_parse_alias_from_label(store: &Vec<(String, String)>, alias: (&str, &str)) {
    match parse_alias_from_label(alias.0, store) {
        Ok(result) => {
            if result.ne(alias.1) {
                panic!(
                    "parse_alias_from_label_tests::{} test error. Expected {}, got {}!",
                    "test_parse_alias_from_label", alias.1, result
                );
            }
        },
        Err(err) => panic!("{}", err.message(alias.0)),
    }
}

fn create_alias_vector() -> Vec<(&'static str, &'static str)> {
    vec![
        ("linux", "linux:os"),
        ("unix", "unix:_"),
        ("windows", "windows:_"),
        ("macos", "macos:os"),
        ("android", "android:os"),
        ("ios", "ios:os"),
        ("wasm", "wasm:_"),
        ("doc", "doc:_"),
        ("test", "test:_"),
        ("desktop", "linux:os | windows:_ | macos:os"),
        ("mobile", "android:os | ios:os"),
    ]
}

fn test_cfg_predicate(store: &Vec<(String, String)>, predicate_tested: (&str, &str)) {
    const ARGUMENT_VALUE: &str = "test_cfg_predicate";
    let pred = format!("{}:{}", ARGUMENT_VALUE, predicate_tested.0);
    let control = String::from(predicate_tested.1.replace("{}", ARGUMENT_VALUE));
    match parse_cfg_predicate(pred.as_str(), store) {
        Ok(result) => {
            if result.ne(&control) {
                panic!(
                    "parse_cfg_predicate::{} test error. Expected {}, got {}!",
                    "target_arch_predicate", control, result
                );
            }
        },
        Err(err) => panic!("{}", err.message(pred.as_str())),
    }
}

fn create_predicate_vector() -> Vec<(&'static str, &'static str)> {
    vec![
        ("ar", "target_arch = \"{}\""),
        ("tf", "target_feature = \"{}\""),
        ("os", "target_os = \"{}\""),
        ("fm", "target_family = \"{}\""),
        ("ev", "target_env = \"{}\""),
        ("ed", "target_endian = \"{}\""),
        ("pw", "target_pointer_width = \"{}\""),
        ("vn", "target_vendor = \"{}\""),
        ("at", "target_has_atomic = \"{}\""),
        ("pn", "panic = \"{}\""),
        ("ft", "feature = \"{}\""),
        ("_", "{}"),
    ]
}

/// Test all predefined aliases.
#[test]
fn parse_predefined() {
    let store: Vec<(String, String)> = Vec::new();
    let aliases = create_alias_vector();
    for alias in aliases {
        test_parse_alias_from_label(&store, alias);
    }
}

/// Test custom aliases through the override store.
#[test]
fn parse_custom() {
    let aliases: Vec<(&str, &str)> = vec![
        ("pig", "foo:c9 | foo:really_long_predicate_and_i_mean_really_longgggggggggg | foo:x"),
        ("dog", "foo:ar | foo:tf | foo:os | foo:fm | foo:ev | foo:ed | foo:pw | foo:vn | foo:at | foo:pn | foo:ft"),
        ("cow", "foo:c3 | foo:c4 | foo:c5 | foo:c6"),
        ("parastratiosphecomyia_stratiosphecomyioides", "foo:vn | foo:at | foo:pn | foo:ft"),
        ("mosquito", "foo:c1 | foo:c2 | foo:c3 | foo:c4 | foo:c5 | foo:c6 | foo:c7 | foo:c8 | foo:c9 | foo:really_long_predicate_and_i_mean_really_longgggggggggg | foo:x"),
        ("frog", "foo:pw | foo:vn | foo:at | foo:c3 | foo:c4 | foo:c5 | foo:c6"),
        ("lion", "foo:os | foo:fm | foo:ev | foo:ed | foo:pw"),
        ("fish", "foo:c8"),
        ("b", "foo:ar | foo:fm"),
    ];
    let store: Vec<(String, String)> = aliases
        .iter()
        .map(|(k, v)| (k.to_string(), v.to_string()))
        .collect();
    for alias in aliases {
        test_parse_alias_from_label(&store, alias);
    }
}

/// Test all predefined predicates.
#[test]
fn predefined_predicate_templates() {
    let store: Vec<(String, String)> = Vec::new();
    let predicates = create_predicate_vector();
    for pred in predicates {
        test_cfg_predicate(&store, pred);
    }
}

/// An unknown alias is reported as not found.
#[test]
fn parse_error() {
    let store: Vec<(String, String)> = Vec::new();
    match parse_alias_from_label("not_found", &store) {
        Ok(_) => panic!("alias lookup must fail"),
        Err(err) => {
            let msg = err.message("not_found");
            assert!(msg.contains("Alias `not_found` has no match!"));
        },
    }
}

/// An unknown predicate key is reported as not found.
#[test]
fn predicate_key_error() {
    let store: Vec<(String, String)> = Vec::new();
    match parse_cfg_predicate("not_found", &store) {
        Ok(_) => panic!("predicate lookup must fail"),
        Err(err) => {
            let msg = err.message("not_found");
            assert!(msg.contains("Configuration predicate `not_found` has no match!"));
        },
    }
}
