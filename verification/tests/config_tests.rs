//! Dictionary tests: built-in tables, override store, settings.
use cfg_boost::config::get_cfg_boost_alias;
use cfg_boost::config::get_cfg_boost_predicate;
use cfg_boost::config::get_release_modifier_behaviour;
use cfg_boost::config::if_docsrs_enabled;
use cfg_boost::config::is_cfg_boost_autodoc;
use cfg_boost::config::ReleaseModifierBehaviour;
use cfg_boost::errors::CfgBoostError;

fn no_store() -> Vec<(String, String)> {
    Vec::new()
}

fn check_alias(store: &Vec<(String, String)>, label: &str, expected: &str) {
    match get_cfg_boost_alias(label, store) {
        Ok(v) => assert_eq!(v, expected),
        Err(err) => panic!("{}", err.message(label)),
    }
}

fn check_predicate(store: &Vec<(String, String)>, key: &str, template: &str) {
    const ARGUMENT_VALUE: &str = "test_cfg_predicate";
    let pred = format!("{}:{}", ARGUMENT_VALUE, key);
    let control = String::from(template.replace("{}", ARGUMENT_VALUE));
    match get_cfg_boost_predicate(pred.as_str(), store) {
        Ok(v) => assert_eq!(v, control),
        Err(err) => panic!("{}", err.message(pred.as_str())),
    }
}

#[test]
fn predefined_aliases() {
    let store = no_store();
    check_alias(&store, "linux", "linux:os");
    check_alias(&store, "unix", "unix:_");
    check_alias(&store, "windows", "windows:_");
    check_alias(&store, "macos", "macos:os");
    check_alias(&store, "android", "android:os");
    check_alias(&store, "ios", "ios:os");
    check_alias(&store, "wasm", "wasm:_");
    check_alias(&store, "doc", "doc:_");
    check_alias(&store, "test", "test:_");
    check_alias(&store, "debug", "debug_assertions:_");
    check_alias(&store, "desktop", "linux:os | windows:_ | macos:os");
    check_alias(&store, "mobile", "android:os | ios:os");
}

#[test]
fn custom_aliases() {
    let aliases: Vec<(&str, &str)> = vec![
        ("pig", "foo:c9 | foo:really_long_predicate_and_i_mean_really_longgggggggggg | foo:x"),
        ("dog", "foo:ar | foo:tf | foo:os | foo:fm | foo:ev | foo:ed | foo:pw | foo:vn | foo:at | foo:pn | foo:ft"),
        ("cow", "foo:c3 | foo:c4 | foo:c5 | foo:c6"),
        ("parastratiosphecomyia_stratiosphecomyioides", "foo:vn | foo:at | foo:pn | foo:ft"),
        ("mosquito", "foo:c1 | foo:c2 | foo:c3 | foo:c4 | foo:c5 | foo:c6 | foo:c7 | foo:c8 | foo:c9 | foo:really_long_predicate_and_i_mean_really_longgggggggggg | foo:x"),
        ("frog", "foo:pw | foo:vn | foo:at | foo:c3 | foo:c4 | foo:c5 | foo:c6"),
        ("lion", "foo:os | foo:fm | foo:ev | foo:ed | foo:pw"),
        ("fish", "foo:c8"),
        ("b", "foo:ar | foo:fm"),
    ];
    let store: Vec<(String, String)> = aliases
        .iter()
        .map(|(k, v)| (k.to_string(), v.to_string()))
        .collect();
    for (k, v) in aliases {
        check_alias(&store, k, v);
    }
}

#[test]
fn override_store_takes_precedence() {
    let store = vec![("linux".to_string(), "foo:c1".to_string())];
    check_alias(&store, "linux", "foo:c1");
}

#[test]
fn predefined_predicates() {
    let store = no_store();
    check_predicate(&store, "ar", "target_arch = \"{}\"");
    check_predicate(&store, "tf", "target_feature = \"{}\"");
    check_predicate(&store, "os", "target_os = \"{}\"");
    check_predicate(&store, "fm", "target_family = \"{}\"");
    check_predicate(&store, "ev", "target_env = \"{}\"");
    check_predicate(&store, "ed", "target_endian = \"{}\"");
    check_predicate(&store, "pw", "target_pointer_width = \"{}\"");
    check_predicate(&store, "vn", "target_vendor = \"{}\"");
    check_predicate(&store, "at", "target_has_atomic = \"{}\"");
    check_predicate(&store, "pn", "panic = \"{}\"");
    check_predicate(&store, "ft", "feature = \"{}\"");
    check_predicate(&store, "_", "{}");
}

#[test]
fn custom_predicates() {
    let custom_pred: Vec<(&str, &str)> = vec![
        ("c1", "custom1 = \"{}\""),
        ("c2", "custom2 = \"{}\""),
        ("c3", "custom3 = \"{}\""),
        ("c4", "custom4 = \"{}\""),
        ("c5", "custom5 = \"{}\""),
        ("c6", "custom6 = \"{}\""),
        ("c7", "custom7 = \"{}\""),
        ("c8", "custom8 = \"{}\""),
        ("c9", "custom9 = \"{}\""),
        (
            "really_long_predicate_and_i_mean_really_longgggggggggg",
            "really_long_predicate_and_i_mean_really_longgggggggggg = \"{}\"",
        ),
        ("x", "x = \"{}\""),
    ];
    let store: Vec<(String, String)> = custom_pred
        .iter()
        .map(|(k, v)| (k.to_string(), v.to_string()))
        .collect();
    for (k, v) in custom_pred {
        check_predicate(&store, k, v);
    }
}

#[test]
fn predicate_label_is_trimmed() {
    let store = no_store();
    let r = get_cfg_boost_predicate("linux : os", &store).unwrap();
    assert_eq!(r, "target_os = \"linux\"");
}

#[test]
fn alias_not_found_error() {
    let store = no_store();
    match get_cfg_boost_alias("nonexistent_alias", &store) {
        Err(CfgBoostError::AliasNotFound(l)) => {
            assert_eq!(l, "nonexistent_alias");
            let msg = CfgBoostError::AliasNotFound(l).message("nonexistent_alias");
            assert!(msg.contains("has no match"));
        },
        _ => panic!("alias lookup must fail"),
    }
}

#[test]
fn predicate_not_found_error() {
    let store = no_store();
    match get_cfg_boost_predicate("x:zzz", &store) {
        Err(CfgBoostError::InvalidConfigurationPredicate(k)) => {
            assert_eq!(k, "zzz");
        },
        _ => panic!("predicate lookup must fail"),
    }
}

#[test]
fn autodoc_setting() {
    assert!(is_cfg_boost_autodoc(None));
    assert!(is_cfg_boost_autodoc(Some("true")));
    assert!(is_cfg_boost_autodoc(Some("anything")));
    assert!(!is_cfg_boost_autodoc(Some("false")));
}

#[test]
fn release_modifier_behaviour_setting() {
    assert_eq!(get_release_modifier_behaviour(None), ReleaseModifierBehaviour::Panic);
    assert_eq!(get_release_modifier_behaviour(Some("panic")), ReleaseModifierBehaviour::Panic);
    assert_eq!(get_release_modifier_behaviour(Some("other")), ReleaseModifierBehaviour::Panic);
    assert_eq!(get_release_modifier_behaviour(Some("ignore")), ReleaseModifierBehaviour::Ignore);
}

#[test]
fn docsrs_setting() {
    assert!(if_docsrs_enabled(Some("true"), None));
    assert!(!if_docsrs_enabled(Some("false"), Some("[package.metadata.docs.rs]")));
    assert!(if_docsrs_enabled(None, Some("[package]\n[package.metadata.docs.rs]\nall-features = true")));
    assert!(!if_docsrs_enabled(None, Some("[package]\nname = \"x\"")));
    assert!(!if_docsrs_enabled(None, None));
}
