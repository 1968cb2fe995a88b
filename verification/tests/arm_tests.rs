//! Arm extraction tests: splitting, structural integrity, directives.
use cfg_boost::arm::CfgBoostMacroSource;
use cfg_boost::arm::TargetArm;
use cfg_boost::arm::TargetArmModifier;
use cfg_boost::arm::TargetArmType;
use cfg_boost::errors::CfgBoostError;
use cfg_boost::tokens::Delimiter;
use cfg_boost::tokens::Token;

fn id(s: &str) -> Token {
    Token::Ident(s.to_string())
}

fn p(c: char) -> Token {
    Token::Punct(c)
}

fn braced(toks: Vec<Token>) -> Token {
    Token::Group(Delimiter::Brace, toks)
}

/// `pred => body` as tokens, arms separated by `,`.
fn arm(pred: Vec<Token>, body: Vec<Token>) -> Vec<Token> {
    let mut v = pred;
    v.push(p('='));
    v.push(p('>'));
    v.push(braced(body));
    v
}

fn join(arms: Vec<Vec<Token>>) -> Vec<Token> {
    let mut v = Vec::new();
    let mut first = true;
    for a in arms {
        if !first {
            v.push(p(','));
        }
        first = false;
        v.extend(a);
    }
    v
}

fn extract_match(source: Vec<Token>) -> Result<Vec<TargetArm>, CfgBoostError> {
    TargetArm::extract(source, CfgBoostMacroSource::MatchMacro, true, true)
}

fn extract_target(source: Vec<Token>) -> Result<Vec<TargetArm>, CfgBoostError> {
    TargetArm::extract(source, CfgBoostMacroSource::TargetMacro, true, true)
}

#[test]
fn extract_two_arms_and_wildcard() {
    let source = join(vec![
        arm(vec![id("linux")], vec![id("a")]),
        arm(vec![id("windows")], vec![id("b")]),
        arm(vec![id("_")], vec![id("c")]),
    ]);
    let arms = extract_match(source).unwrap();
    assert_eq!(arms.len(), 3);
    assert_eq!(arms[0].arm_type, TargetArmType::Simplified);
    assert_eq!(arms[0].arm_ts, vec![id("linux")]);
    assert_eq!(arms[0].content, vec![id("a")]);
    assert_eq!(arms[2].arm_type, TargetArmType::Wildcard);
    assert!(arms[2].arm_ts.is_empty());
}

/// A brace-delimited body is unwrapped one level only.
#[test]
fn body_brace_unwrapped_once() {
    let source = join(vec![
        arm(vec![id("linux")], vec![braced(vec![id("inner")])]),
        arm(vec![id("_")], vec![id("c")]),
    ]);
    let arms = extract_match(source).unwrap();
    assert_eq!(arms[0].content, vec![braced(vec![id("inner")])]);
}

/// A non-last wildcard arm raises "wildcard not last" in any mode.
#[test]
fn wildcard_not_last() {
    let source = join(vec![
        arm(vec![id("_")], vec![id("c")]),
        arm(vec![id("linux")], vec![id("a")]),
    ]);
    match extract_match(source) {
        Err(CfgBoostError::WildcardArmNotLast) => {},
        other => panic!("misplaced wildcard must be refused, got {:?}", other),
    }
    let source2 = join(vec![
        arm(vec![id("_")], vec![id("c")]),
        arm(vec![id("linux")], vec![id("a")]),
    ]);
    match extract_target(source2) {
        Err(CfgBoostError::WildcardArmNotLast) => {},
        other => panic!("misplaced wildcard must be refused, got {:?}", other),
    }
    let msg = CfgBoostError::WildcardArmNotLast.message("");
    assert_eq!(msg, "Wildcard branch `_` must ALWAYS be the last branch.");
}

/// A non-wildcard arm with an empty predicate source raises "empty arm".
#[test]
fn empty_arm_refused() {
    let source = join(vec![
        arm(vec![], vec![id("a")]),
        arm(vec![id("_")], vec![id("c")]),
    ]);
    match extract_match(source) {
        Err(CfgBoostError::EmptyArm) => {},
        other => panic!("empty arm must be refused in match mode, got {:?}", other),
    }
    let source2 = join(vec![arm(vec![], vec![id("a")])]);
    match extract_target(source2) {
        Err(CfgBoostError::EmptyArm) => {},
        other => panic!("empty arm must be refused in declarative mode, got {:?}", other),
    }
    assert_eq!(CfgBoostError::EmptyArm.message(""), "Empty arm with no attributes detected!");
}

/// A wildcard arm is refused in declarative mode, and required in match mode.
#[test]
fn wildcard_per_mode() {
    let source = join(vec![
        arm(vec![id("linux")], vec![id("a")]),
        arm(vec![id("_")], vec![id("c")]),
    ]);
    match extract_target(source) {
        Err(CfgBoostError::WildcardArmOnTarget) => {},
        other => panic!("wildcard must be refused in declarative mode, got {:?}", other),
    }
    let source2 = join(vec![arm(vec![id("linux")], vec![id("a")])]);
    match extract_match(source2) {
        Err(CfgBoostError::WildcardArmMissing) => {},
        other => panic!("missing wildcard must be refused in match mode, got {:?}", other),
    }
}

/// Declarative arms cannot stand inside a function.
#[test]
fn target_inside_function_refused() {
    let source = join(vec![arm(vec![id("linux")], vec![id("let"), id("a")])]);
    match extract_target(source) {
        Err(CfgBoostError::TargetInFunction) => {},
        other => panic!("flow keywords must be refused in declarative mode, got {:?}", other),
    }
}

/// Modifiers must be the first character of the arm.
#[test]
fn modifier_not_first_refused() {
    let source = join(vec![
        arm(vec![id("linux"), p('@')], vec![id("a")]),
        arm(vec![id("_")], vec![id("c")]),
    ]);
    match extract_match(source) {
        Err(CfgBoostError::ModifierNotFirst) => {},
        other => panic!("late modifier must be refused, got {:?}", other),
    }
}

/// Modifiers are collected in debug builds.
#[test]
fn modifiers_collected_in_debug() {
    let source = join(vec![
        arm(vec![p('+'), id("linux")], vec![id("a")]),
        arm(vec![p('@'), id("windows")], vec![id("b")]),
        arm(vec![id("_")], vec![id("c")]),
    ]);
    let arms = extract_match(source).unwrap();
    assert_eq!(arms[0].modifier, TargetArmModifier::Activate);
    assert_eq!(arms[1].modifier, TargetArmModifier::Panic);
    assert_eq!(arms[2].modifier, TargetArmModifier::NoModifier);
}

/// Activate and deactivate modifiers are refused in release builds by default.
#[test]
fn modifiers_refused_in_release() {
    let source = join(vec![
        arm(vec![p('+'), id("linux")], vec![id("a")]),
        arm(vec![id("_")], vec![id("c")]),
    ]);
    match TargetArm::extract(source, CfgBoostMacroSource::MatchMacro, false, true) {
        Err(CfgBoostError::ModifierPanicRelease) => {},
        other => panic!("release modifier must be refused, got {:?}", other),
    }
    let source2 = join(vec![
        arm(vec![p('-'), id("linux")], vec![id("a")]),
        arm(vec![id("_")], vec![id("c")]),
    ]);
    let arms = TargetArm::extract(source2, CfgBoostMacroSource::MatchMacro, false, false).unwrap();
    assert_eq!(arms[0].modifier, TargetArmModifier::NoModifier);
}

/// Mixing legacy and simplified syntax on one arm is refused.
#[test]
fn mixed_syntax_refused() {
    let source = join(vec![
        arm(
            vec![p('#'), Token::Group(Delimiter::Bracket, vec![id("cfg")]), p('&'), id("linux")],
            vec![id("a")],
        ),
        arm(vec![id("_")], vec![id("c")]),
    ]);
    match extract_match(source) {
        Err(CfgBoostError::MixedSyntaxError) => {},
        other => panic!("mixed syntax must be refused, got {:?}", other),
    }
}

/// A `,` on the left side means the content separator is missing.
#[test]
fn content_separator_missing() {
    let source = vec![id("linux"), p(','), id("windows")];
    match extract_match(source) {
        Err(CfgBoostError::ContentSeparatorMissing) => {},
        other => panic!("missing separator must be refused, got {:?}", other),
    }
}

/// A malformed `==` separator is refused.
#[test]
fn content_separator_error() {
    let source = vec![id("linux"), p('='), p('='), braced(vec![id("a")])];
    match extract_match(source) {
        Err(CfgBoostError::ContentSeparatorError) => {},
        other => panic!("malformed separator must be refused, got {:?}", other),
    }
}

/// A missing `,` between arms is detected at the next separator.
#[test]
fn arm_separator_missing() {
    let mut source = arm(vec![id("linux")], vec![id("a")]);
    source.extend(arm(vec![id("windows")], vec![id("b")]));
    match extract_match(source) {
        Err(CfgBoostError::ArmSeparatorMissing) => {},
        other => panic!("missing arm separator must be refused, got {:?}", other),
    }
}

/// One activated arm at most in match mode.
#[test]
fn match_more_than_one_activate() {
    let source = join(vec![
        arm(vec![p('+'), id("linux")], vec![id("a")]),
        arm(vec![p('+'), id("windows")], vec![id("b")]),
        arm(vec![id("_")], vec![id("c")]),
    ]);
    match extract_match(source) {
        Err(CfgBoostError::MatchModifierMoreThanOneActivate) => {},
        other => panic!("two activated arms must be refused, got {:?}", other),
    }
}

/// The wildcard arm cannot be deactivated in match mode.
#[test]
fn match_deactivated_wildcard() {
    let source = join(vec![
        arm(vec![id("linux")], vec![id("a")]),
        arm(vec![p('-'), id("_")], vec![id("c")]),
    ]);
    match extract_match(source) {
        Err(CfgBoostError::MatchDeactivatedWildArm) => {},
        other => panic!("deactivated wildcard must be refused, got {:?}", other),
    }
}

/// The panic modifier collects a dump of its arms.
#[test]
fn panic_modifier_dump() {
    let source = join(vec![
        arm(vec![p('@'), id("linux")], vec![id("a")]),
        arm(vec![id("_")], vec![id("c")]),
    ]);
    let arms = extract_match(source).unwrap();
    let msg = TargetArm::panic_arms_message(&arms).unwrap();
    assert!(msg.contains("`@` modifier"));
    assert!(msg.contains("Arm : linux"));
    assert!(msg.contains("Modifier : Panic"));
    let source2 = join(vec![
        arm(vec![id("linux")], vec![id("a")]),
        arm(vec![id("_")], vec![id("c")]),
    ]);
    let arms2 = extract_match(source2).unwrap();
    assert!(TargetArm::panic_arms_message(&arms2).is_none());
}

/// Directive generation in declarative mode wraps predicates with the
/// default documentation alternative.
#[test]
fn target_directives() {
    let source = join(vec![arm(vec![id("linux")], vec![id("a"), p(';')])]);
    let arms = extract_target(source).unwrap();
    let store: Vec<(String, String)> = Vec::new();
    let dirs = TargetArm::generate_arms_predicate(
        CfgBoostMacroSource::TargetMacro,
        &arms,
        &store,
        &store,
        true,
        true,
        true,
    )
    .unwrap();
    assert_eq!(dirs.len(), 1);
    assert_eq!(dirs[0].cfg_ts, "#[cfg(any(doc, target_os = \"linux\"))]");
    assert_eq!(dirs[0].attr_ts, "#[cfg_attr(docsrs, doc(cfg(target_os = \"linux\")))]");
}

/// Directive generation in match mode accumulates negations of prior
/// arms: the second arm's condition is its predicate AND NOT the
/// first's, and the wildcard's is the complement of both.
#[test]
fn match_directives_cumulative() {
    let source = join(vec![
        arm(vec![id("linux")], vec![id("a")]),
        arm(vec![id("windows"), p(':'), id("os")], vec![id("b")]),
        arm(vec![id("_")], vec![id("c")]),
    ]);
    let arms = extract_match(source).unwrap();
    let store: Vec<(String, String)> = Vec::new();
    let dirs = TargetArm::generate_arms_predicate(
        CfgBoostMacroSource::MatchMacro,
        &arms,
        &store,
        &store,
        false,
        true,
        false,
    )
    .unwrap();
    assert_eq!(dirs[0].cfg_ts, "#[cfg(all(all(),target_os = \"linux\"))]");
    assert_eq!(
        dirs[1].cfg_ts,
        "#[cfg(all(all(), not(target_os = \"linux\"),target_os = \"windows\"))]"
    );
    assert_eq!(
        dirs[2].cfg_ts,
        "#[cfg(all(all(), not(target_os = \"linux\"), not(target_os = \"windows\"),all()))]"
    );
    assert_eq!(dirs[0].attr_ts, "");
}

/// A legacy arm's predicate is the first parenthesized group's text.
#[test]
fn legacy_predicate_passthrough() {
    let cfg_attr = vec![
        p('#'),
        Token::Group(
            Delimiter::Bracket,
            vec![
                id("cfg"),
                Token::Group(Delimiter::Parenthesis, vec![id("unix")]),
            ],
        ),
    ];
    let source = join(vec![
        arm(cfg_attr, vec![id("a")]),
        arm(vec![id("_")], vec![id("c")]),
    ]);
    let arms = extract_match(source).unwrap();
    assert_eq!(arms[0].arm_type, TargetArmType::Legacy);
    let store: Vec<(String, String)> = Vec::new();
    let pred = arms[0].generate_pred_ts(&store, &store).unwrap();
    assert_eq!(pred, "unix");
}
