//! End-to-end engine tests: entry points, cumulative exclusivity and
//! the active-arm counter.
use cfg_boost::config::CfgContext;
use cfg_boost::errors::CfgBoostError;
use cfg_boost::match_cfg;
use cfg_boost::meta_cfg;
use cfg_boost::modifiers::TargetActiveComparisonOperator;
use cfg_boost::modifiers::TargetActiveCounter;
use cfg_boost::modifiers::TargetBranchType;
use cfg_boost::modifiers::TargetCfgModifier;
use cfg_boost::syntax::SyntaxTreeNode;
use cfg_boost::target_cfg;
use cfg_boost::tokens::Delimiter;
use cfg_boost::tokens::Token;
use cfg_boost::ts::cumulate;

fn id(s: &str) -> Token {
    Token::Ident(s.to_string())
}

fn p(c: char) -> Token {
    Token::Punct(c)
}

fn braced(toks: Vec<Token>) -> Token {
    Token::Group(Delimiter::Brace, toks)
}

fn arm(pred: Vec<Token>, body: Vec<Token>) -> Vec<Token> {
    let mut v = pred;
    v.push(p('='));
    v.push(p('>'));
    v.push(braced(body));
    v
}

fn join(arms: Vec<Vec<Token>>) -> Vec<Token> {
    let mut v = Vec::new();
    let mut first = true;
    for a in arms {
        if !first {
            v.push(p(','));
        }
        first = false;
        v.extend(a);
    }
    v
}

fn ctx(active: &[&str]) -> CfgContext {
    CfgContext {
        alias_store: Vec::new(),
        predicate_store: Vec::new(),
        active_cfg: active.iter().map(|s| s.to_string()).collect(),
        doc_build: false,
        debug_build: true,
        autodoc: true,
        docsrs: false,
        release_modifier_panic: true,
    }
}

/// An item gated on an active architecture and operating system is kept.
#[test]
fn test() {
    let attr: Vec<Token> = vec![id("x86_64"), p(':'), id("ar"), p('&'), id("linux"), p(':'), id("os")];
    let body = vec![id("fn"), id("cfg_target_test"), braced(vec![])];
    let expected_body = vec![id("fn"), id("cfg_target_test"), braced(vec![])];
    let context = ctx(&["target_arch = \"x86_64\"", "target_os = \"linux\""]);
    let outs = meta_cfg(attr, body, &context).unwrap();
    assert_eq!(outs.len(), 1);
    assert_eq!(outs[0].content, expected_body);
    assert_eq!(
        outs[0].cfg_ts,
        "#[cfg(any(doc, all(target_arch = \"x86_64\", target_os = \"linux\")))]"
    );
    let tree = SyntaxTreeNode::generate("x86_64:ar & linux:os", &context.alias_store).unwrap();
    assert!(tree.evaluate(&context.predicate_store, &context.active_cfg).unwrap());
}

/// In match mode with an active first arm, only the first arm is
/// selected and the counter reads one.
#[test]
fn match_selects_first_arm() {
    let source = join(vec![
        arm(vec![id("linux")], vec![id("a")]),
        arm(vec![id("windows")], vec![id("b")]),
        arm(vec![id("_")], vec![id("c")]),
    ]);
    let context = ctx(&["target_os = \"linux\""]);
    let (outs, counter) = match_cfg(source, &context).unwrap();
    assert_eq!(counter.get_counter(), 1);
    assert_eq!(outs.len(), 1);
    assert_eq!(outs[0].content, vec![id("a")]);
    assert_eq!(outs[0].cfg_ts, "#[cfg(all(all(), target_os = \"linux\"))]");
}

/// The wildcard arm catches a configuration no other arm matches.
#[test]
fn match_wildcard_catches_rest() {
    let source = join(vec![
        arm(vec![id("linux")], vec![id("a")]),
        arm(vec![id("windows")], vec![id("b")]),
        arm(vec![id("_")], vec![id("c")]),
    ]);
    let context = ctx(&["target_os = \"macos\""]);
    let (outs, counter) = match_cfg(source, &context).unwrap();
    assert_eq!(counter.get_counter(), 1);
    assert_eq!(outs.len(), 1);
    assert_eq!(outs[0].content, vec![id("c")]);
}

/// The second arm's cumulative directive is its own predicate AND the
/// negation of the first's; the wildcard's is the negation of both.
#[test]
fn cumulative_exclusivity() {
    let store: Vec<(String, String)> = Vec::new();
    let t1 = SyntaxTreeNode::Leaf("a:os".to_string());
    let t2 = SyntaxTreeNode::Leaf("b:os".to_string());
    let c1 = cumulate(SyntaxTreeNode::Empty, t1);
    let c2 = cumulate(c1, t2);
    assert_eq!(
        c2.to_text(&store).unwrap(),
        "all(all(all(), not(target_os = \"a\")), target_os = \"b\")"
    );
    let active: Vec<String> = vec!["target_os = \"b\"".to_string()];
    assert!(c2.evaluate(&store, &active).unwrap());
    let active_a: Vec<String> = vec!["target_os = \"a\"".to_string()];
    assert!(!c2.evaluate(&store, &active_a).unwrap());
    let c3 = cumulate(c2, SyntaxTreeNode::Fixed(true));
    let active_none: Vec<String> = vec!["target_os = \"z\"".to_string()];
    assert!(c3.evaluate(&store, &active_none).unwrap());
    assert!(!c3.evaluate(&store, &active_a).unwrap());
}

/// Declarative mode emits every arm under its own directive, one
/// output per item.
#[test]
fn target_emits_all_arms() {
    let source = join(vec![
        arm(vec![id("linux")], vec![id("mod"), id("a"), p(';'), id("mod"), id("b"), p(';')]),
        arm(vec![id("windows")], vec![id("mod"), id("c"), p(';')]),
    ]);
    let context = ctx(&["target_os = \"linux\""]);
    let outs = target_cfg(source, &context).unwrap();
    assert_eq!(outs.len(), 3);
    assert_eq!(outs[0].cfg_ts, "#[cfg(any(doc, target_os = \"linux\"))]");
    assert_eq!(outs[0].content, vec![id("mod"), id("a"), p(';')]);
    assert_eq!(outs[1].content, vec![id("mod"), id("b"), p(';')]);
    assert_eq!(outs[2].cfg_ts, "#[cfg(any(doc, windows))]");
}

/// The comparison operator compares a value against its control.
#[test]
fn comparison_operators() {
    assert!(TargetActiveComparisonOperator::Equal.compare(1, 1));
    assert!(!TargetActiveComparisonOperator::Equal.compare(2, 1));
    assert!(TargetActiveComparisonOperator::NotEqual.compare(2, 1));
    assert!(TargetActiveComparisonOperator::GreaterThan.compare(2, 1));
    assert!(!TargetActiveComparisonOperator::GreaterThan.compare(1, 1));
    assert!(TargetActiveComparisonOperator::LessThan.compare(0, 1));
    assert!(TargetActiveComparisonOperator::GreaterEqualThan.compare(1, 1));
    assert!(TargetActiveComparisonOperator::LessEqualThan.compare(1, 1));
    assert!(!TargetActiveComparisonOperator::LessEqualThan.compare(2, 1));
}

/// The counter counts normal and exclusive arms, not added ones, and
/// validates against its control.
#[test]
fn active_counter() {
    let options = TargetCfgModifier {
        allow_doc: false,
        is_panic_result: false,
        debug_only: None,
        is_inner_macro: false,
        activate_branch_guard: true,
        operator: TargetActiveComparisonOperator::Equal,
        control: 1,
    };
    let mut counter = TargetActiveCounter::new(&options);
    assert_eq!(counter.get_counter(), 0);
    assert!(!counter.validate());
    counter.inc();
    assert_eq!(counter.get_counter(), 1);
    assert!(counter.validate());
    counter.set_branch_type(TargetBranchType::Added);
    counter.inc();
    assert_eq!(counter.get_counter(), 1);
    counter.set_branch_type(TargetBranchType::Exclusive);
    counter.inc();
    assert_eq!(counter.get_counter(), 2);
    assert!(!counter.validate());
}

/// The guard error names the count, the operator and the control.
#[test]
fn count_error_message() {
    let err = CfgBoostError::ActiveBranchCountError(2, TargetActiveComparisonOperator::Equal, 1);
    assert_eq!(err.message(""), "Active arm count `2` doesn't respect the `= 1` control!");
}

/// A deactivated arm in a debug build is never selected.
#[test]
fn deactivate_modifier_in_match() {
    let source = join(vec![
        arm(vec![p('-'), id("linux")], vec![id("a")]),
        arm(vec![id("_")], vec![id("c")]),
    ]);
    let context = ctx(&["target_os = \"linux\""]);
    let (outs, counter) = match_cfg(source, &context).unwrap();
    assert_eq!(counter.get_counter(), 1);
    assert_eq!(outs.len(), 1);
    assert_eq!(outs[0].content, vec![id("c")]);
}

/// An arm carrying the panic modifier aborts the invocation with the
/// arms' dump instead of expanding.
#[test]
fn panic_modifier_aborts_expansion() {
    let source = join(vec![
        arm(vec![p('@'), id("linux")], vec![id("a")]),
        arm(vec![id("_")], vec![id("c")]),
    ]);
    let context = ctx(&["target_os = \"linux\""]);
    match match_cfg(source, &context) {
        Err(CfgBoostError::ArmPanicDump(dump)) => {
            assert!(dump.contains("*** Macro panicked because some arm have the `@` modifier ***"));
            assert!(dump.contains("Arm : linux"));
            assert!(dump.contains("Modifier : Panic"));
            let msg = CfgBoostError::ArmPanicDump(dump.clone()).message("");
            assert_eq!(msg, dump);
        },
        other => panic!("a panic-modifier arm must abort with the dump, got {:?}", other),
    }
    let source2 = join(vec![arm(vec![p('@'), id("linux")], vec![id("a"), p(';')])]);
    match target_cfg(source2, &context) {
        Err(CfgBoostError::ArmPanicDump(dump)) => {
            assert!(dump.contains("Arm : linux"));
        },
        other => panic!("a panic-modifier arm must abort with the dump, got {:?}", other),
    }
}
