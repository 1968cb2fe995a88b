//! Branch pipeline tests: selection, guard and override modifiers.
use cfg_boost::errors::CfgBoostError;
use cfg_boost::modifiers::TargetActiveComparisonOperator;
use cfg_boost::modifiers::TargetBranch;
use cfg_boost::modifiers::TargetBranchType;
use cfg_boost::modifiers::TargetCfgModifier;
use cfg_boost::option::TargetAttributeOption;
use cfg_boost::syntax::SyntaxTreeNode;
use cfg_boost::target::cfg_target_activate;
use cfg_boost::target::generate_cfg_target_content;
use cfg_boost::target::generate_target_cfg_content;
use cfg_boost::tokens::Delimiter;
use cfg_boost::tokens::Token;

fn id(s: &str) -> Token {
    Token::Ident(s.to_string())
}

fn p(c: char) -> Token {
    Token::Punct(c)
}

fn options() -> TargetCfgModifier {
    TargetCfgModifier {
        allow_doc: false,
        is_panic_result: false,
        debug_only: None,
        is_inner_macro: true,
        activate_branch_guard: true,
        operator: TargetActiveComparisonOperator::Equal,
        control: 1,
    }
}

fn branch(pred: Vec<Token>, body: Vec<Token>) -> TargetBranch {
    TargetBranch::new(TargetBranchType::Normal, pred, body)
}

fn active(entries: &[&str]) -> Vec<String> {
    entries.iter().map(|s| s.to_string()).collect()
}

fn no_store() -> Vec<(String, String)> {
    Vec::new()
}

/// Exactly the branch whose predicate holds is selected.
#[test]
fn pipeline_selects_active_branch() {
    let branchs = vec![
        branch(vec![id("linux"), p(':'), id("os")], vec![id("a")]),
        branch(vec![id("windows"), p(':'), id("os")], vec![id("b")]),
    ];
    let store = no_store();
    let flags = active(&["target_os = \"linux\""]);
    let (outs, counter) =
        generate_target_cfg_content(branchs, &options(), &store, &store, &flags, true).unwrap();
    assert_eq!(counter.get_counter(), 1);
    assert_eq!(outs.len(), 1);
    assert_eq!(outs[0].content, vec![id("a")]);
}

/// With no matching branch the active guard reports the count.
#[test]
fn pipeline_guard_violation() {
    let branchs = vec![branch(vec![id("linux"), p(':'), id("os")], vec![id("a")])];
    let store = no_store();
    let flags = active(&["target_os = \"windows\""]);
    match generate_target_cfg_content(branchs, &options(), &store, &store, &flags, true) {
        Err(CfgBoostError::ActiveBranchCountError(count, op, control)) => {
            assert_eq!(count, 0);
            assert_eq!(op, TargetActiveComparisonOperator::Equal);
            assert_eq!(control, 1);
        },
        other => panic!("guard must report the count, got {:?}", other),
    }
}

/// An exclusive branch is selected only when no branch before it was.
#[test]
fn pipeline_exclusive_branch() {
    let branchs = vec![
        branch(vec![id("linux"), p(':'), id("os")], vec![id("a")]),
        TargetBranch::new(TargetBranchType::Exclusive, vec![id("_")], vec![id("c")]),
    ];
    let store = no_store();
    let flags = active(&["target_os = \"other\""]);
    let (outs, counter) =
        generate_target_cfg_content(branchs, &options(), &store, &store, &flags, true).unwrap();
    assert_eq!(counter.get_counter(), 1);
    assert_eq!(outs[0].content, vec![id("c")]);
}

/// An added branch rides along without being counted.
#[test]
fn pipeline_added_branch() {
    let branchs = vec![
        branch(vec![id("linux"), p(':'), id("os")], vec![id("a")]),
        TargetBranch::new(TargetBranchType::Added, vec![p('+')], vec![id("extra")]),
    ];
    let store = no_store();
    let flags = active(&["target_os = \"linux\""]);
    let (outs, counter) =
        generate_target_cfg_content(branchs, &options(), &store, &store, &flags, true).unwrap();
    assert_eq!(counter.get_counter(), 1);
    assert_eq!(outs.len(), 2);
    assert_eq!(outs[1].content, vec![id("extra")]);
}

/// An override modifier outside a debug build is refused while the
/// guard is active.
#[test]
fn pipeline_override_guarded_in_release() {
    let branchs = vec![TargetBranch::new(
        TargetBranchType::Normal,
        vec![
            Token::Group(Delimiter::Bracket, vec![p('*')]),
            id("linux"),
            p(':'),
            id("os"),
        ],
        vec![id("a")],
    )];
    let store = no_store();
    let flags = active(&[]);
    match generate_target_cfg_content(branchs, &options(), &store, &store, &flags, false) {
        Err(CfgBoostError::ModifierPanicRelease) => {},
        other => panic!("override must be refused in release, got {:?}", other),
    }
}

/// An empty branch attribute is refused.
#[test]
fn pipeline_empty_branch() {
    let branchs = vec![TargetBranch::new(TargetBranchType::Normal, vec![], vec![id("a")])];
    let store = no_store();
    let flags = active(&[]);
    match generate_target_cfg_content(branchs, &options(), &store, &store, &flags, true) {
        Err(CfgBoostError::EmptyArm) => {},
        other => panic!("empty branch must be refused, got {:?}", other),
    }
}

/// The attribute-style path decorates an activated item with the
/// documentation header when documentation is allowed.
#[test]
fn attribute_path_activation() {
    let store = no_store();
    let flags = active(&["target_os = \"linux\""]);
    let tree = SyntaxTreeNode::generate("linux:os", &store).unwrap();
    let opts = TargetAttributeOption { allow_doc: false, is_debug: false, always_this: None };
    let out = generate_cfg_target_content(&opts, &tree, vec![id("a")], &store, &flags)
        .unwrap()
        .unwrap();
    assert_eq!(out.content, vec![id("a")]);
    assert_eq!(out.attr_ts, "");
    let opts_doc = TargetAttributeOption { allow_doc: true, is_debug: false, always_this: None };
    let tree2 = SyntaxTreeNode::generate("linux:os", &store).unwrap();
    let out2 = cfg_target_activate(&opts_doc, &tree2, vec![id("a")], &store).unwrap();
    assert_eq!(out2.attr_ts, "#[cfg_attr(docsrs, doc(cfg(target_os = \"linux\")))]");
    let opts_never = TargetAttributeOption {
        allow_doc: false,
        is_debug: false,
        always_this: Some(false),
    };
    let tree3 = SyntaxTreeNode::generate("linux:os", &store).unwrap();
    let none = generate_cfg_target_content(&opts_never, &tree3, vec![id("a")], &store, &flags)
        .unwrap();
    assert!(none.is_none());
}

/// The panic print toggle aborts the invocation with the branches' dump.
#[test]
fn pipeline_panic_print_dump() {
    let branchs = vec![branch(vec![id("linux"), p(':'), id("os")], vec![id("a")])];
    let store = no_store();
    let flags = active(&["target_os = \"linux\""]);
    let mut opts = options();
    opts.is_panic_result = true;
    match generate_target_cfg_content(branchs, &opts, &store, &store, &flags, true) {
        Err(CfgBoostError::ArmPanicDump(dump)) => {
            assert!(dump.contains("*** Macro panicked because the invocation has the `#` modifier ***"));
            assert!(dump.contains("Branch : linux:os"));
            assert!(dump.contains("Type : Normal"));
        },
        other => panic!("the panic print toggle must abort with the dump, got {:?}", other),
    }
}
