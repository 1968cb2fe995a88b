//! Predicate tree tests: building, rendering and evaluating.
use cfg_boost::errors::CfgBoostError;
use cfg_boost::syntax::SyntaxTreeNode;
use cfg_boost::syntax::text_is_active;

fn no_store() -> Vec<(String, String)> {
    Vec::new()
}

fn active(entries: &[&str]) -> Vec<String> {
    entries.iter().map(|s| s.to_string()).collect()
}

/// The rightmost top-level `&` splits the tree into an ALL root.
#[test]
fn root_is_all_at_rightmost_and() {
    let store = no_store();
    let tree = SyntaxTreeNode::generate("a:ar & b:tf & c:os", &store).unwrap();
    match tree {
        SyntaxTreeNode::All(left, right) => {
            match *right {
                SyntaxTreeNode::Leaf(l) => assert_eq!(l, "c:os"),
                other => panic!("right child must be the last leaf, got {:?}", other),
            }
            match *left {
                SyntaxTreeNode::All(ll, lr) => {
                    match *ll {
                        SyntaxTreeNode::Leaf(l) => assert_eq!(l, "a:ar"),
                        other => panic!("unexpected left-left {:?}", other),
                    }
                    match *lr {
                        SyntaxTreeNode::Leaf(l) => assert_eq!(l, "b:tf"),
                        other => panic!("unexpected left-right {:?}", other),
                    }
                },
                other => panic!("left child must be an ALL node, got {:?}", other),
            }
        },
        other => panic!("root must be an ALL node, got {:?}", other),
    }
}

/// The rightmost top-level operator decides the root; operators inside
/// groups are skipped by depth tracking.
#[test]
fn root_is_any_at_rightmost_top_level_or() {
    let store = no_store();
    let tree = SyntaxTreeNode::generate("a:ar & (b:tf | c:os)", &store).unwrap();
    match tree {
        SyntaxTreeNode::All(left, right) => {
            match *left {
                SyntaxTreeNode::Leaf(l) => assert_eq!(l, "a:ar"),
                other => panic!("unexpected left {:?}", other),
            }
            match *right {
                SyntaxTreeNode::Any(_, _) => {},
                other => panic!("group must parse to an ANY node, got {:?}", other),
            }
        },
        other => panic!("root must be an ALL node, got {:?}", other),
    }
}

/// `a:ar & b:tf` renders to the canonical ALL directive.
#[test]
fn render_all_directive() {
    let store = no_store();
    let tree = SyntaxTreeNode::generate("a:ar & b:tf", &store).unwrap();
    let text = tree.to_text(&store).unwrap();
    assert_eq!(text, "all(target_arch = \"a\", target_feature = \"b\")");
}

/// `!x:ar` parses to a NOT-wrapped LEAF.
#[test]
fn negation_wraps_leaf() {
    let store = no_store();
    let tree = SyntaxTreeNode::generate("!x:ar", &store).unwrap();
    match tree {
        SyntaxTreeNode::Not(child) => match *child {
            SyntaxTreeNode::Leaf(l) => assert_eq!(l, "x:ar"),
            other => panic!("child must be a leaf, got {:?}", other),
        },
        other => panic!("root must be a NOT node, got {:?}", other),
    }
}

/// The evaluation of a NOT node is the negation of its child's.
#[test]
fn not_negates_evaluation() {
    let store = no_store();
    let flags = active(&["target_arch = \"x\""]);
    let leaf = SyntaxTreeNode::generate("x:ar", &store).unwrap();
    let outcome = leaf.evaluate(&store, &flags).unwrap();
    assert!(outcome);
    let negated = SyntaxTreeNode::generate("!x:ar", &store).unwrap();
    assert_eq!(negated.evaluate(&store, &flags).unwrap(), !outcome);
    let absent = SyntaxTreeNode::generate("!y:ar", &store).unwrap();
    assert!(absent.evaluate(&store, &flags).unwrap());
}

/// Double operators are rejected before any tree is built.
#[test]
fn double_operators_rejected() {
    let store = no_store();
    for text in ["a:ar && b:tf", "a:ar || b:tf", "!!a:ar", "x:os & (a:ar && b:tf)"] {
        match SyntaxTreeNode::generate(text, &store) {
            Err(CfgBoostError::DoubleOperator(op)) => {
                assert!(op == "&&" || op == "||" || op == "!!");
                let msg = CfgBoostError::DoubleOperator(op).message(text);
                assert!(msg.contains("Double operator"));
            },
            other => panic!("`{}` must be rejected as a double operator, got {:?}", text, other),
        }
    }
}

/// Characters outside the simplified grammar are rejected with their
/// text: only letters, digits and the structural marks are allowed.
#[test]
fn invalid_character_rejected() {
    let store = no_store();
    match SyntaxTreeNode::generate("a:ar ; b:tf", &store) {
        Err(CfgBoostError::InvalidCharacter(c)) => assert_eq!(c, ";"),
        other => panic!("`;` must be rejected, got {:?}", other),
    }
    match SyntaxTreeNode::generate("a':os", &store) {
        Err(CfgBoostError::InvalidCharacter(c)) => assert_eq!(c, "'"),
        other => panic!("`'` must be rejected, got {:?}", other),
    }
    match SyntaxTreeNode::generate("x\":os", &store) {
        Err(CfgBoostError::InvalidCharacter(c)) => assert_eq!(c, "\""),
        other => panic!("a stray quote must be rejected, got {:?}", other),
    }
}

/// A leaf with an interior space signals a missing operator.
#[test]
fn space_in_leaf_is_missing_operator() {
    let store = no_store();
    match SyntaxTreeNode::generate("linux windows", &store) {
        Err(CfgBoostError::MissingOperator) => {},
        other => panic!("space must signal a missing operator, got {:?}", other),
    }
    let msg = CfgBoostError::MissingOperator.message("linux windows");
    assert_eq!(
        msg,
        "Operator `&` or '|' missing for `\"linux windows\"`. Target must not contain space."
    );
}

/// An empty predicate source is an empty node.
#[test]
fn empty_text_is_empty_node() {
    let store = no_store();
    match SyntaxTreeNode::generate("   ", &store) {
        Err(CfgBoostError::EmptyNode) => {},
        other => panic!("empty text must be rejected, got {:?}", other),
    }
}

/// An alias expands recursively and renders through the dictionary.
#[test]
fn alias_expansion() {
    let store = no_store();
    let tree = SyntaxTreeNode::generate("mobile", &store).unwrap();
    let text = tree.to_text(&store).unwrap();
    assert_eq!(text, "any(target_os = \"android\", target_os = \"ios\")");
}

/// A self-referential custom alias ends with a not-found error
/// instead of expanding forever.
#[test]
fn alias_cycle_ends() {
    let store = vec![("loops_forever".to_string(), "loops_forever".to_string())];
    match SyntaxTreeNode::generate("loops_forever", &store) {
        Err(CfgBoostError::AliasNotFound(l)) => assert_eq!(l, "loops_forever"),
        other => panic!("cyclic alias must be reported, got {:?}", other),
    }
}

/// An unknown leaf key is reported when rendering.
#[test]
fn unknown_key_reported_at_render() {
    let store = no_store();
    let tree = SyntaxTreeNode::generate("x:zzz", &store).unwrap();
    match tree.to_text(&store) {
        Err(CfgBoostError::InvalidConfigurationPredicate(k)) => assert_eq!(k, "zzz"),
        other => panic!("unknown key must be reported, got {:?}", other),
    }
}

/// Enclosing groups are unwrapped before parsing.
#[test]
fn enclosing_group_unwrapped() {
    let store = no_store();
    let tree = SyntaxTreeNode::generate("(a:ar)", &store).unwrap();
    match tree {
        SyntaxTreeNode::Leaf(l) => assert_eq!(l, "a:ar"),
        other => panic!("group must unwrap to its leaf, got {:?}", other),
    }
}

/// Activity is a substring match against the active entries.
#[test]
fn activity_is_substring_match() {
    let flags = active(&["target_os = \"linux\"", "unix"]);
    assert!(text_is_active(&flags, "target_os = \"linux\""));
    assert!(text_is_active(&flags, "unix"));
    assert!(!text_is_active(&flags, "target_os = \"windows\""));
}

/// Node constructors build the tagged union bottom-up.
#[test]
fn node_constructors() {
    let store = no_store();
    let l = SyntaxTreeNode::Leaf("a:ar".to_string());
    let r = SyntaxTreeNode::Leaf("b:tf".to_string());
    let all = SyntaxTreeNode::all_node(l, r);
    let text = all.to_text(&store).unwrap();
    assert_eq!(text, "all(target_arch = \"a\", target_feature = \"b\")");
    let any = SyntaxTreeNode::any_node(
        SyntaxTreeNode::Leaf("a:ar".to_string()),
        SyntaxTreeNode::Leaf("b:tf".to_string()),
    );
    assert_eq!(any.to_text(&store).unwrap(), "any(target_arch = \"a\", target_feature = \"b\")");
    let not = SyntaxTreeNode::not_node(SyntaxTreeNode::Leaf("a:ar".to_string()));
    assert_eq!(not.to_text(&store).unwrap(), "not(target_arch = \"a\")");
    assert_eq!(SyntaxTreeNode::Fixed(true).to_text(&store).unwrap(), "all()");
    assert_eq!(SyntaxTreeNode::Fixed(false).to_text(&store).unwrap(), "any()");
    assert_eq!(SyntaxTreeNode::Empty.to_text(&store).unwrap(), "all()");
}
