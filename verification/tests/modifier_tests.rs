//! Modifier, option, branch and token-tool tests.
use cfg_boost::modifiers::TargetActiveComparisonOperator;
use cfg_boost::modifiers::TargetAttributeModifier;
use cfg_boost::modifiers::TargetBranch;
use cfg_boost::modifiers::TargetBranchType;
use cfg_boost::modifiers::TargetCfgModifier;
use cfg_boost::errors::CfgBoostError;
use cfg_boost::option::TargetAttributeOption;
use cfg_boost::option::TargetMatchOption;
use cfg_boost::pattern::TargetGroup;
use cfg_boost::tokens::Delimiter;
use cfg_boost::tokens::Token;
use cfg_boost::tokens::tokens_text;
use cfg_boost::tools::extract_modifier;
use cfg_boost::ts::generate_attr_content;
use cfg_boost::ts::is_item_hidden;
use cfg_boost::ts::set_attr_doc;
use cfg_boost::ts::split_items;

fn id(s: &str) -> Token {
    Token::Ident(s.to_string())
}

fn p(c: char) -> Token {
    Token::Punct(c)
}

fn lit(s: &str) -> Token {
    Token::Literal(s.to_string())
}

#[test]
fn attribute_modifier_toggles() {
    let symbol = vec![p('#'), p('!'), p('?'), p('@'), p('*')];
    let m = TargetAttributeModifier::new(&symbol, true).unwrap();
    assert!(m.is_panic_result);
    assert!(!m.allow_doc);
    assert_eq!(m.debug_only, Some(true));
    assert_eq!(m.always_this, Some(true));
    let m2 = TargetAttributeModifier::new(&vec![p('!'), p('*')], false).unwrap();
    assert_eq!(m2.always_this, Some(false));
    assert!(!m2.is_panic_result);
    match TargetAttributeModifier::new(&vec![p('%')], false) {
        Err(CfgBoostError::InvalidCharacter(c)) => assert_eq!(c, "%"),
        other => panic!("unknown modifier symbol must be refused, got {:?}", other),
    }
}

#[test]
fn attribute_modifier_from_match_pins_parent() {
    let parent = TargetCfgModifier {
        allow_doc: false,
        is_panic_result: true,
        debug_only: Some(false),
        is_inner_macro: false,
        activate_branch_guard: true,
        operator: TargetActiveComparisonOperator::Equal,
        control: 1,
    };
    let m = TargetAttributeModifier::from_match(&parent, &vec![p('!'), p('#'), p('@')]).unwrap();
    assert!(m.is_panic_result);
    assert_eq!(m.debug_only, Some(false));
}

#[test]
fn cfg_modifier_operators_and_control() {
    let tg: Vec<TargetBranch> = Vec::new();
    let m = TargetCfgModifier::new(&vec![p('>'), p('='), lit("3")], &tg, false).unwrap();
    assert_eq!(m.operator, TargetActiveComparisonOperator::GreaterEqualThan);
    assert_eq!(m.control, 3);
    assert!(m.activate_branch_guard);
    let m2 = TargetCfgModifier::new(&vec![p('!'), p('='), lit("2")], &tg, false).unwrap();
    assert_eq!(m2.operator, TargetActiveComparisonOperator::NotEqual);
    assert_eq!(m2.control, 2);
    let m3 = TargetCfgModifier::new(&vec![p('!'), p('$'), p('<')], &tg, false).unwrap();
    assert!(!m3.activate_branch_guard);
    assert_eq!(m3.operator, TargetActiveComparisonOperator::LessThan);
    match TargetCfgModifier::new(&vec![lit("99999999999999999999999")], &tg, false) {
        Err(CfgBoostError::InvalidCharacter(t)) => {
            assert_eq!(t, "99999999999999999999999");
        },
        other => panic!("unrepresentable control must be refused, got {:?}", other),
    }
}

#[test]
fn cfg_modifier_detects_inner_macro() {
    let tg = vec![TargetBranch::new(
        TargetBranchType::Normal,
        vec![id("linux")],
        vec![id("let"), id("a")],
    )];
    let m = TargetCfgModifier::new(&Vec::new(), &tg, false).unwrap();
    assert!(m.is_inner_macro);
    let tg2 = vec![TargetBranch::new(TargetBranchType::Normal, vec![id("linux")], vec![id("mod")])];
    let m2 = TargetCfgModifier::new(&Vec::new(), &tg2, false).unwrap();
    assert!(!m2.is_inner_macro);
}

#[test]
fn branch_extraction() {
    let source = vec![
        Token::Group(Delimiter::Parenthesis, vec![id("linux"), p(':'), id("os")]),
        Token::Group(Delimiter::Brace, vec![id("a")]),
        p('+'),
        Token::Group(Delimiter::Brace, vec![id("b")]),
        id("_"),
        Token::Group(Delimiter::Brace, vec![id("c")]),
    ];
    let tg = TargetBranch::extract(source).unwrap();
    assert_eq!(tg.len(), 3);
    assert_eq!(tg[0].branch_type, TargetBranchType::Normal);
    assert_eq!(tg[0].attr, vec![id("linux"), p(':'), id("os")]);
    assert_eq!(tg[0].content, vec![id("a")]);
    assert_eq!(tg[1].branch_type, TargetBranchType::Added);
    assert_eq!(tg[2].branch_type, TargetBranchType::Exclusive);
}

#[test]
fn branch_exclusive_must_be_last() {
    let source = vec![
        id("_"),
        Token::Group(Delimiter::Brace, vec![id("c")]),
        Token::Group(Delimiter::Parenthesis, vec![id("linux")]),
        Token::Group(Delimiter::Brace, vec![id("a")]),
    ];
    match TargetBranch::extract(source) {
        Err(CfgBoostError::WildcardArmNotLast) => {},
        other => panic!("non-last exclusive branch must be refused, got {:?}", other),
    }
}

#[test]
fn attribute_option_toggles() {
    let o = TargetAttributeOption::new(&vec![p('@'), p('!'), p('?')], true).unwrap();
    assert!(o.is_debug);
    assert!(!o.allow_doc);
    assert_eq!(o.always_this, None);
    match TargetAttributeOption::new(&vec![p('#')], false) {
        Err(CfgBoostError::InvalidCharacter(c)) => assert_eq!(c, "#"),
        other => panic!("unknown option symbol must be refused, got {:?}", other),
    }
}

#[test]
fn match_option_toggles() {
    let tg: Vec<TargetGroup> = Vec::new();
    let o = TargetMatchOption::new(&vec![p('!'), p('$'), p('@')], &tg, false).unwrap();
    assert!(!o.is_exclusive);
    assert!(o.is_debug);
    assert!(!o.is_inner_macro);
    let o2 = TargetMatchOption::new(&Vec::new(), &tg, true).unwrap();
    assert!(o2.is_exclusive);
    assert!(o2.allow_doc);
}

#[test]
fn group_extraction() {
    let source = vec![
        Token::Group(Delimiter::Parenthesis, vec![id("linux")]),
        Token::Group(Delimiter::Brace, vec![id("a")]),
        Token::Group(Delimiter::Parenthesis, vec![id("windows")]),
        Token::Group(Delimiter::Brace, vec![id("b")]),
    ];
    let tg = TargetGroup::extract(source);
    assert_eq!(tg.len(), 2);
    assert_eq!(tg[0].attr, vec![id("linux")]);
    assert_eq!(tg[0].item, vec![id("a")]);
    assert_eq!(tg[1].attr, vec![id("windows")]);
}

#[test]
fn modifier_prefix_extraction() {
    let stream = vec![
        Token::Group(Delimiter::Bracket, vec![p('!'), p('*')]),
        id("linux"),
    ];
    let (modifier, content) = extract_modifier(stream);
    assert_eq!(modifier, vec![p('!'), p('*')]);
    assert_eq!(content, vec![id("linux")]);
    let (m2, c2) = extract_modifier(vec![id("linux")]);
    assert!(m2.is_empty());
    assert_eq!(c2, vec![id("linux")]);
}

#[test]
fn item_splitting() {
    let stream = vec![
        id("mod"),
        id("a"),
        p(';'),
        id("fn"),
        id("b"),
        Token::Group(Delimiter::Brace, vec![]),
        id("trailing"),
    ];
    let items = split_items(stream);
    assert_eq!(items.len(), 2);
    assert_eq!(items[0], vec![id("mod"), id("a"), p(';')]);
    assert_eq!(items[1], vec![id("fn"), id("b"), Token::Group(Delimiter::Brace, vec![])]);
}

#[test]
fn token_text_rendering() {
    let toks = vec![
        id("linux"),
        p(':'),
        id("os"),
        p('&'),
        Token::Group(Delimiter::Parenthesis, vec![id("a"), p('|'), id("b")]),
    ];
    assert_eq!(tokens_text(&toks), "linux:os&(a|b)");
    let spaced = vec![id("linux"), id("windows"), lit("3")];
    assert_eq!(tokens_text(&spaced), "linux windows 3");
    let hidden = vec![
        p('#'),
        Token::Group(
            Delimiter::Bracket,
            vec![id("doc"), Token::Group(Delimiter::Parenthesis, vec![id("hidden")])],
        ),
    ];
    assert_eq!(tokens_text(&hidden), "#[doc(hidden)]");
}

#[test]
fn error_messages_name_the_rule() {
    assert_eq!(
        CfgBoostError::ContentSeparatorError.message(""),
        "Arm syntax incorrect. Is your arm separator `=>` syntax Ok?"
    );
    assert_eq!(
        CfgBoostError::ArmSeparatorMissing.message(""),
        "Arm syntax incorrect. Are you missing a separator `,` between arms?"
    );
    assert_eq!(CfgBoostError::ContentSeparatorMissing.message(""), "Arm content separator `=>` missing!");
    assert_eq!(
        CfgBoostError::WildcardArmMissing.message(""),
        "Ensure that all possible cases are being handled by adding a match arm with a `_` wildcard pattern."
    );
    assert_eq!(
        CfgBoostError::InvalidCharacter(";".to_string()).message("a;b"),
        "Invalid character `;` for `\"a;b\"`."
    );
    assert_eq!(
        CfgBoostError::AliasNotFound("pig".to_string()).message("pig"),
        "Alias `pig` has no match! Is it added in config.toml as `target_cfg-pig`?"
    );
}

#[test]
fn default_doc_wrap() {
    let wrapped = set_attr_doc(vec![id("linux")]);
    assert_eq!(
        wrapped,
        vec![
            id("doc"),
            p('|'),
            Token::Group(Delimiter::Parenthesis, vec![id("linux")]),
        ]
    );
    let kept = set_attr_doc(vec![id("doc"), p('|'), id("linux")]);
    assert_eq!(kept, vec![id("doc"), p('|'), id("linux")]);
}

#[test]
fn hidden_item_detection() {
    let hidden = vec![
        p('#'),
        Token::Group(
            Delimiter::Bracket,
            vec![id("doc"), Token::Group(Delimiter::Parenthesis, vec![id("hidden")])],
        ),
        id("fn"),
    ];
    assert!(is_item_hidden(&hidden));
    assert!(!is_item_hidden(&vec![id("fn"), id("a")]));
}

#[test]
fn attribute_content_generation() {
    let store: Vec<(String, String)> = Vec::new();
    let out = generate_attr_content(
        vec![id("linux"), p(':'), id("os")],
        vec![id("fn"), id("a")],
        &store,
        &store,
        true,
    )
    .unwrap();
    assert_eq!(out.cfg_ts, "#[cfg(any(doc, target_os = \"linux\"))]");
    assert_eq!(out.content, vec![id("fn"), id("a")]);
}
