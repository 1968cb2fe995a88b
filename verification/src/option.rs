//! Attribute and match options: the negatable toggle scans of the
//! attribute-style entry point.
use vstd::prelude::*;

use crate::errors::CfgBoostError;
use crate::errors::ErrorView;
use crate::pattern::TargetGroup;
use crate::pattern::spec_groups;
use crate::text::char_to_string;
use crate::tokens::Token;

verus! {

/// Attribute options: documentation, debug and override toggles, each
/// negatable with a leading `!`.
#[derive(Debug, Clone, Copy, PartialEq, Eq, Structural)]
pub struct TargetAttributeOption {
    /// Whether documentation is allowed.
    pub allow_doc: bool,
    /// Whether the debug symbol `@` is active.
    pub is_debug: bool,
    /// Forced outcome of the condition, when set with `*` or `!*`.
    pub always_this: Option<bool>,
}

/// Match options: the attribute toggles plus arm exclusivity.
#[derive(Debug, Clone, Copy, PartialEq, Eq, Structural)]
pub struct TargetMatchOption {
    /// Whether documentation is allowed.
    pub allow_doc: bool,
    /// Whether the debug symbol `@` is active.
    pub is_debug: bool,
    /// Whether arms are mutually exclusive.
    pub is_exclusive: bool,
    /// Whether the macro was called from inside a function.
    pub is_inner_macro: bool,
}

/// One step of the attribute-option scan.
pub open spec fn spec_attr_option_step(
    o: TargetAttributeOption,
    is_not: bool,
    t: Token,
) -> Result<(TargetAttributeOption, bool), ErrorView> {
    match t {
        Token::Punct(c) => {
            if c == '!' {
                Ok((o, true))
            } else if c == '@' {
                Ok((TargetAttributeOption { is_debug: !is_not, ..o }, false))
            } else if c == '?' {
                Ok((TargetAttributeOption { allow_doc: !is_not, ..o }, false))
            } else if c == '*' {
                Ok((TargetAttributeOption { always_this: Some(!is_not), ..o }, false))
            } else {
                Err(ErrorView::InvalidCharacter(seq![c]))
            }
        },
        _ => Ok((o, is_not)),
    }
}

/// The attribute-option scan over the first `i` symbol tokens.
pub open spec fn spec_attr_option_scan(
    o0: TargetAttributeOption,
    tokens: Seq<Token>,
    i: int,
) -> Result<(TargetAttributeOption, bool), ErrorView>
    decreases i,
{
    if i <= 0 {
        Ok((o0, false))
    } else {
        match spec_attr_option_scan(o0, tokens, i - 1) {
            Err(e) => Err(e),
            Ok((o, is_not)) => spec_attr_option_step(o, is_not, tokens[i - 1]),
        }
    }
}

/// A scan error in a prefix is the whole scan's outcome.
proof fn lemma_attr_option_scan_err(
    o0: TargetAttributeOption,
    tokens: Seq<Token>,
    i: int,
    j: int,
)
    requires
        0 <= i <= j,
        spec_attr_option_scan(o0, tokens, i) is Err,
    ensures
        spec_attr_option_scan(o0, tokens, j) == spec_attr_option_scan(o0, tokens, i),
    decreases j - i,
{
    if j > i {
        lemma_attr_option_scan_err(o0, tokens, i, j - 1);
    }
}

/// Scan symbol tokens into an attribute-option record starting from
/// the defaults `o0`.
fn attr_option_scan(o0: TargetAttributeOption, symbol: &Vec<Token>) -> (r: Result<
    TargetAttributeOption,
    CfgBoostError,
>)
    ensures
        match r {
            Ok(o) => spec_attr_option_scan(o0, symbol@, symbol@.len() as int) matches Ok(p) && p.0
                == o,
            Err(e) => spec_attr_option_scan(o0, symbol@, symbol@.len() as int) == Err::<
                (TargetAttributeOption, bool),
                ErrorView,
            >(e@),
        },
{
    let n = symbol.len();
    let mut o = o0;
    let mut is_not = false;
    let mut i: usize = 0;
    #[verifier::loop_isolation(false)]
    while i < n
        invariant
            i <= n,
            spec_attr_option_scan(o0, symbol@, i as int) == Ok::<
                (TargetAttributeOption, bool),
                ErrorView,
            >((o, is_not)),
        decreases n - i,
    {
        match &symbol[i] {
            Token::Punct(c) => {
                let c = *c;
                if c == '!' {
                    is_not = true;
                } else if c == '@' {
                    o.is_debug = !is_not;
                    is_not = false;
                } else if c == '?' {
                    o.allow_doc = !is_not;
                    is_not = false;
                } else if c == '*' {
                    o.always_this = Some(!is_not);
                    is_not = false;
                } else {
                    proof {
                        lemma_attr_option_scan_err(o0, symbol@, i as int + 1, n as int);
                    }
                    return Err(CfgBoostError::InvalidCharacter(char_to_string(c)));
                }
            },
            _ => {},
        }
        i = i + 1;
    }
    Ok(o)
}

impl TargetAttributeOption {
    /// Create attribute options from symbol tokens, starting from the
    /// build's defaults.
    pub fn new(symbol: &Vec<Token>, doc_build: bool) -> (r: Result<
        TargetAttributeOption,
        CfgBoostError,
    >)
        ensures
            match r {
                Ok(o) => spec_attr_option_scan(
                    TargetAttributeOption {
                        allow_doc: doc_build,
                        is_debug: false,
                        always_this: None,
                    },
                    symbol@,
                    symbol@.len() as int,
                ) matches Ok(p) && p.0 == o,
                Err(e) => spec_attr_option_scan(
                    TargetAttributeOption {
                        allow_doc: doc_build,
                        is_debug: false,
                        always_this: None,
                    },
                    symbol@,
                    symbol@.len() as int,
                ) == Err::<(TargetAttributeOption, bool), ErrorView>(e@),
            },
    {
        attr_option_scan(
            TargetAttributeOption { allow_doc: doc_build, is_debug: false, always_this: None },
            symbol,
        )
    }

    /// Create attribute options from symbol tokens, with the match
    /// options as defaults; a debug setting made at the match level
    /// cannot be turned off locally.
    pub fn from_match(match_opt: &TargetMatchOption, symbol: &Vec<Token>) -> (r: Result<
        TargetAttributeOption,
        CfgBoostError,
    >)
        ensures
            match r {
                Ok(o) => spec_from_match_option_scan(*match_opt, symbol@, symbol@.len() as int)
                    matches Ok(p) && p.0 == o,
                Err(e) => spec_from_match_option_scan(*match_opt, symbol@, symbol@.len() as int)
                    == Err::<(TargetAttributeOption, bool), ErrorView>(e@),
            },
    {
        let n = symbol.len();
        let mut o = TargetAttributeOption {
            allow_doc: match_opt.allow_doc,
            is_debug: match_opt.is_debug,
            always_this: None,
        };
        let mut is_not = false;
        let mut i: usize = 0;
        #[verifier::loop_isolation(false)]
        while i < n
            invariant
                i <= n,
                spec_from_match_option_scan(*match_opt, symbol@, i as int) == Ok::<
                    (TargetAttributeOption, bool),
                    ErrorView,
                >((o, is_not)),
            decreases n - i,
        {
            match &symbol[i] {
                Token::Punct(c) => {
                    let c = *c;
                    if c == '!' {
                        is_not = true;
                    } else if c == '@' {
                        if !match_opt.is_debug {
                            o.is_debug = !is_not;
                        }
                        is_not = false;
                    } else if c == '?' {
                        o.allow_doc = !is_not;
                        is_not = false;
                    } else if c == '*' {
                        o.always_this = Some(!is_not);
                        is_not = false;
                    } else {
                        proof {
                            lemma_from_match_option_scan_err(
                                *match_opt,
                                symbol@,
                                i as int + 1,
                                n as int,
                            );
                        }
                        return Err(CfgBoostError::InvalidCharacter(char_to_string(c)));
                    }
                },
                _ => {},
            }
            i = i + 1;
        }
        Ok(o)
    }
}

/// One step of the match-scoped attribute-option scan.
pub open spec fn spec_from_match_option_step(
    match_opt: TargetMatchOption,
    o: TargetAttributeOption,
    is_not: bool,
    t: Token,
) -> Result<(TargetAttributeOption, bool), ErrorView> {
    match t {
        Token::Punct(c) => {
            if c == '!' {
                Ok((o, true))
            } else if c == '@' {
                Ok(
                    (
                        if match_opt.is_debug {
                            o
                        } else {
                            TargetAttributeOption { is_debug: !is_not, ..o }
                        },
                        false,
                    ),
                )
            } else if c == '?' {
                Ok((TargetAttributeOption { allow_doc: !is_not, ..o }, false))
            } else if c == '*' {
                Ok((TargetAttributeOption { always_this: Some(!is_not), ..o }, false))
            } else {
                Err(ErrorView::InvalidCharacter(seq![c]))
            }
        },
        _ => Ok((o, is_not)),
    }
}

/// The match-scoped attribute-option scan over the first `i` tokens.
pub open spec fn spec_from_match_option_scan(
    match_opt: TargetMatchOption,
    tokens: Seq<Token>,
    i: int,
) -> Result<(TargetAttributeOption, bool), ErrorView>
    decreases i,
{
    if i <= 0 {
        Ok(
            (
                TargetAttributeOption {
                    allow_doc: match_opt.allow_doc,
                    is_debug: match_opt.is_debug,
                    always_this: None,
                },
                false,
            ),
        )
    } else {
        match spec_from_match_option_scan(match_opt, tokens, i - 1) {
            Err(e) => Err(e),
            Ok((o, is_not)) => spec_from_match_option_step(match_opt, o, is_not, tokens[i - 1]),
        }
    }
}

/// A scan error in a prefix is the whole scan's outcome.
proof fn lemma_from_match_option_scan_err(
    match_opt: TargetMatchOption,
    tokens: Seq<Token>,
    i: int,
    j: int,
)
    requires
        0 <= i <= j,
        spec_from_match_option_scan(match_opt, tokens, i) is Err,
    ensures
        spec_from_match_option_scan(match_opt, tokens, j) == spec_from_match_option_scan(
            match_opt,
            tokens,
            i,
        ),
    decreases j - i,
{
    if j > i {
        lemma_from_match_option_scan_err(match_opt, tokens, i, j - 1);
    }
}

/// One step of the match-option scan.
pub open spec fn spec_match_option_step(
    o: TargetMatchOption,
    is_not: bool,
    t: Token,
) -> Result<(TargetMatchOption, bool), ErrorView> {
    match t {
        Token::Punct(c) => {
            if c == '!' {
                Ok((o, true))
            } else if c == '@' {
                Ok((TargetMatchOption { is_debug: !is_not, ..o }, false))
            } else if c == '?' {
                Ok((TargetMatchOption { allow_doc: !is_not, ..o }, false))
            } else if c == '$' {
                Ok((TargetMatchOption { is_exclusive: !is_not, ..o }, false))
            } else {
                Err(ErrorView::InvalidCharacter(seq![c]))
            }
        },
        _ => Ok((o, is_not)),
    }
}

/// The match-option scan over the first `i` symbol tokens.
pub open spec fn spec_match_option_scan(
    o0: TargetMatchOption,
    tokens: Seq<Token>,
    i: int,
) -> Result<(TargetMatchOption, bool), ErrorView>
    decreases i,
{
    if i <= 0 {
        Ok((o0, false))
    } else {
        match spec_match_option_scan(o0, tokens, i - 1) {
            Err(e) => Err(e),
            Ok((o, is_not)) => spec_match_option_step(o, is_not, tokens[i - 1]),
        }
    }
}

/// A scan error in a prefix is the whole scan's outcome.
proof fn lemma_match_option_scan_err(
    o0: TargetMatchOption,
    tokens: Seq<Token>,
    i: int,
    j: int,
)
    requires
        0 <= i <= j,
        spec_match_option_scan(o0, tokens, i) is Err,
    ensures
        spec_match_option_scan(o0, tokens, j) == spec_match_option_scan(o0, tokens, i),
    decreases j - i,
{
    if j > i {
        lemma_match_option_scan_err(o0, tokens, i, j - 1);
    }
}

/// True when the group's item holds a flow-of-control keyword.
pub open spec fn spec_group_inner(g: crate::pattern::GroupView) -> bool {
    exists|j: int|
        0 <= j < g.item.len() && ((#[trigger] g.item[j]) matches Token::Ident(x)
            && crate::modifiers::spec_inner_keyword(x@))
}

/// True when some group's item holds a flow-of-control keyword.
pub open spec fn spec_groups_inner(tg: Seq<crate::pattern::GroupView>) -> bool {
    exists|i: int| 0 <= i < tg.len() && spec_group_inner(#[trigger] tg[i])
}

/// True when some group's item holds a flow-of-control keyword.
fn groups_inner(tg: &Vec<TargetGroup>) -> (r: bool)
    ensures
        r == spec_groups_inner(spec_groups(tg@)),
{
    let n = tg.len();
    let mut i: usize = 0;
    while i < n
        invariant
            n == tg@.len(),
            i <= n,
            forall|j: int| 0 <= j < i ==> !spec_group_inner(#[trigger] spec_groups(tg@)[j]),
        decreases n - i,
    {
        let m = tg[i].item.len();
        let mut k: usize = 0;
        while k < m
            invariant
                n == tg@.len(),
                i < n,
                m == tg@[i as int].item@.len(),
                k <= m,
                forall|q: int|
                    0 <= q < k ==> !((#[trigger] tg@[i as int].item@[q]) matches Token::Ident(x)
                        && crate::modifiers::spec_inner_keyword(x@)),
            decreases m - k,
        {
            match &tg[i].item[k] {
                Token::Ident(x) => {
                    if crate::text::str_eq(x.as_str(), "let") || crate::text::str_eq(
                        x.as_str(),
                        "if",
                    ) || crate::text::str_eq(x.as_str(), "else") || crate::text::str_eq(
                        x.as_str(),
                        "loop",
                    ) || crate::text::str_eq(x.as_str(), "break") || crate::text::str_eq(
                        x.as_str(),
                        "while",
                    ) || crate::text::str_eq(x.as_str(), "for") || crate::text::str_eq(
                        x.as_str(),
                        "match",
                    ) || crate::text::str_eq(x.as_str(), "println") {
                        proof {
                            assert(spec_groups(tg@)[i as int].item[k as int]
                                == tg@[i as int].item@[k as int]);
                        }
                        return true;
                    }
                },
                _ => {},
            }
            k = k + 1;
        }
        proof {
            assert(spec_groups(tg@)[i as int].item =~= tg@[i as int].item@);
        }
        i = i + 1;
    }
    false
}

impl TargetMatchOption {
    /// Create match options from symbol tokens and the extracted
    /// groups, starting from the build's defaults: documentation
    /// follows the build and arms are exclusive.
    pub fn new(symbol: &Vec<Token>, tg: &Vec<TargetGroup>, doc_build: bool) -> (r: Result<
        TargetMatchOption,
        CfgBoostError,
    >)
        ensures
            match r {
                Ok(o) => spec_match_option_scan(
                    TargetMatchOption {
                        allow_doc: doc_build,
                        is_debug: false,
                        is_exclusive: true,
                        is_inner_macro: false,
                    },
                    symbol@,
                    symbol@.len() as int,
                ) matches Ok(p) && o == (TargetMatchOption {
                    is_inner_macro: spec_groups_inner(spec_groups(tg@)),
                    ..p.0
                }),
                Err(e) => spec_match_option_scan(
                    TargetMatchOption {
                        allow_doc: doc_build,
                        is_debug: false,
                        is_exclusive: true,
                        is_inner_macro: false,
                    },
                    symbol@,
                    symbol@.len() as int,
                ) == Err::<(TargetMatchOption, bool), ErrorView>(e@),
            },
    {
        let ghost o0 = TargetMatchOption {
            allow_doc: doc_build,
            is_debug: false,
            is_exclusive: true,
            is_inner_macro: false,
        };
        let n = symbol.len();
        let mut o = TargetMatchOption {
            allow_doc: doc_build,
            is_debug: false,
            is_exclusive: true,
            is_inner_macro: false,
        };
        let mut is_not = false;
        let mut i: usize = 0;
        #[verifier::loop_isolation(false)]
        while i < n
            invariant
                i <= n,
                spec_match_option_scan(o0, symbol@, i as int) == Ok::<
                    (TargetMatchOption, bool),
                    ErrorView,
                >((o, is_not)),
            decreases n - i,
        {
            match &symbol[i] {
                Token::Punct(c) => {
                    let c = *c;
                    if c == '!' {
                        is_not = true;
                    } else if c == '@' {
                        o.is_debug = !is_not;
                        is_not = false;
                    } else if c == '?' {
                        o.allow_doc = !is_not;
                        is_not = false;
                    } else if c == '$' {
                        o.is_exclusive = !is_not;
                        is_not = false;
                    } else {
                        proof {
                            lemma_match_option_scan_err(o0, symbol@, i as int + 1, n as int);
                        }
                        return Err(CfgBoostError::InvalidCharacter(char_to_string(c)));
                    }
                },
                _ => {},
            }
            i = i + 1;
        }
        o.is_inner_macro = groups_inner(tg);
        Ok(o)
    }
}

} // verus!
