//! Arm modifiers, the active-arm counter and its comparison operator.
use vstd::prelude::*;
use vstd::string::StringExecFns;

use crate::errors::CfgBoostError;
use crate::errors::ErrorView;
use crate::text::char_to_string;
use crate::text::parse_usize;
use crate::text::spec_parse_usize;
use crate::text::str_eq;
use crate::tokens::Delimiter;
use crate::tokens::Token;

verus! {

/// Negative modifier symbol.
pub const NEGATIVE_MODIFIER: char = '!';

/// Panic print modifier symbol.
pub const PRINT_MODIFIER: char = '#';

/// Documentation modifier symbol.
pub const DOC_MODIFIER: char = '?';

/// Debug modifier symbol.
pub const DEBUG_MODIFIER: char = '@';

/// Value override modifier symbol.
pub const OVERRIDE_MODIFIER: char = '*';

/// Guard modifier symbol.
pub const GUARD_MODIFIER: char = '$';

/// Added branch symbol: included only when a prior branch was.
pub const ADDED_BRANCH: char = '+';

/// Exclusive branch symbol: included only when no prior branch was.
pub const EXCLUSIVE_BRANCH: char = '_';

/// Operator equal.
pub const EQUAL_OP: char = '=';

/// Operator greater.
pub const GREATER_OP: char = '>';

/// Operator less than.
pub const LESS_OP: char = '<';

/// Comparison operator used when validating the number of active arms.
#[derive(Debug, Clone, Copy, PartialEq, Eq, Structural)]
pub enum TargetActiveComparisonOperator {
    /// Equal `=`
    Equal,
    /// Not equal `!=`
    NotEqual,
    /// Greater than `>`
    GreaterThan,
    /// Less than `<`
    LessThan,
    /// Greater than or equal to `>=`
    GreaterEqualThan,
    /// Less than or equal to `<=`
    LessEqualThan,
}

impl TargetActiveComparisonOperator {
    /// What `compare` returns, as a mathematical relation.
    pub open spec fn spec_compare(self, value: int, control: int) -> bool {
        match self {
            TargetActiveComparisonOperator::Equal => value == control,
            TargetActiveComparisonOperator::NotEqual => value != control,
            TargetActiveComparisonOperator::GreaterThan => value > control,
            TargetActiveComparisonOperator::LessThan => value < control,
            TargetActiveComparisonOperator::GreaterEqualThan => value >= control,
            TargetActiveComparisonOperator::LessEqualThan => value <= control,
        }
    }

    /// Textual form of the operator.
    pub open spec fn spec_text(self) -> Seq<char> {
        match self {
            TargetActiveComparisonOperator::Equal => "="@,
            TargetActiveComparisonOperator::NotEqual => "!="@,
            TargetActiveComparisonOperator::GreaterThan => ">"@,
            TargetActiveComparisonOperator::LessThan => "<"@,
            TargetActiveComparisonOperator::GreaterEqualThan => ">="@,
            TargetActiveComparisonOperator::LessEqualThan => "<="@,
        }
    }

    /// Write the operator as it is spelled in an arm's modifier list.
    pub fn to_text(&self) -> (r: &'static str)
        ensures
            r@ == self.spec_text(),
    {
        match self {
            TargetActiveComparisonOperator::Equal => "=",
            TargetActiveComparisonOperator::NotEqual => "!=",
            TargetActiveComparisonOperator::GreaterThan => ">",
            TargetActiveComparisonOperator::LessThan => "<",
            TargetActiveComparisonOperator::GreaterEqualThan => ">=",
            TargetActiveComparisonOperator::LessEqualThan => "<=",
        }
    }

    /// Compare `value` against `control` and return the boolean result.
    pub fn compare(&self, value: usize, control: usize) -> (r: bool)
        ensures
            r == self.spec_compare(value as int, control as int),
    {
        match self {
            TargetActiveComparisonOperator::Equal => value == control,
            TargetActiveComparisonOperator::NotEqual => value != control,
            TargetActiveComparisonOperator::GreaterThan => value > control,
            TargetActiveComparisonOperator::LessThan => value < control,
            TargetActiveComparisonOperator::GreaterEqualThan => value >= control,
            TargetActiveComparisonOperator::LessEqualThan => value <= control,
        }
    }
}

/// Attribute modifiers: documentation, panic dump, debug-only and
/// override toggles, each negatable with a leading `!`.
#[derive(Debug, Clone, Copy, PartialEq, Eq, Structural)]
pub struct TargetAttributeModifier {
    /// Whether documentation is allowed.
    pub allow_doc: bool,
    /// Whether the panic dump symbol `#` is active.
    pub is_panic_result: bool,
    /// Whether the item is for debug builds only (`Some(false)`: never).
    pub debug_only: Option<bool>,
    /// Forced outcome of the condition, when set with `*` or `!*`.
    pub always_this: Option<bool>,
}

/// Whole-invocation modifiers: the attribute toggles plus the branch
/// guard and the active-count comparison.
#[derive(Debug, Clone, Copy, PartialEq, Eq, Structural)]
pub struct TargetCfgModifier {
    /// Whether documentation is allowed.
    pub allow_doc: bool,
    /// Whether the panic dump symbol `#` is active.
    pub is_panic_result: bool,
    /// Whether the invocation is for debug builds only.
    pub debug_only: Option<bool>,
    /// Whether the macro was called from inside a function.
    pub is_inner_macro: bool,
    /// Whether the branch guard is active.
    pub activate_branch_guard: bool,
    /// Comparison operator for the active-arm count.
    pub operator: TargetActiveComparisonOperator,
    /// Control value the active-arm count is compared with.
    pub control: usize,
}

/// One step of the attribute-modifier scan: the modifier record so
/// far, the pending negation, and one token.
pub open spec fn spec_attr_modifier_step(
    m: TargetAttributeModifier,
    is_not: bool,
    t: Token,
) -> Result<(TargetAttributeModifier, bool), ErrorView> {
    match t {
        Token::Punct(c) => {
            if c == NEGATIVE_MODIFIER {
                Ok((m, true))
            } else if c == PRINT_MODIFIER {
                Ok((TargetAttributeModifier { is_panic_result: !is_not, ..m }, false))
            } else if c == DOC_MODIFIER {
                Ok((TargetAttributeModifier { allow_doc: !is_not, ..m }, false))
            } else if c == DEBUG_MODIFIER {
                Ok((TargetAttributeModifier { debug_only: Some(!is_not), ..m }, false))
            } else if c == OVERRIDE_MODIFIER {
                Ok((TargetAttributeModifier { always_this: Some(!is_not), ..m }, false))
            } else if c == ',' {
                Ok((m, is_not))
            } else {
                Err(ErrorView::InvalidCharacter(seq![c]))
            }
        },
        _ => Ok((m, is_not)),
    }
}

/// The attribute-modifier scan over the first `i` symbol tokens.
pub open spec fn spec_attr_modifier_scan(
    m0: TargetAttributeModifier,
    tokens: Seq<Token>,
    i: int,
) -> Result<(TargetAttributeModifier, bool), ErrorView>
    decreases i,
{
    if i <= 0 {
        Ok((m0, false))
    } else {
        match spec_attr_modifier_scan(m0, tokens, i - 1) {
            Err(e) => Err(e),
            Ok((m, is_not)) => spec_attr_modifier_step(m, is_not, tokens[i - 1]),
        }
    }
}

/// A scan error in a prefix is the whole scan's outcome.
proof fn lemma_attr_modifier_scan_err(
    m0: TargetAttributeModifier,
    tokens: Seq<Token>,
    i: int,
    j: int,
)
    requires
        0 <= i <= j,
        spec_attr_modifier_scan(m0, tokens, i) is Err,
    ensures
        spec_attr_modifier_scan(m0, tokens, j) == spec_attr_modifier_scan(m0, tokens, i),
    decreases j - i,
{
    if j > i {
        lemma_attr_modifier_scan_err(m0, tokens, i, j - 1);
    }
}

/// Scan the symbol tokens into an attribute-modifier record starting
/// from the defaults `m0`.
fn attr_modifier_scan(m0: TargetAttributeModifier, symbol: &Vec<Token>) -> (r: Result<
    TargetAttributeModifier,
    CfgBoostError,
>)
    ensures
        match r {
            Ok(m) => spec_attr_modifier_scan(m0, symbol@, symbol@.len() as int) matches Ok(p)
                && p.0 == m,
            Err(e) => spec_attr_modifier_scan(m0, symbol@, symbol@.len() as int) == Err::<
                (TargetAttributeModifier, bool),
                ErrorView,
            >(e@),
        },
{
    let n = symbol.len();
    let mut m = m0;
    let mut is_not = false;
    let mut i: usize = 0;
    #[verifier::loop_isolation(false)]
    while i < n
        invariant
            i <= n,
            spec_attr_modifier_scan(m0, symbol@, i as int) == Ok::<
                (TargetAttributeModifier, bool),
                ErrorView,
            >((m, is_not)),
        decreases n - i,
    {
        match &symbol[i] {
            Token::Punct(c) => {
                let c = *c;
                if c == NEGATIVE_MODIFIER {
                    is_not = true;
                } else if c == PRINT_MODIFIER {
                    m.is_panic_result = !is_not;
                    is_not = false;
                } else if c == DOC_MODIFIER {
                    m.allow_doc = !is_not;
                    is_not = false;
                } else if c == DEBUG_MODIFIER {
                    m.debug_only = Some(!is_not);
                    is_not = false;
                } else if c == OVERRIDE_MODIFIER {
                    m.always_this = Some(!is_not);
                    is_not = false;
                } else if c == ',' {
                } else {
                    proof {
                        lemma_attr_modifier_scan_err(m0, symbol@, i as int + 1, n as int);
                    }
                    return Err(CfgBoostError::InvalidCharacter(char_to_string(c)));
                }
            },
            _ => {},
        }
        i = i + 1;
    }
    Ok(m)
}

impl TargetAttributeModifier {
    /// Create a new attribute modifier record from symbol tokens,
    /// starting from the build's defaults.
    ///
    /// Returns `CfgBoostError::InvalidCharacter` on a punctuation that
    /// is no modifier symbol.
    pub fn new(symbol: &Vec<Token>, doc_build: bool) -> (r: Result<
        TargetAttributeModifier,
        CfgBoostError,
    >)
        ensures
            match r {
                Ok(m) => spec_attr_modifier_scan(
                    TargetAttributeModifier {
                        allow_doc: doc_build,
                        is_panic_result: false,
                        debug_only: None,
                        always_this: None,
                    },
                    symbol@,
                    symbol@.len() as int,
                ) matches Ok(p) && p.0 == m,
                Err(e) => spec_attr_modifier_scan(
                    TargetAttributeModifier {
                        allow_doc: doc_build,
                        is_panic_result: false,
                        debug_only: None,
                        always_this: None,
                    },
                    symbol@,
                    symbol@.len() as int,
                ) == Err::<(TargetAttributeModifier, bool), ErrorView>(e@),
            },
    {
        attr_modifier_scan(
            TargetAttributeModifier {
                allow_doc: doc_build,
                is_panic_result: false,
                debug_only: None,
                always_this: None,
            },
            symbol,
        )
    }

    /// Create an attribute modifier record from symbol tokens, with
    /// the whole invocation's modifiers as defaults.
    ///
    /// A panic dump or debug-only setting made at the invocation level
    /// cannot be overridden locally.
    pub fn from_match(match_opt: &TargetCfgModifier, symbol: &Vec<Token>) -> (r: Result<
        TargetAttributeModifier,
        CfgBoostError,
    >)
        ensures
            match r {
                Ok(m) => {
                    &&& spec_from_match_scan(*match_opt, symbol@, symbol@.len() as int) matches Ok(
                        p,
                    ) && p.0 == m
                    &&& match_opt.is_panic_result ==> m.is_panic_result
                    &&& match_opt.debug_only is Some ==> m.debug_only == match_opt.debug_only
                },
                Err(e) => spec_from_match_scan(*match_opt, symbol@, symbol@.len() as int) == Err::<
                    (TargetAttributeModifier, bool),
                    ErrorView,
                >(e@),
            },
    {
        proof {
            lemma_from_match_scan_pinned(*match_opt, symbol@, symbol@.len() as int);
        }
        let n = symbol.len();
        let mut m = TargetAttributeModifier {
            allow_doc: match_opt.allow_doc,
            is_panic_result: match_opt.is_panic_result,
            debug_only: match_opt.debug_only,
            always_this: None,
        };
        let mut is_not = false;
        let mut i: usize = 0;
        #[verifier::loop_isolation(false)]
        while i < n
            invariant
                i <= n,
                spec_from_match_scan(*match_opt, symbol@, i as int) == Ok::<
                    (TargetAttributeModifier, bool),
                    ErrorView,
                >((m, is_not)),
            decreases n - i,
        {
            match &symbol[i] {
                Token::Punct(c) => {
                    let c = *c;
                    if c == NEGATIVE_MODIFIER {
                        is_not = true;
                    } else if c == PRINT_MODIFIER {
                        if !match_opt.is_panic_result {
                            m.is_panic_result = !is_not;
                        }
                        is_not = false;
                    } else if c == DEBUG_MODIFIER {
                        match match_opt.debug_only {
                            Some(_) => {},
                            None => {
                                m.debug_only = Some(!is_not);
                            },
                        }
                        is_not = false;
                    } else if c == DOC_MODIFIER {
                        m.allow_doc = !is_not;
                        is_not = false;
                    } else if c == OVERRIDE_MODIFIER {
                        m.always_this = Some(!is_not);
                        is_not = false;
                    } else if c == ',' {
                    } else {
                        proof {
                            lemma_from_match_scan_err(*match_opt, symbol@, i as int + 1, n as int);
                        }
                        return Err(CfgBoostError::InvalidCharacter(char_to_string(c)));
                    }
                },
                _ => {},
            }
            i = i + 1;
        }
        Ok(m)
    }
}

/// One step of the match-scoped attribute-modifier scan.
pub open spec fn spec_from_match_step(
    match_opt: TargetCfgModifier,
    m: TargetAttributeModifier,
    is_not: bool,
    t: Token,
) -> Result<(TargetAttributeModifier, bool), ErrorView> {
    match t {
        Token::Punct(c) => {
            if c == NEGATIVE_MODIFIER {
                Ok((m, true))
            } else if c == PRINT_MODIFIER {
                Ok(
                    (
                        if match_opt.is_panic_result {
                            m
                        } else {
                            TargetAttributeModifier { is_panic_result: !is_not, ..m }
                        },
                        false,
                    ),
                )
            } else if c == DEBUG_MODIFIER {
                Ok(
                    (
                        if match_opt.debug_only is Some {
                            m
                        } else {
                            TargetAttributeModifier { debug_only: Some(!is_not), ..m }
                        },
                        false,
                    ),
                )
            } else if c == DOC_MODIFIER {
                Ok((TargetAttributeModifier { allow_doc: !is_not, ..m }, false))
            } else if c == OVERRIDE_MODIFIER {
                Ok((TargetAttributeModifier { always_this: Some(!is_not), ..m }, false))
            } else if c == ',' {
                Ok((m, is_not))
            } else {
                Err(ErrorView::InvalidCharacter(seq![c]))
            }
        },
        _ => Ok((m, is_not)),
    }
}

/// The match-scoped attribute-modifier scan over the first `i` tokens.
pub open spec fn spec_from_match_scan(
    match_opt: TargetCfgModifier,
    tokens: Seq<Token>,
    i: int,
) -> Result<(TargetAttributeModifier, bool), ErrorView>
    decreases i,
{
    if i <= 0 {
        Ok(
            (
                TargetAttributeModifier {
                    allow_doc: match_opt.allow_doc,
                    is_panic_result: match_opt.is_panic_result,
                    debug_only: match_opt.debug_only,
                    always_this: None,
                },
                false,
            ),
        )
    } else {
        match spec_from_match_scan(match_opt, tokens, i - 1) {
            Err(e) => Err(e),
            Ok((m, is_not)) => spec_from_match_step(match_opt, m, is_not, tokens[i - 1]),
        }
    }
}

/// A scan error in a prefix is the whole scan's outcome.
proof fn lemma_from_match_scan_err(
    match_opt: TargetCfgModifier,
    tokens: Seq<Token>,
    i: int,
    j: int,
)
    requires
        0 <= i <= j,
        spec_from_match_scan(match_opt, tokens, i) is Err,
    ensures
        spec_from_match_scan(match_opt, tokens, j) == spec_from_match_scan(match_opt, tokens, i),
    decreases j - i,
{
    if j > i {
        lemma_from_match_scan_err(match_opt, tokens, i, j - 1);
    }
}

/// The invocation-level panic dump and debug-only settings cannot be
/// overridden by the local scan.
proof fn lemma_from_match_scan_pinned(match_opt: TargetCfgModifier, tokens: Seq<Token>, i: int)
    ensures
        spec_from_match_scan(match_opt, tokens, i) matches Ok(p) ==> {
            &&& match_opt.is_panic_result ==> p.0.is_panic_result
            &&& match_opt.debug_only is Some ==> p.0.debug_only == match_opt.debug_only
        },
    decreases i,
{
    if i > 0 {
        lemma_from_match_scan_pinned(match_opt, tokens, i - 1);
    }
}

/// One step of the invocation-modifier scan.
pub open spec fn spec_cfg_modifier_step(m: TargetCfgModifier, is_not: bool, t: Token) -> Result<
    (TargetCfgModifier, bool),
    ErrorView,
> {
    match t {
        Token::Punct(c) => {
            if c == NEGATIVE_MODIFIER {
                Ok((m, true))
            } else if c == PRINT_MODIFIER {
                Ok((TargetCfgModifier { is_panic_result: !is_not, ..m }, false))
            } else if c == DEBUG_MODIFIER {
                Ok((TargetCfgModifier { debug_only: Some(!is_not), ..m }, false))
            } else if c == DOC_MODIFIER {
                Ok((TargetCfgModifier { allow_doc: !is_not, ..m }, false))
            } else if c == GUARD_MODIFIER {
                Ok((TargetCfgModifier { activate_branch_guard: !is_not, ..m }, false))
            } else if c == EQUAL_OP {
                let op = match m.operator {
                    TargetActiveComparisonOperator::GreaterThan => TargetActiveComparisonOperator::GreaterEqualThan,
                    TargetActiveComparisonOperator::LessThan => TargetActiveComparisonOperator::LessEqualThan,
                    _ => if is_not {
                        TargetActiveComparisonOperator::NotEqual
                    } else {
                        TargetActiveComparisonOperator::Equal
                    },
                };
                Ok((TargetCfgModifier { operator: op, ..m }, false))
            } else if c == GREATER_OP {
                Ok(
                    (
                        TargetCfgModifier {
                            operator: TargetActiveComparisonOperator::GreaterThan,
                            ..m
                        },
                        false,
                    ),
                )
            } else if c == LESS_OP {
                Ok(
                    (
                        TargetCfgModifier { operator: TargetActiveComparisonOperator::LessThan, ..m },
                        false,
                    ),
                )
            } else if c == ',' {
                Ok((m, is_not))
            } else {
                Err(ErrorView::InvalidCharacter(seq![c]))
            }
        },
        Token::Literal(lit) => {
            match spec_parse_usize(lit@) {
                Some(v) => Ok((TargetCfgModifier { control: v as usize, ..m }, is_not)),
                None => Err(ErrorView::InvalidCharacter(lit@)),
            }
        },
        _ => Ok((m, false)),
    }
}

/// The invocation-modifier scan over the first `i` symbol tokens.
pub open spec fn spec_cfg_modifier_scan(
    m0: TargetCfgModifier,
    tokens: Seq<Token>,
    i: int,
) -> Result<(TargetCfgModifier, bool), ErrorView>
    decreases i,
{
    if i <= 0 {
        Ok((m0, false))
    } else {
        match spec_cfg_modifier_scan(m0, tokens, i - 1) {
            Err(e) => Err(e),
            Ok((m, is_not)) => spec_cfg_modifier_step(m, is_not, tokens[i - 1]),
        }
    }
}

/// A scan error in a prefix is the whole scan's outcome.
proof fn lemma_cfg_modifier_scan_err(m0: TargetCfgModifier, tokens: Seq<Token>, i: int, j: int)
    requires
        0 <= i <= j,
        spec_cfg_modifier_scan(m0, tokens, i) is Err,
    ensures
        spec_cfg_modifier_scan(m0, tokens, j) == spec_cfg_modifier_scan(m0, tokens, i),
    decreases j - i,
{
    if j > i {
        lemma_cfg_modifier_scan_err(m0, tokens, i, j - 1);
    }
}

/// The invocation-modifier defaults of a build: documentation follows
/// the build, the guard is on, and exactly one arm must be active.
pub open spec fn spec_cfg_modifier_default(doc_build: bool) -> TargetCfgModifier {
    TargetCfgModifier {
        allow_doc: doc_build,
        is_panic_result: false,
        debug_only: None,
        is_inner_macro: false,
        activate_branch_guard: true,
        operator: TargetActiveComparisonOperator::Equal,
        control: 1,
    }
}

impl TargetCfgModifier {
    /// Create the invocation modifiers from symbol tokens and the
    /// branches, starting from the build's defaults.
    ///
    /// Returns `CfgBoostError::InvalidCharacter` on a punctuation that
    /// is no modifier symbol and on a control value that is not a
    /// representable decimal number.
    pub fn new(symbol: &Vec<Token>, tg: &Vec<TargetBranch>, doc_build: bool) -> (r: Result<
        TargetCfgModifier,
        CfgBoostError,
    >)
        ensures
            match r {
                Ok(m) => spec_cfg_modifier_scan(
                    spec_cfg_modifier_default(doc_build),
                    symbol@,
                    symbol@.len() as int,
                ) matches Ok(p) && m == TargetCfgModifier {
                    is_inner_macro: spec_branches_inner(spec_branches(tg@)),
                    ..p.0
                },
                Err(e) => spec_cfg_modifier_scan(
                    spec_cfg_modifier_default(doc_build),
                    symbol@,
                    symbol@.len() as int,
                ) == Err::<(TargetCfgModifier, bool), ErrorView>(e@),
            },
    {
        let ghost m0 = spec_cfg_modifier_default(doc_build);
        let n = symbol.len();
        let mut m = TargetCfgModifier {
            allow_doc: doc_build,
            is_panic_result: false,
            debug_only: None,
            is_inner_macro: false,
            activate_branch_guard: true,
            operator: TargetActiveComparisonOperator::Equal,
            control: 1,
        };
        let mut is_not = false;
        let mut i: usize = 0;
        #[verifier::loop_isolation(false)]
        while i < n
            invariant
                i <= n,
                spec_cfg_modifier_scan(m0, symbol@, i as int) == Ok::<
                    (TargetCfgModifier, bool),
                    ErrorView,
                >((m, is_not)),
            decreases n - i,
        {
            match &symbol[i] {
                Token::Punct(c) => {
                    let c = *c;
                    if c == NEGATIVE_MODIFIER {
                        is_not = true;
                    } else if c == PRINT_MODIFIER {
                        m.is_panic_result = !is_not;
                        is_not = false;
                    } else if c == DEBUG_MODIFIER {
                        m.debug_only = Some(!is_not);
                        is_not = false;
                    } else if c == DOC_MODIFIER {
                        m.allow_doc = !is_not;
                        is_not = false;
                    } else if c == GUARD_MODIFIER {
                        m.activate_branch_guard = !is_not;
                        is_not = false;
                    } else if c == EQUAL_OP {
                        m.operator = match m.operator {
                            TargetActiveComparisonOperator::GreaterThan => TargetActiveComparisonOperator::GreaterEqualThan,
                            TargetActiveComparisonOperator::LessThan => TargetActiveComparisonOperator::LessEqualThan,
                            _ => if is_not {
                                TargetActiveComparisonOperator::NotEqual
                            } else {
                                TargetActiveComparisonOperator::Equal
                            },
                        };
                        is_not = false;
                    } else if c == GREATER_OP {
                        m.operator = TargetActiveComparisonOperator::GreaterThan;
                        is_not = false;
                    } else if c == LESS_OP {
                        m.operator = TargetActiveComparisonOperator::LessThan;
                        is_not = false;
                    } else if c == ',' {
                    } else {
                        proof {
                            lemma_cfg_modifier_scan_err(m0, symbol@, i as int + 1, n as int);
                        }
                        return Err(CfgBoostError::InvalidCharacter(char_to_string(c)));
                    }
                },
                Token::Literal(lit) => {
                    match parse_usize(lit.as_str()) {
                        Some(v) => {
                            m.control = v;
                        },
                        None => {
                            proof {
                                lemma_cfg_modifier_scan_err(m0, symbol@, i as int + 1, n as int);
                            }
                            return Err(
                                CfgBoostError::InvalidCharacter(String::from_str(lit.as_str())),
                            );
                        },
                    }
                },
                _ => {
                    is_not = false;
                },
            }
            i = i + 1;
        }
        m.is_inner_macro = Self::is_inner_macro(tg);
        Ok(m)
    }

    /// True when some branch body holds a flow-of-control keyword at
    /// its top level, which is only found inside functions.
    pub fn is_inner_macro(tg: &Vec<TargetBranch>) -> (r: bool)
        ensures
            r == spec_branches_inner(spec_branches(tg@)),
    {
        let n = tg.len();
        let mut i: usize = 0;
        while i < n
            invariant
                n == tg@.len(),
                i <= n,
                forall|j: int|
                    0 <= j < i ==> !spec_branch_inner(#[trigger] spec_branches(tg@)[j]),
            decreases n - i,
        {
            if branch_is_inner(&tg[i]) {
                proof {
                    assert(spec_branch_inner(spec_branches(tg@)[i as int]));
                }
                return true;
            }
            i = i + 1;
        }
        false
    }
}

/// Possible branch types.
#[derive(Debug, Clone, Copy, PartialEq, Eq, Structural)]
pub enum TargetBranchType {
    /// Normal branch with predicates; counted by the active counter.
    Normal,
    /// Included only when a prior branch was; not counted.
    Added,
    /// Included only when no prior branch was; counted.
    Exclusive,
}

/// Mathematical model of one branch.
#[verifier::ext_equal]
pub struct BranchView {
    /// Branch type.
    pub branch_type: TargetBranchType,
    /// Branch attributes: modifier group and predicate tokens.
    pub attr: Seq<Token>,
    /// Branch body.
    pub content: Seq<Token>,
}

/// One branch: its type, attributes and body.
#[derive(Debug, PartialEq, Eq)]
pub struct TargetBranch {
    /// Branch type.
    pub branch_type: TargetBranchType,
    /// Branch attributes: modifier group and predicate tokens.
    pub attr: Vec<Token>,
    /// Branch body.
    pub content: Vec<Token>,
}

impl View for TargetBranch {
    type V = BranchView;

    open spec fn view(&self) -> BranchView {
        BranchView { branch_type: self.branch_type, attr: self.attr@, content: self.content@ }
    }
}

/// The views of a sequence of branches.
pub open spec fn spec_branches(tg: Seq<TargetBranch>) -> Seq<BranchView> {
    tg.map_values(|b: TargetBranch| b@)
}

/// True when `s` is a flow-of-control keyword of branch bodies.
pub open spec fn spec_inner_keyword(s: Seq<char>) -> bool {
    ||| s == "let"@
    ||| s == "if"@
    ||| s == "else"@
    ||| s == "loop"@
    ||| s == "break"@
    ||| s == "while"@
    ||| s == "for"@
    ||| s == "match"@
    ||| s == "println"@
}

/// True when the branch body holds a flow-of-control keyword.
pub open spec fn spec_branch_inner(b: BranchView) -> bool {
    exists|i: int|
        0 <= i < b.content.len() && ((#[trigger] b.content[i]) matches Token::Ident(x)
            && spec_inner_keyword(x@))
}

/// True when some branch body holds a flow-of-control keyword.
pub open spec fn spec_branches_inner(tg: Seq<BranchView>) -> bool {
    exists|i: int| 0 <= i < tg.len() && spec_branch_inner(#[trigger] tg[i])
}

/// True when the branch body holds a flow-of-control keyword.
fn branch_is_inner(b: &TargetBranch) -> (r: bool)
    ensures
        r == spec_branch_inner(b@),
{
    let n = b.content.len();
    let mut i: usize = 0;
    while i < n
        invariant
            n == b.content@.len(),
            i <= n,
            forall|j: int|
                0 <= j < i ==> !((#[trigger] b.content@[j]) matches Token::Ident(x)
                    && spec_inner_keyword(x@)),
        decreases n - i,
    {
        match &b.content[i] {
            Token::Ident(x) => {
                if str_eq(x.as_str(), "let") || str_eq(x.as_str(), "if") || str_eq(
                    x.as_str(),
                    "else",
                ) || str_eq(x.as_str(), "loop") || str_eq(x.as_str(), "break") || str_eq(
                    x.as_str(),
                    "while",
                ) || str_eq(x.as_str(), "for") || str_eq(x.as_str(), "match") || str_eq(
                    x.as_str(),
                    "println",
                ) {
                    return true;
                }
            },
            _ => {},
        }
        i = i + 1;
    }
    false
}

/// State of the branch extraction scan.
#[verifier::ext_equal]
pub struct BranchScanState {
    /// Branches closed so far.
    pub branchs: Seq<BranchView>,
    /// Type of the branch being built.
    pub branch_type: TargetBranchType,
    /// Attributes collected for the branch being built.
    pub attr: Seq<Token>,
    /// True once the exclusive branch was seen; it must be last.
    pub last_branch: bool,
}

/// The branch scan's start state.
pub open spec fn spec_branch_scan_init() -> BranchScanState {
    BranchScanState {
        branchs: Seq::empty(),
        branch_type: TargetBranchType::Normal,
        attr: Seq::empty(),
        last_branch: false,
    }
}

/// One step of the branch extraction scan: a parenthesized group
/// starts a normal branch's attributes, a bracketed group carries
/// modifiers, a braced group closes the branch as its body, `_` makes
/// an exclusive branch and `+` an added one.
pub open spec fn spec_branch_step(st: BranchScanState, t: Token) -> Result<
    BranchScanState,
    ErrorView,
> {
    match t {
        Token::Group(d, v) => {
            if d == Delimiter::Parenthesis {
                if st.last_branch {
                    Err(ErrorView::WildcardArmNotLast)
                } else {
                    Ok(
                        BranchScanState {
                            branch_type: TargetBranchType::Normal,
                            attr: st.attr + v@,
                            ..st
                        },
                    )
                }
            } else if d == Delimiter::Brace {
                Ok(
                    BranchScanState {
                        branchs: st.branchs.push(
                            BranchView {
                                branch_type: st.branch_type,
                                attr: st.attr,
                                content: v@,
                            },
                        ),
                        attr: Seq::empty(),
                        ..st
                    },
                )
            } else {
                if st.last_branch {
                    Err(ErrorView::WildcardArmNotLast)
                } else {
                    Ok(BranchScanState { attr: st.attr.push(t), ..st })
                }
            }
        },
        Token::Ident(s) => {
            if s@ == "_"@ {
                Ok(
                    BranchScanState {
                        branch_type: TargetBranchType::Exclusive,
                        attr: st.attr.push(t),
                        last_branch: true,
                        ..st
                    },
                )
            } else {
                Ok(st)
            }
        },
        Token::Punct(c) => {
            if c == ADDED_BRANCH {
                if st.last_branch {
                    Err(ErrorView::WildcardArmNotLast)
                } else {
                    Ok(
                        BranchScanState {
                            branch_type: TargetBranchType::Added,
                            attr: st.attr.push(t),
                            ..st
                        },
                    )
                }
            } else {
                Ok(st)
            }
        },
        Token::Literal(_) => Ok(st),
    }
}

/// The branch extraction scan over the first `i` input tokens.
pub open spec fn spec_branch_scan(tokens: Seq<Token>, i: int) -> Result<
    BranchScanState,
    ErrorView,
>
    decreases i,
{
    if i <= 0 {
        Ok(spec_branch_scan_init())
    } else {
        match spec_branch_scan(tokens, i - 1) {
            Err(e) => Err(e),
            Ok(st) => spec_branch_step(st, tokens[i - 1]),
        }
    }
}

/// A scan error in a prefix is the whole scan's outcome.
proof fn lemma_branch_scan_err(tokens: Seq<Token>, i: int, j: int)
    requires
        0 <= i <= j,
        spec_branch_scan(tokens, i) is Err,
    ensures
        spec_branch_scan(tokens, j) == spec_branch_scan(tokens, i),
    decreases j - i,
{
    if j > i {
        lemma_branch_scan_err(tokens, i, j - 1);
    }
}

impl TargetBranch {
    /// Create a new branch from its type, attributes and body.
    pub fn new(branch_type: TargetBranchType, attr: Vec<Token>, content: Vec<Token>) -> (r:
        TargetBranch)
        ensures
            r@ == (BranchView { branch_type, attr: attr@, content: content@ }),
    {
        TargetBranch { branch_type, attr, content }
    }

    /// Extract target branches from macro input into an ordered list;
    /// see `spec_branch_scan`.
    ///
    /// The exclusive `_` branch must be the last one.
    pub fn extract(source: Vec<Token>) -> (r: Result<Vec<TargetBranch>, CfgBoostError>)
        ensures
            match r {
                Ok(tg) => spec_branch_scan(source@, source@.len() as int) matches Ok(st)
                    && st.branchs == spec_branches(tg@),
                Err(e) => spec_branch_scan(source@, source@.len() as int) == Err::<
                    BranchScanState,
                    ErrorView,
                >(e@),
            },
    {
        let ghost orig = source@;
        let mut source = source;
        let mut branchs: Vec<TargetBranch> = Vec::new();
        let mut branch_type = TargetBranchType::Normal;
        let mut attr: Vec<Token> = Vec::new();
        let mut last_branch = false;
        let ghost mut p: int = 0;
        proof {
            assert(source@ =~= orig.skip(0));
            assert(BranchScanState {
                branchs: spec_branches(branchs@),
                branch_type,
                attr: attr@,
                last_branch,
            } =~= spec_branch_scan_init());
        }
        #[verifier::loop_isolation(false)]
        while source.len() > 0
            invariant
                0 <= p <= orig.len(),
                source@ == orig.skip(p),
                spec_branch_scan(orig, p) == Ok::<BranchScanState, ErrorView>(
                    BranchScanState {
                        branchs: spec_branches(branchs@),
                        branch_type,
                        attr: attr@,
                        last_branch,
                    },
                ),
            decreases source@.len(),
        {
            proof {
                assert(orig.skip(p)[0] == orig[p]);
            }
            let t = source.remove(0);
            proof {
                assert(source@ =~= orig.skip(p + 1));
            }
            match t {
                Token::Group(d, v) => {
                    if d == Delimiter::Parenthesis {
                        if last_branch {
                            proof {
                                lemma_branch_scan_err(orig, p + 1, orig.len() as int);
                            }
                            return Err(CfgBoostError::WildcardArmNotLast);
                        }
                        branch_type = TargetBranchType::Normal;
                        let ghost attr_pre = attr@;
                        let mut v = v;
                        let ghost inner = v@;
                        let ghost mut q: int = 0;
                        #[verifier::loop_isolation(false)]
                        while v.len() > 0
                            invariant
                                0 <= q <= inner.len(),
                                v@ == inner.skip(q),
                                attr@ == attr_pre + inner.take(q),
                            decreases v@.len(),
                        {
                            proof {
                                assert(inner.skip(q)[0] == inner[q]);
                            }
                            let tok = v.remove(0);
                            attr.push(tok);
                            proof {
                                q = q + 1;
                                assert(v@ =~= inner.skip(q));
                                assert(attr@ =~= attr_pre + inner.take(q));
                            }
                        }
                        proof {
                            assert(inner.take(inner.len() as int) =~= inner);
                            assert(attr@ =~= attr_pre + inner);
                        }
                    } else if d == Delimiter::Brace {
                        let ghost branchs_pre = branchs@;
                        let done_attr = attr;
                        attr = Vec::new();
                        branchs.push(
                            TargetBranch { branch_type, attr: done_attr, content: v },
                        );
                        proof {
                            assert(spec_branches(branchs@) =~= spec_branches(branchs_pre).push(
                                branchs@[branchs@.len() - 1]@,
                            ));
                        }
                    } else {
                        if last_branch {
                            proof {
                                lemma_branch_scan_err(orig, p + 1, orig.len() as int);
                            }
                            return Err(CfgBoostError::WildcardArmNotLast);
                        }
                        attr.push(Token::Group(d, v));
                    }
                },
                Token::Ident(s) => {
                    if str_eq(s.as_str(), "_") {
                        branch_type = TargetBranchType::Exclusive;
                        attr.push(Token::Ident(s));
                        last_branch = true;
                    }
                },
                Token::Punct(c) => {
                    if c == ADDED_BRANCH {
                        if last_branch {
                            proof {
                                lemma_branch_scan_err(orig, p + 1, orig.len() as int);
                            }
                            return Err(CfgBoostError::WildcardArmNotLast);
                        }
                        branch_type = TargetBranchType::Added;
                        attr.push(Token::Punct(c));
                    }
                },
                Token::Literal(_) => {},
            }
            proof {
                p = p + 1;
            }
        }
        proof {
            assert(orig.skip(p).len() == 0);
            assert(p == orig.len());
        }
        Ok(branchs)
    }
}

/// Textual name of a branch type.
pub open spec fn spec_branch_type_text(t: TargetBranchType) -> Seq<char> {
    match t {
        TargetBranchType::Normal => "Normal"@,
        TargetBranchType::Added => "Added"@,
        TargetBranchType::Exclusive => "Exclusive"@,
    }
}

/// The dump text of one branch.
pub open spec fn spec_branch_dump(b: BranchView) -> Seq<char> {
    "\nBranch : "@ + crate::tokens::spec_tokens_text(b.attr) + "\nType : "@
        + spec_branch_type_text(b.branch_type) + "\nContent : "@ + crate::tokens::spec_tokens_text(
        b.content,
    ) + "\n"@
}

/// The concatenated dumps of the first `i` branches.
pub open spec fn spec_branches_dump(tg: Seq<BranchView>, i: int) -> Seq<char>
    decreases i,
{
    if i <= 0 {
        Seq::empty()
    } else {
        spec_branches_dump(tg, i - 1) + spec_branch_dump(tg[i - 1])
    }
}

impl TargetBranch {
    /// Write the branch's parameters as dump text.
    pub fn to_text(&self) -> (r: String)
        ensures
            r@ == spec_branch_dump(self@),
    {
        let mut s = String::from_str("\nBranch : ");
        let attr_text = crate::tokens::tokens_text(&self.attr);
        s.append(attr_text.as_str());
        s.append("\nType : ");
        s.append(
            match self.branch_type {
                TargetBranchType::Normal => "Normal",
                TargetBranchType::Added => "Added",
                TargetBranchType::Exclusive => "Exclusive",
            },
        );
        s.append("\nContent : ");
        let content_text = crate::tokens::tokens_text(&self.content);
        s.append(content_text.as_str());
        s.append("\n");
        s
    }

    /// The dump message of a whole branch list, used when the panic
    /// print (`#`) toggle is set on the invocation.
    pub fn branches_dump_message(tg: &Vec<TargetBranch>) -> (r: String)
        ensures
            r@ == "\n*** Macro panicked because the invocation has the `#` modifier ***\n"@
                + spec_branches_dump(spec_branches(tg@), tg@.len() as int),
    {
        let n = tg.len();
        let mut s = String::from_str(
            "\n*** Macro panicked because the invocation has the `#` modifier ***\n",
        );
        let mut i: usize = 0;
        #[verifier::loop_isolation(false)]
        while i < n
            invariant
                i <= n,
                s@ == "\n*** Macro panicked because the invocation has the `#` modifier ***\n"@
                    + spec_branches_dump(spec_branches(tg@), i as int),
            decreases n - i,
        {
            let dump = tg[i].to_text();
            s.append(dump.as_str());
            i = i + 1;
        }
        s
    }
}

/// Keep track of active arm count for one invocation.
#[derive(Debug, Clone, Copy, PartialEq, Eq, Structural)]
pub struct TargetActiveCounter {
    /// Branch type currently counted.
    pub branch_type: TargetBranchType,
    /// Count of arms selected so far.
    pub counter: usize,
    /// Comparison operator for the final validation.
    pub operator: TargetActiveComparisonOperator,
    /// Control value the count is compared with.
    pub control: usize,
}

impl TargetActiveCounter {
    /// Create a new counter from the invocation's modifiers.
    pub fn new(options: &TargetCfgModifier) -> (r: TargetActiveCounter)
        ensures
            r == (TargetActiveCounter {
                branch_type: TargetBranchType::Normal,
                counter: 0,
                operator: options.operator,
                control: options.control,
            }),
    {
        TargetActiveCounter {
            branch_type: TargetBranchType::Normal,
            counter: 0,
            operator: options.operator,
            control: options.control,
        }
    }

    /// Increment the count of active arms.
    ///
    /// Normal and exclusive arms are counted; added arms are not, as
    /// they only ride along with arms counted before them.
    pub fn inc(&mut self)
        requires
            old(self).counter < usize::MAX,
        ensures
            *final(self) == (TargetActiveCounter {
                counter: if old(self).branch_type is Added {
                    old(self).counter
                } else {
                    (old(self).counter + 1) as usize
                },
                ..*old(self)
            }),
    {
        match self.branch_type {
            TargetBranchType::Normal | TargetBranchType::Exclusive => {
                self.counter = self.counter + 1;
            },
            TargetBranchType::Added => {},
        }
    }

    /// Validate the count of active arms against the control value.
    pub fn validate(&self) -> (r: bool)
        ensures
            r == self.operator.spec_compare(self.counter as int, self.control as int),
    {
        self.operator.compare(self.counter, self.control)
    }

    /// Get the count of active arms.
    pub fn get_counter(&self) -> (r: usize)
        ensures
            r == self.counter,
    {
        self.counter
    }

    /// Set the branch type counted.
    pub fn set_branch_type(&mut self, branch_type: TargetBranchType)
        ensures
            *final(self) == (TargetActiveCounter { branch_type, ..*old(self) }),
    {
        self.branch_type = branch_type;
    }
}

} // verus!
