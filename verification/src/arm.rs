//! Arm extraction: splitting macro input into ordered arms.
//!
//! The extractor consumes the input token sequence with a two-phase
//! cursor: the left side collects modifiers and predicate source, the
//! right side collects the body; the two-token `=>` separator switches
//! phase, and a top-level `,` closes the arm.  Structural violations
//! (misplaced wildcard, empty arm, malformed separators, mixed
//! syntaxes, misplaced modifiers) are terminal errors.
use vstd::prelude::*;

use vstd::string::StrSliceExecFns;
use vstd::string::StringExecFns;

use crate::errors::CfgBoostError;
use crate::errors::ErrorView;
use crate::syntax::NodeView;
use crate::syntax::SyntaxTreeNode;
use crate::syntax::spec_generate;
use crate::syntax::spec_render;
use crate::text::str_eq;
use crate::tokens::Delimiter;
use crate::tokens::Token;
use crate::tokens::spec_tokens_text;
use crate::tokens::spec_tokens_text_from;
use crate::tokens::tokens_text;
use crate::tokens::tokens_text_from;

verus! {

/// Target arm separator.
pub const ARM_SEPARATOR: char = ',';

/// First character of the arm content separator `=>`.
pub const CONTENT_SEPARATOR_0: char = '=';

/// Second character of the arm content separator `=>`.
pub const CONTENT_SEPARATOR_1: char = '>';

/// Wildcard arm symbol.
pub const WILDCARD_ARM: char = '_';

/// First character of a legacy arm.
pub const LEGACY_ARM: char = '#';

/// Activate arm modifier.
pub const MODIFIER_ACTIVATE: char = '+';

/// Deactivate arm modifier.
pub const MODIFIER_DEACTIVATE: char = '-';

/// Panic arm modifier, used to dump arm parameters.
pub const MODIFIER_PANIC: char = '@';

/// Which macro the engine runs for.
#[derive(Debug, Clone, Copy, PartialEq, Eq, Structural)]
pub enum CfgBoostMacroSource {
    /// Declarative mode: any matching arm is included.
    TargetMacro,
    /// Match mode: arms are mutually exclusive and a wildcard is required.
    MatchMacro,
}

/// Possible arm types.
#[derive(Debug, Clone, Copy, PartialEq, Eq, Structural)]
pub enum TargetArmType {
    /// Simplified syntax arm.
    Simplified,
    /// Legacy syntax arm, passing native directives through.
    Legacy,
    /// Wildcard arm at the end.
    Wildcard,
}

/// Possible arm modifiers.
#[derive(Debug, Clone, Copy, PartialEq, Eq, Structural)]
pub enum TargetArmModifier {
    /// No modifier on the arm.
    NoModifier,
    /// Activate (`+`) modifier: the arm is always included.
    Activate,
    /// Deactivate (`-`) modifier: the arm is never included.
    Deactivate,
    /// Panic (`@`) modifier: dump the arm's parameters.
    Panic,
}

/// Mathematical model of one arm.
#[verifier::ext_equal]
pub struct ArmView {
    /// Arm type.
    pub arm_type: TargetArmType,
    /// Arm modifier.
    pub modifier: TargetArmModifier,
    /// Left-side tokens: the predicate source.
    pub arm_ts: Seq<Token>,
    /// Right-side tokens: the body.
    pub content: Seq<Token>,
}

/// One arm: its type, modifier, predicate source and body.
#[derive(Debug, PartialEq, Eq)]
pub struct TargetArm {
    /// Arm type.
    pub arm_type: TargetArmType,
    /// Arm modifier.
    pub modifier: TargetArmModifier,
    /// Left-side tokens: the predicate source.
    pub arm_ts: Vec<Token>,
    /// Right-side tokens: the body.
    pub content: Vec<Token>,
}

impl View for TargetArm {
    type V = ArmView;

    open spec fn view(&self) -> ArmView {
        ArmView {
            arm_type: self.arm_type,
            modifier: self.modifier,
            arm_ts: self.arm_ts@,
            content: self.content@,
        }
    }
}

/// The model of a fresh, empty simplified arm.
pub open spec fn spec_new_arm() -> ArmView {
    ArmView {
        arm_type: TargetArmType::Simplified,
        modifier: TargetArmModifier::NoModifier,
        arm_ts: Seq::empty(),
        content: Seq::empty(),
    }
}

impl TargetArm {
    /// Create a new empty simplified arm.
    pub fn new() -> (r: TargetArm)
        ensures
            r@ == spec_new_arm(),
    {
        TargetArm {
            arm_type: TargetArmType::Simplified,
            modifier: TargetArmModifier::NoModifier,
            arm_ts: Vec::new(),
            content: Vec::new(),
        }
    }
}

/// State of the extraction scan: the arms closed so far, the arm
/// being built, and the separator cursor.
#[verifier::ext_equal]
pub struct ScanState {
    /// Arms closed so far.
    pub arms: Seq<ArmView>,
    /// The arm being built.
    pub arm: ArmView,
    /// True while collecting the left side of the arm.
    pub left_side: bool,
    /// True right after a `=` separator character.
    pub separator: bool,
}

/// The scan's start state.
pub open spec fn spec_scan_init() -> ScanState {
    ScanState { arms: Seq::empty(), arm: spec_new_arm(), left_side: true, separator: false }
}

/// One left-side token applied to the arm being built: modifiers, arm
/// kind detection, predicate tokens.
pub open spec fn spec_attr_arm(
    arm: ArmView,
    t: Token,
    debug_build: bool,
    release_modifier_panic: bool,
) -> Result<ArmView, ErrorView> {
    match t {
        Token::Group(d, _) => {
            if arm.arm_type == TargetArmType::Legacy && d != Delimiter::Bracket {
                Err(ErrorView::LegacySyntaxError)
            } else {
                Ok(ArmView { arm_ts: arm.arm_ts.push(t), ..arm })
            }
        },
        Token::Ident(s) => {
            if s@ == "_"@ && arm.arm_ts.len() == 0 {
                Ok(ArmView { arm_type: TargetArmType::Wildcard, ..arm })
            } else {
                Ok(ArmView { arm_ts: arm.arm_ts.push(t), ..arm })
            }
        },
        Token::Punct(c) => {
            if c == MODIFIER_PANIC {
                if arm.arm_ts.len() > 0 {
                    Err(ErrorView::ModifierNotFirst)
                } else {
                    Ok(ArmView { modifier: TargetArmModifier::Panic, ..arm })
                }
            } else if c == MODIFIER_ACTIVATE {
                if arm.arm_ts.len() > 0 {
                    Err(ErrorView::ModifierNotFirst)
                } else if debug_build {
                    Ok(ArmView { modifier: TargetArmModifier::Activate, ..arm })
                } else if release_modifier_panic {
                    Err(ErrorView::ModifierPanicRelease)
                } else {
                    Ok(arm)
                }
            } else if c == MODIFIER_DEACTIVATE {
                if arm.arm_ts.len() > 0 {
                    Err(ErrorView::ModifierNotFirst)
                } else if debug_build {
                    Ok(ArmView { modifier: TargetArmModifier::Deactivate, ..arm })
                } else if release_modifier_panic {
                    Err(ErrorView::ModifierPanicRelease)
                } else {
                    Ok(arm)
                }
            } else if c == LEGACY_ARM {
                if arm.arm_ts.len() > 0 {
                    Err(ErrorView::MixedSyntaxError)
                } else {
                    Ok(
                        ArmView {
                            arm_type: TargetArmType::Legacy,
                            arm_ts: arm.arm_ts.push(t),
                            ..arm
                        },
                    )
                }
            } else if c == '!' || c == '&' || c == '|' {
                if arm.arm_type == TargetArmType::Legacy {
                    Err(ErrorView::MixedSyntaxError)
                } else {
                    Ok(ArmView { arm_ts: arm.arm_ts.push(t), ..arm })
                }
            } else if c == ARM_SEPARATOR {
                Err(ErrorView::ContentSeparatorMissing)
            } else if c == CONTENT_SEPARATOR_0 || c == CONTENT_SEPARATOR_1 {
                Ok(arm)
            } else {
                Ok(ArmView { arm_ts: arm.arm_ts.push(t), ..arm })
            }
        },
        Token::Literal(_) => Ok(ArmView { arm_ts: arm.arm_ts.push(t), ..arm }),
    }
}

/// One right-side non-`,` token applied to the arm being built: body
/// collection with a one-level brace unwrap of an empty body.
pub open spec fn spec_content_arm(arm: ArmView, t: Token) -> ArmView {
    match t {
        Token::Group(d, v) => {
            if d == Delimiter::Brace && arm.content.len() == 0 {
                ArmView { content: v@, ..arm }
            } else {
                ArmView { content: arm.content.push(t), ..arm }
            }
        },
        _ => ArmView { content: arm.content.push(t), ..arm },
    }
}

/// One right-side token: body collection, or the `,` that closes the arm.
pub open spec fn spec_content_step(st: ScanState, t: Token) -> ScanState {
    if t matches Token::Punct(c) && c == ARM_SEPARATOR {
        ScanState { arms: st.arms.push(st.arm), arm: spec_new_arm(), left_side: true, ..st }
    } else {
        ScanState { arm: spec_content_arm(st.arm, t), ..st }
    }
}

/// One scan step: separator bookkeeping, then the side's token step.
pub open spec fn spec_scan_step(
    st: ScanState,
    t: Token,
    debug_build: bool,
    release_modifier_panic: bool,
) -> Result<ScanState, ErrorView> {
    let sep = t matches Token::Punct(c) && c == CONTENT_SEPARATOR_0;
    let switch = t matches Token::Punct(c) && c == CONTENT_SEPARATOR_1;
    if sep {
        if st.separator && st.left_side {
            Err(ErrorView::ContentSeparatorError)
        } else {
            let st2 = ScanState { separator: true, ..st };
            if st2.left_side {
                match spec_attr_arm(st2.arm, t, debug_build, release_modifier_panic) {
                    Ok(a) => Ok(ScanState { arm: a, ..st2 }),
                    Err(e) => Err(e),
                }
            } else {
                Ok(spec_content_step(st2, t))
            }
        }
    } else if switch {
        if st.separator {
            let ls2 = !st.left_side;
            if ls2 && st.arm.content.len() > 0 {
                Err(ErrorView::ArmSeparatorMissing)
            } else {
                Ok(ScanState { left_side: ls2, separator: false, ..st })
            }
        } else if st.left_side {
            Err(ErrorView::ContentSeparatorError)
        } else {
            Ok(spec_content_step(st, t))
        }
    } else {
        let st2 = ScanState { separator: false, ..st };
        if st2.left_side {
            match spec_attr_arm(st2.arm, t, debug_build, release_modifier_panic) {
                Ok(a) => Ok(ScanState { arm: a, ..st2 }),
                Err(e) => Err(e),
            }
        } else {
            Ok(spec_content_step(st2, t))
        }
    }
}

/// Scan of the first `i` input tokens.
pub open spec fn spec_scan(
    tokens: Seq<Token>,
    i: int,
    debug_build: bool,
    release_modifier_panic: bool,
) -> Result<ScanState, ErrorView>
    decreases i,
{
    if i <= 0 {
        Ok(spec_scan_init())
    } else {
        match spec_scan(tokens, i - 1, debug_build, release_modifier_panic) {
            Err(e) => Err(e),
            Ok(st) => spec_scan_step(st, tokens[i - 1], debug_build, release_modifier_panic),
        }
    }
}

/// What extraction produces before the integrity checks: the ordered
/// arm list, with the last arm closed by the input's end when its
/// body was reached.
pub open spec fn spec_extract_arms(
    tokens: Seq<Token>,
    debug_build: bool,
    release_modifier_panic: bool,
) -> Result<Seq<ArmView>, ErrorView> {
    match spec_scan(tokens, tokens.len() as int, debug_build, release_modifier_panic) {
        Err(e) => Err(e),
        Ok(st) => Ok(
            if !st.left_side {
                st.arms.push(st.arm)
            } else {
                st.arms
            },
        ),
    }
}

/// An error in the scan's prefix is the whole scan's outcome.
pub proof fn lemma_scan_error_propagates(
    tokens: Seq<Token>,
    i: int,
    j: int,
    debug_build: bool,
    release_modifier_panic: bool,
)
    requires
        0 <= i <= j,
        spec_scan(tokens, i, debug_build, release_modifier_panic) is Err,
    ensures
        spec_scan(tokens, j, debug_build, release_modifier_panic) == spec_scan(
            tokens,
            i,
            debug_build,
            release_modifier_panic,
        ),
    decreases j - i,
{
    if j > i {
        lemma_scan_error_propagates(tokens, i, j - 1, debug_build, release_modifier_panic);
    }
}

/// Apply one left-side token to the arm being built.
fn extract_attributes(
    arm: &mut TargetArm,
    token: Token,
    debug_build: bool,
    release_modifier_panic: bool,
) -> (r: Result<(), CfgBoostError>)
    ensures
        match r {
            Ok(_) => spec_attr_arm(old(arm)@, token, debug_build, release_modifier_panic) == Ok::<
                ArmView,
                ErrorView,
            >(final(arm)@),
            Err(e) => spec_attr_arm(old(arm)@, token, debug_build, release_modifier_panic) == Err::<
                ArmView,
                ErrorView,
            >(e@) && final(arm)@ == old(arm)@,
        },
{
    match token {
        Token::Group(d, v) => {
            if arm.arm_type == TargetArmType::Legacy && !(d == Delimiter::Bracket) {
                Err(CfgBoostError::LegacySyntaxError)
            } else {
                arm.arm_ts.push(Token::Group(d, v));
                Ok(())
            }
        },
        Token::Ident(s) => {
            if str_eq(s.as_str(), "_") && arm.arm_ts.len() == 0 {
                arm.arm_type = TargetArmType::Wildcard;
                Ok(())
            } else {
                arm.arm_ts.push(Token::Ident(s));
                Ok(())
            }
        },
        Token::Punct(c) => {
            if c == MODIFIER_PANIC {
                if arm.arm_ts.len() > 0 {
                    Err(CfgBoostError::ModifierNotFirst)
                } else {
                    arm.modifier = TargetArmModifier::Panic;
                    Ok(())
                }
            } else if c == MODIFIER_ACTIVATE {
                if arm.arm_ts.len() > 0 {
                    Err(CfgBoostError::ModifierNotFirst)
                } else if debug_build {
                    arm.modifier = TargetArmModifier::Activate;
                    Ok(())
                } else if release_modifier_panic {
                    Err(CfgBoostError::ModifierPanicRelease)
                } else {
                    Ok(())
                }
            } else if c == MODIFIER_DEACTIVATE {
                if arm.arm_ts.len() > 0 {
                    Err(CfgBoostError::ModifierNotFirst)
                } else if debug_build {
                    arm.modifier = TargetArmModifier::Deactivate;
                    Ok(())
                } else if release_modifier_panic {
                    Err(CfgBoostError::ModifierPanicRelease)
                } else {
                    Ok(())
                }
            } else if c == LEGACY_ARM {
                if arm.arm_ts.len() > 0 {
                    Err(CfgBoostError::MixedSyntaxError)
                } else {
                    arm.arm_type = TargetArmType::Legacy;
                    arm.arm_ts.push(Token::Punct(c));
                    Ok(())
                }
            } else if c == '!' || c == '&' || c == '|' {
                if arm.arm_type == TargetArmType::Legacy {
                    Err(CfgBoostError::MixedSyntaxError)
                } else {
                    arm.arm_ts.push(Token::Punct(c));
                    Ok(())
                }
            } else if c == ARM_SEPARATOR {
                Err(CfgBoostError::ContentSeparatorMissing)
            } else if c == CONTENT_SEPARATOR_0 || c == CONTENT_SEPARATOR_1 {
                Ok(())
            } else {
                arm.arm_ts.push(Token::Punct(c));
                Ok(())
            }
        },
        Token::Literal(s) => {
            arm.arm_ts.push(Token::Literal(s));
            Ok(())
        },
    }
}

/// Apply one right-side non-`,` token to the arm being built.
fn extract_content(arm: &mut TargetArm, token: Token)
    requires
        token matches Token::Punct(c) ==> c != ARM_SEPARATOR,
    ensures
        final(arm)@ == spec_content_arm(old(arm)@, token),
{
    match token {
        Token::Group(d, v) => {
            if d == Delimiter::Brace && arm.content.len() == 0 {
                arm.content = v;
            } else {
                arm.content.push(Token::Group(d, v));
            }
        },
        t => {
            arm.content.push(t);
        },
    }
}

/// The views of a sequence of arms.
pub open spec fn spec_arms(arms: Seq<TargetArm>) -> Seq<ArmView> {
    arms.map_values(|a: TargetArm| a@)
}

/// True when the arm's body holds a flow-of-control keyword, which is
/// only found inside functions.
pub open spec fn spec_flow_keyword(s: Seq<char>) -> bool {
    ||| s == "let"@
    ||| s == "if"@
    ||| s == "else"@
    ||| s == "loop"@
    ||| s == "break"@
    ||| s == "while"@
    ||| s == "for"@
    ||| s == "match"@
    ||| s == "println"@
    ||| s == "panic"@
}

/// True when some top-level body token is a flow-of-control keyword.
pub open spec fn spec_inside_function(content: Seq<Token>) -> bool {
    exists|i: int|
        0 <= i < content.len() && ((#[trigger] content[i]) matches Token::Ident(x)
            && spec_flow_keyword(x@))
}

/// True when `s` is a flow-of-control keyword.
fn is_flow_keyword(s: &str) -> (r: bool)
    ensures
        r == spec_flow_keyword(s@),
{
    str_eq(s, "let") || str_eq(s, "if") || str_eq(s, "else") || str_eq(s, "loop") || str_eq(
        s,
        "break",
    ) || str_eq(s, "while") || str_eq(s, "for") || str_eq(s, "match") || str_eq(s, "println")
        || str_eq(s, "panic")
}

/// First-error wildcard placement scan over the first `i` arms: a
/// wildcard followed by any arm is a structural error; the result
/// says whether a wildcard was seen.
pub open spec fn spec_wild_scan(arms: Seq<ArmView>, i: int) -> Result<bool, ErrorView>
    decreases i,
{
    if i <= 0 {
        Ok(false)
    } else {
        match spec_wild_scan(arms, i - 1) {
            Err(e) => Err(e),
            Ok(has) => if has {
                Err(ErrorView::WildcardArmNotLast)
            } else {
                Ok(arms[i - 1].arm_type == TargetArmType::Wildcard)
            },
        }
    }
}

/// First-error per-arm checks of declarative mode over the first `i`
/// arms: no arm may sit inside a function, no arm may have an empty
/// predicate source.
pub open spec fn spec_target_arm_checks(arms: Seq<ArmView>, i: int) -> Result<(), ErrorView>
    decreases i,
{
    if i <= 0 {
        Ok(())
    } else {
        match spec_target_arm_checks(arms, i - 1) {
            Err(e) => Err(e),
            Ok(_) => if spec_inside_function(arms[i - 1].content) {
                Err(ErrorView::TargetInFunction)
            } else if arms[i - 1].arm_ts.len() == 0 {
                Err(ErrorView::EmptyArm)
            } else {
                Ok(())
            },
        }
    }
}

/// First non-wildcard arm with an empty predicate source among the
/// first `i` arms is a structural error.
pub open spec fn spec_empty_arm_checks(arms: Seq<ArmView>, i: int) -> Result<(), ErrorView>
    decreases i,
{
    if i <= 0 {
        Ok(())
    } else {
        match spec_empty_arm_checks(arms, i - 1) {
            Err(e) => Err(e),
            Ok(_) => if arms[i - 1].arm_type != TargetArmType::Wildcard && arms[i - 1].arm_ts.len()
                == 0 {
                Err(ErrorView::EmptyArm)
            } else {
                Ok(())
            },
        }
    }
}

/// First wildcard arm with a deactivate modifier among the first `i`
/// arms is a structural error of match mode.
pub open spec fn spec_deactivated_wild_checks(arms: Seq<ArmView>, i: int) -> Result<(), ErrorView>
    decreases i,
{
    if i <= 0 {
        Ok(())
    } else {
        match spec_deactivated_wild_checks(arms, i - 1) {
            Err(e) => Err(e),
            Ok(_) => if arms[i - 1].modifier == TargetArmModifier::Deactivate && arms[i
                - 1].arm_type == TargetArmType::Wildcard {
                Err(ErrorView::MatchDeactivatedWildArm)
            } else {
                Ok(())
            },
        }
    }
}

/// Number of arms with the activate modifier among the first `i` arms.
pub open spec fn spec_count_activated(arms: Seq<ArmView>, i: int) -> int
    decreases i,
{
    if i <= 0 {
        0
    } else {
        spec_count_activated(arms, i - 1) + (if arms[i - 1].modifier
            == TargetArmModifier::Activate {
            1int
        } else {
            0int
        })
    }
}

/// What the arm integrity verification produces.
///
/// In either mode a misplaced wildcard is reported first.  Declarative
/// mode then refuses any wildcard, arms inside a function, and empty
/// predicate sources.  Match mode requires a wildcard, refuses empty
/// non-wildcard predicate sources, a deactivated wildcard arm, and
/// more than one activated arm.
pub open spec fn spec_verify_arms(src: CfgBoostMacroSource, arms: Seq<ArmView>) -> Result<
    (),
    ErrorView,
> {
    match spec_wild_scan(arms, arms.len() as int) {
        Err(e) => Err(e),
        Ok(has_wild) => match src {
            CfgBoostMacroSource::TargetMacro => {
                if has_wild {
                    Err(ErrorView::WildcardArmOnTarget)
                } else {
                    spec_target_arm_checks(arms, arms.len() as int)
                }
            },
            CfgBoostMacroSource::MatchMacro => {
                if !has_wild {
                    Err(ErrorView::WildcardArmMissing)
                } else {
                    match spec_empty_arm_checks(arms, arms.len() as int) {
                        Err(e) => Err(e),
                        Ok(_) => match spec_deactivated_wild_checks(arms, arms.len() as int) {
                            Err(e) => Err(e),
                            Ok(_) => if spec_count_activated(arms, arms.len() as int) > 1 {
                                Err(ErrorView::MatchModifierMoreThanOneActivate)
                            } else {
                                Ok(())
                            },
                        },
                    }
                }
            },
        },
    }
}

impl TargetArm {
    /// True when the arm's body holds a flow-of-control keyword at its
    /// top level, which is only found inside functions.
    pub fn is_inside_function(&self) -> (r: bool)
        ensures
            r == spec_inside_function(self@.content),
    {
        let n = self.content.len();
        let mut i: usize = 0;
        while i < n
            invariant
                n == self.content@.len(),
                i <= n,
                forall|j: int|
                    0 <= j < i ==> !((#[trigger] self.content@[j]) matches Token::Ident(x)
                        && spec_flow_keyword(x@)),
            decreases n - i,
        {
            match &self.content[i] {
                Token::Ident(x) => {
                    if is_flow_keyword(x.as_str()) {
                        return true;
                    }
                },
                _ => {},
            }
            i = i + 1;
        }
        false
    }

    /// Wildcard placement scan: errs on a wildcard arm that is not
    /// last, else says whether a wildcard arm is present.
    fn has_wild_arm(arms: &Vec<TargetArm>) -> (r: Result<bool, CfgBoostError>)
        ensures
            match r {
                Ok(b) => spec_wild_scan(spec_arms(arms@), arms@.len() as int) == Ok::<
                    bool,
                    ErrorView,
                >(b),
                Err(e) => spec_wild_scan(spec_arms(arms@), arms@.len() as int) == Err::<
                    bool,
                    ErrorView,
                >(e@),
            },
    {
        let n = arms.len();
        let mut has_wc = false;
        let mut i: usize = 0;
        while i < n
            invariant
                n == arms@.len(),
                i <= n,
                spec_wild_scan(spec_arms(arms@), i as int) == Ok::<bool, ErrorView>(has_wc),
            decreases n - i,
        {
            if has_wc {
                proof {
                    lemma_scan_err_helper_wild(spec_arms(arms@), i as int + 1, n as int);
                }
                return Err(CfgBoostError::WildcardArmNotLast);
            }
            has_wc = match arms[i].arm_type {
                TargetArmType::Wildcard => true,
                _ => false,
            };
            i = i + 1;
        }
        Ok(has_wc)
    }

    /// Verify the integrity of the extracted arms; see `spec_verify_arms`.
    pub fn verify_arms_integrity(macro_src: CfgBoostMacroSource, arms: &Vec<TargetArm>) -> (r:
        Result<(), CfgBoostError>)
        ensures
            match r {
                Ok(_) => spec_verify_arms(macro_src, spec_arms(arms@)) == Ok::<(), ErrorView>(()),
                Err(e) => spec_verify_arms(macro_src, spec_arms(arms@)) == Err::<(), ErrorView>(
                    e@,
                ),
            },
    {
        let n = arms.len();
        let has_wild = match Self::has_wild_arm(arms) {
            Ok(b) => b,
            Err(e) => {
                return Err(e);
            },
        };
        match macro_src {
            CfgBoostMacroSource::TargetMacro => {
                if has_wild {
                    return Err(CfgBoostError::WildcardArmOnTarget);
                }
                let mut i: usize = 0;
                while i < n
                    invariant
                        n == arms@.len(),
                        i <= n,
                        macro_src == CfgBoostMacroSource::TargetMacro,
                        spec_wild_scan(spec_arms(arms@), n as int) == Ok::<bool, ErrorView>(false),
                        spec_target_arm_checks(spec_arms(arms@), i as int) == Ok::<(), ErrorView>(
                            (),
                        ),
                    decreases n - i,
                {
                    if arms[i].is_inside_function() {
                        proof {
                            lemma_target_checks_err(spec_arms(arms@), i as int + 1, n as int);
                        }
                        return Err(CfgBoostError::TargetInFunction);
                    }
                    if arms[i].arm_ts.len() == 0 {
                        proof {
                            lemma_target_checks_err(spec_arms(arms@), i as int + 1, n as int);
                        }
                        return Err(CfgBoostError::EmptyArm);
                    }
                    i = i + 1;
                }
                Ok(())
            },
            CfgBoostMacroSource::MatchMacro => {
                if !has_wild {
                    return Err(CfgBoostError::WildcardArmMissing);
                }
                let mut i: usize = 0;
                while i < n
                    invariant
                        n == arms@.len(),
                        i <= n,
                        macro_src == CfgBoostMacroSource::MatchMacro,
                        spec_wild_scan(spec_arms(arms@), n as int) == Ok::<bool, ErrorView>(true),
                        spec_empty_arm_checks(spec_arms(arms@), i as int) == Ok::<(), ErrorView>(
                            (),
                        ),
                    decreases n - i,
                {
                    let wild = match arms[i].arm_type {
                        TargetArmType::Wildcard => true,
                        _ => false,
                    };
                    if !wild && arms[i].arm_ts.len() == 0 {
                        proof {
                            lemma_empty_checks_err(spec_arms(arms@), i as int + 1, n as int);
                        }
                        return Err(CfgBoostError::EmptyArm);
                    }
                    i = i + 1;
                }
                let mut activated: usize = 0;
                let mut j: usize = 0;
                while j < n
                    invariant
                        n == arms@.len(),
                        j <= n,
                        activated <= j,
                        macro_src == CfgBoostMacroSource::MatchMacro,
                        spec_wild_scan(spec_arms(arms@), n as int) == Ok::<bool, ErrorView>(true),
                        spec_empty_arm_checks(spec_arms(arms@), n as int) == Ok::<(), ErrorView>(
                            (),
                        ),
                        spec_deactivated_wild_checks(spec_arms(arms@), j as int) == Ok::<
                            (),
                            ErrorView,
                        >(()),
                        activated == spec_count_activated(spec_arms(arms@), j as int),
                    decreases n - j,
                {
                    let wild = match arms[j].arm_type {
                        TargetArmType::Wildcard => true,
                        _ => false,
                    };
                    let deact = match arms[j].modifier {
                        TargetArmModifier::Deactivate => true,
                        _ => false,
                    };
                    if deact && wild {
                        proof {
                            lemma_deact_checks_err(spec_arms(arms@), j as int + 1, n as int);
                        }
                        return Err(CfgBoostError::MatchDeactivatedWildArm);
                    }
                    let act = match arms[j].modifier {
                        TargetArmModifier::Activate => true,
                        _ => false,
                    };
                    if act {
                        activated = activated + 1;
                    }
                    j = j + 1;
                }
                if activated > 1 {
                    Err(CfgBoostError::MatchModifierMoreThanOneActivate)
                } else {
                    Ok(())
                }
            },
        }
    }
}

impl TargetArm {
    /// Extract target arms from macro input into an ordered list and
    /// verify their structural integrity; see `spec_extract_arms` and
    /// `spec_verify_arms`.
    ///
    /// A missing `,` after the last arm is not an error: the arm is
    /// closed by the input's end once its body was reached.
    pub fn extract(
        source: Vec<Token>,
        macro_src: CfgBoostMacroSource,
        debug_build: bool,
        release_modifier_panic: bool,
    ) -> (r: Result<Vec<TargetArm>, CfgBoostError>)
        ensures
            match r {
                Ok(arms) => spec_extract_arms(source@, debug_build, release_modifier_panic) == Ok::<
                    Seq<ArmView>,
                    ErrorView,
                >(spec_arms(arms@)) && spec_verify_arms(macro_src, spec_arms(arms@)) == Ok::<
                    (),
                    ErrorView,
                >(()),
                Err(e) => {
                    ||| spec_extract_arms(source@, debug_build, release_modifier_panic) == Err::<
                        Seq<ArmView>,
                        ErrorView,
                    >(e@)
                    ||| (spec_extract_arms(source@, debug_build, release_modifier_panic) matches Ok(
                        avs,
                    ) && spec_verify_arms(macro_src, avs) == Err::<(), ErrorView>(e@))
                },
            },
    {
        let ghost orig = source@;
        let mut source = source;
        let mut arms: Vec<TargetArm> = Vec::new();
        let mut arm = TargetArm::new();
        let mut left_side = true;
        let mut separator = false;
        let ghost mut p: int = 0;
        proof {
            assert(source@ =~= orig.skip(0));
            assert(ScanState {
                arms: spec_arms(arms@),
                arm: arm@,
                left_side: true,
                separator: false,
            } =~= spec_scan_init());
        }
        #[verifier::loop_isolation(false)]
        while source.len() > 0
            invariant
                0 <= p <= orig.len(),
                source@ == orig.skip(p),
                spec_scan(orig, p, debug_build, release_modifier_panic) == Ok::<
                    ScanState,
                    ErrorView,
                >(ScanState { arms: spec_arms(arms@), arm: arm@, left_side, separator }),
            decreases source@.len(),
        {
            proof {
                assert(orig.skip(p)[0] == orig[p]);
            }
            let t = source.remove(0);
            let ghost gt = t;
            let ghost st_pre = ScanState {
                arms: spec_arms(arms@),
                arm: arm@,
                left_side,
                separator,
            };
            proof {
                assert(source@ =~= orig.skip(p + 1));
            }
            let (is_eq, is_gt, is_comma) = match &t {
                Token::Punct(c) => (
                    *c == CONTENT_SEPARATOR_0,
                    *c == CONTENT_SEPARATOR_1,
                    *c == ARM_SEPARATOR,
                ),
                _ => (false, false, false),
            };
            if is_eq {
                if separator && left_side {
                    proof {
                        lemma_scan_error_propagates(
                            orig,
                            p + 1,
                            orig.len() as int,
                            debug_build,
                            release_modifier_panic,
                        );
                    }
                    return Err(CfgBoostError::ContentSeparatorError);
                }
                separator = true;
                if left_side {
                    match extract_attributes(&mut arm, t, debug_build, release_modifier_panic) {
                        Ok(_) => {},
                        Err(e) => {
                            proof {
                                lemma_scan_error_propagates(
                                    orig,
                                    p + 1,
                                    orig.len() as int,
                                    debug_build,
                                    release_modifier_panic,
                                );
                            }
                            return Err(e);
                        },
                    }
                } else {
                    extract_content(&mut arm, t);
                }
            } else if is_gt {
                if separator {
                    left_side = !left_side;
                    separator = false;
                    if left_side && arm.content.len() > 0 {
                        proof {
                            lemma_scan_error_propagates(
                                orig,
                                p + 1,
                                orig.len() as int,
                                debug_build,
                                release_modifier_panic,
                            );
                        }
                        return Err(CfgBoostError::ArmSeparatorMissing);
                    }
                } else if left_side {
                    proof {
                        lemma_scan_error_propagates(
                            orig,
                            p + 1,
                            orig.len() as int,
                            debug_build,
                            release_modifier_panic,
                        );
                    }
                    return Err(CfgBoostError::ContentSeparatorError);
                } else {
                    extract_content(&mut arm, t);
                }
            } else {
                separator = false;
                if left_side {
                    match extract_attributes(&mut arm, t, debug_build, release_modifier_panic) {
                        Ok(_) => {},
                        Err(e) => {
                            proof {
                                lemma_scan_error_propagates(
                                    orig,
                                    p + 1,
                                    orig.len() as int,
                                    debug_build,
                                    release_modifier_panic,
                                );
                            }
                            return Err(e);
                        },
                    }
                } else if is_comma {
                    let ghost arms_pre = arms@;
                    arms.push(arm);
                    arm = TargetArm::new();
                    left_side = true;
                    proof {
                        assert(spec_arms(arms@) =~= spec_arms(arms_pre).push(st_pre.arm));
                    }
                } else {
                    extract_content(&mut arm, t);
                }
            }
            proof {
                p = p + 1;
            }
        }
        proof {
            assert(orig.skip(p).len() == 0);
            assert(p == orig.len());
        }
        if !left_side {
            let ghost arms_pre = arms@;
            arms.push(arm);
            proof {
                assert(spec_arms(arms@) =~= spec_arms(arms_pre).push(arms@[arms@.len() - 1]@));
            }
        }
        match Self::verify_arms_integrity(macro_src, &arms) {
            Ok(_) => Ok(arms),
            Err(e) => Err(e),
        }
    }
}

/// A wild-scan error in a prefix is the whole scan's outcome.
proof fn lemma_scan_err_helper_wild(arms: Seq<ArmView>, i: int, j: int)
    requires
        0 <= i <= j,
        spec_wild_scan(arms, i) is Err,
    ensures
        spec_wild_scan(arms, j) == spec_wild_scan(arms, i),
    decreases j - i,
{
    if j > i {
        lemma_scan_err_helper_wild(arms, i, j - 1);
    }
}

/// A per-arm check error in a prefix is the whole check's outcome.
proof fn lemma_target_checks_err(arms: Seq<ArmView>, i: int, j: int)
    requires
        0 <= i <= j,
        spec_target_arm_checks(arms, i) is Err,
    ensures
        spec_target_arm_checks(arms, j) == spec_target_arm_checks(arms, i),
    decreases j - i,
{
    if j > i {
        lemma_target_checks_err(arms, i, j - 1);
    }
}

/// A per-arm check error in a prefix is the whole check's outcome.
proof fn lemma_empty_checks_err(arms: Seq<ArmView>, i: int, j: int)
    requires
        0 <= i <= j,
        spec_empty_arm_checks(arms, i) is Err,
    ensures
        spec_empty_arm_checks(arms, j) == spec_empty_arm_checks(arms, i),
    decreases j - i,
{
    if j > i {
        lemma_empty_checks_err(arms, i, j - 1);
    }
}

/// A per-arm check error in a prefix is the whole check's outcome.
proof fn lemma_deact_checks_err(arms: Seq<ArmView>, i: int, j: int)
    requires
        0 <= i <= j,
        spec_deactivated_wild_checks(arms, i) is Err,
    ensures
        spec_deactivated_wild_checks(arms, j) == spec_deactivated_wild_checks(arms, i),
    decreases j - i,
{
    if j > i {
        lemma_deact_checks_err(arms, i, j - 1);
    }
}

/// True when the arm at `i` is a wildcard arm.
pub open spec fn spec_is_wild(arms: Seq<ArmView>, i: int) -> bool {
    arms[i].arm_type == TargetArmType::Wildcard
}

/// What the wildcard placement scan finds: the error exactly when a
/// wildcard arm is followed by another arm, else whether the last arm
/// is a wildcard.
pub proof fn lemma_wild_scan_characterization(arms: Seq<ArmView>, n: int)
    requires
        0 <= n <= arms.len(),
    ensures
        match spec_wild_scan(arms, n) {
            Err(e) => e == ErrorView::WildcardArmNotLast && exists|i: int|
                0 <= i < n - 1 && spec_is_wild(arms, i),
            Ok(b) => (forall|i: int| 0 <= i < n - 1 ==> !spec_is_wild(arms, i)) && (b <==> (n > 0
                && spec_is_wild(arms, n - 1))),
        },
    decreases n,
{
    if n > 0 {
        lemma_wild_scan_characterization(arms, n - 1);
        match spec_wild_scan(arms, n - 1) {
            Err(_) => {},
            Ok(has) => {
                if has {
                    assert(spec_is_wild(arms, n - 2));
                }
            },
        }
    }
}

/// A non-last wildcard arm, whatever the mode and the rest of the
/// arms, raises the "wildcard not last" error.
pub proof fn lemma_wildcard_not_last(src: CfgBoostMacroSource, arms: Seq<ArmView>)
    requires
        exists|i: int| 0 <= i < arms.len() - 1 && spec_is_wild(arms, i),
    ensures
        spec_verify_arms(src, arms) == Err::<(), ErrorView>(ErrorView::WildcardArmNotLast),
{
    lemma_wild_scan_characterization(arms, arms.len() as int);
    match spec_wild_scan(arms, arms.len() as int) {
        Err(_) => {},
        Ok(_) => {
            let i = choose|i: int| 0 <= i < arms.len() - 1 && spec_is_wild(arms, i);
            assert(!spec_is_wild(arms, i));
            assert(false);
        },
    }
}

/// With no arm inside a function, the declarative per-arm checks can
/// only fail on an empty predicate source.
proof fn lemma_target_checks_empty(arms: Seq<ArmView>, n: int)
    requires
        0 <= n <= arms.len(),
        forall|i: int| 0 <= i < n ==> !spec_inside_function(#[trigger] arms[i].content),
    ensures
        match spec_target_arm_checks(arms, n) {
            Ok(_) => forall|i: int| 0 <= i < n ==> (#[trigger] arms[i].arm_ts).len() > 0,
            Err(e) => e == ErrorView::EmptyArm,
        },
    decreases n,
{
    if n > 0 {
        lemma_target_checks_empty(arms, n - 1);
    }
}

/// The match-mode empty-arm checks fail exactly on an empty
/// non-wildcard predicate source.
proof fn lemma_empty_checks_char(arms: Seq<ArmView>, n: int)
    requires
        0 <= n <= arms.len(),
    ensures
        match spec_empty_arm_checks(arms, n) {
            Ok(_) => forall|i: int|
                0 <= i < n ==> (spec_is_wild(arms, i) || (#[trigger] arms[i].arm_ts).len() > 0),
            Err(e) => e == ErrorView::EmptyArm,
        },
    decreases n,
{
    if n > 0 {
        lemma_empty_checks_char(arms, n - 1);
    }
}

/// A non-wildcard arm with an empty predicate source raises the
/// "empty arm" error, in either mode, for arm lists free of the
/// errors that are checked before it: a misplaced wildcard, a
/// wildcard in declarative mode, a missing wildcard in match mode,
/// and (in declarative mode) an arm inside a function.
pub proof fn lemma_empty_arm_rejected(src: CfgBoostMacroSource, arms: Seq<ArmView>)
    requires
        forall|i: int| 0 <= i < arms.len() - 1 ==> !spec_is_wild(arms, i),
        src == CfgBoostMacroSource::TargetMacro ==> arms.len() > 0 && !spec_is_wild(
            arms,
            arms.len() - 1,
        ),
        src == CfgBoostMacroSource::TargetMacro ==> forall|i: int|
            0 <= i < arms.len() ==> !spec_inside_function(#[trigger] arms[i].content),
        src == CfgBoostMacroSource::MatchMacro ==> arms.len() > 0 && spec_is_wild(
            arms,
            arms.len() - 1,
        ),
        exists|i: int|
            0 <= i < arms.len() && !spec_is_wild(arms, i) && (#[trigger] arms[i].arm_ts).len()
                == 0,
    ensures
        spec_verify_arms(src, arms) == Err::<(), ErrorView>(ErrorView::EmptyArm),
{
    lemma_wild_scan_characterization(arms, arms.len() as int);
    let w = choose|i: int|
        0 <= i < arms.len() && !spec_is_wild(arms, i) && (#[trigger] arms[i].arm_ts).len() == 0;
    match src {
        CfgBoostMacroSource::TargetMacro => {
            lemma_target_checks_empty(arms, arms.len() as int);
            match spec_target_arm_checks(arms, arms.len() as int) {
                Ok(_) => {
                    assert(arms[w].arm_ts.len() > 0);
                    assert(false);
                },
                Err(_) => {},
            }
        },
        CfgBoostMacroSource::MatchMacro => {
            lemma_empty_checks_char(arms, arms.len() as int);
            match spec_empty_arm_checks(arms, arms.len() as int) {
                Ok(_) => {
                    assert(spec_is_wild(arms, w) || arms[w].arm_ts.len() > 0);
                    assert(false);
                },
                Err(_) => {},
            }
        },
    }
}

/// The legacy predicate of legacy attribute tokens: the stream of the
/// first parenthesized group, descending into bracketed groups.
pub open spec fn spec_legacy_pred(toks: Seq<Token>, i: int) -> Result<Seq<char>, ErrorView>
    decreases toks, toks.len() - i + 1,
{
    if i < 0 || i >= toks.len() {
        Err(ErrorView::LegacySyntaxError)
    } else {
        match toks[i] {
            Token::Group(d, v) => {
                if d == Delimiter::Parenthesis {
                    Ok(spec_tokens_text_from(v@, 0))
                } else if d == Delimiter::Bracket {
                    spec_legacy_pred(v@, 0)
                } else {
                    spec_legacy_pred(toks, i + 1)
                }
            },
            _ => spec_legacy_pred(toks, i + 1),
        }
    }
}

/// Extract the rendered legacy predicate from legacy attribute tokens.
pub fn extract_legacy_predicates(toks: &Vec<Token>, i: usize) -> (r: Result<String, CfgBoostError>)
    requires
        i <= toks@.len(),
    ensures
        match r {
            Ok(s) => spec_legacy_pred(toks@, i as int) == Ok::<Seq<char>, ErrorView>(s@),
            Err(e) => spec_legacy_pred(toks@, i as int) == Err::<Seq<char>, ErrorView>(e@),
        },
    decreases toks@, toks@.len() - i + 1,
{
    if i >= toks.len() {
        Err(CfgBoostError::LegacySyntaxError)
    } else {
        proof {
            assert(decreases_to!(toks@ => toks@[i as int]));
        }
        match &toks[i] {
            Token::Group(d, v) => {
                if *d == Delimiter::Parenthesis {
                    Ok(tokens_text_from(v, 0))
                } else if *d == Delimiter::Bracket {
                    extract_legacy_predicates(v, 0)
                } else {
                    extract_legacy_predicates(toks, i + 1)
                }
            },
            _ => extract_legacy_predicates(toks, i + 1),
        }
    }
}

/// True for characters that can stand next to the word `doc` in a
/// rendered directive.
pub open spec fn spec_boundary_char(c: char) -> bool {
    ||| c == '('
    ||| c == ')'
    ||| c == ','
    ||| c == ' '
    ||| c == '='
    ||| c == '"'
    ||| c == '|'
    ||| c == '&'
    ||| c == '!'
    ||| c == ':'
}

/// True when the word `doc` stands at index `i` of `s`, delimited on
/// both sides.
pub open spec fn spec_doc_word_at(s: Seq<char>, i: int) -> bool {
    &&& 0 <= i
    &&& i + 3 <= s.len()
    &&& s[i] == 'd'
    &&& s[i + 1] == 'o'
    &&& s[i + 2] == 'c'
    &&& (i == 0 || spec_boundary_char(s[i - 1]))
    &&& (i + 3 == s.len() || spec_boundary_char(s[i + 3]))
}

/// True when the rendered predicate mentions the bare word `doc`.
pub open spec fn spec_has_doc_word(s: Seq<char>) -> bool {
    exists|i: int| spec_doc_word_at(s, i)
}

/// True for characters that can stand next to the word `doc`.
fn is_boundary_char(c: char) -> (r: bool)
    ensures
        r == spec_boundary_char(c),
{
    c == '(' || c == ')' || c == ',' || c == ' ' || c == '=' || c == '"' || c == '|' || c == '&'
        || c == '!' || c == ':'
}

/// True when the rendered predicate mentions the bare word `doc`.
pub fn has_doc_word(s: &str) -> (r: bool)
    ensures
        r == spec_has_doc_word(s@),
{
    let n = s.unicode_len();
    if n < 3 {
        proof {
            assert(forall|i: int| !spec_doc_word_at(s@, i));
        }
        return false;
    }
    let mut i: usize = 0;
    while i <= n - 3
        invariant
            n == s@.len(),
            3 <= n,
            i <= n - 2,
            forall|j: int| 0 <= j < i ==> !spec_doc_word_at(s@, j),
        decreases n - i,
    {
        if s.get_char(i) == 'd' && s.get_char(i + 1) == 'o' && s.get_char(i + 2) == 'c' && (i == 0
            || is_boundary_char(s.get_char(i - 1))) && (i + 3 == n || is_boundary_char(
            s.get_char(i + 3),
        )) {
            proof {
                assert(spec_doc_word_at(s@, i as int));
            }
            return true;
        }
        i = i + 1;
    }
    proof {
        assert(forall|j: int| spec_doc_word_at(s@, j) ==> 0 <= j <= n - 3);
    }
    false
}

/// The predicate wrapped as `any(doc, ...)` when arms are documented
/// by default and `doc` is not already mentioned.
pub open spec fn spec_set_default_doc(pred: Seq<char>, autodoc: bool) -> Seq<char> {
    if autodoc && !spec_has_doc_word(pred) {
        "any(doc, "@ + pred + ")"@
    } else {
        pred
    }
}

/// Wrap the predicate as `any(doc, ...)` when arms are documented by
/// default and `doc` is not already mentioned.
pub fn set_default_doc(pred: String, autodoc: bool) -> (r: String)
    ensures
        r@ == spec_set_default_doc(pred@, autodoc),
{
    if autodoc && !has_doc_word(pred.as_str()) {
        let mut s = String::from_str("any(doc, ");
        s.append(pred.as_str());
        s.append(")");
        s
    } else {
        pred
    }
}

/// The `#[cfg]` directive text of an arm: its predicate, overridden
/// to always-true or always-false by an activate or deactivate
/// modifier in a debug build.
pub open spec fn spec_target_cfg_ts(
    pred: Seq<char>,
    modifier: TargetArmModifier,
    debug_build: bool,
) -> Seq<char> {
    "#[cfg("@ + (if debug_build && modifier == TargetArmModifier::Activate {
        "all()"@
    } else if debug_build && modifier == TargetArmModifier::Deactivate {
        "any()"@
    } else {
        pred
    }) + ")]"@
}

/// Generate the `#[cfg]` directive text; see `spec_target_cfg_ts`.
pub fn generate_target_cfg_ts(pred: String, modifier: TargetArmModifier, debug_build: bool) -> (r:
    String)
    ensures
        r@ == spec_target_cfg_ts(pred@, modifier, debug_build),
{
    let mut s = String::from_str("#[cfg(");
    let act = match modifier {
        TargetArmModifier::Activate => true,
        _ => false,
    };
    let deact = match modifier {
        TargetArmModifier::Deactivate => true,
        _ => false,
    };
    if debug_build && act {
        s.append("all()");
    } else if debug_build && deact {
        s.append("any()");
    } else {
        s.append(pred.as_str());
    }
    s.append(")]");
    s
}

/// The `#[cfg_attr]` documentation attribute text of an arm, empty
/// when documentation attributes are off.
pub open spec fn spec_target_attr_ts(pred: Seq<char>, docsrs: bool) -> Seq<char> {
    if docsrs {
        "#[cfg_attr(docsrs, doc(cfg("@ + pred + ")))]"@
    } else {
        Seq::empty()
    }
}

/// Generate the `#[cfg_attr]` documentation attribute text.
pub fn generate_target_attr_ts(pred: &String, docsrs: bool) -> (r: String)
    ensures
        r@ == spec_target_attr_ts(pred@, docsrs),
{
    if docsrs {
        let mut s = String::from_str("#[cfg_attr(docsrs, doc(cfg(");
        s.append(pred.as_str());
        s.append(")))]");
        s
    } else {
        String::new()
    }
}

/// What rendering one arm's predicate produces: always-true for a
/// wildcard, the first parenthesized group's text for legacy syntax,
/// and the built tree's canonical text for simplified syntax.
pub open spec fn spec_pred_of_arm(
    arm: ArmView,
    alias_store: Seq<(String, String)>,
    predicate_store: Seq<(String, String)>,
    fuel: nat,
) -> Result<Seq<char>, ErrorView> {
    match arm.arm_type {
        TargetArmType::Wildcard => Ok("all()"@),
        TargetArmType::Legacy => spec_legacy_pred(arm.arm_ts, 0),
        TargetArmType::Simplified => match spec_generate(
            spec_tokens_text(arm.arm_ts),
            alias_store,
            Seq::empty(),
            fuel,
        ) {
            Ok(t) => match spec_render(t, predicate_store) {
                Ok(s) => Ok(s),
                Err(k) => Err(ErrorView::InvalidConfigurationPredicate(k)),
            },
            Err(e) => Err(e),
        },
    }
}

impl TargetArm {
    /// Render this arm's predicate; see `spec_pred_of_arm`.
    pub fn generate_pred_ts(
        &self,
        alias_store: &Vec<(String, String)>,
        predicate_store: &Vec<(String, String)>,
    ) -> (r: Result<String, CfgBoostError>)
        requires
            alias_store@.len() + 13 <= usize::MAX,
        ensures
            match r {
                Ok(s) => spec_pred_of_arm(
                    self@,
                    alias_store@,
                    predicate_store@,
                    (alias_store@.len() + 13) as nat,
                ) == Ok::<Seq<char>, ErrorView>(s@),
                Err(e) => spec_pred_of_arm(
                    self@,
                    alias_store@,
                    predicate_store@,
                    (alias_store@.len() + 13) as nat,
                ) == Err::<Seq<char>, ErrorView>(e@),
            },
    {
        match self.arm_type {
            TargetArmType::Wildcard => Ok(String::from_str("all()")),
            TargetArmType::Legacy => extract_legacy_predicates(&self.arm_ts, 0),
            TargetArmType::Simplified => {
                let text = tokens_text(&self.arm_ts);
                match SyntaxTreeNode::generate(text.as_str(), alias_store) {
                    Ok(t) => t.to_text(predicate_store),
                    Err(e) => Err(e),
                }
            },
        }
    }
}

/// The per-arm directive texts: the `#[cfg]` condition and the
/// documentation attribute.
#[derive(Debug, PartialEq, Eq)]
pub struct ArmDirective {
    /// The `#[cfg]` directive text.
    pub cfg_ts: String,
    /// The `#[cfg_attr]` documentation attribute text, possibly empty.
    pub attr_ts: String,
}

impl View for ArmDirective {
    type V = (Seq<char>, Seq<char>);

    open spec fn view(&self) -> (Seq<char>, Seq<char>) {
        (self.cfg_ts@, self.attr_ts@)
    }
}

/// The views of a sequence of directives.
pub open spec fn spec_directives(dirs: Seq<ArmDirective>) -> Seq<(Seq<char>, Seq<char>)> {
    dirs.map_values(|d: ArmDirective| d@)
}

/// True when some arm carries the activate modifier.
pub open spec fn spec_any_activate(arms: Seq<ArmView>) -> bool {
    exists|i: int| 0 <= i < arms.len() && (#[trigger] arms[i]).modifier == TargetArmModifier::Activate
}

/// The modifier an arm behaves under in match mode: in a debug build
/// where some arm is activated, every other arm is deactivated.
pub open spec fn spec_eff_modifier(
    m: TargetArmModifier,
    debug_build: bool,
    any_activate: bool,
) -> TargetArmModifier {
    if debug_build && any_activate && m != TargetArmModifier::Activate {
        TargetArmModifier::Deactivate
    } else {
        m
    }
}

/// The directives of the first `i` arms in declarative mode: each
/// arm's predicate stands alone, wrapped with the default `doc`
/// alternative.
pub open spec fn spec_target_directives(
    arms: Seq<ArmView>,
    i: int,
    alias_store: Seq<(String, String)>,
    predicate_store: Seq<(String, String)>,
    fuel: nat,
    debug_build: bool,
    autodoc: bool,
    docsrs: bool,
) -> Result<Seq<(Seq<char>, Seq<char>)>, ErrorView>
    decreases i,
{
    if i <= 0 {
        Ok(Seq::empty())
    } else {
        match spec_target_directives(
            arms,
            i - 1,
            alias_store,
            predicate_store,
            fuel,
            debug_build,
            autodoc,
            docsrs,
        ) {
            Err(e) => Err(e),
            Ok(ds) => match spec_pred_of_arm(arms[i - 1], alias_store, predicate_store, fuel) {
                Err(e) => Err(e),
                Ok(pred) => Ok(
                    ds.push(
                        (
                            spec_target_cfg_ts(
                                spec_set_default_doc(pred, autodoc),
                                arms[i - 1].modifier,
                                debug_build,
                            ),
                            spec_target_attr_ts(pred, docsrs),
                        ),
                    ),
                ),
            },
        }
    }
}

/// The directives of the first `i` arms in match mode, with the
/// accumulated negation text: each arm's condition is the conjunction
/// of the negations of all prior arms with its own predicate.
pub open spec fn spec_match_directives(
    arms: Seq<ArmView>,
    i: int,
    alias_store: Seq<(String, String)>,
    predicate_store: Seq<(String, String)>,
    fuel: nat,
    debug_build: bool,
    any_activate: bool,
) -> Result<(Seq<(Seq<char>, Seq<char>)>, Seq<char>), ErrorView>
    decreases i,
{
    if i <= 0 {
        Ok((Seq::empty(), "all()"@))
    } else {
        match spec_match_directives(
            arms,
            i - 1,
            alias_store,
            predicate_store,
            fuel,
            debug_build,
            any_activate,
        ) {
            Err(e) => Err(e),
            Ok((ds, cumul)) => match spec_pred_of_arm(arms[i - 1], alias_store, predicate_store, fuel) {
                Err(e) => Err(e),
                Ok(pred) => {
                    let eff = spec_eff_modifier(arms[i - 1].modifier, debug_build, any_activate);
                    let full = "all("@ + cumul + ","@ + pred + ")"@;
                    let excl = if debug_build && eff == TargetArmModifier::Activate {
                        "all()"@
                    } else if debug_build && eff == TargetArmModifier::Deactivate {
                        "any()"@
                    } else {
                        pred
                    };
                    Ok(
                        (
                            ds.push(
                                (spec_target_cfg_ts(full, eff, debug_build), Seq::<char>::empty()),
                            ),
                            cumul + ", not("@ + excl + ")"@,
                        ),
                    )
                },
            },
        }
    }
}

/// Cumulative mutual exclusivity of the match-mode directive texts:
/// for arms `[first, second, wildcard]` without modifiers whose
/// predicates render as `p1` and `p2`, the second arm's directive is
/// the conjunction of `not(p1)` with `p2`, and the wildcard's the
/// conjunction of `not(p1)` and `not(p2)` — the complement of all
/// previous arms combined.
#[verifier::rlimit(80)]
pub proof fn lemma_match_directives_cumulative_texts(
    arms: Seq<ArmView>,
    alias_store: Seq<(String, String)>,
    predicate_store: Seq<(String, String)>,
    fuel: nat,
    debug_build: bool,
    p1: Seq<char>,
    p2: Seq<char>,
)
    requires
        arms.len() == 3,
        arms[0].modifier == TargetArmModifier::NoModifier,
        arms[1].modifier == TargetArmModifier::NoModifier,
        arms[2].modifier == TargetArmModifier::NoModifier,
        arms[2].arm_type == TargetArmType::Wildcard,
        spec_pred_of_arm(arms[0], alias_store, predicate_store, fuel) == Ok::<Seq<char>, ErrorView>(
            p1,
        ),
        spec_pred_of_arm(arms[1], alias_store, predicate_store, fuel) == Ok::<Seq<char>, ErrorView>(
            p2,
        ),
    ensures
        spec_match_directives(
            arms,
            3,
            alias_store,
            predicate_store,
            fuel,
            debug_build,
            spec_any_activate(arms),
        ) matches Ok(r) && {
            &&& r.0.len() == 3
            &&& r.0[0].0 == "#[cfg(all(all(),"@ + p1 + "))]"@
            &&& r.0[1].0 == "#[cfg(all(all(), not("@ + p1 + "),"@ + p2 + "))]"@
            &&& r.0[2].0 == "#[cfg(all(all(), not("@ + p1 + "), not("@ + p2 + "),all()))]"@
        },
{
    reveal_strlit("#[cfg(");
    reveal_strlit(")]");
    reveal_strlit("all(");
    reveal_strlit("all()");
    reveal_strlit(",");
    reveal_strlit(")");
    reveal_strlit(", not(");
    reveal_strlit("#[cfg(all(all(),");
    reveal_strlit("))]");
    reveal_strlit("#[cfg(all(all(), not(");
    reveal_strlit("),");
    reveal_strlit("), not(");
    reveal_strlit("),all()))]");
    let any_act = spec_any_activate(arms);
    assert(!any_act) by {
        if spec_any_activate(arms) {
            let w = choose|i: int|
                0 <= i < arms.len() && (#[trigger] arms[i]).modifier
                    == TargetArmModifier::Activate;
            assert(w == 0 || w == 1 || w == 2);
            assert(false);
        }
    }
    let eff1 = spec_eff_modifier(arms[0].modifier, debug_build, any_act);
    assert(eff1 == TargetArmModifier::NoModifier);
    let r0 = spec_match_directives(arms, 0, alias_store, predicate_store, fuel, debug_build, any_act);
    assert(r0 == Ok::<(Seq<(Seq<char>, Seq<char>)>, Seq<char>), ErrorView>(
        (Seq::empty(), "all()"@),
    ));
    let r1 = spec_match_directives(arms, 1, alias_store, predicate_store, fuel, debug_build, any_act);
    let full1 = "all("@ + "all()"@ + ","@ + p1 + ")"@;
    let cumul1 = "all()"@ + ", not("@ + p1 + ")"@;
    assert(r1 matches Ok(q1) && q1.0.len() == 1 && q1.0[0].0 == "#[cfg("@ + full1 + ")]"@ && q1.1
        == cumul1);
    let r2 = spec_match_directives(arms, 2, alias_store, predicate_store, fuel, debug_build, any_act);
    let full2 = "all("@ + cumul1 + ","@ + p2 + ")"@;
    let cumul2 = cumul1 + ", not("@ + p2 + ")"@;
    assert(r2 matches Ok(q2) && q2.0.len() == 2 && q2.0[1].0 == "#[cfg("@ + full2 + ")]"@ && q2.1
        == cumul2);
    assert(spec_pred_of_arm(arms[2], alias_store, predicate_store, fuel) == Ok::<
        Seq<char>,
        ErrorView,
    >("all()"@));
    let r3 = spec_match_directives(arms, 3, alias_store, predicate_store, fuel, debug_build, any_act);
    let full3 = "all("@ + cumul2 + ","@ + "all()"@ + ")"@;
    assert(r3 matches Ok(q3) && q3.0.len() == 3 && q3.0[2].0 == "#[cfg("@ + full3 + ")]"@);
    assert("#[cfg("@ + full1 + ")]"@ =~= "#[cfg(all(all(),"@ + p1 + "))]"@);
    assert("#[cfg("@ + full2 + ")]"@ =~= "#[cfg(all(all(), not("@ + p1 + "),"@ + p2 + "))]"@);
    assert("#[cfg("@ + full3 + ")]"@ =~= "#[cfg(all(all(), not("@ + p1 + "), not("@ + p2
        + "),all()))]"@);
}

/// A directive error in a prefix is the whole generation's outcome.
proof fn lemma_target_directives_err(
    arms: Seq<ArmView>,
    i: int,
    j: int,
    alias_store: Seq<(String, String)>,
    predicate_store: Seq<(String, String)>,
    fuel: nat,
    debug_build: bool,
    autodoc: bool,
    docsrs: bool,
)
    requires
        0 <= i <= j,
        spec_target_directives(arms, i, alias_store, predicate_store, fuel, debug_build, autodoc, docsrs) is Err,
    ensures
        spec_target_directives(arms, j, alias_store, predicate_store, fuel, debug_build, autodoc, docsrs)
            == spec_target_directives(arms, i, alias_store, predicate_store, fuel, debug_build, autodoc, docsrs),
    decreases j - i,
{
    if j > i {
        lemma_target_directives_err(arms, i, j - 1, alias_store, predicate_store, fuel, debug_build, autodoc, docsrs);
    }
}

/// A directive error in a prefix is the whole generation's outcome.
proof fn lemma_match_directives_err(
    arms: Seq<ArmView>,
    i: int,
    j: int,
    alias_store: Seq<(String, String)>,
    predicate_store: Seq<(String, String)>,
    fuel: nat,
    debug_build: bool,
    any_activate: bool,
)
    requires
        0 <= i <= j,
        spec_match_directives(arms, i, alias_store, predicate_store, fuel, debug_build, any_activate) is Err,
    ensures
        spec_match_directives(arms, j, alias_store, predicate_store, fuel, debug_build, any_activate)
            == spec_match_directives(arms, i, alias_store, predicate_store, fuel, debug_build, any_activate),
    decreases j - i,
{
    if j > i {
        lemma_match_directives_err(arms, i, j - 1, alias_store, predicate_store, fuel, debug_build, any_activate);
    }
}

/// A successful directive generation yields one directive per arm.
pub proof fn lemma_target_directives_len(
    arms: Seq<ArmView>,
    i: int,
    alias_store: Seq<(String, String)>,
    predicate_store: Seq<(String, String)>,
    fuel: nat,
    debug_build: bool,
    autodoc: bool,
    docsrs: bool,
)
    requires
        0 <= i,
    ensures
        spec_target_directives(arms, i, alias_store, predicate_store, fuel, debug_build, autodoc, docsrs)
            matches Ok(ds) ==> ds.len() == i,
    decreases i,
{
    if i > 0 {
        lemma_target_directives_len(arms, i - 1, alias_store, predicate_store, fuel, debug_build, autodoc, docsrs);
    }
}

/// A successful directive generation yields one directive per arm.
pub proof fn lemma_match_directives_len(
    arms: Seq<ArmView>,
    i: int,
    alias_store: Seq<(String, String)>,
    predicate_store: Seq<(String, String)>,
    fuel: nat,
    debug_build: bool,
    any_activate: bool,
)
    requires
        0 <= i,
    ensures
        spec_match_directives(arms, i, alias_store, predicate_store, fuel, debug_build, any_activate)
            matches Ok(p) ==> p.0.len() == i,
    decreases i,
{
    if i > 0 {
        lemma_match_directives_len(arms, i - 1, alias_store, predicate_store, fuel, debug_build, any_activate);
    }
}

impl TargetArm {
    /// True when some arm carries the activate modifier.
    fn any_activate(arms: &Vec<TargetArm>) -> (r: bool)
        ensures
            r == spec_any_activate(spec_arms(arms@)),
    {
        let n = arms.len();
        let mut i: usize = 0;
        while i < n
            invariant
                n == arms@.len(),
                i <= n,
                forall|j: int|
                    0 <= j < i ==> (#[trigger] spec_arms(arms@)[j]).modifier
                        != TargetArmModifier::Activate,
            decreases n - i,
        {
            match arms[i].modifier {
                TargetArmModifier::Activate => {
                    proof {
                        assert(spec_arms(arms@)[i as int].modifier == TargetArmModifier::Activate);
                    }
                    return true;
                },
                _ => {},
            }
            i = i + 1;
        }
        false
    }

    /// Generate each arm's directive texts; see `spec_target_directives`
    /// and `spec_match_directives`.
    pub fn generate_arms_predicate(
        macro_src: CfgBoostMacroSource,
        arms: &Vec<TargetArm>,
        alias_store: &Vec<(String, String)>,
        predicate_store: &Vec<(String, String)>,
        debug_build: bool,
        autodoc: bool,
        docsrs: bool,
    ) -> (r: Result<Vec<ArmDirective>, CfgBoostError>)
        requires
            alias_store@.len() + 13 <= usize::MAX,
        ensures
            ({
                let fuel = (alias_store@.len() + 13) as nat;
                let avs = spec_arms(arms@);
                match r {
                    Ok(ds) => match macro_src {
                        CfgBoostMacroSource::TargetMacro => spec_target_directives(
                            avs,
                            avs.len() as int,
                            alias_store@,
                            predicate_store@,
                            fuel,
                            debug_build,
                            autodoc,
                            docsrs,
                        ) == Ok::<Seq<(Seq<char>, Seq<char>)>, ErrorView>(spec_directives(ds@)),
                        CfgBoostMacroSource::MatchMacro => spec_match_directives(
                            avs,
                            avs.len() as int,
                            alias_store@,
                            predicate_store@,
                            fuel,
                            debug_build,
                            spec_any_activate(avs),
                        ) matches Ok(p) && p.0 == spec_directives(ds@),
                    },
                    Err(e) => match macro_src {
                        CfgBoostMacroSource::TargetMacro => spec_target_directives(
                            avs,
                            avs.len() as int,
                            alias_store@,
                            predicate_store@,
                            fuel,
                            debug_build,
                            autodoc,
                            docsrs,
                        ) == Err::<Seq<(Seq<char>, Seq<char>)>, ErrorView>(e@),
                        CfgBoostMacroSource::MatchMacro => spec_match_directives(
                            avs,
                            avs.len() as int,
                            alias_store@,
                            predicate_store@,
                            fuel,
                            debug_build,
                            spec_any_activate(avs),
                        ) == Err::<(Seq<(Seq<char>, Seq<char>)>, Seq<char>), ErrorView>(e@),
                    },
                }
            }),
    {
        let n = arms.len();
        let mut dirs: Vec<ArmDirective> = Vec::new();
        match macro_src {
            CfgBoostMacroSource::TargetMacro => {
                let mut i: usize = 0;
                proof {
                    assert(spec_directives(dirs@) =~= Seq::<(Seq<char>, Seq<char>)>::empty());
                }
                #[verifier::loop_isolation(false)]
                while i < n
                    invariant
                        i <= n,
                        spec_target_directives(
                            spec_arms(arms@),
                            i as int,
                            alias_store@,
                            predicate_store@,
                            (alias_store@.len() + 13) as nat,
                            debug_build,
                            autodoc,
                            docsrs,
                        ) == Ok::<Seq<(Seq<char>, Seq<char>)>, ErrorView>(spec_directives(dirs@)),
                    decreases n - i,
                {
                    let pred = match arms[i].generate_pred_ts(alias_store, predicate_store) {
                        Ok(p) => p,
                        Err(e) => {
                            proof {
                                lemma_target_directives_err(
                                    spec_arms(arms@),
                                    i as int + 1,
                                    n as int,
                                    alias_store@,
                                    predicate_store@,
                                    (alias_store@.len() + 13) as nat,
                                    debug_build,
                                    autodoc,
                                    docsrs,
                                );
                            }
                            return Err(e);
                        },
                    };
                    let attr_ts = generate_target_attr_ts(&pred, docsrs);
                    let doc_pred = set_default_doc(pred, autodoc);
                    let cfg_ts = generate_target_cfg_ts(doc_pred, arms[i].modifier, debug_build);
                    let ghost dirs_pre = dirs@;
                    dirs.push(ArmDirective { cfg_ts, attr_ts });
                    proof {
                        assert(spec_directives(dirs@) =~= spec_directives(dirs_pre).push(
                            dirs@[dirs@.len() - 1]@,
                        ));
                    }
                    i = i + 1;
                }
                Ok(dirs)
            },
            CfgBoostMacroSource::MatchMacro => {
                let any_act = Self::any_activate(arms);
                let mut cumul = String::from_str("all()");
                let mut i: usize = 0;
                proof {
                    assert(spec_directives(dirs@) =~= Seq::<(Seq<char>, Seq<char>)>::empty());
                }
                #[verifier::loop_isolation(false)]
                while i < n
                    invariant
                        i <= n,
                        spec_match_directives(
                            spec_arms(arms@),
                            i as int,
                            alias_store@,
                            predicate_store@,
                            (alias_store@.len() + 13) as nat,
                            debug_build,
                            any_act,
                        ) == Ok::<(Seq<(Seq<char>, Seq<char>)>, Seq<char>), ErrorView>(
                            (spec_directives(dirs@), cumul@),
                        ),
                    decreases n - i,
                {
                    let pred = match arms[i].generate_pred_ts(alias_store, predicate_store) {
                        Ok(p) => p,
                        Err(e) => {
                            proof {
                                lemma_match_directives_err(
                                    spec_arms(arms@),
                                    i as int + 1,
                                    n as int,
                                    alias_store@,
                                    predicate_store@,
                                    (alias_store@.len() + 13) as nat,
                                    debug_build,
                                    any_act,
                                );
                            }
                            return Err(e);
                        },
                    };
                    let m = arms[i].modifier;
                    let eff_act = debug_build && any_act && match m {
                        TargetArmModifier::Activate => false,
                        _ => true,
                    };
                    let eff = if eff_act {
                        TargetArmModifier::Deactivate
                    } else {
                        m
                    };
                    let mut full = String::from_str("all(");
                    full.append(cumul.as_str());
                    full.append(",");
                    full.append(pred.as_str());
                    full.append(")");
                    let cfg_ts = generate_target_cfg_ts(full, eff, debug_build);
                    cumul.append(", not(");
                    let is_act = match eff {
                        TargetArmModifier::Activate => true,
                        _ => false,
                    };
                    let is_deact = match eff {
                        TargetArmModifier::Deactivate => true,
                        _ => false,
                    };
                    if debug_build && is_act {
                        cumul.append("all()");
                    } else if debug_build && is_deact {
                        cumul.append("any()");
                    } else {
                        cumul.append(pred.as_str());
                    }
                    cumul.append(")");
                    let ghost dirs_pre = dirs@;
                    dirs.push(ArmDirective { cfg_ts, attr_ts: String::new() });
                    proof {
                        assert(spec_directives(dirs@) =~= spec_directives(dirs_pre).push(
                            dirs@[dirs@.len() - 1]@,
                        ));
                    }
                    i = i + 1;
                }
                Ok(dirs)
            },
        }
    }
}

/// Textual name of an arm type.
pub open spec fn spec_arm_type_text(t: TargetArmType) -> Seq<char> {
    match t {
        TargetArmType::Simplified => "Simplified"@,
        TargetArmType::Legacy => "Legacy"@,
        TargetArmType::Wildcard => "Wildcard"@,
    }
}

/// Textual name of an arm modifier.
pub open spec fn spec_arm_modifier_text(m: TargetArmModifier) -> Seq<char> {
    match m {
        TargetArmModifier::NoModifier => "NoModifier"@,
        TargetArmModifier::Activate => "Activate"@,
        TargetArmModifier::Deactivate => "Deactivate"@,
        TargetArmModifier::Panic => "Panic"@,
    }
}

/// The dump text of one arm.
pub open spec fn spec_arm_dump(a: ArmView) -> Seq<char> {
    "\nArm : "@ + spec_tokens_text(a.arm_ts) + "\nSyntax : "@ + spec_arm_type_text(a.arm_type)
        + "\nModifier : "@ + spec_arm_modifier_text(a.modifier) + "\nContent : "@
        + spec_tokens_text(a.content) + "\n"@
}

/// The concatenated dumps of the panic-modifier arms among the first `i`.
pub open spec fn spec_panic_dump(avs: Seq<ArmView>, i: int) -> Seq<char>
    decreases i,
{
    if i <= 0 {
        Seq::empty()
    } else {
        spec_panic_dump(avs, i - 1) + (if avs[i - 1].modifier == TargetArmModifier::Panic {
            spec_arm_dump(avs[i - 1])
        } else {
            Seq::<char>::empty()
        })
    }
}

/// True when some arm carries the panic modifier.
pub open spec fn spec_any_panic(avs: Seq<ArmView>) -> bool {
    exists|i: int| 0 <= i < avs.len() && (#[trigger] avs[i]).modifier == TargetArmModifier::Panic
}

impl TargetArm {
    /// Write the arm's parameters as dump text.
    pub fn to_text(&self) -> (r: String)
        ensures
            r@ == spec_arm_dump(self@),
    {
        let mut s = String::from_str("\nArm : ");
        let arm_text = tokens_text(&self.arm_ts);
        s.append(arm_text.as_str());
        s.append("\nSyntax : ");
        s.append(
            match self.arm_type {
                TargetArmType::Simplified => "Simplified",
                TargetArmType::Legacy => "Legacy",
                TargetArmType::Wildcard => "Wildcard",
            },
        );
        s.append("\nModifier : ");
        s.append(
            match self.modifier {
                TargetArmModifier::NoModifier => "NoModifier",
                TargetArmModifier::Activate => "Activate",
                TargetArmModifier::Deactivate => "Deactivate",
                TargetArmModifier::Panic => "Panic",
            },
        );
        s.append("\nContent : ");
        let content_text = tokens_text(&self.content);
        s.append(content_text.as_str());
        s.append("\n");
        s
    }

    /// The dump message of the arms carrying the panic (`@`) modifier,
    /// or nothing when no arm carries it.  The caller aborts expansion
    /// with this message.
    pub fn panic_arms_message(arms: &Vec<TargetArm>) -> (r: Option<String>)
        ensures
            match r {
                Some(s) => spec_any_panic(spec_arms(arms@)) && s@
                    == "\n*** Macro panicked because some arm have the `@` modifier ***\n"@
                    + spec_panic_dump(spec_arms(arms@), arms@.len() as int),
                None => !spec_any_panic(spec_arms(arms@)),
            },
    {
        let n = arms.len();
        let mut message = String::new();
        let mut found = false;
        let mut i: usize = 0;
        #[verifier::loop_isolation(false)]
        while i < n
            invariant
                i <= n,
                message@ == spec_panic_dump(spec_arms(arms@), i as int),
                found == exists|j: int|
                    0 <= j < i && (#[trigger] spec_arms(arms@)[j]).modifier
                        == TargetArmModifier::Panic,
            decreases n - i,
        {
            let is_panic = match arms[i].modifier {
                TargetArmModifier::Panic => true,
                _ => false,
            };
            if is_panic {
                let dump = arms[i].to_text();
                message.append(dump.as_str());
                found = true;
                proof {
                    assert(spec_arms(arms@)[i as int].modifier == TargetArmModifier::Panic);
                }
            }
            i = i + 1;
        }
        if found {
            let mut s = String::from_str(
                "\n*** Macro panicked because some arm have the `@` modifier ***\n",
            );
            s.append(message.as_str());
            Some(s)
        } else {
            None
        }
    }
}

} // verus!
