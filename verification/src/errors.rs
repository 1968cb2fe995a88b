//! Errors raised by the engine.
//!
//! Every detected issue is terminal for the current invocation: the
//! caller turns the message into a fatal, descriptive diagnostic and
//! emits no partial output.
use vstd::prelude::*;
use vstd::string::StringExecFns;

use crate::modifiers::TargetActiveComparisonOperator;
use crate::text::spec_decimal;
use crate::text::usize_to_string;

verus! {

/// Mathematical model of `CfgBoostError`: the same variants, with
/// text payloads abstracted to character sequences.
pub enum ErrorView {
    /// Missing operator (happens when a leaf contains a space)
    MissingOperator,
    /// Empty node due to missing variable.
    EmptyNode,
    /// Invalid character used
    InvalidCharacter(Seq<char>),
    /// Double operator `&&`, `||` or `!!` in a predicate.
    DoubleOperator(Seq<char>),
    /// Alias written is not found
    AliasNotFound(Seq<char>),
    /// Invalid configuration predicate
    InvalidConfigurationPredicate(Seq<char>),
    /// Happens when having an empty arm.
    EmptyArm,
    /// Happens when wildcard arm _ is not the last.
    WildcardArmNotLast,
    /// Happens when a separator `,` is missing between arms.
    ArmSeparatorMissing,
    /// Happens when a content separator `=>` is malformed.
    ContentSeparatorError,
    /// Happens when wildcard arm is not set for match_cfg!.
    WildcardArmMissing,
    /// Happens when wildcard arm is set when using target_cfg!.
    WildcardArmOnTarget,
    /// Happens when trying to use target_cfg! inside a function.
    TargetInFunction,
    /// Happens when legacy syntax is incorrect
    LegacySyntaxError,
    /// Happens when mixing legacy and simplified syntax on same arm.
    MixedSyntaxError,
    /// Happens when a separator `=>` is missing between arms.
    ContentSeparatorMissing,
    /// Happens when a modifier `+`, `-` or `@` isn't the first character of arm.
    ModifierNotFirst,
    /// Happens when a modifier `+` or `-` is used during release compilation and not set to ignore.
    ModifierPanicRelease,
    /// Happens when more than 1 modifier `+` in match_cfg!.
    MatchModifierMoreThanOneActivate,
    /// Happens when using modifier `-` on wildcard arm of match_cfg!.
    MatchDeactivatedWildArm,
    /// Happens when the count of active arms doesn't respect its control value.
    ActiveBranchCountError(int, TargetActiveComparisonOperator, int),
    /// Carries the dump of the arms marked with the panic (`@`) modifier.
    ArmPanicDump(Seq<char>),
}

/// Possible engine errors.
#[derive(Debug, PartialEq, Eq)]
pub enum CfgBoostError {
    /// Missing operator (happens when a leaf contains a space)
    MissingOperator,
    /// Empty node due to missing variable.
    EmptyNode,
    /// Invalid character used
    InvalidCharacter(String),
    /// Double operator `&&`, `||` or `!!` in a predicate.
    DoubleOperator(String),
    /// Alias written is not found
    AliasNotFound(String),
    /// Invalid configuration predicate
    InvalidConfigurationPredicate(String),
    /// Happens when having an empty arm.
    EmptyArm,
    /// Happens when wildcard arm _ is not the last.
    WildcardArmNotLast,
    /// Happens when a separator `,` is missing between arms.
    ArmSeparatorMissing,
    /// Happens when a content separator `=>` is malformed.
    ContentSeparatorError,
    /// Happens when wildcard arm is not set for match_cfg!.
    WildcardArmMissing,
    /// Happens when wildcard arm is set when using target_cfg!.
    WildcardArmOnTarget,
    /// Happens when trying to use target_cfg! inside a function.
    TargetInFunction,
    /// Happens when legacy syntax is incorrect
    LegacySyntaxError,
    /// Happens when mixing legacy and simplified syntax on same arm.
    MixedSyntaxError,
    /// Happens when a separator `=>` is missing between arms.
    ContentSeparatorMissing,
    /// Happens when a modifier `+`, `-` or `@` isn't the first character of arm.
    ModifierNotFirst,
    /// Happens when a modifier `+` or `-` is used during release compilation and not set to ignore.
    ModifierPanicRelease,
    /// Happens when more than 1 modifier `+` in match_cfg!.
    MatchModifierMoreThanOneActivate,
    /// Happens when using modifier `-` on wildcard arm of match_cfg!.
    MatchDeactivatedWildArm,
    /// Happens when the count of active arms doesn't respect its control value.
    ActiveBranchCountError(usize, TargetActiveComparisonOperator, usize),
    /// Carries the dump of the arms marked with the panic (`@`) modifier.
    ArmPanicDump(String),
}

impl View for CfgBoostError {
    type V = ErrorView;

    open spec fn view(&self) -> ErrorView {
        match self {
            CfgBoostError::MissingOperator => ErrorView::MissingOperator,
            CfgBoostError::EmptyNode => ErrorView::EmptyNode,
            CfgBoostError::InvalidCharacter(c) => ErrorView::InvalidCharacter(c@),
            CfgBoostError::DoubleOperator(op) => ErrorView::DoubleOperator(op@),
            CfgBoostError::AliasNotFound(alias) => ErrorView::AliasNotFound(alias@),
            CfgBoostError::InvalidConfigurationPredicate(pred) => ErrorView::InvalidConfigurationPredicate(
                pred@,
            ),
            CfgBoostError::EmptyArm => ErrorView::EmptyArm,
            CfgBoostError::WildcardArmNotLast => ErrorView::WildcardArmNotLast,
            CfgBoostError::ArmSeparatorMissing => ErrorView::ArmSeparatorMissing,
            CfgBoostError::ContentSeparatorError => ErrorView::ContentSeparatorError,
            CfgBoostError::WildcardArmMissing => ErrorView::WildcardArmMissing,
            CfgBoostError::WildcardArmOnTarget => ErrorView::WildcardArmOnTarget,
            CfgBoostError::TargetInFunction => ErrorView::TargetInFunction,
            CfgBoostError::LegacySyntaxError => ErrorView::LegacySyntaxError,
            CfgBoostError::MixedSyntaxError => ErrorView::MixedSyntaxError,
            CfgBoostError::ContentSeparatorMissing => ErrorView::ContentSeparatorMissing,
            CfgBoostError::ModifierNotFirst => ErrorView::ModifierNotFirst,
            CfgBoostError::ModifierPanicRelease => ErrorView::ModifierPanicRelease,
            CfgBoostError::MatchModifierMoreThanOneActivate => ErrorView::MatchModifierMoreThanOneActivate,
            CfgBoostError::MatchDeactivatedWildArm => ErrorView::MatchDeactivatedWildArm,
            CfgBoostError::ActiveBranchCountError(count, op, control) => ErrorView::ActiveBranchCountError(
                *count as int,
                *op,
                *control as int,
            ),
            CfgBoostError::ArmPanicDump(dump) => ErrorView::ArmPanicDump(dump@),
        }
    }
}

impl CfgBoostError {
    /// The exact message text for this error, over the offending tokens.
    pub open spec fn spec_message(self, tokens: Seq<char>) -> Seq<char> {
        match self {
            CfgBoostError::MissingOperator => "Operator `&` or '|' missing for `\""@ + tokens
                + "\"`. Target must not contain space."@,
            CfgBoostError::EmptyNode => "Empty node generated from attributes. Are you missing a statement between separator?"@,
            CfgBoostError::InvalidCharacter(c) => "Invalid character `"@ + c@ + "` for `\""@
                + tokens + "\"`."@,
            CfgBoostError::DoubleOperator(op) => "Double operator `"@ + op@ + "` for `\""@ + tokens
                + "\"`. Target must not contain `&&`, `||` or `!!`."@,
            CfgBoostError::AliasNotFound(alias) => "Alias `"@ + alias@
                + "` has no match! Is it added in config.toml as `target_cfg-"@ + alias@ + "`?"@,
            CfgBoostError::InvalidConfigurationPredicate(pred) => "Configuration predicate `"@
                + pred@ + "` has no match! Is it added in config.toml as `target_cfg_predicate-"@
                + pred@ + "`?"@,
            CfgBoostError::EmptyArm => "Empty arm with no attributes detected!"@,
            CfgBoostError::WildcardArmNotLast => "Wildcard branch `_` must ALWAYS be the last branch."@,
            CfgBoostError::ArmSeparatorMissing => "Arm syntax incorrect. Are you missing a separator `,` between arms?"@,
            CfgBoostError::ContentSeparatorError => "Arm syntax incorrect. Is your arm separator `=>` syntax Ok?"@,
            CfgBoostError::WildcardArmMissing => "Ensure that all possible cases are being handled by adding a match arm with a `_` wildcard pattern."@,
            CfgBoostError::WildcardArmOnTarget => "target_cfg! macro cannot have a `_` wildcard pattern."@,
            CfgBoostError::TargetInFunction => "target_cfg! macro cannot be used inside a function. Use match_cfg! instead."@,
            CfgBoostError::LegacySyntaxError => "Legacy syntax error in `"@ + tokens + "`."@,
            CfgBoostError::MixedSyntaxError => "Legacy syntax and simplified syntax can't be mixed on same arm!"@,
            CfgBoostError::ContentSeparatorMissing => "Arm content separator `=>` missing!"@,
            CfgBoostError::ModifierNotFirst => "Arm modifiers `+`, `-` and `@` must be the first character of arm!"@,
            CfgBoostError::ModifierPanicRelease => "Arm modifiers `+` and `-` will panic during release compilation by default! This behaviour can be changed with the release modifier behaviour setting."@,
            CfgBoostError::MatchModifierMoreThanOneActivate => "match_cfg! cannot have more than one `+` modifier!"@,
            CfgBoostError::MatchDeactivatedWildArm => "match_cfg! cannot deactivate wildcard arm with `-` modifier!"@,
            CfgBoostError::ActiveBranchCountError(count, op, control) => "Active arm count `"@
                + spec_decimal(count as nat) + "` doesn't respect the `"@ + op.spec_text() + " "@
                + spec_decimal(control as nat) + "` control!"@,
            CfgBoostError::ArmPanicDump(dump) => dump@,
        }
    }

    /// Error message, naming the violated rule and the offending tokens.
    pub fn message(&self, tokens: &str) -> (r: String)
        ensures
            r@ == self.spec_message(tokens@),
    {
        match self {
            CfgBoostError::MissingOperator => {
                let mut s = String::from_str("Operator `&` or '|' missing for `\"");
                s.append(tokens);
                s.append("\"`. Target must not contain space.");
                s
            },
            CfgBoostError::EmptyNode => String::from_str(
                "Empty node generated from attributes. Are you missing a statement between separator?",
            ),
            CfgBoostError::InvalidCharacter(c) => {
                let mut s = String::from_str("Invalid character `");
                s.append(c.as_str());
                s.append("` for `\"");
                s.append(tokens);
                s.append("\"`.");
                s
            },
            CfgBoostError::DoubleOperator(op) => {
                let mut s = String::from_str("Double operator `");
                s.append(op.as_str());
                s.append("` for `\"");
                s.append(tokens);
                s.append("\"`. Target must not contain `&&`, `||` or `!!`.");
                s
            },
            CfgBoostError::AliasNotFound(alias) => {
                let mut s = String::from_str("Alias `");
                s.append(alias.as_str());
                s.append("` has no match! Is it added in config.toml as `target_cfg-");
                s.append(alias.as_str());
                s.append("`?");
                s
            },
            CfgBoostError::InvalidConfigurationPredicate(pred) => {
                let mut s = String::from_str("Configuration predicate `");
                s.append(pred.as_str());
                s.append("` has no match! Is it added in config.toml as `target_cfg_predicate-");
                s.append(pred.as_str());
                s.append("`?");
                s
            },
            CfgBoostError::EmptyArm => String::from_str("Empty arm with no attributes detected!"),
            CfgBoostError::WildcardArmNotLast => String::from_str(
                "Wildcard branch `_` must ALWAYS be the last branch.",
            ),
            CfgBoostError::ArmSeparatorMissing => String::from_str(
                "Arm syntax incorrect. Are you missing a separator `,` between arms?",
            ),
            CfgBoostError::ContentSeparatorError => String::from_str(
                "Arm syntax incorrect. Is your arm separator `=>` syntax Ok?",
            ),
            CfgBoostError::WildcardArmMissing => String::from_str(
                "Ensure that all possible cases are being handled by adding a match arm with a `_` wildcard pattern.",
            ),
            CfgBoostError::WildcardArmOnTarget => String::from_str(
                "target_cfg! macro cannot have a `_` wildcard pattern.",
            ),
            CfgBoostError::TargetInFunction => String::from_str(
                "target_cfg! macro cannot be used inside a function. Use match_cfg! instead.",
            ),
            CfgBoostError::LegacySyntaxError => {
                let mut s = String::from_str("Legacy syntax error in `");
                s.append(tokens);
                s.append("`.");
                s
            },
            CfgBoostError::MixedSyntaxError => String::from_str(
                "Legacy syntax and simplified syntax can't be mixed on same arm!",
            ),
            CfgBoostError::ContentSeparatorMissing => String::from_str(
                "Arm content separator `=>` missing!",
            ),
            CfgBoostError::ModifierNotFirst => String::from_str(
                "Arm modifiers `+`, `-` and `@` must be the first character of arm!",
            ),
            CfgBoostError::ModifierPanicRelease => String::from_str(
                "Arm modifiers `+` and `-` will panic during release compilation by default! This behaviour can be changed with the release modifier behaviour setting.",
            ),
            CfgBoostError::MatchModifierMoreThanOneActivate => String::from_str(
                "match_cfg! cannot have more than one `+` modifier!",
            ),
            CfgBoostError::MatchDeactivatedWildArm => String::from_str(
                "match_cfg! cannot deactivate wildcard arm with `-` modifier!",
            ),
            CfgBoostError::ArmPanicDump(dump) => String::from_str(dump.as_str()),
            CfgBoostError::ActiveBranchCountError(count, op, control) => {
                let mut s = String::from_str("Active arm count `");
                let count_text = usize_to_string(*count);
                s.append(count_text.as_str());
                s.append("` doesn't respect the `");
                s.append(op.to_text());
                s.append(" ");
                let control_text = usize_to_string(*control);
                s.append(control_text.as_str());
                s.append("` control!");
                s
            },
        }
    }
}

} // verus!
