//! Label and predicate parsing entry points.
//!
//! These are the dictionary's public face: the same lookups as
//! `config`, under the names that callers of the engine use.
use vstd::prelude::*;

use crate::config::spec_alias_lookup;
use crate::config::spec_predicate_result;
use crate::config::get_cfg_boost_alias;
use crate::config::get_cfg_boost_predicate;
use crate::errors::CfgBoostError;

verus! {

/// Parse tokens of form `label:key` to generate a rendered
/// configuration predicate.
///
/// Returns `CfgBoostError::InvalidConfigurationPredicate` if the key is
/// not defined in the override store nor in the built-in table.
pub fn parse_cfg_predicate(tokens: &str, store: &Vec<(String, String)>) -> (r: Result<
    String,
    CfgBoostError,
>)
    ensures
        match r {
            Ok(v) => spec_predicate_result(tokens@, store@) matches Ok(s) && s == v@,
            Err(e) => spec_predicate_result(tokens@, store@) matches Err(p) && (e matches
            CfgBoostError::InvalidConfigurationPredicate(q) && q@ == p),
        },
{
    get_cfg_boost_predicate(tokens, store)
}

/// Parse an alias label to generate its expansion text.
///
/// Returns `CfgBoostError::AliasNotFound` if the alias is not defined
/// in the override store nor in the built-in table.
pub fn parse_alias_from_label(label: &str, store: &Vec<(String, String)>) -> (r: Result<
    String,
    CfgBoostError,
>)
    ensures
        match r {
            Ok(v) => spec_alias_lookup(store@, label@) == Some(v@),
            Err(e) => spec_alias_lookup(store@, label@) is None && (e matches
            CfgBoostError::AliasNotFound(l) && l@ == label@),
        },
{
    get_cfg_boost_alias(label, store)
}

} // verus!
