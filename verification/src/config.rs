//! Alias and predicate dictionary, and the build configuration context.
//!
//! Lookups consult an override store first (key–value pairs that the
//! caller gathered from its project configuration) and fall back to a
//! fixed built-in table.  A miss raises a "not found" error.
use vstd::prelude::*;
use vstd::string::StrSliceExecFns;
use vstd::string::StringExecFns;

use crate::errors::CfgBoostError;
use crate::text::replace_marker;
use crate::text::spec_contains;
use crate::text::spec_find_char;
use crate::text::spec_replace_marker;
use crate::text::spec_trim;
use crate::text::contains_str;
use crate::text::find_char;
use crate::text::str_eq;
use crate::text::trim_str;

verus! {

/// Read-only configuration context of one compilation.
///
/// The two stores hold user overrides (alias label to expansion text,
/// predicate key to template); `active_cfg` holds the rendered
/// configuration predicates that are active for the current build.
pub struct CfgContext {
    /// Override store for aliases: label to expansion text.
    pub alias_store: Vec<(String, String)>,
    /// Override store for configuration predicates: key to template.
    pub predicate_store: Vec<(String, String)>,
    /// Rendered predicates active in the current build configuration.
    pub active_cfg: Vec<String>,
    /// True when building documentation.
    pub doc_build: bool,
    /// True for a debug build.
    pub debug_build: bool,
    /// True when arms are automatically documented.
    pub autodoc: bool,
    /// True when documentation attributes are generated.
    pub docsrs: bool,
    /// True when override modifiers must be refused outside debug builds.
    pub release_modifier_panic: bool,
}

/// Behaviour of the `+` and `-` modifiers in a release build.
#[derive(Debug, Clone, Copy, PartialEq, Eq)]
pub enum ReleaseModifierBehaviour {
    /// Refuse the modifiers with an error.
    Panic,
    /// Ignore the modifiers.
    Ignore,
}

/// Expansion text of a built-in alias.
pub open spec fn spec_builtin_alias(label: Seq<char>) -> Option<Seq<char>> {
    if label == "linux"@ {
        Some("linux:os"@)
    } else if label == "unix"@ {
        Some("unix:_"@)
    } else if label == "windows"@ {
        Some("windows:_"@)
    } else if label == "macos"@ {
        Some("macos:os"@)
    } else if label == "android"@ {
        Some("android:os"@)
    } else if label == "ios"@ {
        Some("ios:os"@)
    } else if label == "wasm"@ {
        Some("wasm:_"@)
    } else if label == "doc"@ {
        Some("doc:_"@)
    } else if label == "test"@ {
        Some("test:_"@)
    } else if label == "debug"@ {
        Some("debug_assertions:_"@)
    } else if label == "desktop"@ {
        Some("linux:os | windows:_ | macos:os"@)
    } else if label == "mobile"@ {
        Some("android:os | ios:os"@)
    } else {
        None
    }
}

/// Template of a built-in configuration predicate.
pub open spec fn spec_builtin_predicate(key: Seq<char>) -> Option<Seq<char>> {
    if key == "ar"@ {
        Some("target_arch = \"{}\""@)
    } else if key == "tf"@ {
        Some("target_feature = \"{}\""@)
    } else if key == "os"@ {
        Some("target_os = \"{}\""@)
    } else if key == "fm"@ {
        Some("target_family = \"{}\""@)
    } else if key == "ev"@ {
        Some("target_env = \"{}\""@)
    } else if key == "ed"@ {
        Some("target_endian = \"{}\""@)
    } else if key == "pw"@ {
        Some("target_pointer_width = \"{}\""@)
    } else if key == "vn"@ {
        Some("target_vendor = \"{}\""@)
    } else if key == "at"@ {
        Some("target_has_atomic = \"{}\""@)
    } else if key == "pn"@ {
        Some("panic = \"{}\""@)
    } else if key == "ft"@ {
        Some("feature = \"{}\""@)
    } else if key == "_"@ {
        Some("{}"@)
    } else {
        None
    }
}

/// First value paired with `key` in the store, if any.
pub open spec fn spec_store_lookup(store: Seq<(String, String)>, key: Seq<char>) -> Option<
    Seq<char>,
>
    decreases store.len(),
{
    if store.len() == 0 {
        None
    } else if store[0].0@ == key {
        Some(store[0].1@)
    } else {
        spec_store_lookup(store.drop_first(), key)
    }
}

/// Alias lookup: override store first, built-in table as fallback.
pub open spec fn spec_alias_lookup(store: Seq<(String, String)>, label: Seq<char>) -> Option<
    Seq<char>,
> {
    match spec_store_lookup(store, label) {
        Some(v) => Some(v),
        None => spec_builtin_alias(label),
    }
}

/// Predicate-template lookup: override store first, built-in table as fallback.
pub open spec fn spec_predicate_lookup(store: Seq<(String, String)>, key: Seq<char>) -> Option<
    Seq<char>,
> {
    match spec_store_lookup(store, key) {
        Some(v) => Some(v),
        None => spec_builtin_predicate(key),
    }
}

/// First value paired with `key` in the store, if any.
fn store_lookup(store: &Vec<(String, String)>, key: &str) -> (r: Option<String>)
    ensures
        match r {
            Some(v) => spec_store_lookup(store@, key@) == Some(v@),
            None => spec_store_lookup(store@, key@) is None,
        },
{
    proof {
        assert(store@.skip(0) =~= store@);
    }
    let n = store.len();
    let mut i: usize = 0;
    while i < n
        invariant
            n == store@.len(),
            i <= n,
            spec_store_lookup(store@, key@) == spec_store_lookup(store@.skip(i as int), key@),
        decreases n - i,
    {
        proof {
            assert(store@.skip(i as int).drop_first() =~= store@.skip(i + 1));
            assert(store@.skip(i as int)[0] == store@[i as int]);
        }
        if str_eq(store[i].0.as_str(), key) {
            let v = String::from_str(store[i].1.as_str());
            return Some(v);
        }
        i = i + 1;
    }
    None
}

/// Expansion text of a built-in alias.
fn builtin_alias(label: &str) -> (r: Option<&'static str>)
    ensures
        match r {
            Some(v) => spec_builtin_alias(label@) == Some(v@),
            None => spec_builtin_alias(label@) is None,
        },
{
    if str_eq(label, "linux") {
        Some("linux:os")
    } else if str_eq(label, "unix") {
        Some("unix:_")
    } else if str_eq(label, "windows") {
        Some("windows:_")
    } else if str_eq(label, "macos") {
        Some("macos:os")
    } else if str_eq(label, "android") {
        Some("android:os")
    } else if str_eq(label, "ios") {
        Some("ios:os")
    } else if str_eq(label, "wasm") {
        Some("wasm:_")
    } else if str_eq(label, "doc") {
        Some("doc:_")
    } else if str_eq(label, "test") {
        Some("test:_")
    } else if str_eq(label, "debug") {
        Some("debug_assertions:_")
    } else if str_eq(label, "desktop") {
        Some("linux:os | windows:_ | macos:os")
    } else if str_eq(label, "mobile") {
        Some("android:os | ios:os")
    } else {
        None
    }
}

/// Template of a built-in configuration predicate.
fn builtin_predicate(key: &str) -> (r: Option<&'static str>)
    ensures
        match r {
            Some(v) => spec_builtin_predicate(key@) == Some(v@),
            None => spec_builtin_predicate(key@) is None,
        },
{
    if str_eq(key, "ar") {
        Some("target_arch = \"{}\"")
    } else if str_eq(key, "tf") {
        Some("target_feature = \"{}\"")
    } else if str_eq(key, "os") {
        Some("target_os = \"{}\"")
    } else if str_eq(key, "fm") {
        Some("target_family = \"{}\"")
    } else if str_eq(key, "ev") {
        Some("target_env = \"{}\"")
    } else if str_eq(key, "ed") {
        Some("target_endian = \"{}\"")
    } else if str_eq(key, "pw") {
        Some("target_pointer_width = \"{}\"")
    } else if str_eq(key, "vn") {
        Some("target_vendor = \"{}\"")
    } else if str_eq(key, "at") {
        Some("target_has_atomic = \"{}\"")
    } else if str_eq(key, "pn") {
        Some("panic = \"{}\"")
    } else if str_eq(key, "ft") {
        Some("feature = \"{}\"")
    } else if str_eq(key, "_") {
        Some("{}")
    } else {
        None
    }
}

/// Parse `label` to generate alias expansion text.
///
/// Returns `CfgBoostError::AliasNotFound` if the alias is defined
/// neither in the override store nor in the built-in table.
pub fn get_cfg_boost_alias(label: &str, store: &Vec<(String, String)>) -> (r: Result<
    String,
    CfgBoostError,
>)
    ensures
        match r {
            Ok(v) => spec_alias_lookup(store@, label@) == Some(v@),
            Err(e) => spec_alias_lookup(store@, label@) is None && (e matches
            CfgBoostError::AliasNotFound(l) && l@ == label@),
        },
{
    match store_lookup(store, label) {
        Some(v) => Ok(v),
        None => match builtin_alias(label) {
            Some(v) => Ok(String::from_str(v)),
            None => Err(CfgBoostError::AliasNotFound(String::from_str(label))),
        },
    }
}

/// What `get_cfg_boost_predicate` returns: the template of the key
/// after `:`, with its placeholder substituted by the label before
/// `:`, or the unmatched key (or the whole text when `:` is missing)
/// as the error payload.
pub open spec fn spec_predicate_result(tokens: Seq<char>, store: Seq<(String, String)>) -> Result<
    Seq<char>,
    Seq<char>,
> {
    let pos = spec_find_char(tokens, ':');
    if pos == -1 {
        Err(tokens)
    } else {
        let label = spec_trim(tokens.subrange(0, pos));
        let key = spec_trim(tokens.skip(pos + 1));
        match spec_predicate_lookup(store, key) {
            Some(template) => Ok(spec_replace_marker(template, label)),
            None => Err(key),
        }
    }
}

/// Parse `label:key` tokens to generate a rendered configuration predicate.
///
/// Returns `CfgBoostError::InvalidConfigurationPredicate` if the key is
/// defined neither in the override store nor in the built-in table.
pub fn get_cfg_boost_predicate(tokens: &str, store: &Vec<(String, String)>) -> (r: Result<
    String,
    CfgBoostError,
>)
    ensures
        match r {
            Ok(v) => spec_predicate_result(tokens@, store@) matches Ok(s) && s == v@,
            Err(e) => spec_predicate_result(tokens@, store@) matches Err(p) && (e matches
            CfgBoostError::InvalidConfigurationPredicate(q) && q@ == p),
        },
{
    let n = tokens.unicode_len();
    match find_char(tokens, ':') {
        Some(pos) => {
            let label = trim_str(tokens.substring_char(0, pos));
            let key_part = tokens.substring_char(pos + 1, n);
            let key = trim_str(key_part);
            proof {
                assert(tokens@.skip(pos + 1) =~= tokens@.subrange(pos + 1, n as int));
            }
            match store_lookup(store, key.as_str()) {
                Some(template) => Ok(replace_marker(template.as_str(), label.as_str())),
                None => match builtin_predicate(key.as_str()) {
                    Some(template) => Ok(replace_marker(template, label.as_str())),
                    None => Err(CfgBoostError::InvalidConfigurationPredicate(key)),
                },
            }
        },
        None => Err(CfgBoostError::InvalidConfigurationPredicate(String::from_str(tokens))),
    }
}

/// Whether arms are automatically documented, from the raw setting text.
///
/// Any value but `false` means the feature is on; an absent setting
/// defaults to on.
pub fn is_cfg_boost_autodoc(setting: Option<&str>) -> (r: bool)
    ensures
        r == match setting {
            Some(v) => v@ != "false"@,
            None => true,
        },
{
    match setting {
        Some(v) => !str_eq(v, "false"),
        None => true,
    }
}

/// Behaviour of the `+` and `-` modifiers in a release build, from the
/// raw setting text.
///
/// Only an explicit `ignore` turns the refusal off; any other value,
/// or an absent setting, keeps it.
pub fn get_release_modifier_behaviour(setting: Option<&str>) -> (r: ReleaseModifierBehaviour)
    ensures
        r == ReleaseModifierBehaviour::Ignore <==> (setting matches Some(v) && v@ == "ignore"@),
{
    match setting {
        Some(v) => if str_eq(v, "ignore") {
            ReleaseModifierBehaviour::Ignore
        } else {
            ReleaseModifierBehaviour::Panic
        },
        None => ReleaseModifierBehaviour::Panic,
    }
}

/// Whether documentation attributes are generated, from the cached
/// setting text if there is one, else from the manifest's content.
pub fn if_docsrs_enabled(cache: Option<&str>, manifest: Option<&str>) -> (r: bool)
    ensures
        r == match cache {
            Some(v) => v@ == "true"@,
            None => match manifest {
                Some(c) => spec_contains(c@, "[package.metadata.docs.rs]"@),
                None => false,
            },
        },
{
    match cache {
        Some(v) => str_eq(v, "true"),
        None => match manifest {
            Some(c) => contains_str(c, "[package.metadata.docs.rs]"),
            None => false,
        },
    }
}

} // verus!
