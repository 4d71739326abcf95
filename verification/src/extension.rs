//! Classification of archive suffixes.

use vstd::prelude::*;
use vstd::string::*;
use crate::text::text_equals;

verus! {

/// The pattern that every plugin archive suffix matches.
pub const EXT_PLUGIN_PATTERN: &'static str = "^7z.*$";

/// Suffix of an archive that is deployed fresh on every load.
pub const EXT_PLUGIN_NORMAL: &'static str = "7z";

/// Suffix of an archive that is present but excluded from loading.
pub const EXT_PLUGIN_DISABLE: &'static str = "7zf";

/// Suffix of an archive that feeds, and is served from, the shared cache.
pub const EXT_PLUGIN_LOCALBOOST: &'static str = "7zl";

/// What kind of archive a suffix of the accepted family stands for.
#[derive(Debug, Clone, Copy, PartialEq, Eq, Structural)]
pub enum PluginExtension {
    Normal,
    Localboost,
    Disabled,
    /// In the family, but none of the known suffixes: never loaded.
    Unknown,
}

/// Whether the regular expression `pattern` finds a match in `text`; none
/// where `pattern` is no regular expression that can be compiled.
pub uninterp spec fn pattern_match(pattern: Seq<char>, text: Seq<char>) -> Option<bool>;

/// Compiles `pattern` with `regex::Regex::new` and searches `text` with
/// `regex::Regex::is_match`. The outcome depends on the two texts alone, so it
/// is given a name; nothing is claimed about which texts match.
#[verifier::external_body]
fn search_pattern(pattern: &str, text: &str) -> (found: Option<bool>)
    ensures
        found == pattern_match(pattern@, text@),
{
    match regex::Regex::new(pattern) {
        Ok(re) => Some(re.is_match(text)),
        Err(_) => None,
    }
}

/// The class of a suffix that is known to belong to the family.
pub open spec fn suffix_class(ext: Seq<char>) -> PluginExtension {
    if ext == seq!['7', 'z'] {
        PluginExtension::Normal
    } else if ext == seq!['7', 'z', 'l'] {
        PluginExtension::Localboost
    } else if ext == seq!['7', 'z', 'f'] {
        PluginExtension::Disabled
    } else {
        PluginExtension::Unknown
    }
}

/// The class of a suffix, given whether the family pattern matched it.
pub open spec fn classified(matched: Option<bool>, ext: Seq<char>) -> Option<PluginExtension> {
    if matched == Some(true) {
        Some(suffix_class(ext))
    } else {
        None
    }
}

impl PluginExtension {
    /// Classifies a suffix. One that the family pattern does not match has no
    /// class; one that it matches always has one.
    pub fn new(ext: &str) -> (class: Option<PluginExtension>)
        ensures
            class == classified(pattern_match(EXT_PLUGIN_PATTERN@, ext@), ext@),
    {
        let matched = search_pattern(EXT_PLUGIN_PATTERN, ext);
        Self::of_match(matched, ext)
    }

    /// Classifies a suffix after the family pattern was tried on it.
    pub fn of_match(matched: Option<bool>, ext: &str) -> (class: Option<PluginExtension>)
        ensures
            class == classified(matched, ext@),
    {
        match matched {
            Some(true) => Some(Self::of_family_member(ext)),
            _ => None,
        }
    }

    /// Classifies a suffix of the family: the three known suffixes each have
    /// their class, every other suffix is `Unknown`.
    pub fn of_family_member(ext: &str) -> (class: PluginExtension)
        ensures
            class == suffix_class(ext@),
    {
        proof {
            reveal_strlit("7z");
            reveal_strlit("7zl");
            reveal_strlit("7zf");
            assert("7z"@ =~= seq!['7', 'z']);
            assert("7zl"@ =~= seq!['7', 'z', 'l']);
            assert("7zf"@ =~= seq!['7', 'z', 'f']);
        }
        if text_equals(ext, EXT_PLUGIN_NORMAL) {
            PluginExtension::Normal
        } else if text_equals(ext, EXT_PLUGIN_LOCALBOOST) {
            PluginExtension::Localboost
        } else if text_equals(ext, EXT_PLUGIN_DISABLE) {
            PluginExtension::Disabled
        } else {
            PluginExtension::Unknown
        }
    }
}

} // verus!
