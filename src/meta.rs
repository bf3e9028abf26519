//! The sidecar (`.meta`) text: its `guid` and its folder marker.

use vstd::prelude::*;
use vstd::string::*;
use yaml_rust::YamlLoader;

verus! {

/// What yaml-rust reads from `text` under the top-level `key` of its first
/// document: `None` when the text is not YAML or holds no document,
/// `Some(None)` when the key is absent or its value is not a string.
pub uninterp spec fn yaml_str_at(text: Seq<char>, key: Seq<char>) -> Option<Option<Seq<char>>>;

/// Relies on `yaml_rust::YamlLoader::load_from_str`, indexing the first
/// document by `key` and `Yaml::as_str`: the result is a function of the
/// text and the key.
#[verifier::external_body]
fn yaml_lookup(text: &str, key: &str) -> (r: Option<Option<String>>)
    ensures
        match r {
            None => yaml_str_at(text@, key@) is None,
            Some(None) => yaml_str_at(text@, key@) == Some(None::<Seq<char>>),
            Some(Some(v)) => yaml_str_at(text@, key@) == Some(Some(v@)),
        },
{
    let docs = YamlLoader::load_from_str(text).ok()?;
    let doc = docs.get(0)?;
    Some(doc[key].as_str().map(|v| v.to_string()))
}

/// Why a sidecar could not be read.
#[derive(Debug, Clone, Copy, PartialEq, Eq, Structural)]
pub enum MetaParseError {
    /// The text is not YAML, or holds no document.
    Malformed,
    /// The `guid` field is absent or not a string.
    MissingGuid,
}

pub open spec fn guid_key() -> Seq<char> {
    seq!['g', 'u', 'i', 'd']
}

pub open spec fn folder_key() -> Seq<char> {
    seq!['f', 'o', 'l', 'd', 'e', 'r', 'A', 's', 's', 'e', 't']
}

pub open spec fn yes_word() -> Seq<char> {
    seq!['y', 'e', 's']
}

/// The guid that a sidecar's lookup result gives, or why it gives none.
pub open spec fn guid_result(lookup: Option<Option<Seq<char>>>) -> Result<Seq<char>, MetaParseError> {
    match lookup {
        None => Err(MetaParseError::Malformed),
        Some(None) => Err(MetaParseError::MissingGuid),
        Some(Some(g)) => Ok(g),
    }
}

/// The folder marker that a sidecar's lookup result gives: only the string
/// `yes` marks a folder.
pub open spec fn folder_result(lookup: Option<Option<Seq<char>>>) -> Result<bool, MetaParseError> {
    match lookup {
        None => Err(MetaParseError::Malformed),
        Some(v) => Ok(v == Some(yes_word())),
    }
}

/// Whether a `folderAsset` value marks a folder.
pub fn is_folder_marker(value: &Option<String>) -> (r: bool)
    ensures
        r == (match value {
            Some(v) => v@ == yes_word(),
            None => false,
        }),
{
    proof {
        reveal_strlit("yes");
    }
    assert("yes"@ =~= yes_word());
    match value {
        Some(v) => *v == String::from_str("yes"),
        None => false,
    }
}

/// Reads the `guid` of a sidecar.
pub fn extract_guid_from_meta(meta_content: &str) -> (r: Result<String, MetaParseError>)
    ensures
        match r {
            Ok(g) => guid_result(yaml_str_at(meta_content@, guid_key())) == Ok::<
                Seq<char>,
                MetaParseError,
            >(g@),
            Err(e) => guid_result(yaml_str_at(meta_content@, guid_key())) == Err::<
                Seq<char>,
                MetaParseError,
            >(e),
        },
{
    proof {
        reveal_strlit("guid");
    }
    assert("guid"@ =~= guid_key());
    match yaml_lookup(meta_content, "guid") {
        None => Err(MetaParseError::Malformed),
        Some(None) => Err(MetaParseError::MissingGuid),
        Some(Some(g)) => Ok(g),
    }
}

/// Reads whether a sidecar marks a folder (`folderAsset: yes`); an absent
/// marker means a file.
pub fn is_folder_asset(meta_content: &str) -> (r: Result<bool, MetaParseError>)
    ensures
        r == folder_result(yaml_str_at(meta_content@, folder_key())),
{
    proof {
        reveal_strlit("folderAsset");
    }
    assert("folderAsset"@ =~= folder_key());
    match yaml_lookup(meta_content, "folderAsset") {
        None => Err(MetaParseError::Malformed),
        Some(value) => Ok(is_folder_marker(&value)),
    }
}

} // verus!
