//! Reading typed fields out of a frontmatter block.
//!
//! The block's YAML text is handed to gray_matter's YAML engine; what a
//! given key holds in a given block is a function of the two strings
//! alone, named here by `yaml_str_field` and `yaml_list_field`.

use vstd::prelude::*;

verus! {

/// The string value under `key` in the YAML text `block`, where the block
/// parses and holds one.
pub uninterp spec fn yaml_str_field(block: Seq<char>, key: Seq<char>) -> Option<Seq<char>>;

/// The sequence of strings under `key` in the YAML text `block`, where the
/// block parses and `key` holds a list of strings.
pub uninterp spec fn yaml_list_field(block: Seq<char>, key: Seq<char>) -> Option<Seq<Seq<char>>>;

/// Relies on gray_matter's YAML engine: `YAML::parse` turns the block's
/// text into a `Pod` value as a function of that text alone, and
/// `Pod::as_hashmap` with `Pod::as_string` hand back exactly the string
/// stored under the key.
#[verifier::external_body]
pub(crate) fn str_field(block: &str, key: &str) -> (r: Option<String>)
    ensures
        r.deep_view() == yaml_str_field(block@, key@),
{
    let pod = <gray_matter::engine::YAML as gray_matter::engine::Engine>::parse(block).ok()?;
    let map = pod.as_hashmap().ok()?;
    map.get(key)?.as_string().ok()
}

/// Relies on gray_matter's YAML engine: `YAML::parse` turns the block's
/// text into a `Pod` value as a function of that text alone, and
/// `Pod::as_hashmap`, `Pod::as_vec` and `Pod::as_string` hand back
/// exactly the strings stored under the key, in their order in the block.
#[verifier::external_body]
pub(crate) fn list_field(block: &str, key: &str) -> (r: Option<Vec<String>>)
    ensures
        r.deep_view() == yaml_list_field(block@, key@),
{
    let pod = <gray_matter::engine::YAML as gray_matter::engine::Engine>::parse(block).ok()?;
    let map = pod.as_hashmap().ok()?;
    let items = map.get(key)?.as_vec().ok()?;
    let mut out: Vec<String> = Vec::with_capacity(items.len());
    for item in items {
        out.push(item.as_string().ok()?);
    }
    Some(out)
}

} // verus!
