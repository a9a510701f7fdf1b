//! The enable flag of the tool's configuration: the decision is made here;
//! reading the configuration file happens outside the library.

use vstd::prelude::*;

verus! {

/// The boolean `enabled` field of a configuration document: what parsing
/// the text as JSON and reading that field yields; nothing when the text
/// does not parse or the field is absent or no boolean. The result depends
/// on the text alone.
pub uninterp spec fn config_enabled_field(s: Seq<char>) -> Option<bool>;

/// Relies on serde_json's from_str and Value::get / as_bool: parsing the
/// text and reading its `enabled` field, a result determined by the text
/// alone.
#[verifier::external_body]
fn read_enabled_field(contents: &str) -> (r: Option<bool>)
    ensures
        r == config_enabled_field(contents@),
{
    match serde_json::from_str::<serde_json::Value>(contents) {
        Ok(v) => v.get("enabled").and_then(|e| e.as_bool()),
        Err(_) => None,
    }
}

/// Whether the tool is enabled: yes, unless configuration contents were
/// read and their `enabled` field is false. A missing file, contents that
/// do not parse, or a missing field all leave the tool enabled.
pub fn is_enabled_from_config(contents: Option<&String>) -> (r: bool)
    ensures
        r == match contents {
            Some(s) => config_enabled_field(s@) != Some(false),
            None => true,
        },
{
    match contents {
        Some(s) => match read_enabled_field(s.as_str()) {
            Some(b) => b,
            None => true,
        },
        None => true,
    }
}

} // verus!
