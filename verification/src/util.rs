//! Small standalone utilities: the location of the legacy configuration
//! file, and byte-size and string-truncation formatting.

use crate::utils::format::spec_human_size;
use crate::utils::format::spec_truncated;
use vstd::prelude::*;
use vstd::string::StringExecFns;
use vstd::string::StringSliceAdditionalSpecFns;

verus! {

/// The legacy configuration directory under the given home directory.
pub fn get_config_dir(home_dir: &str) -> (r: String)
    ensures
        r@ == home_dir@ + "/.llm-chainfuse"@,
{
    let mut r = String::from_str(home_dir);
    r.append("/.llm-chainfuse");
    r
}

/// The legacy configuration file path under the given home directory.
pub fn get_config_file(home_dir: &str) -> (r: String)
    ensures
        r@ == home_dir@ + "/.llm-chainfuse"@ + "/config.yaml"@,
{
    let mut r = get_config_dir(home_dir);
    r.append("/config.yaml");
    r
}

/// Convert bytes to a human-readable size.
pub fn human_readable_size(size: u64) -> (r: String)
    ensures
        r@ == spec_human_size(size as int),
{
    crate::utils::format::human_readable_size(size)
}

/// Truncate a string, adding an ellipsis if it was truncated.
pub fn truncate_string(input: &str, max_length: usize) -> (r: String)
    requires
        input.spec_bytes().len() <= usize::MAX,
        input.spec_bytes().len() > max_length ==> max_length >= 4,
    ensures
        r@ == spec_truncated(input@, input.spec_bytes().len() as int, max_length as int),
{
    crate::utils::format::truncate_string(input, max_length)
}

} // verus!
