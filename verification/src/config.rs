//! Configuration values of the client that carry no I/O of their own:
//! the theme colors and the location of the configuration file under a
//! given home directory. Loading and saving the file is the host's
//! concern.

use vstd::prelude::*;
use vstd::string::StringExecFns;

verus! {

/// Theme configuration for the application UI.
#[derive(Debug, Clone)]
pub struct ThemeConfig {
    /// Primary theme color as hex string (e.g., "#4B9CD3").
    pub primary: String,
    /// Secondary theme color as hex string.
    pub secondary: String,
    /// Accent color for highlighting.
    pub accent: String,
    /// Background color (or "default" for the terminal default).
    pub background: String,
    /// Foreground/text color (or "default" for the terminal default).
    pub foreground: String,
}

impl Default for ThemeConfig {
    /// The stock theme: blue, teal and gold on the terminal's own
    /// colors.
    fn default() -> (r: Self)
        ensures
            r.primary@ == "#0087AF"@,
            r.secondary@ == "#00AF87"@,
            r.accent@ == "#AF8700"@,
            r.background@ == "default"@,
            r.foreground@ == "default"@,
    {
        ThemeConfig {
            primary: String::from_str("#0087AF"),
            secondary: String::from_str("#00AF87"),
            accent: String::from_str("#AF8700"),
            background: String::from_str("default"),
            foreground: String::from_str("default"),
        }
    }
}

/// The configuration directory under the given home directory.
pub fn get_config_dir(home_dir: &str) -> (r: String)
    ensures
        r@ == home_dir@ + "/.ai-coder"@,
{
    let mut r = String::from_str(home_dir);
    r.append("/.ai-coder");
    r
}

/// The configuration file path under the given home directory.
pub fn get_config_file(home_dir: &str) -> (r: String)
    ensures
        r@ == home_dir@ + "/.ai-coder"@ + "/config.yaml"@,
{
    let mut r = get_config_dir(home_dir);
    r.append("/config.yaml");
    r
}

} // verus!
