//! Application command handling: the dispatcher that parses a typed
//! `/` command into the action the host must perform, the built-in help
//! and version texts, and the color-value parser of the theme command.
//!
//! Commands that only produce text are answered here in full; commands
//! that touch configuration, the terminal or the network come back as
//! structured requests for the host to carry out.

use crate::handlers::HandlerError;
use crate::utils::format::eq_ignore_ascii_case;
use crate::utils::format::join_spaces;
use crate::utils::format::spec_ascii_lower;
use crate::utils::format::spec_join_spaces;
use crate::utils::format::spec_split_ws;
use crate::utils::format::split_whitespace_vec;
use vstd::prelude::*;
use vstd::string::StringExecFns;

verus! {

/// Command handler for application commands.
pub struct CommandHandler;

/// What the host must do for one parsed application command.
#[derive(Debug)]
pub enum CommandOutcome {
    /// Show this text.
    Text(String),
    /// Exit the application.
    Exit,
    /// Apply a configuration command with these arguments.
    Config(Vec<String>),
    /// Apply a theme command with these arguments.
    Theme(Vec<String>),
    /// Answer a listing command with these arguments.
    List(Vec<String>),
    /// Show system information.
    System,
}

impl CommandHandler {
    /// Handle an application command: split it into words, dispatch on
    /// the first word (case-insensitively), and either answer with text
    /// or hand back the structured request for the host to perform.
    pub fn handle_command(command: &str) -> (r: Result<CommandOutcome, HandlerError>)
        ensures
            ({
                let parts = spec_split_ws(command@);
                &&& parts.len() == 0 ==> (r matches Err(HandlerError::Parse(m)) && m@
                    == "Empty command"@)
                &&& parts.len() > 0 ==> {
                    let w = spec_ascii_lower(parts[0]);
                    &&& w == "help"@ ==> (r matches Ok(CommandOutcome::Text(t)) && t@
                        == spec_show_help(parts.drop_first()))
                    &&& w == "clear"@ ==> (r matches Ok(CommandOutcome::Text(t)) && t@
                        == "/clear"@)
                    &&& (w == "exit"@ || w == "quit"@) ==> (r matches Ok(CommandOutcome::Exit))
                    &&& w == "config"@ ==> (r matches Ok(CommandOutcome::Config(a))
                        && a.deep_view() == parts.drop_first())
                    &&& w == "version"@ ==> (r matches Ok(CommandOutcome::Text(t)) && t@
                        == "AI Coder Interface v0.1.0"@)
                    &&& w == "echo"@ ==> (r matches Ok(CommandOutcome::Text(t)) && t@
                        == spec_join_spaces(parts.drop_first()))
                    &&& w == "system"@ ==> (r matches Ok(CommandOutcome::System))
                    &&& w == "theme"@ ==> (r matches Ok(CommandOutcome::Theme(a)) && a.deep_view()
                        == parts.drop_first())
                    &&& w == "list"@ ==> (r matches Ok(CommandOutcome::List(a)) && a.deep_view()
                        == parts.drop_first())
                    &&& !(w == "help"@ || w == "clear"@ || w == "exit"@ || w == "quit"@ || w
                        == "config"@ || w == "version"@ || w == "echo"@ || w == "system"@ || w
                        == "theme"@ || w == "list"@) ==> (r matches Err(HandlerError::Parse(m))
                        && m@ == "Unknown command '"@ + parts[0] + "'. Type '/help' for commands."@)
                }
            }),
    {
        let mut parts = split_whitespace_vec(command);
        if parts.len() == 0 {
            return Err(HandlerError::Parse(String::from_str("Empty command")));
        }
        let ghost parts0 = parts.deep_view();
        proof {
            reveal_strlit("help");
            reveal_strlit("clear");
            reveal_strlit("exit");
            reveal_strlit("quit");
            reveal_strlit("config");
            reveal_strlit("version");
            reveal_strlit("echo");
            reveal_strlit("system");
            reveal_strlit("theme");
            reveal_strlit("list");
            assert(spec_ascii_lower("help"@) =~= "help"@);
            assert(spec_ascii_lower("clear"@) =~= "clear"@);
            assert(spec_ascii_lower("exit"@) =~= "exit"@);
            assert(spec_ascii_lower("quit"@) =~= "quit"@);
            assert(spec_ascii_lower("config"@) =~= "config"@);
            assert(spec_ascii_lower("version"@) =~= "version"@);
            assert(spec_ascii_lower("echo"@) =~= "echo"@);
            assert(spec_ascii_lower("system"@) =~= "system"@);
            assert(spec_ascii_lower("theme"@) =~= "theme"@);
            assert(spec_ascii_lower("list"@) =~= "list"@);
            assert("help"@.len() == 4 && "help"@[0] == 'h');
            assert("clear"@.len() == 5 && "clear"@[0] == 'c' && "clear"@[1] == 'l');
            assert("exit"@.len() == 4 && "exit"@[0] == 'e' && "exit"@[1] == 'x');
            assert("quit"@.len() == 4 && "quit"@[0] == 'q');
            assert("config"@.len() == 6 && "config"@[0] == 'c' && "config"@[1] == 'o');
            assert("version"@.len() == 7 && "version"@[0] == 'v');
            assert("echo"@.len() == 4 && "echo"@[0] == 'e' && "echo"@[1] == 'c');
            assert("system"@.len() == 6 && "system"@[0] == 's');
            assert("theme"@.len() == 5 && "theme"@[0] == 't');
            assert("list"@.len() == 4 && "list"@[0] == 'l');
            assert(parts0.len() == parts@.len());
            assert forall|i: int| 0 <= i < parts@.len() implies parts0[i] == parts@[i]@ by {
                assert(parts0[i] == parts@[i].deep_view());
            }
        }
        if eq_ignore_ascii_case(parts[0].as_str(), "help") {
            let topic: Option<&String> = if parts.len() > 1 {
                Some(&parts[1])
            } else {
                None
            };
            let text = Self::show_help(topic);
            proof {
                assert(parts0.drop_first() =~= parts0.skip(1));
                if parts0.len() > 1 {
                    assert(parts0.drop_first()[0] == parts0[1]);
                } else {
                    assert(parts0.drop_first().len() == 0);
                }
            }
            return Ok(CommandOutcome::Text(text));
        }
        if eq_ignore_ascii_case(parts[0].as_str(), "clear") {
            return Ok(CommandOutcome::Text(String::from_str("/clear")));
        }
        if eq_ignore_ascii_case(parts[0].as_str(), "exit") || eq_ignore_ascii_case(
            parts[0].as_str(),
            "quit",
        ) {
            return Ok(CommandOutcome::Exit);
        }
        if eq_ignore_ascii_case(parts[0].as_str(), "config") {
            parts.remove(0);
            proof {
                assert(parts.deep_view() =~= parts0.drop_first());
            }
            return Ok(CommandOutcome::Config(parts));
        }
        if eq_ignore_ascii_case(parts[0].as_str(), "version") {
            return Ok(CommandOutcome::Text(Self::show_version()));
        }
        if eq_ignore_ascii_case(parts[0].as_str(), "echo") {
            let joined = join_spaces(&parts, 1);
            proof {
                assert(parts0.skip(1) =~= parts0.drop_first());
            }
            return Ok(CommandOutcome::Text(joined));
        }
        if eq_ignore_ascii_case(parts[0].as_str(), "system") {
            return Ok(CommandOutcome::System);
        }
        if eq_ignore_ascii_case(parts[0].as_str(), "theme") {
            parts.remove(0);
            proof {
                assert(parts.deep_view() =~= parts0.drop_first());
            }
            return Ok(CommandOutcome::Theme(parts));
        }
        if eq_ignore_ascii_case(parts[0].as_str(), "list") {
            parts.remove(0);
            proof {
                assert(parts.deep_view() =~= parts0.drop_first());
            }
            return Ok(CommandOutcome::List(parts));
        }
        let mut m = String::from_str("Unknown command '");
        m.append(parts[0].as_str());
        m.append("'. Type '/help' for commands.");
        Err(HandlerError::Parse(m))
    }

    /// Display version information.
    pub fn show_version() -> (r: String)
        ensures
            r@ == "AI Coder Interface v0.1.0"@,
    {
        String::from_str("AI Coder Interface v0.1.0")
    }

    /// Display help information, general or for one topic.
    pub fn show_help(topic: Option<&String>) -> (r: String)
        ensures
            r@ == spec_show_help(
                match topic {
                    Some(t) => seq![t@],
                    None => Seq::empty(),
                },
            ),
    {
        match topic {
            None => String::from_str(GENERAL_HELP),
            Some(t) => {
                proof {
                    reveal_strlit("ai");
                    reveal_strlit("bash");
                    reveal_strlit("config");
                    reveal_strlit("list");
                    reveal_strlit("theme");
                    reveal_strlit("system");
                    assert(spec_ascii_lower("ai"@) =~= "ai"@);
                    assert(spec_ascii_lower("bash"@) =~= "bash"@);
                    assert(spec_ascii_lower("config"@) =~= "config"@);
                    assert(spec_ascii_lower("list"@) =~= "list"@);
                    assert(spec_ascii_lower("theme"@) =~= "theme"@);
                    assert(spec_ascii_lower("system"@) =~= "system"@);
                    assert("ai"@.len() == 2 && "ai"@[0] == 'a');
                    assert("bash"@.len() == 4 && "bash"@[0] == 'b');
                    assert("config"@.len() == 6 && "config"@[0] == 'c');
                    assert("list"@.len() == 4 && "list"@[0] == 'l');
                    assert("theme"@.len() == 5 && "theme"@[0] == 't');
                    assert("system"@.len() == 6 && "system"@[0] == 's');
                }
                if eq_ignore_ascii_case(t.as_str(), "ai") {
                    String::from_str(HELP_AI)
                } else if eq_ignore_ascii_case(t.as_str(), "bash") {
                    String::from_str(HELP_BASH)
                } else if eq_ignore_ascii_case(t.as_str(), "config") {
                    String::from_str(HELP_CONFIG)
                } else if eq_ignore_ascii_case(t.as_str(), "list") {
                    String::from_str(HELP_LIST)
                } else if eq_ignore_ascii_case(t.as_str(), "theme") {
                    String::from_str(HELP_THEME)
                } else if eq_ignore_ascii_case(t.as_str(), "system") {
                    String::from_str(HELP_SYSTEM)
                } else {
                    let mut m = String::from_str("⚠️ No help available for '");
                    m.append(t.as_str());
                    m.append("'. Try '/help' for general help.");
                    m
                }
            },
        }
    }
}

/// The help text for one topic list, or the general help.
pub open spec fn spec_show_help(args: Seq<Seq<char>>) -> Seq<char> {
    if args.len() == 0 {
        GENERAL_HELP@
    } else {
        let t = spec_ascii_lower(args[0]);
        if t == "ai"@ {
            HELP_AI@
        } else if t == "bash"@ {
            HELP_BASH@
        } else if t == "config"@ {
            HELP_CONFIG@
        } else if t == "list"@ {
            HELP_LIST@
        } else if t == "theme"@ {
            HELP_THEME@
        } else if t == "system"@ {
            HELP_SYSTEM@
        } else {
            "⚠️ No help available for '"@ + args[0] + "'. Try '/help' for general help."@
        }
    }
}


/// Whether the character is a hexadecimal digit.
pub open spec fn spec_hex_digit_char(c: char) -> bool {
    let u = c as u32;
    (0x30 <= u && u <= 0x39) || (0x41 <= u && u <= 0x46) || (0x61 <= u && u <= 0x66)
}

/// Whether the string is a `#RRGGBB` hex color.
pub open spec fn spec_is_hex_color(s: Seq<char>) -> bool {
    s.len() == 7 && s[0] == '#' && (forall|i: int| 1 <= i < 7 ==> spec_hex_digit_char(
        #[trigger] s[i],
    ))
}

/// The vetted color value for a theme argument: `default` and hex
/// colors pass through, known color names map to their hex values, a
/// malformed `#` value and an unknown name are refused.
pub open spec fn spec_color_value(value: Seq<char>) -> Result<Seq<char>, Seq<char>> {
    if value == "default"@ {
        Ok("default"@)
    } else if spec_is_hex_color(value) {
        Ok(value)
    } else if value.len() > 0 && value[0] == '#' {
        Err("⚠️ Invalid hex color format. Use #RRGGBB"@)
    } else {
        let lower = spec_ascii_lower(value);
        if lower == "red"@ {
            Ok("#FF0000"@)
        } else if lower == "green"@ {
            Ok("#00FF00"@)
        } else if lower == "blue"@ {
            Ok("#0000FF"@)
        } else if lower == "black"@ {
            Ok("#000000"@)
        } else if lower == "white"@ {
            Ok("#FFFFFF"@)
        } else if lower == "yellow"@ {
            Ok("#FFFF00"@)
        } else if lower == "cyan"@ {
            Ok("#00FFFF"@)
        } else if lower == "magenta"@ {
            Ok("#FF00FF"@)
        } else if lower == "gray"@ || lower == "grey"@ {
            Ok("#808080"@)
        } else {
            Err("⚠️ Unknown color name: "@ + value + ". Use hex format #RRGGBB"@)
        }
    }
}

/// Runtime check for a `#RRGGBB` hex color.
fn is_hex_color(value: &str) -> (r: bool)
    ensures
        r == spec_is_hex_color(value@),
{
    let n = value.unicode_len();
    if n != 7 {
        return false;
    }
    if value.get_char(0) != '#' {
        return false;
    }
    let mut i: usize = 1;
    while i < 7
        invariant
            value@.len() == 7,
            1 <= i <= 7,
            forall|j: int| 1 <= j < i ==> spec_hex_digit_char(#[trigger] value@[j]),
        decreases 7 - i,
    {
        let u = value.get_char(i) as u32;
        if !((0x30 <= u && u <= 0x39) || (0x41 <= u && u <= 0x46) || (0x61 <= u && u <= 0x66)) {
            return false;
        }
        i += 1;
    }
    true
}

/// Parse a theme color argument into the value to store, or the
/// warning to show.
pub fn parse_color_value(value: &str) -> (r: Result<String, HandlerError>)
    ensures
        match spec_color_value(value@) {
            Ok(c) => r matches Ok(s) && s@ == c,
            Err(m) => r matches Err(HandlerError::Parse(e)) && e@ == m,
        },
{
    proof {
        reveal_strlit("red");
        reveal_strlit("green");
        reveal_strlit("blue");
        reveal_strlit("black");
        reveal_strlit("white");
        reveal_strlit("yellow");
        reveal_strlit("cyan");
        reveal_strlit("magenta");
        reveal_strlit("gray");
        reveal_strlit("grey");
        assert(spec_ascii_lower("red"@) =~= "red"@);
        assert(spec_ascii_lower("green"@) =~= "green"@);
        assert(spec_ascii_lower("blue"@) =~= "blue"@);
        assert(spec_ascii_lower("black"@) =~= "black"@);
        assert(spec_ascii_lower("white"@) =~= "white"@);
        assert(spec_ascii_lower("yellow"@) =~= "yellow"@);
        assert(spec_ascii_lower("cyan"@) =~= "cyan"@);
        assert(spec_ascii_lower("magenta"@) =~= "magenta"@);
        assert(spec_ascii_lower("gray"@) =~= "gray"@);
        assert(spec_ascii_lower("grey"@) =~= "grey"@);
        assert("red"@.len() == 3);
        assert("green"@.len() == 5 && "green"@[0] == 'g');
        assert("blue"@.len() == 4 && "blue"@[0] == 'b');
        assert("black"@.len() == 5 && "black"@[0] == 'b');
        assert("white"@.len() == 5 && "white"@[0] == 'w');
        assert("yellow"@.len() == 6);
        assert("cyan"@.len() == 4 && "cyan"@[0] == 'c');
        assert("magenta"@.len() == 7);
        assert("gray"@.len() == 4 && "gray"@[0] == 'g' && "gray"@[2] == 'a');
        assert("grey"@.len() == 4 && "grey"@[0] == 'g' && "grey"@[2] == 'e');
    }
    if crate::utils::format::str_eq(value, "default") {
        return Ok(String::from_str("default"));
    }
    if is_hex_color(value) {
        return Ok(value.to_owned());
    }
    if value.unicode_len() > 0 && value.get_char(0) == '#' {
        return Err(
            HandlerError::Parse(String::from_str("⚠️ Invalid hex color format. Use #RRGGBB")),
        );
    }
    if eq_ignore_ascii_case(value, "red") {
        return Ok(String::from_str("#FF0000"));
    }
    if eq_ignore_ascii_case(value, "green") {
        return Ok(String::from_str("#00FF00"));
    }
    if eq_ignore_ascii_case(value, "blue") {
        return Ok(String::from_str("#0000FF"));
    }
    if eq_ignore_ascii_case(value, "black") {
        return Ok(String::from_str("#000000"));
    }
    if eq_ignore_ascii_case(value, "white") {
        return Ok(String::from_str("#FFFFFF"));
    }
    if eq_ignore_ascii_case(value, "yellow") {
        return Ok(String::from_str("#FFFF00"));
    }
    if eq_ignore_ascii_case(value, "cyan") {
        return Ok(String::from_str("#00FFFF"));
    }
    if eq_ignore_ascii_case(value, "magenta") {
        return Ok(String::from_str("#FF00FF"));
    }
    if eq_ignore_ascii_case(value, "gray") || eq_ignore_ascii_case(value, "grey") {
        return Ok(String::from_str("#808080"));
    }
    let mut m = String::from_str("⚠️ Unknown color name: ");
    m.append(value);
    m.append(". Use hex format #RRGGBB");
    Err(HandlerError::Parse(m))
}

} // verus!

verus! {

// The help texts, verbatim.
pub const GENERAL_HELP: &'static str = "📚 AI Coder Interface Help:

        Mode Prefixes:
          - No prefix: AI mode - Ask questions or get creative responses
          - ! prefix: Execute bash commands (e.g., !ls)
          - / prefix: CLI commands (see below)

        Available commands:
          /help [topic]   - Show help (optional: ai, bash, config, theme, system, list)
          /clear          - Clear terminal output
          /config         - View or set configuration
          /theme          - Customize UI colors
          /system         - Display system information
          /version        - Show version information
          /list           - List available providers, models, etc.
          /exit or /quit  - Exit application

        AI configuration:
          /config provider <name>  - Set AI provider (ollama, openai, anthropic, lmstudio)
          /config model <name>     - Set AI model for current provider
          /config endpoint <url>   - Set API endpoint URL
          /config api_key <key>    - Set API key (for OpenAI/Anthropic)
          /list providers          - Show available providers
          /list models             - Show available models for current provider

        Keyboard shortcuts:
          - Up/Down arrow: Navigate command history
          - Shift+Up/Down: Select text in output area
          - Ctrl+C: Copy selected text (when in selection mode) or exit
          - PageUp/Down: Scroll output
          - Esc: Cancel text selection or clear input";

pub const HELP_AI: &'static str = "📚 AI Mode Help:
                    Just type your question or prompt directly without any prefix.
                    Examples:
                    - What is the capital of France?
                    - Write a Python function to calculate Fibonacci numbers
                    - Explain the difference between TCP and UDP";

pub const HELP_BASH: &'static str = "📚 Bash Mode Help:
                    Prefix any bash command with ! to execute it directly.
                    Examples:
                    - !ls -la
                    - !cat file.txt
                    - !python script.py";

pub const HELP_CONFIG: &'static str = "📚 Config Command Help:
                    Configure settings using /config [key] [value]
                    Example keys:
                    - model - Set AI model (e.g. qwen2.5-coder, gpt-4o)
                    - provider - Set AI provider (ollama, openai, anthropic, lmstudio)
                    - temperature - Set temperature (0.0-1.0)
                    - endpoint - Set API endpoint URL
                    - api_key - Set API key (for OpenAI/Anthropic)
                    - system_prompt - Set system prompt";

pub const HELP_LIST: &'static str = "📚 List Command Help:
                    List available resources
                    Subcommands:
                    - /list providers - Show available AI providers
                    - /list models - Show available models for current provider
                    - /list config - Show all current configuration
                    Examples:
                    - /list providers
                    - /list models";

pub const HELP_THEME: &'static str = "📚 Theme Command Help:
                    Customize UI colors using /theme [key] [value]
                    Keys:
                    - primary - Primary interface color
                    - secondary - Secondary interface color
                    - accent - Accent color for highlights
                    - background - Background color
                    - foreground - Text color
                    Values can be hex colors like #FF0000 or named colors";

pub const HELP_SYSTEM: &'static str = "📚 System Command Help:
                    Use /system to display system information including:
                    - Operating system
                    - Version information
                    - Current working directory
                    - Runtime information";

} // verus!
