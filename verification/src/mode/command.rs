//! Application command handling of the standalone front end: the parser
//! that turns a `/` command into text or into an action for the host,
//! and the built-in help texts.

use crate::ai::types::SessionStats;
use crate::mode::ai::clear_history;
use crate::mode::ai::get_session_cost;
use crate::mode::ai::spec_session_cost;
use crate::utils::format::eq_ignore_ascii_case;
use crate::utils::format::join_spaces;
use crate::utils::format::spec_ascii_lower;
use crate::utils::format::spec_join_spaces;
use crate::utils::format::spec_split_ws;
use crate::utils::format::split_whitespace_vec;
use vstd::prelude::*;
use vstd::string::StringExecFns;

verus! {

/// What the host must do for one parsed command line: show text, exit,
/// fetch the model list from the backend, or show system information.
#[derive(Debug)]
pub enum CommandAction {
    /// Show this text.
    Text(String),
    /// Exit the application.
    Exit,
    /// Fetch and show the available models.
    FetchModels,
    /// Show system information.
    SystemInfo,
}

/// Handle a command line: dispatch on its first word
/// (case-insensitively) and either answer with text — updating the
/// session statistics where the command asks for it — or hand back the
/// action for the host to perform.
pub fn handle_command(command: &str, stats: &mut SessionStats) -> (r: CommandAction)
    requires
        old(stats).total_prompt_tokens + old(stats).total_completion_tokens <= usize::MAX,
    ensures
        ({
            let parts = spec_split_ws(command@);
            &&& parts.len() == 0 ==> (r matches CommandAction::Text(t) && t@
                == "Type /help for available commands"@ && *final(stats) == *old(stats))
            &&& parts.len() > 0 ==> {
                let w = spec_ascii_lower(parts[0]);
                &&& w == "help"@ ==> (r matches CommandAction::Text(t) && t@ == spec_mode_help(
                    parts.drop_first(),
                ) && *final(stats) == *old(stats))
                &&& w == "clear"@ ==> (r matches CommandAction::Text(t) && t@ == "/clear"@
                    && *final(stats) == *old(stats))
                &&& (w == "exit"@ || w == "quit"@) ==> (r matches CommandAction::Exit && *final(stats) == *old(stats))
                &&& w == "models"@ ==> (r matches CommandAction::FetchModels && *final(stats)
                    == *old(stats))
                &&& w == "cost"@ ==> (r matches CommandAction::Text(t) && t@ == spec_session_cost(
                    *old(stats),
                ) && *final(stats) == *old(stats))
                &&& w == "history"@ ==> (r matches CommandAction::Text(t) && t@
                    == "✅ Conversation history and statistics cleared"@ && final(stats).total_prompt_tokens == 0 && final(stats).total_completion_tokens == 0 && final(stats).total_cost == 0)
                &&& w == "config"@ ==> (r matches CommandAction::Text(t) && t@
                    == "Use /config key value to set configuration parameters"@ && *final(stats)
                    == *old(stats))
                &&& w == "version"@ ==> (r matches CommandAction::Text(t) && t@
                    == "LLM-ChainFuse CLI v0.1.0"@ && *final(stats) == *old(stats))
                &&& w == "echo"@ ==> (r matches CommandAction::Text(t) && t@ == spec_join_spaces(
                    parts.drop_first(),
                ) && *final(stats) == *old(stats))
                &&& w == "system"@ ==> (r matches CommandAction::SystemInfo && *final(stats)
                    == *old(stats))
                &&& !(w == "help"@ || w == "clear"@ || w == "exit"@ || w == "quit"@ || w
                    == "models"@ || w == "cost"@ || w == "history"@ || w == "config"@ || w
                    == "version"@ || w == "echo"@ || w == "system"@) ==> (r
                    matches CommandAction::Text(t) && t@ == "⚠️ Unknown command '"@ + parts[0]
                    + "'. Type '/help' for commands."@ && *final(stats) == *old(stats))
            }
        }),
{
    let parts = split_whitespace_vec(command);
    if parts.len() == 0 {
        return CommandAction::Text(String::from_str("Type /help for available commands"));
    }
    let ghost parts0 = parts.deep_view();
    proof {
        reveal_strlit("help");
        reveal_strlit("clear");
        reveal_strlit("exit");
        reveal_strlit("quit");
        reveal_strlit("models");
        reveal_strlit("cost");
        reveal_strlit("history");
        reveal_strlit("config");
        reveal_strlit("version");
        reveal_strlit("echo");
        reveal_strlit("system");
        assert(spec_ascii_lower("help"@) =~= "help"@);
        assert(spec_ascii_lower("clear"@) =~= "clear"@);
        assert(spec_ascii_lower("exit"@) =~= "exit"@);
        assert(spec_ascii_lower("quit"@) =~= "quit"@);
        assert(spec_ascii_lower("models"@) =~= "models"@);
        assert(spec_ascii_lower("cost"@) =~= "cost"@);
        assert(spec_ascii_lower("history"@) =~= "history"@);
        assert(spec_ascii_lower("config"@) =~= "config"@);
        assert(spec_ascii_lower("version"@) =~= "version"@);
        assert(spec_ascii_lower("echo"@) =~= "echo"@);
        assert(spec_ascii_lower("system"@) =~= "system"@);
        assert("help"@.len() == 4 && "help"@[0] == 'h');
        assert("clear"@.len() == 5 && "clear"@[0] == 'c' && "clear"@[1] == 'l');
        assert("exit"@.len() == 4 && "exit"@[0] == 'e' && "exit"@[1] == 'x');
        assert("quit"@.len() == 4 && "quit"@[0] == 'q');
        assert("models"@.len() == 6 && "models"@[0] == 'm');
        assert("cost"@.len() == 4 && "cost"@[0] == 'c');
        assert("history"@.len() == 7 && "history"@[0] == 'h');
        assert("config"@.len() == 6 && "config"@[0] == 'c');
        assert("version"@.len() == 7 && "version"@[0] == 'v');
        assert("echo"@.len() == 4 && "echo"@[0] == 'e' && "echo"@[1] == 'c');
        assert("system"@.len() == 6 && "system"@[0] == 's');
        assert(parts0.len() == parts@.len());
        assert forall|i: int| 0 <= i < parts@.len() implies parts0[i] == parts@[i]@ by {
            assert(parts0[i] == parts@[i].deep_view());
        }
    }
    if eq_ignore_ascii_case(parts[0].as_str(), "help") {
        let topic: Option<&String> = if parts.len() > 1 {
            Some(&parts[1])
        } else {
            None
        };
        let text = show_help(topic);
        proof {
            assert(parts0.drop_first() =~= parts0.skip(1));
            if parts0.len() > 1 {
                assert(parts0.drop_first()[0] == parts0[1]);
            } else {
                assert(parts0.drop_first().len() == 0);
            }
        }
        return CommandAction::Text(text);
    }
    if eq_ignore_ascii_case(parts[0].as_str(), "clear") {
        return CommandAction::Text(String::from_str("/clear"));
    }
    if eq_ignore_ascii_case(parts[0].as_str(), "exit") || eq_ignore_ascii_case(
        parts[0].as_str(),
        "quit",
    ) {
        return CommandAction::Exit;
    }
    if eq_ignore_ascii_case(parts[0].as_str(), "models") {
        return CommandAction::FetchModels;
    }
    if eq_ignore_ascii_case(parts[0].as_str(), "cost") {
        return CommandAction::Text(get_session_cost_display(stats));
    }
    if eq_ignore_ascii_case(parts[0].as_str(), "history") {
        return CommandAction::Text(clear_history(stats));
    }
    if eq_ignore_ascii_case(parts[0].as_str(), "config") {
        return CommandAction::Text(
            String::from_str("Use /config key value to set configuration parameters"),
        );
    }
    if eq_ignore_ascii_case(parts[0].as_str(), "version") {
        return CommandAction::Text(show_version());
    }
    if eq_ignore_ascii_case(parts[0].as_str(), "echo") {
        let joined = join_spaces(&parts, 1);
        proof {
            assert(parts0.skip(1) =~= parts0.drop_first());
        }
        return CommandAction::Text(joined);
    }
    if eq_ignore_ascii_case(parts[0].as_str(), "system") {
        return CommandAction::SystemInfo;
    }
    let mut m = String::from_str("⚠️ Unknown command '");
    m.append(parts[0].as_str());
    m.append("'. Type '/help' for commands.");
    CommandAction::Text(m)
}

/// Retrieve the formatted session cost statistics.
fn get_session_cost_display(stats: &SessionStats) -> (r: String)
    requires
        stats.total_prompt_tokens + stats.total_completion_tokens <= usize::MAX,
    ensures
        r@ == spec_session_cost(*stats),
{
    get_session_cost(stats)
}

/// Display version information.
fn show_version() -> (r: String)
    ensures
        r@ == "LLM-ChainFuse CLI v0.1.0"@,
{
    String::from_str("LLM-ChainFuse CLI v0.1.0")
}

/// The help text for one topic, or the general help.
pub open spec fn spec_mode_help(args: Seq<Seq<char>>) -> Seq<char> {
    if args.len() == 0 {
        MODE_GENERAL_HELP@
    } else {
        let t = spec_ascii_lower(args[0]);
        if t == "ai"@ {
            MODE_HELP_AI@
        } else if t == "bash"@ {
            MODE_HELP_BASH@
        } else if t == "config"@ {
            MODE_HELP_CONFIG@
        } else if t == "models"@ {
            MODE_HELP_MODELS@
        } else if t == "cost"@ {
            MODE_HELP_COST@
        } else {
            "⚠️ No help available for '"@ + args[0] + "'. Try '/help' for general help."@
        }
    }
}

/// Display help information, general or for one topic.
fn show_help(topic: Option<&String>) -> (r: String)
    ensures
        r@ == spec_mode_help(
            match topic {
                Some(t) => seq![t@],
                None => Seq::empty(),
            },
        ),
{
    match topic {
        None => String::from_str(MODE_GENERAL_HELP),
        Some(t) => {
            proof {
                reveal_strlit("ai");
                reveal_strlit("bash");
                reveal_strlit("config");
                reveal_strlit("models");
                reveal_strlit("cost");
                assert(spec_ascii_lower("ai"@) =~= "ai"@);
                assert(spec_ascii_lower("bash"@) =~= "bash"@);
                assert(spec_ascii_lower("config"@) =~= "config"@);
                assert(spec_ascii_lower("models"@) =~= "models"@);
                assert(spec_ascii_lower("cost"@) =~= "cost"@);
                assert("ai"@.len() == 2 && "ai"@[0] == 'a');
                assert("bash"@.len() == 4 && "bash"@[0] == 'b');
                assert("config"@.len() == 6 && "config"@[0] == 'c' && "config"@[2] == 'n');
                assert("models"@.len() == 6 && "models"@[0] == 'm');
                assert("cost"@.len() == 4 && "cost"@[0] == 'c');
            }
            if eq_ignore_ascii_case(t.as_str(), "ai") {
                String::from_str(MODE_HELP_AI)
            } else if eq_ignore_ascii_case(t.as_str(), "bash") {
                String::from_str(MODE_HELP_BASH)
            } else if eq_ignore_ascii_case(t.as_str(), "config") {
                String::from_str(MODE_HELP_CONFIG)
            } else if eq_ignore_ascii_case(t.as_str(), "models") {
                String::from_str(MODE_HELP_MODELS)
            } else if eq_ignore_ascii_case(t.as_str(), "cost") {
                String::from_str(MODE_HELP_COST)
            } else {
                let mut m = String::from_str("⚠️ No help available for '");
                m.append(t.as_str());
                m.append("'. Try '/help' for general help.");
                m
            }
        },
    }
}

} // verus!

verus! {

/// The general help of the standalone front end.
pub const MODE_GENERAL_HELP: &'static str =
    "📚 LLM-ChainFuse CLI Help:\n\nMode Prefixes:\n  - No prefix: AI mode - Ask questions or get creative responses\n  - ! prefix: Execute bash commands (e.g., !ls)\n  - / prefix: CLI commands (see below)\n\nAvailable commands:\n  /help [topic]   - Show help (optional: ai, bash, config, models, cost)\n  /clear          - Clear terminal output\n  /config         - View or set configuration\n  /models         - List available AI models\n  /cost           - Show token usage and costs\n  /history        - Clear conversation history\n  /system         - Display system information\n  /version        - Show version information\n  /exit or /quit  - Exit application\n\nKeyboard shortcuts:\n  - Up/Down arrow: Navigate command history\n  - Shift+Up/Down: Select text in output area\n  - Ctrl+C: Copy selected text (when in selection mode) or exit\n  - PageUp/Down: Scroll output\n  - Esc: Cancel text selection or clear input\n  - ?: Show/hide help overlay";

/// AI-mode help.
pub const MODE_HELP_AI: &'static str =
    "📚 AI Mode Help:\nJust type your question or prompt directly without any prefix.\nExamples:\n  - What is the capital of France?\n  - Write a Python function to calculate Fibonacci numbers\n  - Explain the difference between TCP and UDP";

/// Bash-mode help.
pub const MODE_HELP_BASH: &'static str =
    "📚 Bash Mode Help:\nPrefix any bash command with ! to execute it directly.\nExamples:\n  - !ls -la\n  - !cat file.txt\n  - !python script.py";

/// Configuration help.
pub const MODE_HELP_CONFIG: &'static str =
    "📚 Config Command Help:\nConfigure settings using /config [key] [value]\nExample keys:\n  - model - Set default model\n  - provider - Set AI provider (e.g. ollama)\n  - temperature - Set temperature (0.0-1.0)";

/// Model listing help.
pub const MODE_HELP_MODELS: &'static str =
    "📚 Models Command Help:\nUse /models to list available language models\nUse /config model MODEL_NAME to switch models";

/// Cost reporting help.
pub const MODE_HELP_COST: &'static str =
    "📚 Cost Command Help:\nUse /cost to view detailed token usage and cost information\nShows:\n  - Input/Output token counts\n  - Cost breakdown by token type\n  - Total session cost";

} // verus!
