use ai_coder_interface_rs::ai::types::AIError;
use ai_coder_interface_rs::app::detect_mode;
use ai_coder_interface_rs::app::should_perform_cleanup;
use ai_coder_interface_rs::app::History;
use ai_coder_interface_rs::handlers::bash::format_command_output;
use ai_coder_interface_rs::handlers::bash::is_command_safe;
use ai_coder_interface_rs::handlers::bash::plan_bash_command;
use ai_coder_interface_rs::handlers::bash::BashPlan;
use ai_coder_interface_rs::handlers::command::parse_color_value;
use ai_coder_interface_rs::handlers::command::CommandHandler;
use ai_coder_interface_rs::handlers::command::CommandOutcome;
use ai_coder_interface_rs::handlers::ai::split_llm_output;
use ai_coder_interface_rs::handlers::ai::OutputSegment;
use ai_coder_interface_rs::handlers::CommandMode;
use ai_coder_interface_rs::handlers::HandlerError;

#[test]
fn safe_commands_pass_the_filter() {
    assert!(is_command_safe("ls -la"));
    assert!(is_command_safe("cat file.txt"));
    assert!(is_command_safe("python script.py"));
    assert!(is_command_safe("echo hello world"));
}

#[test]
fn restricted_commands_are_blocked() {
    assert!(!is_command_safe("rm -rf /"));
    assert!(!is_command_safe("sudo rm -rf /*"));
    assert!(!is_command_safe("rm -rf ~"));
    assert!(!is_command_safe("mkfs.ext4 /dev/sda1"));
    assert!(!is_command_safe("dd if=/dev/zero of=/dev/sda"));
    assert!(!is_command_safe(":(){ :|:& };:"));
    assert!(!is_command_safe("chmod -R 777 /"));
    assert!(!is_command_safe("echo hi > /dev/null; rm x"));
    assert!(!is_command_safe("echo $(rm x)"));
    assert!(!is_command_safe("echo `rm x`"));
    assert!(!is_command_safe("wget http://example.com"));
    assert!(!is_command_safe("curl http://example.com"));
    assert!(!is_command_safe("chmod -R 777 target"));
    assert!(!is_command_safe("fork bomb"));
}

#[test]
fn relative_recursive_removal_is_vetted() {
    // only the current-directory-relative form of rm -rf passes
    assert!(is_command_safe("rm -rf build"));
    assert!(is_command_safe("rm -rf ./build"));
    assert!(is_command_safe("rm -rf target/debug"));
    assert!(is_command_safe("rm -rf  old-logs.2024 "));
    assert!(!is_command_safe("rm -rf build; echo done"));
    assert!(!is_command_safe("rm -rf"));
}

#[test]
fn bash_plans_classify_commands() {
    match plan_bash_command("") {
        Err(HandlerError::Bash(m)) => assert_eq!(m, "Empty command"),
        other => panic!("expected the empty-command error, got {:?}", other),
    }
    match plan_bash_command("rm -rf /") {
        Err(HandlerError::Bash(m)) => {
            assert_eq!(m, "This command is restricted for security reasons.")
        },
        other => panic!("expected the security error, got {:?}", other),
    }
    match plan_bash_command("ls *.rs") {
        Ok(BashPlan::Shell(c)) => assert_eq!(c, "ls *.rs"),
        other => panic!("expected a shell plan, got {:?}", other),
    }
    match plan_bash_command("echo \"a b\" c") {
        Ok(BashPlan::Direct(parts)) => {
            assert_eq!(parts, vec![String::from("echo"), String::from("a b"), String::from("c")])
        },
        other => panic!("expected a direct plan, got {:?}", other),
    }
    match plan_bash_command("echo 'unclosed") {
        Err(HandlerError::Parse(m)) => {
            assert_eq!(m, "Failed to parse command: missing closing quote")
        },
        other => panic!("expected the parse error, got {:?}", other),
    }
}

#[test]
fn command_output_report_format() {
    let ok = format_command_output(0, "hello\n", "", 1_230);
    assert_eq!(ok, "[⏱️ 1.23s | ✓ | 📊 0]\nhello\n");
    let failed = format_command_output(1, "", "boom\n", 50);
    assert_eq!(failed, "[⏱️ 0.05s | ✗ | 📊 1]\n⚠️ STDERR:\nboom\n");
    let silent = format_command_output(0, "", "", 0);
    assert_eq!(silent, "[⏱️ 0.00s | ✓ | 📊 0]\n(no output)\n");
    let both = format_command_output(-1, "out", "err", 10_000);
    assert_eq!(both, "[⏱️ 10.00s | ✗ | 📊 -1]\nout\n\n⚠️ STDERR:\nerr\n");
}

#[test]
fn command_dispatch() {
    match CommandHandler::handle_command("echo  one   two") {
        Ok(CommandOutcome::Text(t)) => assert_eq!(t, "one two"),
        other => panic!("expected text, got {:?}", other),
    }
    match CommandHandler::handle_command("VERSION") {
        Ok(CommandOutcome::Text(t)) => assert_eq!(t, "AI Coder Interface v0.1.0"),
        other => panic!("expected version text, got {:?}", other),
    }
    assert!(matches!(CommandHandler::handle_command("exit"), Ok(CommandOutcome::Exit)));
    assert!(matches!(CommandHandler::handle_command("quit"), Ok(CommandOutcome::Exit)));
    assert!(matches!(CommandHandler::handle_command("system"), Ok(CommandOutcome::System)));
    match CommandHandler::handle_command("clear") {
        Ok(CommandOutcome::Text(t)) => assert_eq!(t, "/clear"),
        other => panic!("expected /clear, got {:?}", other),
    }
    match CommandHandler::handle_command("config model gpt-4o") {
        Ok(CommandOutcome::Config(args)) => {
            assert_eq!(args, vec![String::from("model"), String::from("gpt-4o")])
        },
        other => panic!("expected a config request, got {:?}", other),
    }
    match CommandHandler::handle_command("theme primary red") {
        Ok(CommandOutcome::Theme(args)) => {
            assert_eq!(args, vec![String::from("primary"), String::from("red")])
        },
        other => panic!("expected a theme request, got {:?}", other),
    }
    match CommandHandler::handle_command("list providers") {
        Ok(CommandOutcome::List(args)) => assert_eq!(args, vec![String::from("providers")]),
        other => panic!("expected a list request, got {:?}", other),
    }
    match CommandHandler::handle_command("frobnicate") {
        Err(HandlerError::Parse(m)) => {
            assert_eq!(m, "Unknown command 'frobnicate'. Type '/help' for commands.")
        },
        other => panic!("expected the unknown-command error, got {:?}", other),
    }
    match CommandHandler::handle_command("help bash") {
        Ok(CommandOutcome::Text(t)) => assert!(t.contains("Bash Mode Help")),
        other => panic!("expected help text, got {:?}", other),
    }
}

#[test]
fn color_values_parse() {
    assert_eq!(parse_color_value("default").unwrap(), "default");
    assert_eq!(parse_color_value("#A1b2C3").unwrap(), "#A1b2C3");
    assert_eq!(parse_color_value("red").unwrap(), "#FF0000");
    assert_eq!(parse_color_value("GREY").unwrap(), "#808080");
    assert_eq!(parse_color_value("gray").unwrap(), "#808080");
    match parse_color_value("#12345") {
        Err(HandlerError::Parse(m)) => {
            assert_eq!(m, "⚠️ Invalid hex color format. Use #RRGGBB")
        },
        other => panic!("expected the hex error, got {:?}", other),
    }
    match parse_color_value("mauve") {
        Err(HandlerError::Parse(m)) => {
            assert_eq!(m, "⚠️ Unknown color name: mauve. Use hex format #RRGGBB")
        },
        other => panic!("expected the unknown-color error, got {:?}", other),
    }
}

#[test]
fn input_modes_are_detected_by_prefix() {
    let (mode, rest) = detect_mode("  !ls -la ");
    assert_eq!(mode, CommandMode::Bash);
    assert_eq!(rest, "ls -la");
    let (mode, rest) = detect_mode("/help");
    assert_eq!(mode, CommandMode::Command);
    assert_eq!(rest, "help");
    let (mode, rest) = detect_mode(" explain monads ");
    assert_eq!(mode, CommandMode::AI);
    assert_eq!(rest, "explain monads");
    let (mode, rest) = detect_mode("");
    assert_eq!(mode, CommandMode::AI);
    assert_eq!(rest, "");
}

#[test]
fn history_ignores_blanks_and_respects_its_bound() {
    let mut h = History::default();
    h.add(String::from("   "));
    assert_eq!(h.commands.len(), 0);
    h.add(String::from("first"));
    h.add(String::from("second"));
    assert_eq!(h.commands.len(), 2);
    assert_eq!(h.position, 2);

    for i in 0..200 {
        h.add(format!("cmd {}", i));
    }
    assert_eq!(h.commands.len(), 100);
    // the oldest entries were dropped
    assert_eq!(h.commands.front().unwrap(), "cmd 100");
    assert_eq!(h.commands.back().unwrap(), "cmd 199");
}

#[test]
fn cleanup_timer_rule() {
    assert!(!should_perform_cleanup(None, 1_000_000));
    assert!(!should_perform_cleanup(Some(0), 60_000));
    assert!(!should_perform_cleanup(Some(0), 60_999));
    assert!(should_perform_cleanup(Some(0), 61_000));
    assert!(should_perform_cleanup(Some(5_000), 70_000));
}

#[test]
fn error_messages_render() {
    let e = AIError::NetworkError(String::from("host unreachable"));
    assert_eq!(e.message(), "Network error: host unreachable");
    let e = AIError::Cancelled(String::from("by user"));
    assert_eq!(e.message(), "Operation cancelled: by user");
    let h = HandlerError::Bash(String::from("nope"));
    assert_eq!(h.message(), "Bash error: nope");
    let h = HandlerError::from(AIError::RateLimit(String::from("slow down")));
    assert_eq!(h.message(), "AI error: Rate limit exceeded: slow down");
    assert_eq!(CommandMode::Bash.name(), "BASH");
    assert_eq!(ai_coder_interface_rs::ai::types::Provider::default().name(), "Ollama");
    assert_eq!(ai_coder_interface_rs::ai::types::TaskStatus::Cancelled.name(), "Cancelled");
}

#[test]
fn llm_output_splits_into_text_and_bash_blocks() {
    let reply = "Run this:\n```bash\nls -la\n```\nthen this:\n```bash\necho done\n```\ntail";
    let segments = split_llm_output(reply);
    assert_eq!(segments.len(), 5);
    assert!(matches!(&segments[0], OutputSegment::Text(t) if t == "Run this:\n"));
    assert!(matches!(&segments[1], OutputSegment::Bash(b) if b == "ls -la"));
    assert!(matches!(&segments[2], OutputSegment::Text(t) if t == "\nthen this:\n"));
    assert!(matches!(&segments[3], OutputSegment::Bash(b) if b == "echo done"));
    assert!(matches!(&segments[4], OutputSegment::Text(t) if t == "\ntail"));

    // no fences: the whole reply is one text span
    let plain = split_llm_output("no commands here");
    assert_eq!(plain.len(), 1);
    assert!(matches!(&plain[0], OutputSegment::Text(t) if t == "no commands here"));

    // an unclosed fence is left as text
    let unclosed = split_llm_output("look: ```bash\nrm x");
    assert_eq!(unclosed.len(), 1);
    assert!(matches!(&unclosed[0], OutputSegment::Text(t) if t == "look: ```bash\nrm x"));

    // the body stops at the earliest closing fence
    let nested = split_llm_output("```bash\na\n```\n```bash\nb\n```");
    assert!(matches!(&nested[0], OutputSegment::Bash(b) if b == "a"));
    assert!(matches!(&nested[1], OutputSegment::Text(t) if t == "\n"));
    assert!(matches!(&nested[2], OutputSegment::Bash(b) if b == "b"));

    let empty = split_llm_output("");
    assert!(empty.is_empty());
}

#[test]
fn history_navigation_walks_entries_and_clears_at_the_end() {
    let mut h = History::default();
    assert_eq!(h.navigate_up(), None);
    h.add(String::from("one"));
    h.add(String::from("two"));
    assert_eq!(h.position, 2);

    assert_eq!(h.navigate_up(), Some(String::from("two")));
    assert_eq!(h.navigate_up(), Some(String::from("one")));
    assert_eq!(h.navigate_up(), None);
    assert_eq!(h.position, 0);

    assert_eq!(h.navigate_down(), Some(String::from("two")));
    assert_eq!(h.navigate_down(), Some(String::from("")));
    assert_eq!(h.position, 2);
    assert_eq!(h.navigate_down(), None);
}
