use ai_coder_interface_rs::ai::types::SessionStats;
use ai_coder_interface_rs::cleanup;
use ai_coder_interface_rs::config::get_config_file;
use ai_coder_interface_rs::config::ThemeConfig;
use ai_coder_interface_rs::init;
use ai_coder_interface_rs::mode::ai::get_session_cost;
use ai_coder_interface_rs::mode::ai::get_total_cost;
use ai_coder_interface_rs::mode::ai::handle_ai_config;
use ai_coder_interface_rs::mode::bash::plan_bash_command;
use ai_coder_interface_rs::mode::command::handle_command;
use ai_coder_interface_rs::mode::command::CommandAction;
use ai_coder_interface_rs::utils::get_dir_name;
use ai_coder_interface_rs::utils::logging::log_info;
use ai_coder_interface_rs::utils::logging::log_warning;

#[test]
fn mode_command_dispatch() {
    let mut stats = SessionStats::default();
    match handle_command("", &mut stats) {
        CommandAction::Text(t) => assert_eq!(t, "Type /help for available commands"),
        other => panic!("expected the hint, got {:?}", other),
    }
    assert!(matches!(handle_command("exit", &mut stats), CommandAction::Exit));
    assert!(matches!(handle_command("models", &mut stats), CommandAction::FetchModels));
    assert!(matches!(handle_command("system", &mut stats), CommandAction::SystemInfo));
    match handle_command("version", &mut stats) {
        CommandAction::Text(t) => assert_eq!(t, "LLM-ChainFuse CLI v0.1.0"),
        other => panic!("expected the version, got {:?}", other),
    }
    match handle_command("echo a  b", &mut stats) {
        CommandAction::Text(t) => assert_eq!(t, "a b"),
        other => panic!("expected the echo, got {:?}", other),
    }
    match handle_command("nonsense", &mut stats) {
        CommandAction::Text(t) => {
            assert_eq!(t, "⚠️ Unknown command 'nonsense'. Type '/help' for commands.")
        },
        other => panic!("expected the warning, got {:?}", other),
    }
}

#[test]
fn session_cost_report_formats_micro_dollars() {
    let mut stats = SessionStats::default();
    assert_eq!(get_total_cost(&stats), "$0.000000");
    stats.total_prompt_tokens = 600;
    stats.total_completion_tokens = 400;
    stats.total_cost = 1_500_000;  // 1.50 dollars
    assert_eq!(get_total_cost(&stats), "$1.500000");
    let report = get_session_cost(&stats);
    assert!(report.contains("- Input: 600 tokens"));
    assert!(report.contains("- Output: 400 tokens"));
    assert!(report.contains("- Total: 1000 tokens"));
    // the cost splits 60/40 with the token shares
    assert!(report.contains("- Input cost: $0.900000"));
    assert!(report.contains("- Output cost: $0.600000"));
    assert!(report.contains("- Total cost: $1.500000"));

    let mut stats = SessionStats::default();
    match handle_command("cost", &mut stats) {
        CommandAction::Text(t) => assert!(t.contains("- Total cost: $0.000000")),
        other => panic!("expected the report, got {:?}", other),
    }
    stats.total_cost = 77;
    match handle_command("history", &mut stats) {
        CommandAction::Text(t) => {
            assert_eq!(t, "✅ Conversation history and statistics cleared")
        },
        other => panic!("expected the confirmation, got {:?}", other),
    }
    assert_eq!(stats.total_cost, 0);
}

#[test]
fn ai_config_replies() {
    let no_args: Vec<String> = Vec::new();
    assert!(handle_ai_config(&no_args).starts_with("📝 AI Configuration Options:"));

    let args = vec![String::from("model")];
    assert_eq!(
        handle_ai_config(&args),
        "⚠️ Model name required. Usage: /config model MODEL_NAME"
    );
    let args = vec![String::from("model"), String::from("qwen2.5-coder")];
    assert_eq!(handle_ai_config(&args), "✅ Model set to: qwen2.5-coder");

    let args = vec![String::from("provider"), String::from("ollama")];
    assert_eq!(handle_ai_config(&args), "✅ Provider set to: ollama");
    let args = vec![String::from("provider"), String::from("cloudy")];
    assert_eq!(
        handle_ai_config(&args),
        "⚠️ Unknown provider: cloudy. Currently supported: ollama"
    );

    let accepted = [
        "0.3", "1.0", "1.000", "1.", ".5", "1e-1", "+0.5", "-0", "-0.0e9", "10e-1", "0.1e1", "0",
    ];
    for v in accepted {
        let args = vec![String::from("temperature"), String::from(v)];
        assert_eq!(
            handle_ai_config(&args),
            format!("✅ Temperature set to: {}", v),
            "expected {} to be accepted",
            v
        );
    }
    let rejected = ["1.5", "abc", "2", "-0.5", "1e1", "", ".", "1e", "inf", "nan", "1.0.0"];
    for v in rejected {
        let args = vec![String::from("temperature"), String::from(v)];
        assert_eq!(
            handle_ai_config(&args),
            "⚠️ Temperature must be between 0.0 and 1.0",
            "expected {} to be rejected",
            v
        );
    }

    let args = vec![String::from("mystery")];
    assert_eq!(handle_ai_config(&args), "⚠️ Unknown configuration key: mystery");
}

#[test]
fn mode_bash_plans() {
    match plan_bash_command("  ") {
        Err(m) => assert_eq!(m, "⚠️ Empty command"),
        other => panic!("expected the empty warning, got {:?}", other),
    }
    match plan_bash_command("rm -rf /") {
        Err(m) => assert_eq!(m, "⚠️ This command is restricted for security reasons."),
        other => panic!("expected the restriction, got {:?}", other),
    }
    match plan_bash_command("rm -rf build") {
        // this mode has no vetted exception: any rm -rf is dangerous
        Err(m) => assert!(m.starts_with("⚠️ This command contains potentially dangerous")),
        other => panic!("expected the danger warning, got {:?}", other),
    }
    match plan_bash_command("echo 'a b' c") {
        Ok(parts) => {
            assert_eq!(parts, vec![String::from("echo"), String::from("a b"), String::from("c")])
        },
        other => panic!("expected the split words, got {:?}", other),
    }
    match plan_bash_command("echo 'unclosed") {
        // an unmatched quote falls back to the whole command as one word
        Ok(parts) => assert_eq!(parts, vec![String::from("echo 'unclosed")]),
        other => panic!("expected the fallback, got {:?}", other),
    }
    match plan_bash_command("#just a comment") {
        // a line that splits into no words at all is refused
        Err(m) => assert_eq!(m, "⚠️ Invalid command format"),
        other => panic!("expected the format warning, got {:?}", other),
    }
}

#[test]
fn config_paths_and_theme_defaults() {
    assert_eq!(get_config_file("/home/u"), "/home/u/.ai-coder/config.yaml");
    assert_eq!(
        ai_coder_interface_rs::util::get_config_file("/home/u"),
        "/home/u/.llm-chainfuse/config.yaml"
    );
    let theme = ThemeConfig::default();
    assert_eq!(theme.primary, "#0087AF");
    assert_eq!(theme.secondary, "#00AF87");
    assert_eq!(theme.accent, "#AF8700");
    assert_eq!(theme.background, "default");
    assert_eq!(theme.foreground, "default");
}

#[test]
fn directory_names_from_paths() {
    assert_eq!(get_dir_name("/home/user/project"), "project");
    assert_eq!(get_dir_name("/home/user/project/"), "project");
    assert_eq!(get_dir_name("plain"), "plain");
    assert_eq!(get_dir_name("/"), "");
    assert_eq!(get_dir_name(""), "");
    assert_eq!(get_dir_name("a/.."), "");
    // current-directory components are skipped, as the standard
    // library's file-name rule skips them
    assert_eq!(get_dir_name("."), "");
    assert_eq!(get_dir_name("./"), "");
    assert_eq!(get_dir_name("a/."), "a");
    assert_eq!(get_dir_name("a/././"), "a");
    assert_eq!(get_dir_name("/."), "");
    assert_eq!(get_dir_name("a/../."), "");
    assert_eq!(get_dir_name("..."), "...");
    assert_eq!(get_dir_name("./a"), "a");
}

#[test]
fn logging_records_stamped_lines_when_enabled() {
    let mut logger = init(true);
    log_info(&mut logger, "2024-01-01 10:00:00", "Logging started at 2024-01-01 10:00:00");
    log_warning(&mut logger, "2024-01-01 10:00:01", "low disk");
    assert_eq!(logger.lines.len(), 2);
    assert_eq!(
        logger.lines[0],
        "[2024-01-01 10:00:00] [INFO] Logging started at 2024-01-01 10:00:00\n"
    );
    assert_eq!(logger.lines[1], "[2024-01-01 10:00:01] [WARN] low disk\n");

    cleanup(&mut logger, "2024-01-01 10:00:02");
    assert!(!logger.enabled);
    assert_eq!(
        logger.lines[2],
        "[2024-01-01 10:00:02] [INFO] Logging stopped at 2024-01-01 10:00:02\n"
    );
    // disabled: nothing more is recorded
    log_info(&mut logger, "t", "ignored");
    assert_eq!(logger.lines.len(), 3);

    let mut silent = init(false);
    log_info(&mut silent, "t", "ignored");
    assert!(silent.lines.is_empty());
}
