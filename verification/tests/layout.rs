use leanlayercli::agent::workspace::{GitStatus, WorkspaceFile};
use leanlayercli::backend::protocol::ChatMessage;
use leanlayercli::config::Config;
use leanlayercli::tui::layout::{
    chat_rows, engine_label, focus_marker, input_notice, popup_margin, repeat, rpm_gauge,
    scroll_position, selected_row, token_gauge, Row, Tone,
};
use leanlayercli::tui::mode::AppMode;
use leanlayercli::tui::windows::{
    block_rows, choice_rows, code_request_text, config_rows, diff_rows, git_rows, is_maskable,
    is_previewable, is_shortenable, mask_key, model_rows, tool_request_text, workspace_rows,
};

fn texts(rows: &[Row]) -> Vec<&str> {
    rows.iter().map(|r| r.text.as_str()).collect()
}

fn tones(rows: &[Row]) -> Vec<Tone> {
    rows.iter().map(|r| r.tone).collect()
}

fn said(role: &str, content: &str) -> ChatMessage {
    ChatMessage::new(role, content.to_string())
}

#[test]
fn the_chat() {
    let m = vec![
        said("system", "secret"),
        said("user", "hello\n\nworld"),
        said("assistant", "one two three four"),
        said("tool", "x"),
    ];
    let rows = chat_rows(&m, "and so on", 14);
    assert_eq!(
        texts(&rows),
        vec![
            "❯ You", "hello", "", "world", "", "❯ AI Assistant", "one two", "three four", "",
            "❯ System", "x", "", "❯ AI Assistant ", "and so on",
        ]
    );
    assert_eq!(rows[0].tone, Tone::User);
    assert_eq!(rows[5].tone, Tone::Assistant);
    assert_eq!(rows[9].tone, Tone::Other);
    assert_eq!(rows[12].tone, Tone::Streaming);
    assert_eq!(rows[1].tone, Tone::Plain);
    assert!(chat_rows(&vec![said("system", "secret")], "", 80).is_empty());
}

#[test]
fn narrow_panels() {
    let rows = chat_rows(&vec![said("user", "abcdefghij klm   ")], "", 0);
    assert_eq!(texts(&rows), vec!["❯ You", "abcdefghij", "klm", ""]);
}

#[test]
fn where_the_chat_is_shown() {
    assert_eq!(selected_row(0, 0), 0);
    assert_eq!(selected_row(10, 0), 9);
    assert_eq!(selected_row(10, 3), 6);
    assert_eq!(selected_row(10, 50), 0);
    assert_eq!(scroll_position(5, 100, 20), 5);
    assert_eq!(scroll_position(95, 100, 20), 80);
    assert_eq!(scroll_position(3, 10, 20), 0);
    assert_eq!(scroll_position(65_540, 100_000, 20), 4);
}

#[test]
fn the_bars() {
    assert_eq!(input_notice(false, true), None);
    assert_eq!(input_notice(true, true), Some("  ▊ Warming up models..."));
    assert_eq!(input_notice(true, false), Some("  ● Syncing with AI cluster node..."));
    assert_eq!(engine_label(AppMode::Ultra), " DEEP ENGINE ");
    assert_eq!(engine_label(AppMode::High), " FAST ENGINE ");
    assert_eq!(focus_marker(true), " ● ");
    assert_eq!(focus_marker(false), " ○ ");
    assert_eq!(repeat("ab", 3), "ababab");
    assert_eq!(rpm_gauge(40, 12, 3), "███░░░░░░░12");
    assert_eq!(rpm_gauge(40, 44, 11), "███████████44");
    assert_eq!(rpm_gauge(0, 12, 3), "--");
    assert_eq!(token_gauge(7, 4096), "Ctx: 7/4096");
    assert_eq!(token_gauge(7, 0), "Ctx: 7/Auto");
    assert_eq!(popup_margin(75), 12);
    assert_eq!(popup_margin(100), 0);
}

#[test]
fn lists_with_a_choice() {
    let items = vec!["a".to_string(), "b".to_string()];
    let rows = choice_rows(&items, 1);
    assert_eq!(texts(&rows), vec!["  a", "❯ b"]);
    assert_eq!(tones(&rows), vec![Tone::Idle, Tone::Active]);
    assert_eq!(tones(&choice_rows(&items, 5)), vec![Tone::Idle, Tone::Idle]);
    let models = vec![
        ("openai".to_string(), "gpt-4o".to_string()),
        ("a-very-long-provider".to_string(), "m".to_string()),
    ];
    assert_eq!(
        texts(&model_rows(&models, 0)),
        vec!["❯ [openai]        gpt-4o", "  [a-very-long-provider] m"]
    );
}

#[test]
fn questions() {
    assert_eq!(
        tool_request_text("{}", 2),
        "An automated agent component is requesting tool authorization:\n\n{}\n\nQueued operations pending: 2"
    );
    assert_eq!(
        code_request_text("sh", "ls", 0),
        "AI runtime environment requested local shell execution (sh) :\n\nls\n\nPending actions: 0"
    );
}

fn config() -> Config {
    Config {
        model_path: "m".to_string(),
        vault_path: "v".to_string(),
        llama_server_path: None,
        gpu_layers: 1,
        ctx_size: 2,
        port: 3,
        summarize_on_exit: false,
        api_provider: "local".to_string(),
        api_key: Some("SECRET-REDACTED".to_string()),
        api_model: None,
        max_context_nodes: 5,
        trust_level: "ask".to_string(),
        max_agent_iterations: 2,
    }
}

#[test]
fn the_settings() {
    let rows = config_rows(&config(), 8);
    assert_eq!(
        texts(&rows),
        vec![
            "  Model Path : m",
            "  Vault Path : v",
            "  Llama Server : (bundled)",
            "  GPU Layers : 1",
            "  Ctx Size : 2",
            "  Port : 3",
            "  Summarize on Exit : false",
            "  API Provider : local",
            "❯ API Key : SECR...CTED",
            "  API Model : (default)",
        ]
    );
    let mut c = config();
    c.api_key = None;
    c.api_model = Some("x".to_string());
    c.summarize_on_exit = true;
    let rows = config_rows(&c, 0);
    assert_eq!(rows[6].text, "  Summarize on Exit : true");
    assert_eq!(rows[8].text, "  API Key : (env var)");
    assert_eq!(rows[9].text, "  API Model : x");
}

#[test]
fn keys_are_masked() {
    assert_eq!(mask_key("12345678"), "***");
    assert_eq!(mask_key("123456789"), "1234...6789");
    assert_eq!(mask_key("ééxxxxéé"), "éé...éé");
    assert!(is_maskable("short é"));
    assert!(!is_maskable("123é56789"));
    assert!(!is_maskable("1234567é901"));
    assert!(is_maskable("123456é90"));
}

#[test]
fn code_blocks() {
    let blocks = vec![
        ("rust".to_string(), "\nfn main".to_string()),
        ("py".to_string(), "  print('hello world')  \nx".to_string()),
        ("sh".to_string(), "12345678901234".to_string()),
    ];
    assert!(is_previewable(&blocks));
    assert_eq!(
        texts(&block_rows(&blocks, 1)),
        vec!["  rust ", "❯ py print('hello...", "  sh 12345678901234"]
    );
    assert!(is_shortenable("ééééééééé"));
    assert!(!is_shortenable("12345678901é45"));
    assert!(!is_previewable(&vec![("t".to_string(), "12345678901é45".to_string())]));
}

#[test]
fn the_workspace() {
    let files = vec![
        WorkspaceFile { relative_path: "src".to_string(), is_dir: true, size: 0 },
        WorkspaceFile { relative_path: "src/tui/app.rs".to_string(), is_dir: false, size: 42 },
    ];
    assert_eq!(
        texts(&workspace_rows(&files, 1)),
        vec!["  📁 src", "❯     📄 app.rs (42B)"]
    );
}

#[test]
fn the_repository() {
    let status = GitStatus {
        branch: "main".to_string(),
        modified_files: vec!["a".to_string(), "b".to_string()],
        untracked_files: vec!["c".to_string()],
    };
    let rows = git_rows(&status, 5);
    assert_eq!(
        texts(&rows),
        vec![
            "🌿 Branch: main", "", "Modified:", "  📝 a", "  📝 b", "", "Untracked:", "❯ ❓ c",
        ]
    );
    assert_eq!(rows[0].tone, Tone::Branch);
    assert_eq!(rows[2].tone, Tone::ModifiedHeading);
    assert_eq!(rows[6].tone, Tone::UntrackedHeading);
    assert_eq!(rows[7].tone, Tone::ActiveUntracked);
    assert_eq!(git_rows(&status, 2)[3].tone, Tone::ActiveModified);
    let clean = GitStatus {
        branch: "main".to_string(),
        modified_files: Vec::new(),
        untracked_files: Vec::new(),
    };
    let rows = git_rows(&clean, 0);
    assert_eq!(texts(&rows), vec!["🌿 Branch: main", "", "", "Working tree clean"]);
    assert_eq!(rows[3].tone, Tone::Clean);
    let new = GitStatus {
        branch: "b".to_string(),
        modified_files: Vec::new(),
        untracked_files: vec!["c".to_string()],
    };
    assert_eq!(texts(&git_rows(&new, 2))[4], "❯ ❓ c");
}

#[test]
fn changes_are_coloured() {
    let rows = diff_rows("--- a\n+++ b\n@@ x\n-old\n+new\n same");
    assert_eq!(
        tones(&rows),
        vec![Tone::Plain, Tone::Plain, Tone::Hunk, Tone::Removed, Tone::Added, Tone::Plain]
    );
    assert_eq!(texts(&rows)[3], "-old");
}
