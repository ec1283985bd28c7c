use leanlayercli::agent::executor::{ExecutionRequest, ExecutionStatus, FileRead};
use leanlayercli::agent::tools::ToolCall;
use leanlayercli::agent::workspace::{GitStatus, WorkspaceFile};
use leanlayercli::backend::protocol::ChatMessage;
use leanlayercli::backend::wire::{serialize_messages_anthropic, Content, Part};
use leanlayercli::config::Config;
use leanlayercli::memory::{MemoryNode, NodeKind};
use leanlayercli::tui::action::{Action, Key, KeyCode, MouseKind};
use leanlayercli::tui::app::{build_context, App};
use leanlayercli::tui::flow::{CopyOutcome, TickEvent};
use leanlayercli::tui::images::{
    data_uri, image_references, is_downscaled, media_type_of, pasted_name,
};
use leanlayercli::tui::modal::ModalState;
use leanlayercli::tui::mode::{AgentRole, AppMode, Focus};
use leanlayercli::tui::run::Frames;
use leanlayercli::tui::transcript::read_transcript;

fn config() -> Config {
    Config {
        model_path: "m.gguf".to_string(),
        vault_path: "/vault".to_string(),
        llama_server_path: None,
        gpu_layers: 10,
        ctx_size: 1000,
        port: 8080,
        summarize_on_exit: true,
        api_provider: "local".to_string(),
        api_key: None,
        api_model: None,
        max_context_nodes: 5,
        trust_level: "ask".to_string(),
        max_agent_iterations: 2,
    }
}

fn app() -> App {
    App::new(config(), "be kind".to_string(), &Vec::new())
}

fn key(code: KeyCode) -> Key {
    Key { code, ctrl: false, shift: false, other: false }
}

fn ch(c: char) -> Key {
    key(KeyCode::Char(c))
}

fn ctrl(c: char) -> Key {
    Key { code: KeyCode::Char(c), ctrl: true, shift: false, other: false }
}

fn press(a: &mut App, k: Key) -> Action {
    a.press(k, &Vec::new(), &Vec::new())
}

fn node(id: &str, kind: NodeKind) -> MemoryNode {
    MemoryNode {
        id: id.to_string(),
        label: format!("Label {id}"),
        kind,
        connections: vec!["x".to_string(), "y".to_string()],
    }
}

fn read(path: &str) -> ToolCall {
    ToolCall::ReadFile { path: path.to_string() }
}

fn run(command: &str) -> ToolCall {
    ToolCall::RunCommand { command: command.to_string(), working_dir: None }
}

fn write(path: &str, content: &str) -> ToolCall {
    ToolCall::WriteFile { path: path.to_string(), content: content.to_string() }
}

fn waiting() -> App {
    let mut a = app();
    a.trigger_backend(Vec::new());
    a
}

fn answer(a: &mut App, text: &str, calls: Vec<ToolCall>) -> Action {
    assert!(matches!(a.tick(TickEvent::Token { content: text.to_string() }), Action::Nothing));
    a.tick(TickEvent::Done { calls })
}

#[test]
fn modes_and_roles_cycle() {
    assert_eq!(AppMode::Low.cycle(), AppMode::High);
    assert_eq!(AppMode::High.cycle(), AppMode::Ultra);
    assert_eq!(AppMode::Ultra.cycle(), AppMode::Low);
    assert_eq!(AppMode::Low.label(), " LOW ");
    assert_eq!(AppMode::High.label(), " HIGH ");
    assert_eq!(AppMode::Ultra.label(), " ULTRA ");
    assert!(AppMode::Ultra.thinking_enabled());
    assert!(!AppMode::High.thinking_enabled());
    assert!(!AppMode::Low.thinking_enabled());
    for (mode, temperature) in [
        (AppMode::Low, 0.3f32),
        (AppMode::High, 0.6f32),
        (AppMode::Ultra, 0.8f32),
    ] {
        assert_eq!(f32::from(mode.temperature()) / 10.0, temperature);
    }
    assert_eq!(AgentRole::Chat.cycle(), AgentRole::Plan);
    assert_eq!(AgentRole::Plan.cycle().cycle(), AgentRole::Chat);
    assert_eq!(AgentRole::Chat.label(), " CHAT ");
    assert_eq!(AgentRole::Plan.label(), " PLAN ");
    assert_eq!(AgentRole::Build.label(), " BUILD ");
}

#[test]
fn contexts_from_notes() {
    assert_eq!(build_context(&Vec::new()), "");
    let nodes = vec![node("a", NodeKind::Concept)];
    assert_eq!(
        build_context(&nodes),
        "You have the following memory from previous conversations:\n\n\
- [Label a] connected to: x, y\n\nUse this context where relevant."
    );
    let a = App::new(config(), "p".to_string(), &nodes);
    assert_eq!(a.messages.len(), 2);
    assert_eq!(a.messages[1].role, "system");
    assert_eq!(app().messages.len(), 1);
    assert_eq!(a.status, "Ready");
    assert_eq!((a.rate_rpm, a.rate_remaining, a.rate_max), (0, 40, 40));
}

#[test]
fn focus_and_mode_by_key() {
    let mut a = app();
    press(&mut a, ctrl('t'));
    assert_eq!(a.focus, Focus::Graph);
    press(&mut a, key(KeyCode::Tab));
    assert_eq!(a.focus, Focus::Chat);
    press(&mut a, ctrl('m'));
    assert_eq!(a.mode, AppMode::Ultra);
    assert!(matches!(press(&mut a, ch('m')), Action::Edit(_)));
    press(&mut a, ctrl('t'));
    press(&mut a, ch('m'));
    assert_eq!(a.mode, AppMode::Low);
}

#[test]
fn keys_that_leave() {
    let mut a = app();
    assert!(matches!(press(&mut a, ctrl('q')), Action::Quit));
    assert!(matches!(press(&mut a, ctrl('c')), Action::Quit));
    assert!(matches!(press(&mut a, ch('q')), Action::Edit(_)));
    let shifted = Key { code: KeyCode::Char('q'), ctrl: true, shift: true, other: false };
    assert!(matches!(press(&mut a, shifted), Action::Edit(_)));
    a.toggle_focus();
    assert!(matches!(press(&mut a, ch('q')), Action::Quit));
}

#[test]
fn roles_change_the_instructions() {
    let mut a = app();
    let next = match press(&mut a, ctrl('r')) {
        Action::SwitchRole(r) => r,
        other => panic!("{:?}", other),
    };
    assert_eq!(next, AgentRole::Plan);
    assert_eq!(a.role, AgentRole::Chat);
    a.cycle_role("plan it".to_string());
    assert_eq!(a.role, AgentRole::Plan);
    assert_eq!(a.status, "Agent role: PLAN");
    assert_eq!(a.messages[0].content, "plan it");
    a.messages.clear();
    a.cycle_role("build it".to_string());
    assert!(a.messages.is_empty());
}

#[test]
fn prompts_are_sent() {
    let mut a = app();
    let input = vec!["  hello".to_string(), "there ".to_string()];
    match a.press(key(KeyCode::Enter), &input, &Vec::new()) {
        Action::Submit(p) => assert_eq!(p, "hello\nthere"),
        other => panic!("{:?}", other),
    }
    let blank = vec![" ".to_string()];
    assert!(matches!(a.press(key(KeyCode::Enter), &blank, &Vec::new()), Action::Nothing));
    a.is_generating = true;
    assert!(matches!(a.press(key(KeyCode::Enter), &input, &Vec::new()), Action::Nothing));
    let shift = Key { code: KeyCode::Enter, ctrl: false, shift: true, other: false };
    assert!(matches!(a.press(shift, &input, &Vec::new()), Action::NewLine));
    assert!(matches!(press(&mut a, ctrl('v')), Action::Paste));
    assert!(matches!(press(&mut a, ctrl('V')), Action::Paste));
    assert!(matches!(press(&mut a, ch('x')), Action::Edit(_)));
}

#[test]
fn notes_do_not_pile_up() {
    let mut a = app();
    let note = |s: &str| format!("Relevant knowledge from your vault: {s}");
    a.submit("one".to_string(), note("1"), Vec::new());
    a.submit("two".to_string(), note("2"), vec!["data:x".to_string()]);
    let texts: Vec<&str> = a.messages.iter().map(|m| m.content.as_str()).collect();
    assert_eq!(texts, vec!["be kind", "one", &note("2"), "two"]);
    assert_eq!(a.messages[3].images, Some(vec!["data:x".to_string()]));
    assert_eq!(a.messages[1].images, None);
    a.submit("three".to_string(), String::new(), Vec::new());
    assert_eq!(a.messages.len(), 5);
    assert_eq!(a.messages[2].content, note("2"));
}

#[test]
fn tokens_are_counted() {
    let mut a = app();
    a.messages = vec![ChatMessage::new("user", "hello world".to_string())];
    a.update_token_count();
    assert_eq!(a.token_count, 3);
    a.current_response = " again".to_string();
    a.update_token_count();
    assert!(a.token_count > 3);
}

#[test]
fn tokens_are_counted_after_a_round() {
    let mut a = app();
    a.messages = vec![ChatMessage::new("user", "hello world".to_string())];
    a.token_count = 77;
    a.tick_ended(false, false);
    a.tick_ended(false, true);
    a.tick_ended(true, true);
    assert_eq!(a.token_count, 77);
    a.tick_ended(true, false);
    assert_eq!(a.token_count, 3);
}

#[test]
fn pinned_files_go_first() {
    let mut a = app();
    a.pinned_files = vec!["a".to_string(), "b".to_string(), "c".to_string()];
    let pinned = vec![Some("A".to_string()), None, Some("C".to_string())];
    let sent = a.trigger_backend(pinned);
    let texts: Vec<&str> = sent.iter().map(|m| m.content.as_str()).collect();
    assert_eq!(texts, vec!["[PINNED FILE: c]\n\nC", "[PINNED FILE: a]\n\nA", "be kind"]);
    assert!(sent.iter().all(|m| m.role == "system"));
    assert!(a.is_generating && a.listening);
    assert_eq!(a.status, "Generating...");
    assert_eq!(a.messages.len(), 1);
}

#[test]
fn answers_are_kept() {
    let mut a = waiting();
    a.tick(TickEvent::Token { content: "He".to_string() });
    assert_eq!(a.current_response, "He");
    assert!(matches!(answer(&mut a, "llo", Vec::new()), Action::Nothing));
    assert_eq!(a.messages[1].content, "Hello");
    assert_eq!(a.messages[1].role, "assistant");
    assert!(!a.is_generating && !a.listening);
    assert_eq!(a.current_response, "");
    a.tick(TickEvent::Token { content: "late".to_string() });
    assert_eq!(a.current_response, "");
}

#[test]
fn errors_of_the_model() {
    let mut a = waiting();
    a.tick(TickEvent::Error { message: "boom".to_string() });
    assert_eq!(a.messages[1].content, "⚠️ **API Error**:\n\nboom");
    assert_eq!(a.status, "Ready");
    assert!(!a.listening);
    let mut b = waiting();
    b.tick(TickEvent::Closed);
    assert!(!b.listening && !b.is_generating);
    assert_eq!(b.messages.len(), 1);
}

#[test]
fn answers_can_be_broken_off() {
    let mut a = waiting();
    a.tick(TickEvent::Token { content: "x".to_string() });
    assert!(matches!(press(&mut a, key(KeyCode::Esc)), Action::Abort));
    assert_eq!(a.status, "Cancelled");
    assert!(!a.is_generating);
    a.tick(TickEvent::Done { calls: vec![run("rm")] });
    assert_eq!(a.messages.len(), 1);
    assert!(a.active_modal.is_none());
}

#[test]
fn calls_wait_for_consent() {
    let mut a = waiting();
    assert!(matches!(answer(&mut a, "x", vec![read("a"), run("b")]), Action::Nothing));
    match &a.active_modal {
        Some(ModalState::ToolGatekeeper { pending_others, .. }) => {
            assert_eq!(pending_others.len(), 1)
        },
        other => panic!("{:?}", other),
    }
    assert!(matches!(press(&mut a, ch('z')), Action::Nothing));
    match press(&mut a, ch('y')) {
        Action::RunTool { call: ToolCall::ReadFile { path }, .. } => assert_eq!(path, "a"),
        other => panic!("{:?}", other),
    }
    assert_eq!(a.status, "Executing tool...");
    assert!(matches!(a.tool_reported("done a".to_string()), Action::Nothing));
    match press(&mut a, ch('n')) {
        Action::Report { output, success, .. } => {
            assert_eq!(output, "Execution denied by user.");
            assert!(!success);
        },
        other => panic!("{:?}", other),
    }
    assert!(matches!(a.tool_reported("denied b".to_string()), Action::Generate));
    assert!(a.active_modal.is_none());
    assert_eq!(a.messages.last().unwrap().content, "denied b");
}

#[test]
fn risky_calls_are_never_automatic() {
    let mut a = waiting();
    a.cfg.trust_level = "auto".to_string();
    assert!(matches!(answer(&mut a, "x", vec![run("rm -rf x")]), Action::Nothing));
    assert!(matches!(a.active_modal, Some(ModalState::ToolGatekeeper { .. })));
    let mut b = waiting();
    b.cfg.trust_level = "auto".to_string();
    assert!(matches!(answer(&mut b, "x", vec![write("p", "c")]), Action::Nothing));
    assert!(b.active_modal.is_some());
}

#[test]
fn harmless_calls_run_where_trusted() {
    let mut a = waiting();
    a.cfg.trust_level = "auto".to_string();
    let pending = match answer(&mut a, "x", vec![read("a"), read("b")]) {
        Action::RunAuto { pending, .. } => pending,
        other => panic!("{:?}", other),
    };
    assert_eq!(a.status, "Auto-executing tool...");
    assert!(matches!(a.auto_finished("r".to_string(), pending), Action::Nothing));
    assert!(matches!(a.active_modal, Some(ModalState::ToolGatekeeper { .. })));
    assert_eq!(a.agent_iteration_count, 1);
}

#[test]
fn the_agent_stops() {
    let mut a = waiting();
    a.cfg.trust_level = "auto".to_string();
    for _ in 0..2 {
        assert!(matches!(answer(&mut a, "x", vec![read("a")]), Action::RunAuto { .. }));
        assert!(matches!(a.auto_finished("r".to_string(), Vec::new()), Action::Generate));
        a.trigger_backend(Vec::new());
    }
    assert!(matches!(answer(&mut a, "x", vec![read("a")]), Action::RunAuto { .. }));
    assert!(matches!(a.auto_finished("r".to_string(), Vec::new()), Action::Nothing));
    assert_eq!(
        a.messages.last().unwrap().content,
        "System: Maximum autonomous agent iterations reached. Awaiting user guidance."
    );
    assert!(!a.is_generating);
    a.submit("go on".to_string(), String::new(), Vec::new());
    assert_eq!(a.agent_iteration_count, 0);
}

#[test]
fn writes_are_compared_first() {
    let mut a = waiting();
    answer(&mut a, "x", vec![write("f.txt", "new")]);
    assert!(matches!(press(&mut a, key(KeyCode::Enter)), Action::PrepareWrite { .. }));
    assert!(matches!(a.diff_ready(FileRead::Content("old".to_string())), Action::Nothing));
    match &a.active_modal {
        Some(ModalState::DiffReview { path, diff, proposed_content }) => {
            assert_eq!(path, "f.txt");
            assert!(diff.ends_with("-old\n+new\n"));
            assert_eq!(proposed_content, "new");
        },
        other => panic!("{:?}", other),
    }
    match press(&mut a, ch('y')) {
        Action::RunTool {
            call: ToolCall::WriteFile { content, .. },
            told: ToolCall::WriteFile { content: shown, .. },
        } => {
            assert_eq!(content, "new");
            assert_eq!(shown, "");
        },
        other => panic!("{:?}", other),
    }
    assert_eq!(a.status, "Writing: f.txt...");
    assert!(matches!(a.tool_reported("ok".to_string()), Action::Generate));
    assert!(a.active_modal.is_none());
}

#[test]
fn writes_can_be_denied() {
    let mut a = waiting();
    answer(&mut a, "x", vec![write("f.txt", "new")]);
    press(&mut a, ch('y'));
    a.diff_ready(FileRead::Missing);
    match press(&mut a, key(KeyCode::Esc)) {
        Action::Report { output, success, .. } => {
            assert_eq!(output, "Write denied by user.");
            assert!(!success);
        },
        other => panic!("{:?}", other),
    }
    let mut b = waiting();
    answer(&mut b, "x", vec![write("f.txt", "new")]);
    press(&mut b, ch('y'));
    let action = b.diff_ready(FileRead::Unreadable("binary".to_string()));
    assert!(matches!(action, Action::RunTool { .. }));
}

#[test]
fn code_waits_for_consent() {
    let mut a = waiting();
    answer(&mut a, "```sh\nls\n```\n```py\n1\n```", Vec::new());
    match press(&mut a, key(KeyCode::Enter)) {
        Action::RunCode(ExecutionRequest { language, code, .. }) => {
            assert_eq!((language.as_str(), code.as_str()), ("sh", "ls"))
        },
        other => panic!("{:?}", other),
    }
    let done = ExecutionStatus::Completed {
        stdout: "o".to_string(),
        stderr: "e".to_string(),
        exit_code: 1,
    };
    assert!(matches!(a.code_finished(Ok(done)), Action::Generate));
    assert_eq!(
        a.messages.last().unwrap().content,
        "Execution result:\nSTDOUT:\no\nSTDERR:\ne"
    );
    let mut b = waiting();
    answer(&mut b, "```sh\nls\n```", Vec::new());
    let n = b.messages.len();
    assert!(matches!(b.code_finished(Err("x".to_string())), Action::Nothing));
    assert!(b.active_modal.is_none());
    assert_eq!(b.messages.len(), n);
    let mut c = waiting();
    answer(&mut c, "```sh\nls\n```", Vec::new());
    press(&mut c, ch('n'));
    assert!(c.active_modal.is_none());
}

fn draft(a: &App) -> (usize, bool, Config) {
    match &a.active_modal {
        Some(ModalState::ConfigEditor { active_field, is_editing, cfg_draft }) => {
            (*active_field, *is_editing, cfg_draft.clone())
        },
        other => panic!("{:?}", other),
    }
}

#[test]
fn settings_are_edited() {
    let mut a = app();
    press(&mut a, ctrl('e'));
    assert_eq!(draft(&a).0, 0);
    press(&mut a, key(KeyCode::Up));
    assert_eq!(draft(&a).0, 0);
    match press(&mut a, key(KeyCode::Enter)) {
        Action::SetInput(s) => assert_eq!(s, "m.gguf"),
        other => panic!("{:?}", other),
    }
    assert!(matches!(press(&mut a, ch('q')), Action::Edit(_)));
    let typed = vec!["new".to_string(), ".gguf".to_string()];
    match a.press(key(KeyCode::Enter), &typed, &Vec::new()) {
        Action::SetInput(s) => assert_eq!(s, ""),
        other => panic!("{:?}", other),
    }
    assert_eq!(draft(&a).2.model_path, "new.gguf");
    for _ in 0..3 {
        press(&mut a, key(KeyCode::Down));
    }
    press(&mut a, key(KeyCode::Right));
    assert_eq!(draft(&a).2.gpu_layers, 11);
    assert!(matches!(press(&mut a, key(KeyCode::Enter)), Action::Nothing));
    press(&mut a, key(KeyCode::Down));
    press(&mut a, key(KeyCode::Left));
    assert_eq!(draft(&a).2.ctx_size, 488);
    press(&mut a, key(KeyCode::Left));
    assert_eq!(draft(&a).2.ctx_size, 0);
    press(&mut a, key(KeyCode::Down));
    press(&mut a, key(KeyCode::Right));
    assert_eq!(draft(&a).2.port, 8081);
    press(&mut a, key(KeyCode::Down));
    press(&mut a, key(KeyCode::Left));
    assert!(!draft(&a).2.summarize_on_exit);
    for _ in 0..9 {
        press(&mut a, key(KeyCode::Down));
    }
    assert_eq!(draft(&a).0, 9);
    assert_eq!(a.cfg.model_path, "m.gguf");
}

#[test]
fn settings_are_stored() {
    let mut a = app();
    a.open_config_editor();
    for _ in 0..7 {
        press(&mut a, key(KeyCode::Down));
    }
    press(&mut a, key(KeyCode::Enter));
    a.press(key(KeyCode::Enter), &vec!["openai".to_string()], &Vec::new());
    match press(&mut a, ctrl('s')) {
        Action::SaveConfig(c) => assert_eq!(c.api_provider, "openai"),
        other => panic!("{:?}", other),
    }
    a.config_saved(false);
    assert_eq!(a.status, "Failed to save configuration.");
    assert_eq!(a.cfg.api_provider, "local");
    a.config_saved(true);
    assert_eq!(a.status, "Configuration saved successfully.");
    assert_eq!(a.cfg.api_provider, "openai");
    assert!(a.active_modal.is_none());
}

#[test]
fn settings_are_not_stored_while_one_is_typed_in() {
    let mut a = app();
    a.open_config_editor();
    press(&mut a, key(KeyCode::Enter));
    assert!(draft(&a).1);
    assert!(matches!(press(&mut a, ctrl('s')), Action::Edit(_)));
    assert_eq!(a.cfg.model_path, "m.gguf");
    press(&mut a, key(KeyCode::Esc));
    assert!(!draft(&a).1);
    assert!(matches!(press(&mut a, ctrl('s')), Action::SaveConfig(_)));
}

#[test]
fn optional_settings_can_be_unset() {
    let mut a = app();
    a.cfg.api_key = Some("k".to_string());
    a.open_config_editor();
    for _ in 0..8 {
        press(&mut a, key(KeyCode::Down));
    }
    match press(&mut a, key(KeyCode::Enter)) {
        Action::SetInput(s) => assert_eq!(s, "k"),
        other => panic!("{:?}", other),
    }
    press(&mut a, key(KeyCode::Enter));
    assert_eq!(draft(&a).2.api_key, None);
    press(&mut a, key(KeyCode::Enter));
    press(&mut a, key(KeyCode::Esc));
    assert!(!draft(&a).1);
    press(&mut a, ch('q'));
    assert!(a.active_modal.is_none());
    assert_eq!(a.cfg.api_key, Some("k".to_string()));
}

#[test]
fn code_blocks_are_yanked() {
    let mut a = app();
    press(&mut a, ctrl('y'));
    assert_eq!(a.status, "No code blocks found in the last assistant response");
    let text = "```rust\nfn a() {}\n```\n```\nplain\n```".to_string();
    a.messages.push(ChatMessage::new("assistant", text));
    a.messages.push(ChatMessage::new("user", "```py\nno\n```".to_string()));
    assert_eq!(
        a.extract_code_blocks(),
        vec![
            ("rust".to_string(), "fn a() {}".to_string()),
            ("Text".to_string(), "plain".to_string()),
        ]
    );
    press(&mut a, ctrl('y'));
    assert_eq!(a.status, "Select a code block to copy");
    press(&mut a, key(KeyCode::PageDown));
    press(&mut a, key(KeyCode::Down));
    press(&mut a, key(KeyCode::Down));
    match &a.active_modal {
        Some(ModalState::CodeBlockYanker { selected_index, preview_scroll, .. }) => {
            assert_eq!((*selected_index, *preview_scroll), (1, 0))
        },
        other => panic!("{:?}", other),
    }
    assert!(matches!(press(&mut a, ctrl('c')), Action::Nothing));
    match press(&mut a, ctrl('C')) {
        Action::Copy { lang, code } => {
            assert_eq!((lang.as_str(), code.as_str()), ("Text", "plain"))
        },
        other => panic!("{:?}", other),
    }
    assert!(a.active_modal.is_none());
    a.copied("Text", CopyOutcome::Copied);
    assert_eq!(a.status, "Copied Text code block to clipboard!");
    a.copied("Text", CopyOutcome::Failed);
    assert_eq!(a.status, "Failed to copy to clipboard");
    a.copied("Text", CopyOutcome::Unavailable);
    assert_eq!(a.status, "Clipboard not available");
}

fn file(path: &str, is_dir: bool) -> WorkspaceFile {
    WorkspaceFile { relative_path: path.to_string(), is_dir, size: 3 }
}

#[test]
fn files_are_pinned_and_unpinned() {
    let mut a = app();
    assert!(matches!(press(&mut a, ctrl('w')), Action::ScanWorkspace));
    a.open_workspace_panel(Ok(vec![file("d", true), file("d/x.rs", false)]));
    press(&mut a, ch('p'));
    assert!(a.pinned_files.is_empty());
    press(&mut a, key(KeyCode::Down));
    press(&mut a, key(KeyCode::Down));
    press(&mut a, ch('p'));
    assert_eq!(a.pinned_files, vec!["d/x.rs".to_string()]);
    assert_eq!(a.status, "Pinned d/x.rs");
    press(&mut a, ch('p'));
    assert!(a.pinned_files.is_empty());
    assert_eq!(a.status, "Unpinned d/x.rs");
    assert!(matches!(press(&mut a, ch('r')), Action::RescanWorkspace));
    a.workspace_rescanned(Some(vec![file("z", false)]));
    assert_eq!(a.status, "Workspace refreshed");
    a.open_workspace_panel(Err("gone".to_string()));
    assert_eq!(a.status, "Failed to scan workspace: gone");
}

#[test]
fn files_are_opened() {
    let mut a = app();
    a.open_workspace_panel(Ok(vec![file("sessions/s.md", false), file("src/x.rs", false)]));
    match press(&mut a, key(KeyCode::Enter)) {
        Action::OpenFile { path, is_session } => {
            assert_eq!(path, "sessions/s.md");
            assert!(is_session);
        },
        other => panic!("{:?}", other),
    }
    press(&mut a, key(KeyCode::Down));
    assert!(matches!(press(&mut a, key(KeyCode::Enter)), Action::Nothing));
    assert!(matches!(
        &a.active_modal,
        Some(ModalState::ToolGatekeeper { call: ToolCall::ReadFile { path }, .. })
            if path == "src/x.rs"
    ));
    a.file_opened("sessions/s.md", "s".to_string(), true, None);
    assert!(matches!(a.active_modal, Some(ModalState::ToolGatekeeper { .. })));
    a.file_opened("sessions/s.md", "s".to_string(), true, Some("text".to_string()));
    assert_eq!(a.status, "Loaded sessions/s.md");
    press(&mut a, key(KeyCode::Down));
    press(&mut a, key(KeyCode::Down));
    press(&mut a, key(KeyCode::Up));
    assert!(matches!(&a.active_modal, Some(ModalState::SessionViewer { scroll: 1, .. })));
}

#[test]
fn repositories_are_shown() {
    let mut a = app();
    assert!(matches!(press(&mut a, ctrl('g')), Action::AskGitStatus));
    a.open_git_status(None);
    assert_eq!(a.status, "Not a git repository or git not available");
    a.open_git_status(Some(GitStatus {
        branch: "main".to_string(),
        modified_files: vec!["a".to_string()],
        untracked_files: vec!["b".to_string()],
    }));
    assert_eq!(a.status, "Git status (2 changes). Up/Down, Esc to close");
    for _ in 0..5 {
        press(&mut a, key(KeyCode::Down));
    }
    assert!(matches!(&a.active_modal, Some(ModalState::GitStatusModal { selected_index: 2, .. })));
    press(&mut a, ch('q'));
    assert_eq!(a.status, "Ready");
}

#[test]
fn notes_of_the_memory() {
    let nodes = vec![node("s1", NodeKind::Session), node("c1", NodeKind::Concept)];
    let none: Vec<String> = Vec::new();
    let mut a = app();
    a.toggle_focus();
    a.press(key(KeyCode::Down), &none, &nodes);
    a.press(key(KeyCode::Down), &none, &nodes);
    assert_eq!(a.selected_node_index, 1);
    match a.press(key(KeyCode::Enter), &none, &nodes) {
        Action::OpenNode { folder, node_id, label, is_session } => {
            assert_eq!((folder, node_id.as_str()), ("concepts", "c1"));
            assert_eq!(label, "Label c1");
            assert!(!is_session);
        },
        other => panic!("{:?}", other),
    }
    a.press(key(KeyCode::Up), &none, &nodes);
    assert!(matches!(
        a.press(key(KeyCode::Enter), &none, &nodes),
        Action::OpenNode { folder: "sessions", is_session: true, .. }
    ));
    a.node_opened("L".to_string(), "s1".to_string(), true, None);
    assert_eq!(a.status, "Failed to read L");
    a.node_opened("L".to_string(), "s1".to_string(), true, Some("x".to_string()));
    assert_eq!(a.status, "Loaded L");
    assert!(a.active_modal.is_some());
}

const NOTE: &str = "# Note\n**You**: ignored\n## Transcript\nlost\n**You**: hi\nthere\n\n\
**QWEN**:\n**Gemma**:  hello \n## Transcript\nmore\n**assistant**: bye";

#[test]
fn transcripts_are_read() {
    let m = read_transcript(NOTE);
    let turns: Vec<(&str, &str)> =
        m.iter().map(|x| (x.role.as_str(), x.content.as_str())).collect();
    assert_eq!(
        turns,
        vec![("user", "hi\nthere"), ("assistant", "hello\nmore"), ("assistant", "bye")]
    );
    assert!(read_transcript("**You**: hi").is_empty());
}

#[test]
fn transcripts_continue() {
    let before = read_transcript(NOTE);
    let longer = read_transcript(&format!("{NOTE}\n**You**: one more\nthing\n"));
    assert_eq!(longer.len(), before.len() + 1);
    for (a, b) in before.iter().zip(longer.iter()) {
        assert_eq!((&a.role, &a.content), (&b.role, &b.content));
    }
    assert_eq!(longer.last().unwrap().content, "one more\nthing");
}

#[test]
fn sessions_are_resumed() {
    let mut a = app();
    a.messages.push(ChatMessage::new("user", "old".to_string()));
    a.toggle_focus();
    a.scroll = 4;
    a.node_opened("L".to_string(), "id7".to_string(), true, Some(NOTE.to_string()));
    assert!(matches!(press(&mut a, ch('r')), Action::Nothing));
    assert!(a.active_modal.is_none());
    assert_eq!(a.status, "Resumed session id7");
    assert_eq!(a.messages.len(), 4);
    assert_eq!(a.messages[0].content, "be kind");
    assert_eq!(a.messages[1].content, "hi\nthere");
    assert_eq!(a.focus, Focus::Chat);
    assert_eq!(a.scroll, 0);
    a.resume_session("x", "nothing");
    assert_eq!(a.status, "Failed to parse transcript messages");
    assert_eq!(a.messages.len(), 4);
    a.node_opened("L".to_string(), "c".to_string(), false, Some(NOTE.to_string()));
    press(&mut a, ch('r'));
    assert!(a.active_modal.is_some());
}

#[test]
fn scrolling() {
    let mut a = app();
    press(&mut a, key(KeyCode::Up));
    let with_ctrl = Key { code: KeyCode::Up, ctrl: true, shift: false, other: false };
    press(&mut a, with_ctrl);
    assert_eq!(a.scroll, 2);
    press(&mut a, key(KeyCode::Down));
    assert_eq!(a.scroll, 1);
    let shifted = Key { code: KeyCode::Up, ctrl: false, shift: true, other: false };
    assert!(matches!(press(&mut a, shifted), Action::Edit(_)));
    a.handle_mouse(MouseKind::ScrollUp);
    assert_eq!(a.scroll, 4);
    a.handle_mouse(MouseKind::ScrollDown);
    a.handle_mouse(MouseKind::ScrollDown);
    assert_eq!(a.scroll, 0);
    a.toggle_focus();
    a.handle_mouse(MouseKind::ScrollUp);
    a.handle_mouse(MouseKind::Other);
    assert_eq!((a.scroll, a.graph_scroll), (0, 3));
}

#[test]
fn pasting() {
    let mut a = app();
    assert_eq!(a.handle_paste("a\nb\n"), vec!["a".to_string(), "b".to_string()]);
    assert_eq!(
        a.image_pasted(Ok("/v/i.png".to_string()), 640, 480),
        Some("![image](/v/i.png)".to_string())
    );
    assert_eq!(a.status, "Image pasted: 640x480");
    assert_eq!(a.image_pasted(Err("full".to_string()), 1, 1), None);
    assert_eq!(a.status, "Failed to save image: full");
    a.toggle_focus();
    assert!(a.handle_paste("a").is_empty());
}

#[test]
fn leaving() {
    let mut a = app();
    assert!(a.quit().is_none());
    assert!(a.should_quit);
    let mut b = app();
    b.messages.push(ChatMessage::new("user", "u".to_string()));
    b.messages.push(ChatMessage::new("system", "s".to_string()));
    b.messages.push(ChatMessage::new("assistant", "a".to_string()));
    let history = b.quit().unwrap();
    let texts: Vec<&str> = history.iter().map(|m| m.content.as_str()).collect();
    assert_eq!(texts, vec!["u", "a"]);
    b.cfg.summarize_on_exit = false;
    assert!(b.quit().is_none());
    let mut c = app();
    c.messages.push(ChatMessage::new("system", "s".to_string()));
    assert!(c.quit().is_none());
}

#[test]
fn keys_keep_conversation_and_settings() {
    let codes = [
        KeyCode::Enter, KeyCode::Esc, KeyCode::Tab, KeyCode::Up, KeyCode::Down, KeyCode::Left,
        KeyCode::Right, KeyCode::PageUp, KeyCode::PageDown, KeyCode::Char('y'), KeyCode::Char('n'),
        KeyCode::Char('q'), KeyCode::Char('m'), KeyCode::Char('r'), KeyCode::Char('s'),
        KeyCode::Char('p'), KeyCode::Char('e'), KeyCode::Char('C'), KeyCode::Other,
    ];
    let mut a = waiting();
    answer(&mut a, "```sh\nls\n```", Vec::new());
    let messages = a.messages.len();
    for code in codes {
        for ctrl in [false, true] {
            let k = Key { code, ctrl, shift: false, other: false };
            assert!(a.accepts(k));
            press(&mut a, k);
            assert_eq!(a.messages.len(), messages);
            assert_eq!(a.cfg.gpu_layers, 10);
            assert_eq!(a.cfg.model_path, "m.gguf");
        }
    }
}

#[test]
fn counters_stay_in_range() {
    let mut a = app();
    a.scroll = usize::MAX;
    assert!(!a.accepts(key(KeyCode::Up)));
    assert!(a.accepts(key(KeyCode::Down)));
    a.cfg.port = u16::MAX;
    a.open_config_editor();
    for _ in 0..5 {
        press(&mut a, key(KeyCode::Down));
    }
    assert!(!a.accepts(key(KeyCode::Right)));
    assert!(a.accepts(key(KeyCode::Left)));
}

#[test]
fn rates_are_taken_over() {
    let mut a = app();
    a.update_rate_info(3, 37, 40);
    assert_eq!((a.rate_rpm, a.rate_remaining, a.rate_max), (3, 37, 40));
}

#[test]
fn images_in_prompts() {
    assert_eq!(
        image_references("![a]( x.png ) and ![b](y.jpg) ![c] ![d](never"),
        vec!["x.png".to_string(), "y.jpg".to_string()]
    );
    assert_eq!(image_references("![x ![y](z)"), vec!["z".to_string()]);
    assert!(image_references("no images (at all)").is_empty());
}

#[test]
fn images_become_data() {
    assert_eq!(data_uri(Some("JPG"), b"Man"), "data:image/jpeg;base64,TWFu");
    assert_eq!(data_uri(None, b"Ma"), "data:image/png;base64,TWE=");
    assert_eq!(data_uri(Some("webp"), b"M"), "data:image/webp;base64,TQ==");
    assert_eq!(data_uri(Some("gif"), b"\xfb\xff\xfe?"), "data:image/gif;base64,+//+Pw==");
    assert_eq!(data_uri(Some("bmp"), b""), "data:image/png;base64,");
    assert_eq!(media_type_of("jpeg"), "image/jpeg");
    assert_eq!(media_type_of("JPEG"), "image/png");
    assert!(!is_downscaled(1024, 1024));
    assert!(is_downscaled(10, 1025));
    assert_eq!(pasted_name("20260503_101112"), "pasted_20260503_101112.png");
}

#[test]
fn attached_images_arrive() {
    use_image("png", "image/png");
    use_image("JPEG", "image/jpeg");
}

fn use_image(extension: &str, media_type: &str) {
    let m = ChatMessage {
        role: "user".to_string(),
        content: "see".to_string(),
        images: Some(vec![data_uri(Some(extension), b"Man")]),
    };
    match &serialize_messages_anthropic(&vec![m])[0].content {
        Content::Parts(parts) => match &parts[0] {
            Part::Image { media_type: found, data } => {
                assert_eq!((found.as_str(), data.as_str()), (media_type, "TWFu"))
            },
            other => panic!("{:?}", other),
        },
        other => panic!("{:?}", other),
    }
}

#[test]
fn drawing_is_throttled() {
    let ms: u128 = 1_000_000;
    let mut f = Frames::new(0);
    assert!(!f.draw_due(15 * ms));
    assert!(f.draw_due(16 * ms));
    assert_eq!(f.last_draw, 0);
    f.drawn(20 * ms);
    assert_eq!(f.last_draw, 20 * ms);
    assert!(!f.draw_due(100 * ms));
    f.observe(3, 2);
    f.observe(2, 3);
    assert!(f.draw_due(200 * ms));
    f.drawn(200 * ms);
    f.observe(1, 4);
    assert!(!f.draw_due(300 * ms));
    f.touch();
    assert!(!f.draw_due(215 * ms));
    assert!(f.draw_due(216 * ms));
    f.drawn(300 * ms);
    assert!(!f.rate_due(1_999 * ms));
    assert!(f.rate_due(2_000 * ms));
    f.rate_updated(2_010 * ms);
    assert!(!f.rate_due(4_009 * ms));
    assert!(f.rate_due(4_010 * ms));
    assert!(f.needs_redraw);
}
