//! What each key does.
use crate::agent::blocks::fenced;
use crate::agent::executor::{request_views, ExecutionRequest};
use crate::agent::tools::{call_views, ToolCall, ToolCallView};
use crate::agent::workspace::{file_views, GitStatus, WorkspaceFile};
use crate::config::{Config, ConfigView};
use crate::memory::{node_views, MemoryNode, MemoryNodeView, NodeKind};
use crate::text::{
    begins, join, joined, lemma_views_push, option_view, same, starts_with, trim, views,
};
use crate::tui::action::{Action, ActionView, Key, KeyCode};
use crate::tui::app::{last_answer, offered, App, AppView};
use crate::tui::modal::{pair_views, ModalState, ModalView};
use crate::tui::mode::Focus;
use vstd::prelude::*;
use vstd::string::*;

verus! {

/// One less, but not below zero.
pub open spec fn one_less(n: usize) -> usize {
    if n == 0 {
        0
    } else {
        (n - 1) as usize
    }
}

/// One more, but not above `last`.
pub open spec fn one_more(n: usize, last: int) -> usize {
    if n + 1 <= last {
        (n + 1) as usize
    } else {
        last as usize
    }
}

fn less(n: usize) -> (r: usize)
    ensures
        r == one_less(n),
{
    n.saturating_sub(1)
}

fn more(n: usize, last: usize) -> (r: usize)
    ensures
        r == one_more(n, last as int),
{
    if n < last {
        n + 1
    } else {
        last
    }
}

// ---------------------------------------------------------------------------------------------
// Windows
// ---------------------------------------------------------------------------------------------

/// A key in the window of a note: it scrolls, closes, or takes up a session again.
pub open spec fn on_session_viewer(a: AppView, key: Key, m: ModalView) -> (AppView, ActionView)
    recommends
        m is SessionViewer,
{
    if let ModalView::SessionViewer { title, content, scroll, node_id, is_session } = m {
        let at = |n: usize|
            a.with_modal(
                Some(
                    ModalView::SessionViewer { title, content, scroll: n, node_id, is_session },
                ),
            );
        if key.closes() {
            (a.with_modal(None).with_status("Ready"@), ActionView::Nothing)
        } else if key.code == KeyCode::Up {
            (at(one_less(scroll)), ActionView::Nothing)
        } else if key.code == KeyCode::Down {
            (at((scroll + 1) as usize), ActionView::Nothing)
        } else if key.hits('r') && is_session {
            (a.with_modal(None).resumed(node_id, content), ActionView::Nothing)
        } else {
            (a, ActionView::Nothing)
        }
    } else {
        (a, ActionView::Nothing)
    }
}

/// What the status says while a tool runs.
pub open spec fn running(call: ToolCallView) -> Seq<char> {
    match call {
        ToolCallView::SearchFiles { query, .. } => "Searching for: "@ + query + "..."@,
        ToolCallView::WebSearch { query } => "Searching the web: "@ + query + "..."@,
        ToolCallView::ScrapeUrl { url } => "Scraping URL: "@ + url + "..."@,
        _ => "Executing tool..."@,
    }
}

/// A key in the window that asks for consent to a tool call: the call is denied, or it is run;
/// one that writes a file is compared with the file before.
pub open spec fn on_tool_gatekeeper(a: AppView, key: Key, call: ToolCallView) -> (
    AppView,
    ActionView,
) {
    if key.denies() {
        (
            a,
            ActionView::Report { call, output: "Execution denied by user."@, success: false },
        )
    } else if key.confirms() {
        (
            a.with_status(running(call)),
            match call {
                ToolCallView::WriteFile { path, content } => ActionView::PrepareWrite {
                    path,
                    content,
                },
                _ => ActionView::RunTool { call, told: call },
            },
        )
    } else {
        (a, ActionView::Nothing)
    }
}

/// A key in the window that asks for consent to run code.
pub open spec fn on_code_gatekeeper(a: AppView, key: Key, m: ModalView) -> (AppView, ActionView)
    recommends
        m is CodeGatekeeper,
{
    if key.denies() {
        (a.with_modal(None).with_status("Ready"@), ActionView::Nothing)
    } else if key.confirms() {
        (a, ActionView::RunCode(m->CodeGatekeeper_request))
    } else {
        (a, ActionView::Nothing)
    }
}

/// The text of a setting that is typed in.
pub open spec fn field_text(c: ConfigView, field: int) -> Seq<char> {
    let or_empty = |o: Option<Seq<char>>|
        match o {
            Some(s) => s,
            None => Seq::empty(),
        };
    if field == 0 {
        c.model_path
    } else if field == 1 {
        c.vault_path
    } else if field == 2 {
        or_empty(c.llama_server_path)
    } else if field == 7 {
        c.api_provider
    } else if field == 8 {
        or_empty(c.api_key)
    } else if field == 9 {
        or_empty(c.api_model)
    } else {
        Seq::empty()
    }
}

/// Whether a setting is typed in.
pub open spec fn is_text_field(field: int) -> bool {
    field <= 2 || 7 <= field <= 9
}

/// The settings after a text has been typed in for one of them. An optional one that is left
/// empty is unset.
pub open spec fn with_field_text(c: ConfigView, field: int, val: Seq<char>) -> ConfigView {
    let optional = if val.len() == 0 {
        None
    } else {
        Some(val)
    };
    if field == 0 {
        ConfigView { model_path: val, ..c }
    } else if field == 1 {
        ConfigView { vault_path: val, ..c }
    } else if field == 2 {
        ConfigView { llama_server_path: optional, ..c }
    } else if field == 7 {
        ConfigView { api_provider: val, ..c }
    } else if field == 8 {
        ConfigView { api_key: optional, ..c }
    } else if field == 9 {
        ConfigView { api_model: optional, ..c }
    } else {
        c
    }
}

/// The settings after one of them has been lowered or switched.
pub open spec fn lowered(c: ConfigView, field: int) -> ConfigView {
    if field == 3 {
        ConfigView {
            gpu_layers: if c.gpu_layers == 0 {
                0
            } else {
                (c.gpu_layers - 1) as u32
            },
            ..c
        }
    } else if field == 4 {
        ConfigView {
            ctx_size: if c.ctx_size < 512 {
                0
            } else {
                (c.ctx_size - 512) as usize
            },
            ..c
        }
    } else if field == 5 {
        ConfigView {
            port: if c.port == 0 {
                0
            } else {
                (c.port - 1) as u16
            },
            ..c
        }
    } else if field == 6 {
        ConfigView { summarize_on_exit: !c.summarize_on_exit, ..c }
    } else {
        c
    }
}

/// The settings after one of them has been raised or switched.
pub open spec fn raised(c: ConfigView, field: int) -> ConfigView {
    if field == 3 {
        ConfigView { gpu_layers: (c.gpu_layers + 1) as u32, ..c }
    } else if field == 4 {
        ConfigView { ctx_size: (c.ctx_size + 512) as usize, ..c }
    } else if field == 5 {
        ConfigView { port: (c.port + 1) as u16, ..c }
    } else if field == 6 {
        ConfigView { summarize_on_exit: !c.summarize_on_exit, ..c }
    } else {
        c
    }
}

/// Whether the setting can be raised without leaving its range.
pub open spec fn can_raise(c: ConfigView, field: int) -> bool {
    &&& field == 3 ==> c.gpu_layers < u32::MAX
    &&& field == 4 ==> c.ctx_size <= usize::MAX - 512
    &&& field == 5 ==> c.port < u16::MAX
}

/// A key in the window of the settings: while a setting is typed in, keys go to the input box
/// until Enter takes its text over or Esc leaves it; else they choose a setting, change it, or
/// store them all.
pub open spec fn on_config_editor(
    a: AppView,
    key: Key,
    m: ModalView,
    input: Seq<Seq<char>>,
) -> (AppView, ActionView)
    recommends
        m is ConfigEditor,
{
    if let ModalView::ConfigEditor { active_field, is_editing, cfg_draft } = m {
        let to = |field: usize, editing: bool, draft: ConfigView|
            a.with_modal(
                Some(
                    ModalView::ConfigEditor {
                        active_field: field,
                        is_editing: editing,
                        cfg_draft: draft,
                    },
                ),
            );
        if is_editing {
            if key.code == KeyCode::Esc {
                (to(active_field, false, cfg_draft), ActionView::Nothing)
            } else if key.code == KeyCode::Enter {
                (
                    to(
                        active_field,
                        false,
                        with_field_text(cfg_draft, active_field as int, joined(input, ""@)),
                    ),
                    ActionView::SetInput(Seq::empty()),
                )
            } else {
                (a, ActionView::Edit(key))
            }
        } else if key.closes() {
            (a.with_modal(None), ActionView::Nothing)
        } else if key.code == KeyCode::Up {
            (to(one_less(active_field), false, cfg_draft), ActionView::Nothing)
        } else if key.code == KeyCode::Down {
            (to(one_more(active_field, 9), false, cfg_draft), ActionView::Nothing)
        } else if key.code == KeyCode::Left {
            (to(active_field, false, lowered(cfg_draft, active_field as int)), ActionView::Nothing)
        } else if key.code == KeyCode::Right {
            (to(active_field, false, raised(cfg_draft, active_field as int)), ActionView::Nothing)
        } else if key.code == KeyCode::Enter && is_text_field(active_field as int) {
            (
                to(active_field, true, cfg_draft),
                ActionView::SetInput(field_text(cfg_draft, active_field as int)),
            )
        } else if key.hits('s') && key.ctrl {
            (a, ActionView::SaveConfig(cfg_draft))
        } else {
            (a, ActionView::Nothing)
        }
    } else {
        (a, ActionView::Nothing)
    }
}

/// Whether the key copies a block: Control, Shift and `c`.
pub open spec fn is_yank(key: Key) -> bool {
    key.ctrl && (key.hits('C') || (key.hits('c') && key.shift))
}

/// A key in the window of the code blocks: it chooses a block, scrolls it, or copies it.
pub open spec fn on_yanker(a: AppView, key: Key, m: ModalView) -> (AppView, ActionView)
    recommends
        m is CodeBlockYanker,
{
    if let ModalView::CodeBlockYanker { blocks, selected_index, preview_scroll } = m {
        let to = |index: usize, scroll: usize|
            a.with_modal(
                Some(
                    ModalView::CodeBlockYanker {
                        blocks,
                        selected_index: index,
                        preview_scroll: scroll,
                    },
                ),
            );
        if key.code == KeyCode::Esc {
            (a.with_modal(None).with_status("Ready"@), ActionView::Nothing)
        } else if key.code == KeyCode::Up && blocks.len() > 0 {
            (to(one_less(selected_index), 0), ActionView::Nothing)
        } else if key.code == KeyCode::Down && blocks.len() > 0 {
            (to(one_more(selected_index, blocks.len() - 1), 0), ActionView::Nothing)
        } else if key.code == KeyCode::PageUp {
            (
                to(
                    selected_index,
                    if preview_scroll < 5 {
                        0
                    } else {
                        (preview_scroll - 5) as usize
                    },
                ),
                ActionView::Nothing,
            )
        } else if key.code == KeyCode::PageDown {
            (
                to(
                    selected_index,
                    if preview_scroll > usize::MAX - 5 {
                        usize::MAX
                    } else {
                        (preview_scroll + 5) as usize
                    },
                ),
                ActionView::Nothing,
            )
        } else if is_yank(key) {
            (
                a.with_modal(None),
                if selected_index < blocks.len() {
                    let (lang, code) = blocks[selected_index as int];
                    ActionView::Copy { lang, code }
                } else {
                    ActionView::Nothing
                },
            )
        } else {
            (a, ActionView::Nothing)
        }
    } else {
        (a, ActionView::Nothing)
    }
}

/// The pinned files without one of them.
pub open spec fn unpinned(pins: Seq<Seq<char>>, path: Seq<char>) -> Seq<Seq<char>>
    decreases pins.len(),
{
    if pins.len() == 0 {
        Seq::empty()
    } else if pins.last() == path {
        unpinned(pins.drop_last(), path)
    } else {
        unpinned(pins.drop_last(), path).push(pins.last())
    }
}

/// The pinned files after the pin of one has been set or taken off.
pub open spec fn toggled(pins: Seq<Seq<char>>, path: Seq<char>) -> Seq<Seq<char>> {
    if pins.contains(path) {
        unpinned(pins, path)
    } else {
        pins.push(path)
    }
}

/// The pin of a file is set or taken off.
pub open spec fn pin_toggled(a: AppView, path: Seq<char>) -> AppView {
    AppView {
        pinned_files: toggled(a.pinned_files, path),
        status: if a.pinned_files.contains(path) {
            "Unpinned "@ + path
        } else {
            "Pinned "@ + path
        },
        ..a
    }
}

/// A file of the workspace is chosen: a note is shown, and any other file is read by a tool, with
/// consent.
pub open spec fn file_chosen(a: AppView, path: Seq<char>) -> (AppView, ActionView) {
    let session = begins(path, "sessions"@);
    if session || begins(path, "concepts"@) {
        (a, ActionView::OpenFile { path, is_session: session })
    } else {
        (
            a.with_modal(
                Some(
                    ModalView::ToolGatekeeper {
                        call: ToolCallView::ReadFile { path },
                        pending_others: Seq::empty(),
                    },
                ),
            ),
            ActionView::Nothing,
        )
    }
}

/// A key in the window of the workspace.
pub open spec fn on_workspace(a: AppView, key: Key, m: ModalView) -> (AppView, ActionView)
    recommends
        m is WorkspacePanel,
{
    if let ModalView::WorkspacePanel { files, selected_index, scroll } = m {
        let to = |index: usize|
            a.with_modal(
                Some(ModalView::WorkspacePanel { files, selected_index: index, scroll }),
            );
        let on_file = selected_index < files.len() && !files[selected_index as int].is_dir;
        if key.closes() {
            (a.with_modal(None).with_status("Ready"@), ActionView::Nothing)
        } else if key.code == KeyCode::Up {
            (to(one_less(selected_index)), ActionView::Nothing)
        } else if key.code == KeyCode::Down && files.len() > 0 {
            (to(one_more(selected_index, files.len() - 1)), ActionView::Nothing)
        } else if key.hits('r') {
            (a, ActionView::RescanWorkspace)
        } else if key.hits('p') && on_file {
            (pin_toggled(a, files[selected_index as int].relative_path), ActionView::Nothing)
        } else if key.code == KeyCode::Enter && on_file {
            file_chosen(a, files[selected_index as int].relative_path)
        } else {
            (a, ActionView::Nothing)
        }
    } else {
        (a, ActionView::Nothing)
    }
}

/// A key in the window of the repository.
pub open spec fn on_git_status(a: AppView, key: Key, m: ModalView) -> (AppView, ActionView)
    recommends
        m is GitStatusModal,
{
    if let ModalView::GitStatusModal { status, selected_index, scroll } = m {
        let to = |index: usize|
            a.with_modal(
                Some(ModalView::GitStatusModal { status, selected_index: index, scroll }),
            );
        if key.closes() {
            (a.with_modal(None).with_status("Ready"@), ActionView::Nothing)
        } else if key.code == KeyCode::Up {
            (to(one_less(selected_index)), ActionView::Nothing)
        } else if key.code == KeyCode::Down {
            (to(one_more(selected_index, status.changes() as int)), ActionView::Nothing)
        } else {
            (a, ActionView::Nothing)
        }
    } else {
        (a, ActionView::Nothing)
    }
}

/// A key in the window of a change: the change is written or denied.
pub open spec fn on_diff_review(
    a: AppView,
    key: Key,
    path: Seq<char>,
    proposed: Seq<char>,
) -> (AppView, ActionView) {
    let call = ToolCallView::WriteFile { path, content: proposed };
    if key.denies() {
        (a, ActionView::Report { call, output: "Write denied by user."@, success: false })
    } else if key.confirms() {
        (
            a.with_status("Writing: "@ + path + "..."@),
            ActionView::RunTool {
                call,
                told: ToolCallView::WriteFile { path, content: Seq::empty() },
            },
        )
    } else {
        (a, ActionView::Nothing)
    }
}

// ---------------------------------------------------------------------------------------------
// Panels
// ---------------------------------------------------------------------------------------------

/// Control and a letter, in either case.
pub open spec fn control_letter(key: Key, lower: char, upper: char) -> bool {
    key.ctrl && (key.hits(lower) || key.hits(upper))
}

/// Whether the key scrolls the chat: it is an arrow, alone or with Control.
pub open spec fn scrolls(key: Key) -> bool {
    key.ctrl || key.plain()
}

/// A key in the chat panel.
pub open spec fn on_chat(a: AppView, key: Key, input: Seq<Seq<char>>) -> (AppView, ActionView) {
    let prompt = trim(joined(input, "\n"@));
    if key.code == KeyCode::Enter && key.plain() {
        (
            a,
            if prompt.len() == 0 || a.is_generating {
                ActionView::Nothing
            } else {
                ActionView::Submit(prompt)
            },
        )
    } else if key.code == KeyCode::Enter && key.shift {
        (a, ActionView::NewLine)
    } else if control_letter(key, 'v', 'V') {
        (a, ActionView::Paste)
    } else if control_letter(key, 'y', 'Y') {
        let blocks = match last_answer(a.messages, a.messages.len()) {
            Some(m) => offered(fenced(m.content)),
            None => Seq::empty(),
        };
        if blocks.len() == 0 {
            (
                a.with_status("No code blocks found in the last assistant response"@),
                ActionView::Nothing,
            )
        } else {
            (
                a.with_modal(
                    Some(
                        ModalView::CodeBlockYanker {
                            blocks,
                            selected_index: 0,
                            preview_scroll: 0,
                        },
                    ),
                ).with_status("Select a code block to copy"@),
                ActionView::Nothing,
            )
        }
    } else if key.code == KeyCode::Up && scrolls(key) {
        (AppView { scroll: (a.scroll + 1) as usize, ..a }, ActionView::Nothing)
    } else if key.code == KeyCode::Down && scrolls(key) {
        (AppView { scroll: one_less(a.scroll), ..a }, ActionView::Nothing)
    } else {
        (a, ActionView::Edit(key))
    }
}

/// A key in the memory panel, which shows `nodes`.
pub open spec fn on_graph(a: AppView, key: Key, nodes: Seq<MemoryNodeView>) -> (
    AppView,
    ActionView,
) {
    let i = a.selected_node_index;
    if key.code == KeyCode::Up {
        (AppView { selected_node_index: one_less(i), ..a }, ActionView::Nothing)
    } else if key.code == KeyCode::Down && nodes.len() > 0 {
        (AppView { selected_node_index: one_more(i, nodes.len() - 1), ..a }, ActionView::Nothing)
    } else if key.code == KeyCode::Enter && i < nodes.len() {
        let node = nodes[i as int];
        let is_session = node.kind == NodeKind::Session;
        (
            a,
            ActionView::OpenNode {
                folder: if is_session {
                    "sessions"@
                } else {
                    "concepts"@
                },
                node_id: node.id,
                label: node.label,
                is_session,
            },
        )
    } else {
        (a, ActionView::Nothing)
    }
}

/// What a key does: it goes to the window that is open, else to the panel in focus.
pub open spec fn on_key(
    a: AppView,
    key: Key,
    input: Seq<Seq<char>>,
    nodes: Seq<MemoryNodeView>,
) -> (AppView, ActionView) {
    match a.active_modal {
        Some(m) => match m {
            ModalView::SessionViewer { .. } => on_session_viewer(a, key, m),
            ModalView::ToolGatekeeper { call, .. } => on_tool_gatekeeper(a, key, call),
            ModalView::CodeGatekeeper { .. } => on_code_gatekeeper(a, key, m),
            ModalView::ConfigEditor { .. } => on_config_editor(a, key, m, input),
            ModalView::CodeBlockYanker { .. } => on_yanker(a, key, m),
            ModalView::WorkspacePanel { .. } => on_workspace(a, key, m),
            ModalView::GitStatusModal { .. } => on_git_status(a, key, m),
            ModalView::DiffReview { path, proposed_content, .. } => on_diff_review(
                a,
                key,
                path,
                proposed_content,
            ),
        },
        None => match a.focus {
            Focus::Chat => on_chat(a, key, input),
            Focus::Graph => on_graph(a, key, nodes),
        },
    }
}

/// Whether what the key counts up stays in range.
pub open spec fn in_range(a: AppView, key: Key) -> bool {
    match a.active_modal {
        Some(ModalView::SessionViewer { scroll, .. }) => key.code == KeyCode::Down ==> scroll
            < usize::MAX,
        Some(ModalView::ConfigEditor { active_field, is_editing, cfg_draft }) => key.code
            == KeyCode::Right && !is_editing ==> can_raise(cfg_draft, active_field as int),
        Some(ModalView::GitStatusModal { status, .. }) => key.code == KeyCode::Down
            ==> status.changes() <= usize::MAX,
        Some(_) => true,
        None => a.focus == Focus::Chat && key.code == KeyCode::Up ==> a.scroll < usize::MAX,
    }
}

// ---------------------------------------------------------------------------------------------
// The keys of each window, and of each panel
// ---------------------------------------------------------------------------------------------

impl Key {
    fn does_close(self) -> (r: bool)
        ensures
            r == self.closes(),
    {
        matches!(self.code, KeyCode::Esc) || self.is_char('q')
    }

    fn does_confirm(self) -> (r: bool)
        ensures
            r == self.confirms(),
    {
        matches!(self.code, KeyCode::Enter) || self.is_char('y')
    }

    fn does_deny(self) -> (r: bool)
        ensures
            r == self.denies(),
    {
        matches!(self.code, KeyCode::Esc) || self.is_char('n')
    }
}

fn status_running(call: &ToolCall) -> (r: String)
    ensures
        r@ == running(call@),
{
    match call {
        ToolCall::SearchFiles { query, file_pattern: _ } => {
            let mut s = String::from_str("Searching for: ");
            s.append(query.as_str());
            s.append("...");
            s
        },
        ToolCall::WebSearch { query } => {
            let mut s = String::from_str("Searching the web: ");
            s.append(query.as_str());
            s.append("...");
            s
        },
        ToolCall::ScrapeUrl { url } => {
            let mut s = String::from_str("Scraping URL: ");
            s.append(url.as_str());
            s.append("...");
            s
        },
        _ => String::from_str("Executing tool..."),
    }
}

fn or_empty(o: &Option<String>) -> (r: String)
    ensures
        r@ == match *o {
            Some(s) => s@,
            None => Seq::empty(),
        },
{
    match o {
        Some(s) => s.clone(),
        None => String::new(),
    }
}

fn text_of_field(c: &Config, field: usize) -> (r: String)
    ensures
        r@ == field_text(c@, field as int),
{
    match field {
        0 => c.model_path.clone(),
        1 => c.vault_path.clone(),
        2 => or_empty(&c.llama_server_path),
        7 => c.api_provider.clone(),
        8 => or_empty(&c.api_key),
        9 => or_empty(&c.api_model),
        _ => String::new(),
    }
}

fn unless_empty(val: String) -> (r: Option<String>)
    ensures
        option_view(r) == if val@.len() == 0 {
            None
        } else {
            Some(val@)
        },
{
    if val.as_str().is_empty() {
        None
    } else {
        Some(val)
    }
}

fn set_field_text(c: Config, field: usize, val: String) -> (r: Config)
    ensures
        r@ == with_field_text(c@, field as int, val@),
{
    let mut c = c;
    match field {
        0 => {
            c.model_path = val;
        },
        1 => {
            c.vault_path = val;
        },
        2 => {
            c.llama_server_path = unless_empty(val);
        },
        7 => {
            c.api_provider = val;
        },
        8 => {
            c.api_key = unless_empty(val);
        },
        9 => {
            c.api_model = unless_empty(val);
        },
        _ => {},
    }
    c
}

fn lower(c: Config, field: usize) -> (r: Config)
    ensures
        r@ == lowered(c@, field as int),
{
    let mut c = c;
    match field {
        3 => {
            c.gpu_layers = c.gpu_layers.saturating_sub(1);
        },
        4 => {
            c.ctx_size = c.ctx_size.saturating_sub(512);
        },
        5 => {
            c.port = c.port.saturating_sub(1);
        },
        6 => {
            c.summarize_on_exit = !c.summarize_on_exit;
        },
        _ => {},
    }
    c
}

fn raise(c: Config, field: usize) -> (r: Config)
    requires
        can_raise(c@, field as int),
    ensures
        r@ == raised(c@, field as int),
{
    let mut c = c;
    match field {
        3 => {
            c.gpu_layers = c.gpu_layers + 1;
        },
        4 => {
            c.ctx_size = c.ctx_size + 512;
        },
        5 => {
            c.port = c.port + 1;
        },
        6 => {
            c.summarize_on_exit = !c.summarize_on_exit;
        },
        _ => {},
    }
    c
}

fn is_pinned(pins: &Vec<String>, path: &str) -> (r: bool)
    ensures
        r == views(pins@).contains(path@),
{
    let ghost p = views(pins@);
    let mut i: usize = 0;
    while i < pins.len()
        invariant
            p == views(pins@),
            i <= pins@.len(),
            forall|k: int| 0 <= k < i ==> p[k] != path@,
        decreases pins@.len() - i,
    {
        assert(p[i as int] == pins@[i as int]@);
        if same(pins[i].as_str(), path) {
            return true;
        }
        i += 1;
    }
    false
}

fn unpin(pins: &Vec<String>, path: &str) -> (r: Vec<String>)
    ensures
        views(r@) == unpinned(views(pins@), path@),
{
    let ghost p = views(pins@);
    let mut out: Vec<String> = Vec::new();
    let mut i: usize = 0;
    assert(views(out@) =~= unpinned(p.take(0), path@));
    while i < pins.len()
        invariant
            p == views(pins@),
            i <= pins@.len(),
            views(out@) == unpinned(p.take(i as int), path@),
        decreases pins@.len() - i,
    {
        assert(p.take(i + 1).drop_last() =~= p.take(i as int));
        assert(p.take(i + 1).last() == pins@[i as int]@);
        if !same(pins[i].as_str(), path) {
            let pin = pins[i].clone();
            proof {
                lemma_views_push(out@, pin);
            }
            out.push(pin);
        }
        i += 1;
    }
    assert(p.take(pins@.len() as int) =~= p);
    out
}

impl App {
    fn ready(&mut self)
        ensures
            final(self)@ == old(self)@.with_status("Ready"@),
    {
        self.status = String::from_str("Ready");
    }

    fn key_in_session_viewer(
        &mut self,
        key: Key,
        title: String,
        content: String,
        scroll: usize,
        node_id: String,
        is_session: bool,
    ) -> (r: Action)
        requires
            old(self)@.active_modal is None,
            key.code == KeyCode::Down ==> scroll < usize::MAX,
        ensures
            ({
                let m = ModalView::SessionViewer {
                    title: title@,
                    content: content@,
                    scroll,
                    node_id: node_id@,
                    is_session,
                };
                (final(self)@, r@) == on_session_viewer(old(self)@.with_modal(Some(m)), key, m)
            }),
    {
        let mut scroll = scroll;
        if key.does_close() {
            self.ready();
            return Action::Nothing;
        } else if matches!(key.code, KeyCode::Up) {
            scroll = less(scroll);
        } else if matches!(key.code, KeyCode::Down) {
            scroll = scroll + 1;
        } else if key.is_char('r') && is_session {
            self.resume_session(node_id.as_str(), content.as_str());
            return Action::Nothing;
        }
        self.active_modal = Some(
            ModalState::SessionViewer { title, content, scroll, node_id, is_session },
        );
        Action::Nothing
    }

    fn key_in_tool_gatekeeper(
        &mut self,
        key: Key,
        call: ToolCall,
        pending_others: Vec<ToolCall>,
    ) -> (r: Action)
        requires
            old(self)@.active_modal is None,
        ensures
            ({
                let m = ModalView::ToolGatekeeper {
                    call: call@,
                    pending_others: call_views(pending_others@),
                };
                (final(self)@, r@) == on_tool_gatekeeper(
                    old(self)@.with_modal(Some(m)),
                    key,
                    call@,
                )
            }),
    {
        let action = if key.does_deny() {
            Action::Report {
                call: call.clone(),
                output: String::from_str("Execution denied by user."),
                success: false,
            }
        } else if key.does_confirm() {
            self.status = status_running(&call);
            match &call {
                ToolCall::WriteFile { path, content } => Action::PrepareWrite {
                    path: path.clone(),
                    content: content.clone(),
                },
                _ => Action::RunTool { call: call.clone(), told: call.clone() },
            }
        } else {
            Action::Nothing
        };
        self.active_modal = Some(ModalState::ToolGatekeeper { call, pending_others });
        action
    }

    fn key_in_code_gatekeeper(
        &mut self,
        key: Key,
        request: ExecutionRequest,
        pending_others: Vec<ExecutionRequest>,
    ) -> (r: Action)
        requires
            old(self)@.active_modal is None,
        ensures
            ({
                let m = ModalView::CodeGatekeeper {
                    request: request@,
                    pending_others: request_views(pending_others@),
                };
                (final(self)@, r@) == on_code_gatekeeper(old(self)@.with_modal(Some(m)), key, m)
            }),
    {
        if key.does_deny() {
            self.ready();
            return Action::Nothing;
        }
        let action = if key.does_confirm() {
            Action::RunCode(request.clone())
        } else {
            Action::Nothing
        };
        self.active_modal = Some(ModalState::CodeGatekeeper { request, pending_others });
        action
    }

    fn key_in_config_editor(
        &mut self,
        key: Key,
        active_field: usize,
        is_editing: bool,
        cfg_draft: Config,
        input: &Vec<String>,
    ) -> (r: Action)
        requires
            old(self)@.active_modal is None,
            key.code == KeyCode::Right && !is_editing ==> can_raise(
                cfg_draft@,
                active_field as int,
            ),
        ensures
            ({
                let m = ModalView::ConfigEditor { active_field, is_editing, cfg_draft: cfg_draft@ };
                (final(self)@, r@) == on_config_editor(
                    old(self)@.with_modal(Some(m)),
                    key,
                    m,
                    views(input@),
                )
            }),
    {
        let mut active_field = active_field;
        let mut is_editing = is_editing;
        let mut cfg_draft = cfg_draft;
        let mut action = Action::Nothing;
        if is_editing {
            match key.code {
                KeyCode::Esc => {
                    is_editing = false;
                },
                KeyCode::Enter => {
                    let val = join(input, "");
                    cfg_draft = set_field_text(cfg_draft, active_field, val);
                    is_editing = false;
                    action = Action::SetInput(String::new());
                },
                _ => {
                    action = Action::Edit(key);
                },
            }
        } else if key.does_close() {
            return Action::Nothing;
        } else {
            match key.code {
                KeyCode::Up => {
                    active_field = less(active_field);
                },
                KeyCode::Down => {
                    active_field = more(active_field, 9);
                },
                KeyCode::Left => {
                    cfg_draft = lower(cfg_draft, active_field);
                },
                KeyCode::Right => {
                    cfg_draft = raise(cfg_draft, active_field);
                },
                KeyCode::Enter => {
                    if active_field <= 2 || (active_field >= 7 && active_field <= 9) {
                        is_editing = true;
                        action = Action::SetInput(text_of_field(&cfg_draft, active_field));
                    }
                },
                _ => {
                    if key.is_char('s') && key.ctrl {
                        action = Action::SaveConfig(cfg_draft.clone());
                    }
                },
            }
        }
        self.active_modal = Some(ModalState::ConfigEditor { active_field, is_editing, cfg_draft });
        action
    }

    fn key_in_yanker(
        &mut self,
        key: Key,
        blocks: Vec<(String, String)>,
        selected_index: usize,
        preview_scroll: usize,
    ) -> (r: Action)
        requires
            old(self)@.active_modal is None,
        ensures
            ({
                let m = ModalView::CodeBlockYanker {
                    blocks: pair_views(blocks@),
                    selected_index,
                    preview_scroll,
                };
                (final(self)@, r@) == on_yanker(old(self)@.with_modal(Some(m)), key, m)
            }),
    {
        let mut selected_index = selected_index;
        let mut preview_scroll = preview_scroll;
        assert(pair_views(blocks@).len() == blocks@.len());
        match key.code {
            KeyCode::Esc => {
                self.ready();
                return Action::Nothing;
            },
            KeyCode::Up => {
                if blocks.len() > 0 {
                    selected_index = less(selected_index);
                    preview_scroll = 0;
                }
            },
            KeyCode::Down => {
                if blocks.len() > 0 {
                    selected_index = more(selected_index, blocks.len() - 1);
                    preview_scroll = 0;
                }
            },
            KeyCode::PageUp => {
                preview_scroll = preview_scroll.saturating_sub(5);
            },
            KeyCode::PageDown => {
                preview_scroll = preview_scroll.saturating_add(5);
            },
            _ => {
                if key.ctrl && (key.is_char('C') || (key.is_char('c') && key.shift)) {
                    if selected_index < blocks.len() {
                        assert(pair_views(blocks@)[selected_index as int] == (
                            blocks@[selected_index as int].0@,
                            blocks@[selected_index as int].1@,
                        ));
                        return Action::Copy {
                            lang: blocks[selected_index].0.clone(),
                            code: blocks[selected_index].1.clone(),
                        };
                    }
                    return Action::Nothing;
                }
            },
        }
        self.active_modal = Some(
            ModalState::CodeBlockYanker { blocks, selected_index, preview_scroll },
        );
        Action::Nothing
    }

    fn toggle_pin(&mut self, path: &str)
        ensures
            final(self)@ == pin_toggled(old(self)@, path@),
    {
        let mut status = String::new();
        if is_pinned(&self.pinned_files, path) {
            self.pinned_files = unpin(&self.pinned_files, path);
            status.append("Unpinned ");
        } else {
            let pin = String::from_str(path);
            proof {
                lemma_views_push(self.pinned_files@, pin);
            }
            self.pinned_files.push(pin);
            status.append("Pinned ");
        }
        status.append(path);
        self.status = status;
        assert(self@ =~= pin_toggled(old(self)@, path@));
    }

    fn key_in_workspace(
        &mut self,
        key: Key,
        files: Vec<WorkspaceFile>,
        selected_index: usize,
        scroll: usize,
    ) -> (r: Action)
        requires
            old(self)@.active_modal is None,
        ensures
            ({
                let m = ModalView::WorkspacePanel {
                    files: file_views(files@),
                    selected_index,
                    scroll,
                };
                (final(self)@, r@) == on_workspace(old(self)@.with_modal(Some(m)), key, m)
            }),
    {
        let ghost f = file_views(files@);
        assert(f.len() == files@.len());
        assert(selected_index < f.len() ==> f[selected_index as int]
            == files@[selected_index as int]@);
        let mut selected_index = selected_index;
        let on_file = selected_index < files.len() && !files[selected_index].is_dir;
        let mut action = Action::Nothing;
        if key.does_close() {
            self.ready();
            return Action::Nothing;
        }
        match key.code {
            KeyCode::Up => {
                selected_index = less(selected_index);
            },
            KeyCode::Down => {
                if files.len() > 0 {
                    selected_index = more(selected_index, files.len() - 1);
                }
            },
            KeyCode::Char('r') => {
                action = Action::RescanWorkspace;
            },
            KeyCode::Char('p') => {
                if on_file {
                    let path = files[selected_index].relative_path.clone();
                    self.toggle_pin(path.as_str());
                }
            },
            KeyCode::Enter => {
                if on_file {
                    let path = files[selected_index].relative_path.clone();
                    let is_session = starts_with(path.as_str(), "sessions");
                    if is_session || starts_with(path.as_str(), "concepts") {
                        action = Action::OpenFile { path, is_session };
                    } else {
                        let none: Vec<ToolCall> = Vec::new();
                        assert(call_views(none@) =~= Seq::<ToolCallView>::empty());
                        self.active_modal = Some(
                            ModalState::ToolGatekeeper {
                                call: ToolCall::ReadFile { path },
                                pending_others: none,
                            },
                        );
                        return Action::Nothing;
                    }
                }
            },
            _ => {},
        }
        self.active_modal = Some(ModalState::WorkspacePanel { files, selected_index, scroll });
        action
    }

    fn key_in_git_status(
        &mut self,
        key: Key,
        status: GitStatus,
        selected_index: usize,
        scroll: usize,
    ) -> (r: Action)
        requires
            old(self)@.active_modal is None,
            key.code == KeyCode::Down ==> status@.changes() <= usize::MAX,
        ensures
            ({
                let m = ModalView::GitStatusModal { status: status@, selected_index, scroll };
                (final(self)@, r@) == on_git_status(old(self)@.with_modal(Some(m)), key, m)
            }),
    {
        let mut selected_index = selected_index;
        if key.does_close() {
            self.ready();
            return Action::Nothing;
        }
        match key.code {
            KeyCode::Up => {
                selected_index = less(selected_index);
            },
            KeyCode::Down => {
                let last: usize = status.modified_files.len() + status.untracked_files.len();
                selected_index = more(selected_index, last);
            },
            _ => {},
        }
        self.active_modal = Some(ModalState::GitStatusModal { status, selected_index, scroll });
        Action::Nothing
    }

    fn key_in_diff_review(
        &mut self,
        key: Key,
        path: String,
        diff: String,
        proposed_content: String,
    ) -> (r: Action)
        requires
            old(self)@.active_modal is None,
        ensures
            ({
                let m = ModalView::DiffReview {
                    path: path@,
                    diff: diff@,
                    proposed_content: proposed_content@,
                };
                (final(self)@, r@) == on_diff_review(
                    old(self)@.with_modal(Some(m)),
                    key,
                    path@,
                    proposed_content@,
                )
            }),
    {
        let action = if key.does_deny() {
            Action::Report {
                call: ToolCall::WriteFile {
                    path: path.clone(),
                    content: proposed_content.clone(),
                },
                output: String::from_str("Write denied by user."),
                success: false,
            }
        } else if key.does_confirm() {
            let mut status = String::from_str("Writing: ");
            status.append(path.as_str());
            status.append("...");
            self.status = status;
            Action::RunTool {
                call: ToolCall::WriteFile {
                    path: path.clone(),
                    content: proposed_content.clone(),
                },
                told: ToolCall::WriteFile { path: path.clone(), content: String::new() },
            }
        } else {
            Action::Nothing
        };
        self.active_modal = Some(ModalState::DiffReview { path, diff, proposed_content });
        action
    }

    fn key_in_chat(&mut self, key: Key, input: &Vec<String>) -> (r: Action)
        requires
            key.code == KeyCode::Up ==> old(self)@.scroll < usize::MAX,
        ensures
            (final(self)@, r@) == on_chat(old(self)@, key, views(input@)),
    {
        if matches!(key.code, KeyCode::Enter) && key.is_plain() {
            match self.prompt_to_send(input) {
                Some(p) => Action::Submit(p),
                None => Action::Nothing,
            }
        } else if matches!(key.code, KeyCode::Enter) && key.shift {
            Action::NewLine
        } else if key.ctrl && (key.is_char('v') || key.is_char('V')) {
            Action::Paste
        } else if key.ctrl && (key.is_char('y') || key.is_char('Y')) {
            let blocks = self.extract_code_blocks();
            assert(pair_views(blocks@).len() == blocks@.len());
            if blocks.len() == 0 {
                self.status = String::from_str(
                    "No code blocks found in the last assistant response",
                );
            } else {
                self.active_modal = Some(
                    ModalState::CodeBlockYanker { blocks, selected_index: 0, preview_scroll: 0 },
                );
                self.status = String::from_str("Select a code block to copy");
            }
            Action::Nothing
        } else if matches!(key.code, KeyCode::Up) && (key.ctrl || key.is_plain()) {
            self.scroll = self.scroll + 1;
            Action::Nothing
        } else if matches!(key.code, KeyCode::Down) && (key.ctrl || key.is_plain()) {
            self.scroll = less(self.scroll);
            Action::Nothing
        } else {
            Action::Edit(key)
        }
    }

    fn key_in_graph(&mut self, key: Key, nodes: &Vec<MemoryNode>) -> (r: Action)
        ensures
            (final(self)@, r@) == on_graph(old(self)@, key, node_views(nodes@)),
    {
        let ghost n = node_views(nodes@);
        assert(n.len() == nodes@.len());
        let i = self.selected_node_index;
        match key.code {
            KeyCode::Up => {
                self.selected_node_index = less(i);
                Action::Nothing
            },
            KeyCode::Down => {
                if nodes.len() > 0 {
                    self.selected_node_index = more(i, nodes.len() - 1);
                }
                Action::Nothing
            },
            KeyCode::Enter => {
                if i < nodes.len() {
                    assert(n[i as int] == nodes@[i as int]@);
                    let is_session = matches!(nodes[i].kind, NodeKind::Session);
                    Action::OpenNode {
                        folder: if is_session {
                            "sessions"
                        } else {
                            "concepts"
                        },
                        node_id: nodes[i].id.clone(),
                        label: nodes[i].label.clone(),
                        is_session,
                    }
                } else {
                    Action::Nothing
                }
            },
            _ => Action::Nothing,
        }
    }

    /// Decides `in_range`.
    pub fn accepts(&self, key: Key) -> (r: bool)
        ensures
            r == in_range(self@, key),
    {
        match &self.active_modal {
            Some(
                ModalState::SessionViewer {
                    title: _,
                    content: _,
                    scroll,
                    node_id: _,
                    is_session: _,
                },
            ) => {
                !matches!(key.code, KeyCode::Down) || *scroll < usize::MAX
            },
            Some(ModalState::ConfigEditor { active_field, is_editing, cfg_draft }) => {
                !matches!(key.code, KeyCode::Right) || *is_editing || match *active_field {
                    3 => cfg_draft.gpu_layers < u32::MAX,
                    4 => cfg_draft.ctx_size <= usize::MAX - 512,
                    5 => cfg_draft.port < u16::MAX,
                    _ => true,
                }
            },
            Some(ModalState::GitStatusModal { status, selected_index: _, scroll: _ }) => {
                !matches!(key.code, KeyCode::Down) || status.modified_files.len() <= usize::MAX
                    - status.untracked_files.len()
            },
            Some(_) => true,
            None => !matches!(self.focus, Focus::Chat) || !matches!(key.code, KeyCode::Up)
                || self.scroll < usize::MAX,
        }
    }

    /// Takes a key. `input` holds the lines of the input box, and `nodes` the notes that the
    /// memory panel shows.
    pub fn handle_key(&mut self, key: Key, input: &Vec<String>, nodes: &Vec<MemoryNode>) -> (r:
        Action)
        requires
            in_range(old(self)@, key),
        ensures
            (final(self)@, r@) == on_key(old(self)@, key, views(input@), node_views(nodes@)),
    {
        match self.active_modal.take() {
            Some(m) => {
                assert(self@.with_modal(Some(m@)) =~= old(self)@);
                match m {
                    ModalState::SessionViewer { title, content, scroll, node_id, is_session } => {
                        self.key_in_session_viewer(
                            key,
                            title,
                            content,
                            scroll,
                            node_id,
                            is_session,
                        )
                    },
                    ModalState::ToolGatekeeper { call, pending_others } => {
                        self.key_in_tool_gatekeeper(key, call, pending_others)
                    },
                    ModalState::CodeGatekeeper { request, pending_others } => {
                        self.key_in_code_gatekeeper(key, request, pending_others)
                    },
                    ModalState::ConfigEditor { active_field, is_editing, cfg_draft } => {
                        self.key_in_config_editor(key, active_field, is_editing, cfg_draft, input)
                    },
                    ModalState::CodeBlockYanker { blocks, selected_index, preview_scroll } => {
                        self.key_in_yanker(key, blocks, selected_index, preview_scroll)
                    },
                    ModalState::WorkspacePanel { files, selected_index, scroll } => {
                        self.key_in_workspace(key, files, selected_index, scroll)
                    },
                    ModalState::GitStatusModal { status, selected_index, scroll } => {
                        self.key_in_git_status(key, status, selected_index, scroll)
                    },
                    ModalState::DiffReview { path, diff, proposed_content } => {
                        self.key_in_diff_review(key, path, diff, proposed_content)
                    },
                }
            },
            None => {
                assert(self@ =~= old(self)@);
                match self.focus {
                    Focus::Chat => self.key_in_chat(key, input),
                    Focus::Graph => self.key_in_graph(key, nodes),
                }
            },
        }
    }
}

} // verus!
