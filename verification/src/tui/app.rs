//! The state of the program, and how it changes.
use crate::agent::blocks::{fenced, fenced_blocks, fenced_views, Fenced, FencedView};
use crate::agent::workspace::{file_views, GitStatus, WorkspaceFile};
use crate::backend::protocol::{
    message, message_views, push_message, spoken, spoken_messages, ChatMessage, ChatMessageView,
};
use crate::config::{Config, ConfigView};
use crate::memory::{node_views, MemoryNode, MemoryNodeView};
use crate::outside::{count_tokens, tokens_in};
use crate::text::{
    begins, decimal, decimal_of, join, joined, lines, lines_of, option_view, same, starts_with,
    terminated, trim, trimmed, views,
};
use crate::tui::action::MouseKind;
use crate::tui::modal::{modal_view, pair_views, ModalState, ModalView};
use crate::tui::mode::{AgentRole, AppMode, Focus};
use crate::tui::transcript::{read_transcript, turns};
use vstd::prelude::*;
use vstd::string::*;

verus! {

/// The state of the program. The text in the input box, the notes and the connection to the model
/// are kept outside, and handed in where they are needed.
pub struct App {
    pub cfg: Config,
    pub messages: Vec<ChatMessage>,
    pub focus: Focus,
    pub is_generating: bool,
    pub current_response: String,
    pub status: String,
    pub should_quit: bool,
    pub mode: AppMode,
    pub scroll: usize,
    pub graph_scroll: usize,
    pub selected_node_index: usize,
    pub active_modal: Option<ModalState>,
    /// Whether messages of the model are still taken.
    pub listening: bool,
    pub rate_rpm: u32,
    pub rate_remaining: u32,
    pub rate_max: u32,
    pub agent_iteration_count: usize,
    pub token_count: usize,
    /// The files that go with every request, each once, in the order in which they were pinned.
    pub pinned_files: Vec<String>,
    pub role: AgentRole,
}

/// The contents of an `App`.
#[verifier::ext_equal]
pub struct AppView {
    pub cfg: ConfigView,
    pub messages: Seq<ChatMessageView>,
    pub focus: Focus,
    pub is_generating: bool,
    pub current_response: Seq<char>,
    pub status: Seq<char>,
    pub should_quit: bool,
    pub mode: AppMode,
    pub scroll: usize,
    pub graph_scroll: usize,
    pub selected_node_index: usize,
    pub active_modal: Option<ModalView>,
    pub listening: bool,
    pub rate_rpm: u32,
    pub rate_remaining: u32,
    pub rate_max: u32,
    pub agent_iteration_count: usize,
    pub token_count: usize,
    pub pinned_files: Seq<Seq<char>>,
    pub role: AgentRole,
}

impl View for App {
    type V = AppView;

    open spec fn view(&self) -> AppView {
        AppView {
            cfg: self.cfg@,
            messages: message_views(self.messages@),
            focus: self.focus,
            is_generating: self.is_generating,
            current_response: self.current_response@,
            status: self.status@,
            should_quit: self.should_quit,
            mode: self.mode,
            scroll: self.scroll,
            graph_scroll: self.graph_scroll,
            selected_node_index: self.selected_node_index,
            active_modal: modal_view(self.active_modal),
            listening: self.listening,
            rate_rpm: self.rate_rpm,
            rate_remaining: self.rate_remaining,
            rate_max: self.rate_max,
            agent_iteration_count: self.agent_iteration_count,
            token_count: self.token_count,
            pinned_files: views(self.pinned_files@),
            role: self.role,
        }
    }
}

// ---------------------------------------------------------------------------------------------
// Messages
// ---------------------------------------------------------------------------------------------

/// The first message at or after `from` that instructs the model, or the number of messages.
pub open spec fn system_from(m: Seq<ChatMessageView>, from: nat) -> nat
    decreases m.len() - from,
{
    if from >= m.len() {
        m.len()
    } else if m[from as int].is_system() {
        from
    } else {
        system_from(m, from + 1)
    }
}

/// The first message that instructs the model, alone, or nothing.
pub open spec fn first_system(m: Seq<ChatMessageView>) -> Seq<ChatMessageView> {
    let i = system_from(m, 0);
    if i < m.len() {
        seq![m[i as int]]
    } else {
        Seq::empty()
    }
}

/// Whether a message holds what was looked up in the notes for an earlier prompt.
pub open spec fn is_recalled(m: ChatMessageView) -> bool {
    m.is_system() && begins(m.content, "Relevant knowledge from your vault:"@)
}

/// The messages without what was looked up in the notes.
pub open spec fn without_recalled(m: Seq<ChatMessageView>) -> Seq<ChatMessageView>
    decreases m.len(),
{
    if m.len() == 0 {
        Seq::empty()
    } else if is_recalled(m.last()) {
        without_recalled(m.drop_last())
    } else {
        without_recalled(m.drop_last()).push(m.last())
    }
}

/// The texts of messages.
pub open spec fn contents(m: Seq<ChatMessageView>) -> Seq<Seq<char>> {
    m.map_values(|x: ChatMessageView| x.content)
}

/// The last message of the assistant at a position before `n`.
pub open spec fn last_answer(m: Seq<ChatMessageView>, n: nat) -> Option<ChatMessageView>
    decreases n,
{
    if n == 0 || n > m.len() {
        None
    } else if m[n - 1].role == "assistant"@ {
        Some(m[n - 1])
    } else {
        last_answer(m, (n - 1) as nat)
    }
}

fn find_system(messages: &Vec<ChatMessage>) -> (r: usize)
    ensures
        r == system_from(message_views(messages@), 0),
        r <= messages@.len(),
{
    let mut i: usize = 0;
    while i < messages.len() && !same(messages[i].role.as_str(), "system")
        invariant
            i <= messages@.len(),
            system_from(message_views(messages@), 0) == system_from(
                message_views(messages@),
                i as nat,
            ),
        decreases messages@.len() - i,
    {
        assert(message_views(messages@)[i as int] == messages@[i as int]@);
        i += 1;
    }
    assert(i < messages@.len() ==> message_views(messages@)[i as int] == messages@[i as int]@);
    i
}

fn drop_recalled(messages: &Vec<ChatMessage>) -> (r: Vec<ChatMessage>)
    ensures
        message_views(r@) == without_recalled(message_views(messages@)),
{
    let ghost m = message_views(messages@);
    let mut out: Vec<ChatMessage> = Vec::new();
    let mut i: usize = 0;
    assert(message_views(out@) =~= without_recalled(m.take(0)));
    while i < messages.len()
        invariant
            m == message_views(messages@),
            i <= messages@.len(),
            message_views(out@) == without_recalled(m.take(i as int)),
        decreases messages@.len() - i,
    {
        assert(m.take(i + 1).drop_last() =~= m.take(i as int));
        assert(m.take(i + 1).last() == messages@[i as int]@);
        if !(same(messages[i].role.as_str(), "system") && starts_with(
            messages[i].content.as_str(),
            "Relevant knowledge from your vault:",
        )) {
            let copy = messages[i].clone();
            push_message(&mut out, copy);
        }
        i += 1;
    }
    assert(m.take(messages@.len() as int) =~= m);
    out
}

// ---------------------------------------------------------------------------------------------
// The start
// ---------------------------------------------------------------------------------------------

/// The lines about notes: the label of each, and those it links to.
pub open spec fn context_lines(n: Seq<MemoryNodeView>) -> Seq<char>
    decreases n.len(),
{
    if n.len() == 0 {
        Seq::empty()
    } else {
        context_lines(n.drop_last()) + ("- ["@ + n.last().label + "] connected to: "@ + joined(
            n.last().connections,
            ", "@,
        ) + "\n"@)
    }
}

/// What a model is told of earlier conversations; nothing where there are no notes.
pub open spec fn context(n: Seq<MemoryNodeView>) -> Seq<char> {
    if n.len() == 0 {
        Seq::empty()
    } else {
        "You have the following memory from previous conversations:\n\n"@ + context_lines(n)
            + "\nUse this context where relevant."@
    }
}

/// What a model is told of earlier conversations.
pub fn build_context(nodes: &Vec<MemoryNode>) -> (r: String)
    ensures
        r@ == context(node_views(nodes@)),
{
    if nodes.len() == 0 {
        return String::new();
    }
    let ghost n = node_views(nodes@);
    let mut ctx = String::from_str("You have the following memory from previous conversations:\n\n");
    let ghost head = ctx@;
    let mut i: usize = 0;
    assert(head + context_lines(n.take(0)) =~= head);
    while i < nodes.len()
        invariant
            n == node_views(nodes@),
            i <= nodes@.len(),
            ctx@ == head + context_lines(n.take(i as int)),
        decreases nodes@.len() - i,
    {
        let ghost before = ctx@;
        assert(n.take(i + 1).drop_last() =~= n.take(i as int));
        assert(n.take(i + 1).last() == nodes@[i as int]@);
        ctx.append("- [");
        ctx.append(nodes[i].label.as_str());
        ctx.append("] connected to: ");
        let links = join(&nodes[i].connections, ", ");
        ctx.append(links.as_str());
        ctx.append("\n");
        assert(ctx@ =~= before + ("- ["@ + nodes@[i as int].label@ + "] connected to: "@ + links@
            + "\n"@));
        assert(ctx@ =~= head + context_lines(n.take(i + 1)));
        i += 1;
    }
    assert(n.take(nodes@.len() as int) =~= n);
    ctx.append("\nUse this context where relevant.");
    ctx
}

/// The state at the start: the instructions for the model, and what the notes say if anything.
pub open spec fn start(cfg: ConfigView, prompt: Seq<char>, nodes: Seq<MemoryNodeView>) -> AppView {
    AppView {
        cfg,
        messages: if context(nodes).len() == 0 {
            seq![message("system"@, prompt)]
        } else {
            seq![message("system"@, prompt), message("system"@, context(nodes))]
        },
        focus: Focus::Chat,
        is_generating: false,
        current_response: Seq::empty(),
        status: "Ready"@,
        should_quit: false,
        mode: AppMode::High,
        scroll: 0,
        graph_scroll: 0,
        selected_node_index: 0,
        active_modal: None,
        listening: false,
        rate_rpm: 0,
        rate_remaining: 40,
        rate_max: 40,
        agent_iteration_count: 0,
        token_count: 0,
        pinned_files: Seq::empty(),
        role: AgentRole::Chat,
    }
}

// ---------------------------------------------------------------------------------------------
// Steps
// ---------------------------------------------------------------------------------------------

/// The code blocks that are offered for copying: those without a language count as text.
pub open spec fn offered(b: Seq<FencedView>) -> Seq<(Seq<char>, Seq<char>)> {
    b.map_values(
        |x: FencedView|
            (
                if x.info.len() == 0 {
                    "Text"@
                } else {
                    x.info
                },
                x.code,
            ),
    )
}

/// What a model is told of the pinned files: those that could be read, the last one first.
pub open spec fn pinned_messages(
    paths: Seq<Seq<char>>,
    contents: Seq<Option<Seq<char>>>,
) -> Seq<ChatMessageView>
    decreases contents.len(),
{
    if contents.len() == 0 || contents.len() > paths.len() {
        Seq::empty()
    } else {
        let rest = pinned_messages(paths, contents.drop_last());
        match contents.last() {
            Some(c) => seq![
                message(
                    "system"@,
                    "[PINNED FILE: "@ + paths[contents.len() - 1] + "]\n\n"@ + c,
                ),
            ] + rest,
            None => rest,
        }
    }
}

/// The contents of a list of optional strings.
pub open spec fn option_views(c: Seq<Option<String>>) -> Seq<Option<Seq<char>>> {
    c.map_values(|x: Option<String>| option_view(x))
}

impl AppView {
    /// The state after a message has been added.
    pub open spec fn with_message(self, m: ChatMessageView) -> AppView {
        AppView { messages: self.messages.push(m), ..self }
    }

    /// The state with another status line.
    pub open spec fn with_status(self, status: Seq<char>) -> AppView {
        AppView { status, ..self }
    }

    /// The state with another window, or none.
    pub open spec fn with_modal(self, modal: Option<ModalView>) -> AppView {
        AppView { active_modal: modal, ..self }
    }

    /// The state while an answer is awaited.
    pub open spec fn generating(self) -> AppView {
        AppView {
            is_generating: true,
            current_response: Seq::empty(),
            status: "Generating..."@,
            listening: true,
            ..self
        }
    }

    /// The state once an answer is complete.
    pub open spec fn answered(self) -> AppView {
        AppView {
            current_response: Seq::empty(),
            is_generating: false,
            status: "Ready"@,
            listening: false,
            ..self
        }
    }

    /// The state after a session has been taken up again: its messages follow the first
    /// instruction. A note without messages changes nothing but the status.
    pub open spec fn resumed(self, node_id: Seq<char>, content: Seq<char>) -> AppView {
        if turns(content).len() > 0 {
            AppView {
                messages: first_system(self.messages) + turns(content),
                focus: Focus::Chat,
                scroll: 0,
                status: "Resumed session "@ + node_id,
                ..self
            }
        } else {
            self.with_status("Failed to parse transcript messages"@)
        }
    }

    /// The state after a prompt has been sent: what the notes say of it takes the place of what
    /// they said of earlier ones.
    pub open spec fn submitted(
        self,
        content: Seq<char>,
        recalled: Seq<char>,
        images: Seq<Seq<char>>,
    ) -> AppView {
        let base = if recalled.len() > 0 {
            without_recalled(self.messages).push(message("system"@, recalled))
        } else {
            self.messages
        };
        AppView {
            messages: base.push(
                ChatMessageView {
                    role: "user"@,
                    content,
                    images: if images.len() == 0 {
                        None
                    } else {
                        Some(images)
                    },
                },
            ),
            agent_iteration_count: 0,
            ..self
        }.counted()
    }

    /// The text whose tokens are counted: all messages, a line each, and the answer so far.
    pub open spec fn counted_text(self) -> Seq<char> {
        terminated(contents(self.messages)) + self.current_response
    }

    /// The state after the tokens have been counted.
    pub open spec fn counted(self) -> AppView {
        match tokens_in(self.counted_text()) {
            Some(n) => AppView { token_count: n as usize, ..self },
            None => self,
        }
    }
}

impl App {
    /// The state at the start.
    pub fn new(cfg: Config, prompt: String, nodes: &Vec<MemoryNode>) -> (r: App)
        ensures
            r@ == start(cfg@, prompt@, node_views(nodes@)),
    {
        let mut messages: Vec<ChatMessage> = Vec::new();
        push_message(&mut messages, ChatMessage::new("system", prompt));
        let context = build_context(nodes);
        if !context.as_str().is_empty() {
            push_message(&mut messages, ChatMessage::new("system", context));
        }
        let app = App {
            cfg,
            messages,
            focus: Focus::Chat,
            is_generating: false,
            current_response: String::new(),
            status: String::from_str("Ready"),
            should_quit: false,
            mode: AppMode::High,
            scroll: 0,
            graph_scroll: 0,
            selected_node_index: 0,
            active_modal: None,
            listening: false,
            rate_rpm: 0,
            rate_remaining: 40,
            rate_max: 40,
            agent_iteration_count: 0,
            token_count: 0,
            pinned_files: Vec::new(),
            role: AgentRole::Chat,
        };
        assert(app@ =~= start(cfg@, prompt@, node_views(nodes@)));
        app
    }

    /// Gives the keys to the other panel.
    pub fn toggle_focus(&mut self)
        ensures
            final(self)@ == (AppView { focus: old(self)@.focus.other(), ..old(self)@ }),
    {
        self.focus = match self.focus {
            Focus::Chat => Focus::Graph,
            Focus::Graph => Focus::Chat,
        };
    }

    /// Goes on to the next mode.
    pub fn cycle_mode(&mut self)
        ensures
            final(self)@ == (AppView { mode: old(self)@.mode.next(), ..old(self)@ }),
    {
        self.mode = self.mode.cycle();
    }

    /// Goes on to the next role, whose instructions take the place of the first ones.
    pub fn cycle_role(&mut self, prompt: String)
        ensures
            final(self)@ == ({
                let a = old(self)@;
                let i = system_from(a.messages, 0);
                AppView {
                    role: a.role.next(),
                    status: "Agent role: "@ + trim(a.role.next().name()),
                    messages: if i < a.messages.len() {
                        a.messages.update(
                            i as int,
                            ChatMessageView { content: prompt@, ..a.messages[i as int] },
                        )
                    } else {
                        a.messages
                    },
                    ..a
                }
            }),
    {
        self.role = self.role.cycle();
        let mut status = String::from_str("Agent role: ");
        let name = trimmed(self.role.label());
        status.append(name.as_str());
        self.status = status;
        let i = find_system(&self.messages);
        if i < self.messages.len() {
            let mut m = self.messages[i].clone();
            m.content = prompt;
            let ghost before = message_views(self.messages@);
            self.messages.set(i, m);
            assert(message_views(self.messages@) =~= before.update(i as int, m@));
        }
    }

    /// Takes over what the rate limiter says.
    pub fn update_rate_info(&mut self, rpm: u32, remaining: u32, max: u32)
        ensures
            final(self)@ == (AppView {
                rate_rpm: rpm,
                rate_remaining: remaining,
                rate_max: max,
                ..old(self)@
            }),
    {
        self.rate_rpm = rpm;
        self.rate_remaining = remaining;
        self.rate_max = max;
    }

    /// Opens the list of the files of the workspace.
    pub fn open_workspace_panel(&mut self, scan: Result<Vec<WorkspaceFile>, String>)
        ensures
            final(self)@ == match scan {
                Ok(files) => AppView {
                    active_modal: Some(
                        ModalView::WorkspacePanel {
                            files: file_views(files@),
                            selected_index: 0,
                            scroll: 0,
                        },
                    ),
                    status: "Workspace: Up/Down, Enter to read, R to refresh, Esc to close"@,
                    ..old(self)@
                },
                Err(e) => old(self)@.with_status("Failed to scan workspace: "@ + e@),
            },
    {
        match scan {
            Ok(files) => {
                self.active_modal = Some(
                    ModalState::WorkspacePanel { files, selected_index: 0, scroll: 0 },
                );
                self.status = String::from_str(
                    "Workspace: Up/Down, Enter to read, R to refresh, Esc to close",
                );
            },
            Err(e) => {
                let mut status = String::from_str("Failed to scan workspace: ");
                status.append(e.as_str());
                self.status = status;
            },
        }
    }

    /// Opens the state of the repository.
    pub fn open_git_status(&mut self, found: Option<GitStatus>)
        requires
            found matches Some(s) ==> s@.changes() <= u64::MAX,
        ensures
            final(self)@ == match found {
                Some(s) => AppView {
                    active_modal: Some(
                        ModalView::GitStatusModal { status: s@, selected_index: 0, scroll: 0 },
                    ),
                    status: "Git status ("@ + decimal(s@.changes())
                        + " changes). Up/Down, Esc to close"@,
                    ..old(self)@
                },
                None => old(self)@.with_status("Not a git repository or git not available"@),
            },
    {
        match found {
            Some(s) => {
                let total: u64 = s.modified_files.len() as u64 + s.untracked_files.len() as u64;
                let mut status = String::from_str("Git status (");
                let count = decimal_of(total);
                status.append(count.as_str());
                status.append(" changes). Up/Down, Esc to close");
                self.active_modal = Some(
                    ModalState::GitStatusModal { status: s, selected_index: 0, scroll: 0 },
                );
                self.status = status;
            },
            None => {
                self.status = String::from_str("Not a git repository or git not available");
            },
        }
    }

    /// The lines that go into the input box when a text is pasted.
    pub fn handle_paste(&self, text: &str) -> (r: Vec<String>)
        ensures
            views(r@) == if self@.focus == Focus::Chat {
                lines(text@)
            } else {
                Seq::empty()
            },
    {
        match self.focus {
            Focus::Chat => lines_of(text),
            Focus::Graph => {
                let none: Vec<String> = Vec::new();
                assert(views(none@) =~= Seq::empty());
                none
            },
        }
    }

    /// Scrolls the panel in focus by three lines.
    pub fn handle_mouse(&mut self, kind: MouseKind)
        requires
            kind == MouseKind::ScrollUp && old(self)@.focus == Focus::Chat ==> old(self)@.scroll
                <= usize::MAX - 3,
            kind == MouseKind::ScrollUp && old(self)@.focus == Focus::Graph ==> old(
                self,
            )@.graph_scroll <= usize::MAX - 3,
        ensures
            final(self)@ == ({
                let a = old(self)@;
                let moved = |n: usize|
                    match kind {
                        MouseKind::ScrollUp => (n + 3) as usize,
                        MouseKind::ScrollDown => if n < 3 {
                            0
                        } else {
                            (n - 3) as usize
                        },
                        MouseKind::Other => n,
                    };
                match a.focus {
                    Focus::Chat => AppView { scroll: moved(a.scroll), ..a },
                    Focus::Graph => AppView { graph_scroll: moved(a.graph_scroll), ..a },
                }
            }),
    {
        match kind {
            MouseKind::ScrollUp => match self.focus {
                Focus::Chat => {
                    self.scroll = self.scroll + 3;
                },
                Focus::Graph => {
                    self.graph_scroll = self.graph_scroll + 3;
                },
            },
            MouseKind::ScrollDown => match self.focus {
                Focus::Chat => {
                    self.scroll = self.scroll.saturating_sub(3);
                },
                Focus::Graph => {
                    self.graph_scroll = self.graph_scroll.saturating_sub(3);
                },
            },
            MouseKind::Other => {},
        }
    }

    /// Takes up the session in a note again.
    pub fn resume_session(&mut self, node_id: &str, content: &str)
        ensures
            final(self)@ == old(self)@.resumed(node_id@, content@),
    {
        let messages = read_transcript(content);
        assert(messages@.len() == turns(content@).len());
        if messages.len() > 0 {
            let i = find_system(&self.messages);
            let mut all: Vec<ChatMessage> = Vec::new();
            if i < self.messages.len() {
                let sys = self.messages[i].clone();
                push_message(&mut all, sys);
            }
            assert(message_views(all@) =~= first_system(old(self)@.messages));
            let ghost first = message_views(all@);
            let mut messages = messages;
            let ghost rest = messages@;
            all.append(&mut messages);
            assert(message_views(all@) =~= first + message_views(rest));
            self.messages = all;
            self.focus = Focus::Chat;
            self.scroll = 0;
            let mut status = String::from_str("Resumed session ");
            status.append(node_id);
            self.status = status;
        } else {
            self.status = String::from_str("Failed to parse transcript messages");
        }
    }

    /// What is sent when the input box holds `input`: its text without white space at either end,
    /// unless that is empty or an answer is awaited.
    pub fn prompt_to_send(&self, input: &Vec<String>) -> (r: Option<String>)
        ensures
            match r {
                Some(p) => p@ == trim(joined(views(input@), "\n"@)) && p@.len() > 0
                    && !self@.is_generating,
                None => trim(joined(views(input@), "\n"@)).len() == 0 || self@.is_generating,
            },
    {
        let whole = join(input, "\n");
        let content = trimmed(whole.as_str());
        if content.as_str().is_empty() || self.is_generating {
            None
        } else {
            Some(content)
        }
    }

    /// Adds a prompt to the conversation, with what the notes say of it and its images.
    pub fn submit(&mut self, content: String, recalled: String, images: Vec<String>)
        ensures
            final(self)@ == old(self)@.submitted(content@, recalled@, views(images@)),
    {
        if !recalled.as_str().is_empty() {
            let mut kept = drop_recalled(&self.messages);
            push_message(&mut kept, ChatMessage::new("system", recalled));
            self.messages = kept;
        }
        assert(images@.len() == views(images@).len());
        let images = if images.len() == 0 {
            None
        } else {
            Some(images)
        };
        let m = ChatMessage { role: String::from_str("user"), content, images };
        push_message(&mut self.messages, m);
        self.agent_iteration_count = 0;
        self.update_token_count();
    }

    /// Counts the tokens of the conversation.
    pub fn update_token_count(&mut self)
        ensures
            final(self)@ == old(self)@.counted(),
    {
        let ghost m = message_views(self.messages@);
        let mut text = String::new();
        let mut i: usize = 0;
        assert(text@ =~= terminated(contents(m).take(0)));
        while i < self.messages.len()
            invariant
                m == message_views(self.messages@),
                i <= self.messages@.len(),
                text@ == terminated(contents(m).take(i as int)),
                *self == *old(self),
            decreases self.messages@.len() - i,
        {
            let ghost c = contents(m);
            assert(c.take(i + 1).drop_last() =~= c.take(i as int));
            assert(c.take(i + 1).last() == self.messages@[i as int].content@);
            text.append(self.messages[i].content.as_str());
            text.push('\n');
            i += 1;
            assert(text@ =~= terminated(c.take(i as int)));
        }
        assert(contents(m).take(i as int) =~= contents(m));
        text.append(self.current_response.as_str());
        assert(text@ =~= self@.counted_text());
        if let Some(n) = count_tokens(text.as_str()) {
            self.token_count = n;
        }
    }

    /// Starts to wait for an answer. What is sent are the messages, after what the pinned files
    /// hold; `pinned` gives it for each of them, as far as it could be read.
    pub fn trigger_backend(&mut self, pinned: Vec<Option<String>>) -> (r: Vec<ChatMessage>)
        requires
            pinned@.len() == old(self)@.pinned_files.len(),
        ensures
            final(self)@ == old(self)@.generating(),
            message_views(r@) == pinned_messages(
                old(self)@.pinned_files,
                option_views(pinned@),
            ) + old(self)@.messages,
    {
        self.is_generating = true;
        self.current_response = String::new();
        self.status = String::from_str("Generating...");
        self.listening = true;
        let ghost paths = views(self.pinned_files@);
        let ghost c = option_views(pinned@);
        let ghost m = message_views(self.messages@);
        let mut request: Vec<ChatMessage> = Vec::new();
        let mut k: usize = pinned.len();
        assert(c.take(k as int) =~= c);
        assert(message_views(request@) + pinned_messages(paths, c) =~= pinned_messages(paths, c));
        while k > 0
            invariant
                paths == views(self.pinned_files@),
                c == option_views(pinned@),
                pinned@.len() == self.pinned_files@.len(),
                k <= pinned@.len(),
                message_views(request@) + pinned_messages(paths, c.take(k as int))
                    == pinned_messages(paths, c),
            decreases k,
        {
            let ghost before = message_views(request@);
            let ghost here = c.take(k as int);
            k -= 1;
            assert(here.drop_last() =~= c.take(k as int));
            assert(here.last() == option_view(pinned@[k as int]));
            assert(paths[here.len() - 1] == self.pinned_files@[k as int]@);
            if let Some(content) = &pinned[k] {
                let mut text = String::from_str("[PINNED FILE: ");
                text.append(self.pinned_files[k].as_str());
                text.append("]\n\n");
                text.append(content.as_str());
                let note = ChatMessage::new("system", text);
                push_message(&mut request, note);
                let ghost rest = pinned_messages(paths, c.take(k as int));
                assert(before + (seq![note@] + rest) =~= before.push(note@) + rest);
            }
        }
        assert(c.take(0) =~= Seq::empty());
        assert(message_views(request@) + Seq::<ChatMessageView>::empty() =~= message_views(
            request@,
        ));
        let ghost front = message_views(request@);
        assert(front + m.take(0) =~= front);
        let mut i: usize = 0;
        while i < self.messages.len()
            invariant
                m == message_views(self.messages@),
                i <= self.messages@.len(),
                message_views(request@) == front + m.take(i as int),
            decreases self.messages@.len() - i,
        {
            let copy = self.messages[i].clone();
            push_message(&mut request, copy);
            assert(m.take(i + 1) =~= m.take(i as int).push(m[i as int]));
            i += 1;
            assert(message_views(request@) =~= front + m.take(i as int));
        }
        assert(m.take(i as int) =~= m);
        request
    }

    /// Leaves the program. What comes back is the conversation that is to be summarized, if any.
    pub fn quit(&mut self) -> (r: Option<Vec<ChatMessage>>)
        ensures
            final(self)@ == (AppView { should_quit: true, ..old(self)@ }),
            ({
                let a = old(self)@;
                match r {
                    Some(history) => {
                        &&& a.cfg.summarize_on_exit
                        &&& a.messages.len() > 1
                        &&& spoken(a.messages).len() > 0
                        &&& message_views(history@) == spoken(a.messages)
                    },
                    None => !a.cfg.summarize_on_exit || a.messages.len() <= 1 || spoken(
                        a.messages,
                    ).len() == 0,
                }
            }),
    {
        self.should_quit = true;
        assert(self.messages@.len() == old(self)@.messages.len());
        if self.cfg.summarize_on_exit && self.messages.len() > 1 {
            let history = spoken_messages(&self.messages);
            assert(history@.len() == message_views(history@).len());
            if history.len() > 0 {
                return Some(history);
            }
        }
        None
    }

    /// The code blocks of the last answer.
    pub fn extract_code_blocks(&self) -> (r: Vec<(String, String)>)
        ensures
            pair_views(r@) == match last_answer(self@.messages, self@.messages.len()) {
                Some(m) => offered(fenced(m.content)),
                None => Seq::empty(),
            },
    {
        let ghost m = message_views(self.messages@);
        let mut blocks: Vec<(String, String)> = Vec::new();
        assert(pair_views(blocks@) =~= Seq::empty());
        let mut n: usize = self.messages.len();
        while n > 0
            invariant
                m == message_views(self.messages@),
                n <= self.messages@.len(),
                last_answer(m, self.messages@.len() as nat) == last_answer(m, n as nat),
                blocks@.len() == 0,
            decreases n,
        {
            assert(m[n - 1] == self.messages@[n - 1]@);
            if same(self.messages[n - 1].role.as_str(), "assistant") {
                let found = fenced_blocks(self.messages[n - 1].content.as_str());
                return offer(&found);
            }
            n -= 1;
        }
        assert(pair_views(blocks@) =~= Seq::empty());
        blocks
    }
}

fn offer(found: &Vec<Fenced>) -> (r: Vec<(String, String)>)
    ensures
        pair_views(r@) == offered(fenced_views(found@)),
{
    let ghost b = fenced_views(found@);
    let mut blocks: Vec<(String, String)> = Vec::new();
    let mut i: usize = 0;
    assert(pair_views(blocks@) =~= offered(b).take(0));
    while i < found.len()
        invariant
            b == fenced_views(found@),
            i <= found@.len(),
            pair_views(blocks@) == offered(b).take(i as int),
        decreases found@.len() - i,
    {
        let ghost before = pair_views(blocks@);
        let lang = if found[i].info.as_str().is_empty() {
            String::from_str("Text")
        } else {
            found[i].info.clone()
        };
        let pair = (lang, found[i].code.clone());
        blocks.push(pair);
        assert(b[i as int] == found@[i as int]@);
        assert(pair_views(blocks@) =~= before.push((pair.0@, pair.1@)));
        assert(offered(b).take(i + 1) =~= offered(b).take(i as int).push(offered(b)[i as int]));
        i += 1;
    }
    assert(offered(b).take(found@.len() as int) =~= offered(b));
    blocks
}

} // verus!
