//! What comes back from outside: answers of the model, results of tools, files that were read.
use crate::agent::blocks::fenced;
use crate::agent::diff::{generate_file_diff, preview};
use crate::agent::executor::{
    detect_executable_blocks, executable_requests, read_file_for_diff, request_views, result_view,
    ExecutionStatus, ExecutionStatusView, FileRead,
};
use crate::agent::tools::{call_views, ToolCall, ToolCallView};
use crate::agent::workspace::{file_views, WorkspaceFile};
use crate::backend::protocol::{message, push_message, ChatMessage};
use crate::text::{decimal, decimal_of, same};
use crate::tui::action::{Action, ActionView};
use crate::tui::app::{App, AppView};
use crate::tui::modal::{modal_view, ModalState, ModalView};
use vstd::prelude::*;
use vstd::string::*;

verus! {

/// What comes from the model. A finished answer comes with the tool calls that it asks for.
pub enum TickEvent {
    Token { content: String },
    Done { calls: Vec<ToolCall> },
    Error { message: String },
    Closed,
}

/// The contents of a `TickEvent`.
pub enum TickEventView {
    Token { content: Seq<char> },
    Done { calls: Seq<ToolCallView> },
    Error { message: Seq<char> },
    Closed,
}

impl View for TickEvent {
    type V = TickEventView;

    open spec fn view(&self) -> TickEventView {
        match *self {
            TickEvent::Token { content } => TickEventView::Token { content: content@ },
            TickEvent::Done { calls } => TickEventView::Done { calls: call_views(calls@) },
            TickEvent::Error { message } => TickEventView::Error { message: message@ },
            TickEvent::Closed => TickEventView::Closed,
        }
    }
}

/// The window that asks for consent to the first of some calls, and holds the others back.
pub open spec fn tool_gate(calls: Seq<ToolCallView>) -> Option<ModalView> {
    if calls.len() == 0 {
        None
    } else {
        Some(ModalView::ToolGatekeeper { call: calls[0], pending_others: calls.skip(1) })
    }
}

/// The window that asks for consent to run the first block of code of an answer, if any.
pub open spec fn code_gate(answer: Seq<char>) -> Option<ModalView> {
    let requests = executable_requests(fenced(answer));
    if requests.len() == 0 {
        None
    } else {
        Some(
            ModalView::CodeGatekeeper { request: requests[0], pending_others: requests.skip(1) },
        )
    }
}

/// What is said when the model has run too many tools on its own.
pub open spec fn exhausted() -> Seq<char> {
    "System: Maximum autonomous agent iterations reached. Awaiting user guidance."@
}

impl AppView {
    /// The state, and what to do, once an answer is complete. A first call that changes nothing
    /// is run at once where the model is trusted; any other call waits for consent, and so does
    /// code in an answer without calls.
    pub open spec fn done(self, calls: Seq<ToolCallView>) -> (AppView, ActionView) {
        let said = self.with_message(message("assistant"@, self.current_response));
        if calls.len() > 0 {
            if self.cfg.trust_level == "auto"@ && !calls[0].is_risky() {
                (
                    said.with_status("Auto-executing tool..."@),
                    ActionView::RunAuto { call: calls[0], pending: calls.skip(1) },
                )
            } else {
                (said.with_modal(tool_gate(calls)).answered(), ActionView::Nothing)
            }
        } else {
            match code_gate(self.current_response) {
                Some(gate) => (said.with_modal(Some(gate)).answered(), ActionView::Nothing),
                None => (said.answered(), ActionView::Nothing),
            }
        }
    }

    /// The state, and what to do, after the model has sent something. It counts only while
    /// messages are taken.
    pub open spec fn ticked(self, event: TickEventView) -> (AppView, ActionView) {
        if !self.listening {
            (self, ActionView::Nothing)
        } else {
            match event {
                TickEventView::Token { content } => (
                    AppView { current_response: self.current_response + content, ..self },
                    ActionView::Nothing,
                ),
                TickEventView::Done { calls } => self.done(calls),
                TickEventView::Error { message: text } => (
                    AppView {
                        messages: self.messages.push(
                            message("assistant"@, "⚠️ **API Error**:\n\n"@ + text),
                        ),
                        status: "Ready"@,
                        listening: false,
                        ..self
                    },
                    ActionView::Nothing,
                ),
                TickEventView::Closed => (
                    AppView { is_generating: false, listening: false, ..self },
                    ActionView::Nothing,
                ),
            }
        }
    }

    /// The state, and what to do, after a tool that needed no consent has run: the next call
    /// waits for consent, and without one the model goes on, but only so many times.
    pub open spec fn auto_finished(self, text: Seq<char>, pending: Seq<ToolCallView>) -> (
        AppView,
        ActionView,
    ) {
        let n = self.agent_iteration_count + 1;
        let told = AppView {
            agent_iteration_count: n as usize,
            ..self.with_message(message("user"@, text))
        };
        if n > self.cfg.max_agent_iterations {
            (told.with_message(message("user"@, exhausted())).answered(), ActionView::Nothing)
        } else if pending.len() > 0 {
            (told.with_modal(tool_gate(pending)).answered(), ActionView::Nothing)
        } else {
            (told, ActionView::Generate)
        }
    }

    /// The state, and what to do, after the model has been told of a call that waited for
    /// consent: the next call has its turn, and after the last one the model goes on.
    pub open spec fn reported(self, text: Seq<char>) -> (AppView, ActionView) {
        let told = self.with_message(message("user"@, text));
        match self.active_modal {
            Some(ModalView::ToolGatekeeper { pending_others, .. }) => (
                told.with_modal(tool_gate(pending_others)),
                if pending_others.len() == 0 {
                    ActionView::Generate
                } else {
                    ActionView::Nothing
                },
            ),
            Some(ModalView::DiffReview { .. }) => (told.with_modal(None), ActionView::Generate),
            _ => (told, ActionView::Nothing),
        }
    }

    /// The state, and what to do, once the file that a call writes has been read: the change is
    /// shown, or the call is run if there is nothing to compare with.
    pub open spec fn compared(self, original: Result<Option<Seq<char>>, Seq<char>>) -> (
        AppView,
        ActionView,
    ) {
        match self.active_modal {
            Some(ModalView::ToolGatekeeper { call, .. }) => match call {
                ToolCallView::WriteFile { path, content } => match original {
                    Ok(text) => (
                        self.with_modal(
                            Some(
                                ModalView::DiffReview {
                                    path,
                                    diff: preview(path, text, content),
                                    proposed_content: content,
                                },
                            ),
                        ),
                        ActionView::Nothing,
                    ),
                    Err(_) => (self, ActionView::RunTool { call, told: call }),
                },
                _ => (self, ActionView::Nothing),
            },
            _ => (self, ActionView::Nothing),
        }
    }

    /// The state, and what to do, after code has been run: the model is told of its output.
    pub open spec fn code_finished(self, result: Result<ExecutionStatusView, Seq<char>>) -> (
        AppView,
        ActionView,
    ) {
        match result {
            Ok(ExecutionStatusView::Completed { stdout, stderr, .. }) => (
                self.with_message(
                    message(
                        "user"@,
                        "Execution result:\nSTDOUT:\n"@ + stdout + "\nSTDERR:\n"@ + stderr,
                    ),
                ).with_modal(None),
                ActionView::Generate,
            ),
            _ => (self.with_modal(None), ActionView::Nothing),
        }
    }

    /// The state after an attempt to store the settings.
    pub open spec fn config_saved(self, saved: bool) -> AppView {
        match self.active_modal {
            Some(ModalView::ConfigEditor { cfg_draft, .. }) => if saved {
                AppView {
                    cfg: cfg_draft,
                    status: "Configuration saved successfully."@,
                    active_modal: None,
                    ..self
                }
            } else {
                self.with_status("Failed to save configuration."@)
            },
            _ => self,
        }
    }
}

/// What is compared after an attempt to read a file.
pub open spec fn read_view(read: FileRead) -> Result<Option<Seq<char>>, Seq<char>> {
    match read {
        FileRead::Missing => Ok(None),
        FileRead::Content(c) => Ok(Some(c@)),
        FileRead::Unreadable(e) => Err(e@),
    }
}

/// What came of an attempt to put code into the clipboard.
#[derive(Clone, Copy, Debug, PartialEq, Eq, Structural)]
pub enum CopyOutcome {
    Copied,
    Failed,
    Unavailable,
}

fn gate(calls: Vec<ToolCall>) -> (r: Option<ModalState>)
    ensures
        modal_view(r) == tool_gate(call_views(calls@)),
{
    assert(call_views(calls@).len() == calls@.len());
    if calls.len() == 0 {
        None
    } else {
        let ghost all = call_views(calls@);
        let mut rest = calls;
        let call = rest.remove(0);
        assert(call_views(rest@) =~= all.skip(1));
        Some(ModalState::ToolGatekeeper { call, pending_others: rest })
    }
}

fn code_gate_of(answer: &str) -> (r: Option<ModalState>)
    ensures
        modal_view(r) == code_gate(answer@),
{
    let mut rest = detect_executable_blocks(answer);
    let ghost all = request_views(rest@);
    assert(all.len() == rest@.len());
    if rest.len() == 0 {
        None
    } else {
        let request = rest.remove(0);
        assert(request_views(rest@) =~= all.skip(1));
        Some(ModalState::CodeGatekeeper { request, pending_others: rest })
    }
}

impl App {
    fn answer_complete(&mut self)
        ensures
            final(self)@ == old(self)@.answered(),
    {
        self.current_response = String::new();
        self.is_generating = false;
        self.status = String::from_str("Ready");
        self.listening = false;
    }

    fn done(&mut self, calls: Vec<ToolCall>) -> (r: Action)
        ensures
            (final(self)@, r@) == old(self)@.done(call_views(calls@)),
    {
        let answer = ChatMessage::new("assistant", self.current_response.clone());
        push_message(&mut self.messages, answer);
        assert(call_views(calls@).len() == calls@.len());
        if calls.len() > 0 {
            if same(self.cfg.trust_level.as_str(), "auto") && !calls[0].is_risky() {
                self.status = String::from_str("Auto-executing tool...");
                let ghost all = call_views(calls@);
                let mut pending = calls;
                let call = pending.remove(0);
                assert(call_views(pending@) =~= all.skip(1));
                return Action::RunAuto { call, pending };
            }
            self.active_modal = gate(calls);
        } else {
            let window = code_gate_of(self.current_response.as_str());
            if window.is_some() {
                self.active_modal = window;
            }
        }
        self.answer_complete();
        Action::Nothing
    }

    /// Takes what the model has sent.
    pub fn tick(&mut self, event: TickEvent) -> (r: Action)
        ensures
            (final(self)@, r@) == old(self)@.ticked(event@),
    {
        if !self.listening {
            return Action::Nothing;
        }
        match event {
            TickEvent::Token { content } => {
                self.current_response.append(content.as_str());
                Action::Nothing
            },
            TickEvent::Done { calls } => self.done(calls),
            TickEvent::Error { message } => {
                let mut text = String::from_str("⚠️ **API Error**:\n\n");
                text.append(message.as_str());
                push_message(&mut self.messages, ChatMessage::new("assistant", text));
                self.status = String::from_str("Ready");
                self.listening = false;
                Action::Nothing
            },
            TickEvent::Closed => {
                self.is_generating = false;
                self.listening = false;
                Action::Nothing
            },
        }
    }

    /// Ends a round of what the model has sent: after a token the tokens are counted again, but not
    /// where the model has been asked anew meanwhile.
    pub fn tick_ended(&mut self, token_came: bool, asked_anew: bool)
        ensures
            final(self)@ == if token_came && !asked_anew {
                old(self)@.counted()
            } else {
                old(self)@
            },
    {
        if token_came && !asked_anew {
            self.update_token_count();
        }
    }

    /// Goes on after a tool that needed no consent: `text` is what the model is told of it.
    pub fn auto_finished(&mut self, text: String, pending: Vec<ToolCall>) -> (r: Action)
        requires
            old(self)@.agent_iteration_count < usize::MAX,
        ensures
            (final(self)@, r@) == old(self)@.auto_finished(text@, call_views(pending@)),
    {
        push_message(&mut self.messages, ChatMessage::new("user", text));
        self.agent_iteration_count = self.agent_iteration_count + 1;
        assert(call_views(pending@).len() == pending@.len());
        if self.agent_iteration_count > self.cfg.max_agent_iterations {
            let last = String::from_str(
                "System: Maximum autonomous agent iterations reached. Awaiting user guidance.",
            );
            push_message(&mut self.messages, ChatMessage::new("user", last));
        } else if pending.len() > 0 {
            self.active_modal = gate(pending);
        } else {
            return Action::Generate;
        }
        self.answer_complete();
        Action::Nothing
    }

    /// Goes on after a call that waited for consent: `text` is what the model is told of it.
    pub fn tool_reported(&mut self, text: String) -> (r: Action)
        ensures
            (final(self)@, r@) == old(self)@.reported(text@),
    {
        push_message(&mut self.messages, ChatMessage::new("user", text));
        match self.active_modal.take() {
            Some(ModalState::ToolGatekeeper { call: _, pending_others }) => {
                assert(call_views(pending_others@).len() == pending_others@.len());
                let last = pending_others.len() == 0;
                self.active_modal = gate(pending_others);
                if last {
                    Action::Generate
                } else {
                    Action::Nothing
                }
            },
            Some(ModalState::DiffReview { path: _, diff: _, proposed_content: _ }) => {
                Action::Generate
            },
            other => {
                self.active_modal = other;
                Action::Nothing
            },
        }
    }

    /// Goes on once the file that a call writes has been read.
    pub fn diff_ready(&mut self, read: FileRead) -> (r: Action)
        ensures
            (final(self)@, r@) == old(self)@.compared(read_view(read)),
    {
        let original = read_file_for_diff(read);
        match self.active_modal.take() {
            Some(
                ModalState::ToolGatekeeper {
                    call: ToolCall::WriteFile { path, content },
                    pending_others,
                },
            ) => match original {
                Ok(text) => {
                    let before = match &text {
                        Some(t) => Some(t.as_str()),
                        None => None,
                    };
                    let diff = generate_file_diff(path.as_str(), before, content.as_str());
                    self.active_modal = Some(
                        ModalState::DiffReview { path, diff, proposed_content: content },
                    );
                    Action::Nothing
                },
                Err(_e) => {
                    let call = ToolCall::WriteFile { path, content };
                    let run = call.clone();
                    let told = call.clone();
                    self.active_modal = Some(ModalState::ToolGatekeeper { call, pending_others });
                    Action::RunTool { call: run, told }
                },
            },
            other => {
                self.active_modal = other;
                Action::Nothing
            },
        }
    }

    /// Goes on after code has been run.
    pub fn code_finished(&mut self, result: Result<ExecutionStatus, String>) -> (r: Action)
        ensures
            (final(self)@, r@) == old(self)@.code_finished(result_view(result)),
    {
        self.active_modal = None;
        match result {
            Ok(ExecutionStatus::Completed { stdout, stderr, exit_code: _ }) => {
                let mut text = String::from_str("Execution result:\nSTDOUT:\n");
                text.append(stdout.as_str());
                text.append("\nSTDERR:\n");
                text.append(stderr.as_str());
                push_message(&mut self.messages, ChatMessage::new("user", text));
                Action::Generate
            },
            _ => Action::Nothing,
        }
    }

    /// Goes on after an attempt to store the settings.
    pub fn config_saved(&mut self, saved: bool)
        ensures
            final(self)@ == old(self)@.config_saved(saved),
    {
        match self.active_modal.take() {
            Some(ModalState::ConfigEditor { active_field, is_editing, cfg_draft }) => {
                if saved {
                    self.cfg = cfg_draft;
                    self.status = String::from_str("Configuration saved successfully.");
                } else {
                    self.status = String::from_str("Failed to save configuration.");
                    self.active_modal = Some(
                        ModalState::ConfigEditor { active_field, is_editing, cfg_draft },
                    );
                }
            },
            other => {
                self.active_modal = other;
            },
        }
    }

    /// Tells what came of an attempt to copy code.
    pub fn copied(&mut self, lang: &str, outcome: CopyOutcome)
        ensures
            final(self)@ == old(self)@.with_status(
                match outcome {
                    CopyOutcome::Copied => "Copied "@ + lang@ + " code block to clipboard!"@,
                    CopyOutcome::Failed => "Failed to copy to clipboard"@,
                    CopyOutcome::Unavailable => "Clipboard not available"@,
                },
            ),
    {
        self.status = match outcome {
            CopyOutcome::Copied => {
                let mut status = String::from_str("Copied ");
                status.append(lang);
                status.append(" code block to clipboard!");
                status
            },
            CopyOutcome::Failed => String::from_str("Failed to copy to clipboard"),
            CopyOutcome::Unavailable => String::from_str("Clipboard not available"),
        };
    }

    /// Takes a new list of the files of the workspace; none where it could not be had.
    pub fn workspace_rescanned(&mut self, scan: Option<Vec<WorkspaceFile>>)
        ensures
            final(self)@ == match (old(self)@.active_modal, scan) {
                (Some(ModalView::WorkspacePanel { scroll, .. }), Some(files)) => AppView {
                    active_modal: Some(
                        ModalView::WorkspacePanel {
                            files: file_views(files@),
                            selected_index: 0,
                            scroll,
                        },
                    ),
                    status: "Workspace refreshed"@,
                    ..old(self)@
                },
                _ => old(self)@,
            },
    {
        if let Some(files) = scan {
            match self.active_modal.take() {
                Some(ModalState::WorkspacePanel { files: _, selected_index: _, scroll }) => {
                    self.active_modal = Some(
                        ModalState::WorkspacePanel { files, selected_index: 0, scroll },
                    );
                    self.status = String::from_str("Workspace refreshed");
                },
                other => {
                    self.active_modal = other;
                },
            }
        }
    }

    /// Shows a note of the workspace, whose file is called `name`; nothing happens where it could
    /// not be read.
    pub fn file_opened(
        &mut self,
        path: &str,
        name: String,
        is_session: bool,
        content: Option<String>,
    )
        ensures
            final(self)@ == match content {
                Some(text) => AppView {
                    active_modal: Some(
                        ModalView::SessionViewer {
                            title: name@,
                            content: text@,
                            scroll: 0,
                            node_id: name@,
                            is_session,
                        },
                    ),
                    status: "Loaded "@ + path@,
                    ..old(self)@
                },
                None => old(self)@,
            },
    {
        if let Some(content) = content {
            self.active_modal = Some(
                ModalState::SessionViewer {
                    title: name.clone(),
                    content,
                    scroll: 0,
                    node_id: name,
                    is_session,
                },
            );
            let mut status = String::from_str("Loaded ");
            status.append(path);
            self.status = status;
        }
    }

    /// Shows a note of the memory.
    pub fn node_opened(
        &mut self,
        label: String,
        node_id: String,
        is_session: bool,
        content: Option<String>,
    )
        ensures
            final(self)@ == match content {
                Some(text) => AppView {
                    active_modal: Some(
                        ModalView::SessionViewer {
                            title: label@,
                            content: text@,
                            scroll: 0,
                            node_id: node_id@,
                            is_session,
                        },
                    ),
                    status: "Loaded "@ + label@,
                    ..old(self)@
                },
                None => old(self)@.with_status("Failed to read "@ + label@),
            },
    {
        let mut status = String::from_str(
            if content.is_some() {
                "Loaded "
            } else {
                "Failed to read "
            },
        );
        status.append(label.as_str());
        self.status = status;
        if let Some(content) = content {
            self.active_modal = Some(
                ModalState::SessionViewer { title: label, content, scroll: 0, node_id, is_session },
            );
        }
    }

    /// Tells what came of an image that was pasted, from the path under which it was stored and
    /// its size. What comes back goes into the input box.
    pub fn image_pasted(&mut self, stored: Result<String, String>, width: u64, height: u64) -> (r:
        Option<String>)
        ensures
            match (stored, r) {
                (Ok(path), Some(reference)) => {
                    &&& reference@ == "![image]("@ + path@ + ")"@
                    &&& final(self)@ == old(self)@.with_status(
                        "Image pasted: "@ + decimal(width as nat) + "x"@ + decimal(height as nat),
                    )
                },
                (Err(e), None) => final(self)@ == old(self)@.with_status(
                    "Failed to save image: "@ + e@,
                ),
                _ => false,
            },
    {
        match stored {
            Ok(path) => {
                let mut reference = String::from_str("![image](");
                reference.append(path.as_str());
                reference.append(")");
                let mut status = String::from_str("Image pasted: ");
                let w = decimal_of(width);
                status.append(w.as_str());
                status.append("x");
                let h = decimal_of(height);
                status.append(h.as_str());
                self.status = status;
                Some(reference)
            },
            Err(e) => {
                let mut status = String::from_str("Failed to save image: ");
                status.append(e.as_str());
                self.status = status;
                None
            },
        }
    }
}

} // verus!
