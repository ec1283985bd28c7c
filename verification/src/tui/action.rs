//! Keys that come in, and what is to be done outside.
use crate::agent::executor::{ExecutionRequest, ExecutionRequestView};
use crate::agent::tools::{call_views, ToolCall, ToolCallView};
use crate::config::{Config, ConfigView};
use crate::tui::mode::AgentRole;
use vstd::prelude::*;

verus! {

/// A key, apart from those that are held down with it.
#[derive(Clone, Copy, Debug, PartialEq, Eq, Structural)]
pub enum KeyCode {
    Char(char),
    Enter,
    Esc,
    Tab,
    Up,
    Down,
    Left,
    Right,
    PageUp,
    PageDown,
    Other,
}

/// A key that was pressed. `other` says that a modifier besides Control and Shift was held down.
#[derive(Clone, Copy, Debug, PartialEq, Eq, Structural)]
pub struct Key {
    pub code: KeyCode,
    pub ctrl: bool,
    pub shift: bool,
    pub other: bool,
}

impl Key {
    /// No modifier was held down.
    pub open spec fn plain(self) -> bool {
        !self.ctrl && !self.shift && !self.other
    }

    /// Control was held down, and no other modifier.
    pub open spec fn control_only(self) -> bool {
        self.ctrl && !self.shift && !self.other
    }

    /// The key is the character `c`.
    pub open spec fn hits(self, c: char) -> bool {
        self.code == KeyCode::Char(c)
    }

    /// The key means yes: Enter or `y`.
    pub open spec fn confirms(self) -> bool {
        self.code == KeyCode::Enter || self.hits('y')
    }

    /// The key means no: Esc or `n`.
    pub open spec fn denies(self) -> bool {
        self.code == KeyCode::Esc || self.hits('n')
    }

    /// The key closes a window: Esc or `q`.
    pub open spec fn closes(self) -> bool {
        self.code == KeyCode::Esc || self.hits('q')
    }

    /// Decides `hits`.
    pub fn is_char(self, c: char) -> (r: bool)
        ensures
            r == self.hits(c),
    {
        match self.code {
            KeyCode::Char(k) => k == c,
            _ => false,
        }
    }

    /// Decides `plain`.
    pub fn is_plain(self) -> (r: bool)
        ensures
            r == self.plain(),
    {
        !self.ctrl && !self.shift && !self.other
    }
}

/// A move of the mouse.
#[derive(Clone, Copy, Debug, PartialEq, Eq, Structural)]
pub enum MouseKind {
    ScrollUp,
    ScrollDown,
    Other,
}

/// What is to be done after an event. What comes of it is told to the `App` afterwards.
#[derive(Debug)]
pub enum Action {
    Nothing,
    /// Hand the key to the input box.
    Edit(Key),
    /// Break the line in the input box.
    NewLine,
    /// Take what is in the clipboard.
    Paste,
    /// Put a text in place of what stands in the input box.
    SetInput(String),
    /// Send what was typed.
    Submit(String),
    /// Ask the model for an answer.
    Generate,
    /// Tell the model what came of a call.
    Report { call: ToolCall, output: String, success: bool },
    /// Run a tool, and tell the model of it as of the call `told`.
    RunTool { call: ToolCall, told: ToolCall },
    /// Run a tool that needs no consent, while others wait.
    RunAuto { call: ToolCall, pending: Vec<ToolCall> },
    /// Read the file that is to be written, for a comparison.
    PrepareWrite { path: String, content: String },
    /// Run code.
    RunCode(ExecutionRequest),
    /// Store the settings.
    SaveConfig(Config),
    /// Put code into the clipboard.
    Copy { lang: String, code: String },
    /// List the files of the workspace, for a window that is to be opened.
    ScanWorkspace,
    /// List the files of the workspace again.
    RescanWorkspace,
    /// Ask for the state of the repository.
    AskGitStatus,
    /// Read a note of the workspace.
    OpenFile { path: String, is_session: bool },
    /// Read a note of the memory.
    OpenNode { folder: &'static str, node_id: String, label: String, is_session: bool },
    /// Ask for the instructions of a role.
    SwitchRole(AgentRole),
    /// Break off the answer.
    Abort,
    /// Leave the program.
    Quit,
}

/// The contents of an `Action`.
#[verifier::ext_equal]
pub enum ActionView {
    Nothing,
    Edit(Key),
    NewLine,
    Paste,
    SetInput(Seq<char>),
    Submit(Seq<char>),
    Generate,
    Report { call: ToolCallView, output: Seq<char>, success: bool },
    RunTool { call: ToolCallView, told: ToolCallView },
    RunAuto { call: ToolCallView, pending: Seq<ToolCallView> },
    PrepareWrite { path: Seq<char>, content: Seq<char> },
    RunCode(ExecutionRequestView),
    SaveConfig(ConfigView),
    Copy { lang: Seq<char>, code: Seq<char> },
    ScanWorkspace,
    RescanWorkspace,
    AskGitStatus,
    OpenFile { path: Seq<char>, is_session: bool },
    OpenNode { folder: Seq<char>, node_id: Seq<char>, label: Seq<char>, is_session: bool },
    SwitchRole(AgentRole),
    Abort,
    Quit,
}

impl View for Action {
    type V = ActionView;

    open spec fn view(&self) -> ActionView {
        match *self {
            Action::Nothing => ActionView::Nothing,
            Action::Edit(k) => ActionView::Edit(k),
            Action::NewLine => ActionView::NewLine,
            Action::Paste => ActionView::Paste,
            Action::SetInput(s) => ActionView::SetInput(s@),
            Action::Submit(s) => ActionView::Submit(s@),
            Action::Generate => ActionView::Generate,
            Action::Report { call, output, success } => ActionView::Report {
                call: call@,
                output: output@,
                success,
            },
            Action::RunTool { call, told } => ActionView::RunTool { call: call@, told: told@ },
            Action::RunAuto { call, pending } => ActionView::RunAuto {
                call: call@,
                pending: call_views(pending@),
            },
            Action::PrepareWrite { path, content } => ActionView::PrepareWrite {
                path: path@,
                content: content@,
            },
            Action::RunCode(q) => ActionView::RunCode(q@),
            Action::SaveConfig(c) => ActionView::SaveConfig(c@),
            Action::Copy { lang, code } => ActionView::Copy { lang: lang@, code: code@ },
            Action::ScanWorkspace => ActionView::ScanWorkspace,
            Action::RescanWorkspace => ActionView::RescanWorkspace,
            Action::AskGitStatus => ActionView::AskGitStatus,
            Action::OpenFile { path, is_session } => ActionView::OpenFile {
                path: path@,
                is_session,
            },
            Action::OpenNode { folder, node_id, label, is_session } => ActionView::OpenNode {
                folder: folder@,
                node_id: node_id@,
                label: label@,
                is_session,
            },
            Action::SwitchRole(r) => ActionView::SwitchRole(r),
            Action::Abort => ActionView::Abort,
            Action::Quit => ActionView::Quit,
        }
    }
}

} // verus!
