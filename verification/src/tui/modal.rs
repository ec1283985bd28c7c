//! The windows that open above the chat.
use crate::agent::executor::{request_views, ExecutionRequest, ExecutionRequestView};
use crate::agent::tools::{call_views, ToolCall, ToolCallView};
use crate::agent::workspace::{
    file_views, GitStatus, GitStatusView, WorkspaceFile, WorkspaceFileView,
};
use crate::config::{Config, ConfigView};
use vstd::prelude::*;

verus! {

/// The window that is open, and what it shows.
#[allow(inconsistent_fields)]
#[derive(Debug, Clone)]
pub enum ModalState {
    SessionViewer {
        title: String,
        content: String,
        scroll: usize,
        node_id: String,
        is_session: bool,
    },
    ToolGatekeeper { call: ToolCall, pending_others: Vec<ToolCall> },
    CodeGatekeeper { request: ExecutionRequest, pending_others: Vec<ExecutionRequest> },
    ConfigEditor { active_field: usize, is_editing: bool, cfg_draft: Config },
    CodeBlockYanker { blocks: Vec<(String, String)>, selected_index: usize, preview_scroll: usize },
    WorkspacePanel { files: Vec<WorkspaceFile>, selected_index: usize, scroll: usize },
    GitStatusModal { status: GitStatus, selected_index: usize, scroll: usize },
    DiffReview { path: String, diff: String, proposed_content: String },
}

/// The contents of a `ModalState`.
#[allow(inconsistent_fields)]
#[verifier::ext_equal]
pub enum ModalView {
    SessionViewer {
        title: Seq<char>,
        content: Seq<char>,
        scroll: usize,
        node_id: Seq<char>,
        is_session: bool,
    },
    ToolGatekeeper { call: ToolCallView, pending_others: Seq<ToolCallView> },
    CodeGatekeeper { request: ExecutionRequestView, pending_others: Seq<ExecutionRequestView> },
    ConfigEditor { active_field: usize, is_editing: bool, cfg_draft: ConfigView },
    CodeBlockYanker {
        blocks: Seq<(Seq<char>, Seq<char>)>,
        selected_index: usize,
        preview_scroll: usize,
    },
    WorkspacePanel { files: Seq<WorkspaceFileView>, selected_index: usize, scroll: usize },
    GitStatusModal { status: GitStatusView, selected_index: usize, scroll: usize },
    DiffReview { path: Seq<char>, diff: Seq<char>, proposed_content: Seq<char> },
}

/// The contents of a list of pairs of strings.
pub open spec fn pair_views(p: Seq<(String, String)>) -> Seq<(Seq<char>, Seq<char>)> {
    p.map_values(|x: (String, String)| (x.0@, x.1@))
}

impl View for ModalState {
    type V = ModalView;

    open spec fn view(&self) -> ModalView {
        match *self {
            ModalState::SessionViewer { title, content, scroll, node_id, is_session } => {
                ModalView::SessionViewer {
                    title: title@,
                    content: content@,
                    scroll,
                    node_id: node_id@,
                    is_session,
                }
            },
            ModalState::ToolGatekeeper { call, pending_others } => ModalView::ToolGatekeeper {
                call: call@,
                pending_others: call_views(pending_others@),
            },
            ModalState::CodeGatekeeper { request, pending_others } => ModalView::CodeGatekeeper {
                request: request@,
                pending_others: request_views(pending_others@),
            },
            ModalState::ConfigEditor { active_field, is_editing, cfg_draft } => {
                ModalView::ConfigEditor { active_field, is_editing, cfg_draft: cfg_draft@ }
            },
            ModalState::CodeBlockYanker { blocks, selected_index, preview_scroll } => {
                ModalView::CodeBlockYanker {
                    blocks: pair_views(blocks@),
                    selected_index,
                    preview_scroll,
                }
            },
            ModalState::WorkspacePanel { files, selected_index, scroll } => {
                ModalView::WorkspacePanel { files: file_views(files@), selected_index, scroll }
            },
            ModalState::GitStatusModal { status, selected_index, scroll } => {
                ModalView::GitStatusModal { status: status@, selected_index, scroll }
            },
            ModalState::DiffReview { path, diff, proposed_content } => ModalView::DiffReview {
                path: path@,
                diff: diff@,
                proposed_content: proposed_content@,
            },
        }
    }
}

/// The contents of an optional window.
pub open spec fn modal_view(m: Option<ModalState>) -> Option<ModalView> {
    match m {
        Some(w) => Some(w@),
        None => None,
    }
}

impl ModalView {
    /// The selection of a window stands on an entry of its list, where the list has any, and else
    /// at its top. (The list of a repository has a line more than it has files.)
    pub open spec fn well_formed(self) -> bool {
        match self {
            ModalView::ConfigEditor { active_field, .. } => active_field <= 9,
            ModalView::CodeBlockYanker { blocks, selected_index, .. } => selected_index
                < blocks.len(),
            ModalView::WorkspacePanel { files, selected_index, .. } => selected_index
                < files.len() || selected_index == 0,
            ModalView::GitStatusModal { status, selected_index, .. } => selected_index
                <= status.changes(),
            _ => true,
        }
    }
}

} // verus!
