//! The files of the workspace, and the state of its repository.
use crate::text::views;
use vstd::prelude::*;

verus! {

/// A file or a directory of the workspace.
#[derive(Debug, Clone)]
pub struct WorkspaceFile {
    pub relative_path: String,
    pub is_dir: bool,
    pub size: u64,
}

/// The contents of a `WorkspaceFile`.
#[verifier::ext_equal]
pub struct WorkspaceFileView {
    pub relative_path: Seq<char>,
    pub is_dir: bool,
    pub size: u64,
}

impl View for WorkspaceFile {
    type V = WorkspaceFileView;

    open spec fn view(&self) -> WorkspaceFileView {
        WorkspaceFileView {
            relative_path: self.relative_path@,
            is_dir: self.is_dir,
            size: self.size,
        }
    }
}

/// The contents of a list of files.
pub open spec fn file_views(f: Seq<WorkspaceFile>) -> Seq<WorkspaceFileView> {
    f.map_values(|x: WorkspaceFile| x@)
}

/// The branch of a repository, and its files that differ from it.
#[derive(Debug, Clone)]
pub struct GitStatus {
    pub branch: String,
    pub modified_files: Vec<String>,
    pub untracked_files: Vec<String>,
}

/// The contents of a `GitStatus`.
#[verifier::ext_equal]
pub struct GitStatusView {
    pub branch: Seq<char>,
    pub modified_files: Seq<Seq<char>>,
    pub untracked_files: Seq<Seq<char>>,
}

impl View for GitStatus {
    type V = GitStatusView;

    open spec fn view(&self) -> GitStatusView {
        GitStatusView {
            branch: self.branch@,
            modified_files: views(self.modified_files@),
            untracked_files: views(self.untracked_files@),
        }
    }
}

impl GitStatusView {
    /// How many files differ.
    pub open spec fn changes(self) -> nat {
        self.modified_files.len() + self.untracked_files.len()
    }
}

} // verus!
