//! The notes of earlier conversations.
use crate::text::views;
use vstd::prelude::*;

verus! {

/// What a note is about.
#[derive(Clone, Copy, Debug, PartialEq, Eq, Structural)]
pub enum NodeKind {
    Session,
    Concept,
}

/// A note, and the labels of those that it links to.
#[derive(Debug, Clone)]
pub struct MemoryNode {
    pub id: String,
    pub label: String,
    pub kind: NodeKind,
    pub connections: Vec<String>,
}

/// The contents of a `MemoryNode`.
#[verifier::ext_equal]
pub struct MemoryNodeView {
    pub id: Seq<char>,
    pub label: Seq<char>,
    pub kind: NodeKind,
    pub connections: Seq<Seq<char>>,
}

impl View for MemoryNode {
    type V = MemoryNodeView;

    open spec fn view(&self) -> MemoryNodeView {
        MemoryNodeView {
            id: self.id@,
            label: self.label@,
            kind: self.kind,
            connections: views(self.connections@),
        }
    }
}

/// The contents of a list of notes.
pub open spec fn node_views(n: Seq<MemoryNode>) -> Seq<MemoryNodeView> {
    n.map_values(|x: MemoryNode| x@)
}

} // verus!
