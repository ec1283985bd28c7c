//! What is said in a chat, and what a model sends back.
use crate::text::{clone_strings, same, views};
use vstd::prelude::*;
use vstd::string::*;

verus! {

/// A message of the chat: who said it, its text, and the images that go with it as data URIs.
#[derive(Debug)]
pub struct ChatMessage {
    pub role: String,
    pub content: String,
    pub images: Option<Vec<String>>,
}

/// The contents of a `ChatMessage`.
#[verifier::ext_equal]
pub struct ChatMessageView {
    pub role: Seq<char>,
    pub content: Seq<char>,
    pub images: Option<Seq<Seq<char>>>,
}

/// The contents of an optional list of strings.
pub open spec fn list_option(l: Option<Vec<String>>) -> Option<Seq<Seq<char>>> {
    match l {
        Some(v) => Some(views(v@)),
        None => None,
    }
}

impl View for ChatMessage {
    type V = ChatMessageView;

    open spec fn view(&self) -> ChatMessageView {
        ChatMessageView {
            role: self.role@,
            content: self.content@,
            images: list_option(self.images),
        }
    }
}

/// The contents of a list of messages.
pub open spec fn message_views(m: Seq<ChatMessage>) -> Seq<ChatMessageView> {
    m.map_values(|x: ChatMessage| x@)
}

/// A message without images.
pub open spec fn message(role: Seq<char>, content: Seq<char>) -> ChatMessageView {
    ChatMessageView { role, content, images: None }
}

impl ChatMessageView {
    /// Whether images go with the message.
    pub open spec fn has_images(self) -> bool {
        match self.images {
            Some(l) => l.len() > 0,
            None => false,
        }
    }

    /// Whether the message instructs the model, and is no part of the conversation.
    pub open spec fn is_system(self) -> bool {
        self.role == "system"@
    }
}

impl Clone for ChatMessage {
    fn clone(&self) -> (r: Self)
        ensures
            r@ == self@,
    {
        let images = match &self.images {
            Some(l) => Some(clone_strings(l)),
            None => None,
        };
        ChatMessage { role: self.role.clone(), content: self.content.clone(), images }
    }
}

impl ChatMessage {
    /// A message without images.
    pub fn new(role: &str, content: String) -> (r: Self)
        ensures
            r@ == message(role@, content@),
    {
        ChatMessage { role: String::from_str(role), content, images: None }
    }

    /// Whether images go with the message.
    pub fn has_images(&self) -> (r: bool)
        ensures
            r == self@.has_images(),
    {
        match &self.images {
            Some(l) => l.len() > 0,
            None => false,
        }
    }
}

/// Adds a message at the end of a list.
pub fn push_message(messages: &mut Vec<ChatMessage>, m: ChatMessage)
    ensures
        message_views(final(messages)@) == message_views(old(messages)@).push(m@),
{
    messages.push(m);
    assert(message_views(messages@) =~= message_views(old(messages)@).push(m@));
}

/// The messages of the conversation, without those that instruct the model.
pub open spec fn spoken(m: Seq<ChatMessageView>) -> Seq<ChatMessageView>
    decreases m.len(),
{
    if m.len() == 0 {
        Seq::empty()
    } else if m.last().is_system() {
        spoken(m.drop_last())
    } else {
        spoken(m.drop_last()).push(m.last())
    }
}

/// The messages of the conversation, without those that instruct the model.
pub fn spoken_messages(messages: &Vec<ChatMessage>) -> (r: Vec<ChatMessage>)
    ensures
        message_views(r@) == spoken(message_views(messages@)),
{
    let ghost m = message_views(messages@);
    let mut out: Vec<ChatMessage> = Vec::new();
    let mut i: usize = 0;
    assert(message_views(out@) =~= spoken(m.take(0)));
    while i < messages.len()
        invariant
            m == message_views(messages@),
            i <= messages@.len(),
            message_views(out@) == spoken(m.take(i as int)),
        decreases messages@.len() - i,
    {
        assert(m.take(i + 1).drop_last() =~= m.take(i as int));
        assert(m.take(i + 1).last() == messages@[i as int]@);
        if !same(messages[i].role.as_str(), "system") {
            let copy = messages[i].clone();
            push_message(&mut out, copy);
        }
        i += 1;
    }
    assert(m.take(messages@.len() as int) =~= m);
    out
}

/// The conversation holds no instruction.
pub proof fn lemma_spoken(m: Seq<ChatMessageView>)
    ensures
        forall|i: int| 0 <= i < spoken(m).len() ==> !(#[trigger] spoken(m)[i]).is_system(),
    decreases m.len(),
{
    if m.len() > 0 {
        let rest = spoken(m.drop_last());
        lemma_spoken(m.drop_last());
        assert forall|i: int| 0 <= i < spoken(m).len() implies !(#[trigger] spoken(
            m,
        )[i]).is_system() by {
            if i < rest.len() {
                assert(spoken(m)[i] == rest[i]);
            }
        }
    }
}

/// What a model sends while it answers.
#[derive(Debug)]
pub enum BackendMessage {
    Token { content: String },
    Done,
    Error { message: String },
}

/// The contents of a `BackendMessage`.
pub enum BackendMessageView {
    Token { content: Seq<char> },
    Done,
    Error { message: Seq<char> },
}

impl View for BackendMessage {
    type V = BackendMessageView;

    open spec fn view(&self) -> BackendMessageView {
        match *self {
            BackendMessage::Token { content } => BackendMessageView::Token { content: content@ },
            BackendMessage::Done => BackendMessageView::Done,
            BackendMessage::Error { message } => BackendMessageView::Error { message: message@ },
        }
    }
}

/// The contents of a list of backend messages.
pub open spec fn sent_views(m: Seq<BackendMessage>) -> Seq<BackendMessageView> {
    m.map_values(|x: BackendMessage| x@)
}

} // verus!
