//! The messages of a request, in the forms that the providers expect.
use crate::backend::protocol::{
    lemma_spoken, message_views, spoken, spoken_messages, ChatMessage, ChatMessageView,
};
use crate::bytes::{char_index, index_at_byte};
use crate::text::{
    chars_of, index_of, join, joined, lemma_index_of, lemma_views_push, position, same,
    string_between, views,
};
use vstd::prelude::*;
use vstd::string::*;

verus! {

/// A part of a message.
#[derive(Debug)]
pub enum Part {
    /// A text.
    Text(String),
    /// An image, by its data URI.
    ImageUrl(String),
    /// An image, by its media type and its base64 text.
    Image { media_type: String, data: String },
}

/// The contents of a `Part`.
pub enum PartView {
    Text(Seq<char>),
    ImageUrl(Seq<char>),
    Image { media_type: Seq<char>, data: Seq<char> },
}

impl View for Part {
    type V = PartView;

    open spec fn view(&self) -> PartView {
        match *self {
            Part::Text(s) => PartView::Text(s@),
            Part::ImageUrl(s) => PartView::ImageUrl(s@),
            Part::Image { media_type, data } => PartView::Image {
                media_type: media_type@,
                data: data@,
            },
        }
    }
}

/// The contents of a list of parts.
pub open spec fn part_views(p: Seq<Part>) -> Seq<PartView> {
    p.map_values(|x: Part| x@)
}

/// What a message holds: a text, or several parts.
#[derive(Debug)]
pub enum Content {
    Text(String),
    Parts(Vec<Part>),
}

/// The contents of a `Content`.
pub enum ContentView {
    Text(Seq<char>),
    Parts(Seq<PartView>),
}

impl View for Content {
    type V = ContentView;

    open spec fn view(&self) -> ContentView {
        match *self {
            Content::Text(s) => ContentView::Text(s@),
            Content::Parts(p) => ContentView::Parts(part_views(p@)),
        }
    }
}

/// A message of a request.
#[derive(Debug)]
pub struct WireMessage {
    pub role: String,
    pub content: Content,
}

/// The contents of a `WireMessage`.
pub struct WireMessageView {
    pub role: Seq<char>,
    pub content: ContentView,
}

impl View for WireMessage {
    type V = WireMessageView;

    open spec fn view(&self) -> WireMessageView {
        WireMessageView { role: self.role@, content: self.content@ }
    }
}

/// The contents of a list of messages.
pub open spec fn wire_views(m: Seq<WireMessage>) -> Seq<WireMessageView> {
    m.map_values(|x: WireMessage| x@)
}

/// The texts of the messages that instruct the model.
pub open spec fn instructions(m: Seq<ChatMessageView>) -> Seq<Seq<char>>
    decreases m.len(),
{
    if m.len() == 0 {
        Seq::empty()
    } else if m.last().is_system() {
        instructions(m.drop_last()).push(m.last().content)
    } else {
        instructions(m.drop_last())
    }
}

/// All instructions in one text.
pub open spec fn system_text(m: Seq<ChatMessageView>) -> Seq<char> {
    joined(instructions(m), "\n\n"@)
}

/// All instructions in one text.
pub fn merge_instructions(messages: &Vec<ChatMessage>) -> (r: String)
    ensures
        r@ == system_text(message_views(messages@)),
{
    let ghost m = message_views(messages@);
    let mut texts: Vec<String> = Vec::new();
    let mut i: usize = 0;
    assert(views(texts@) =~= instructions(m.take(0)));
    while i < messages.len()
        invariant
            m == message_views(messages@),
            i <= messages@.len(),
            views(texts@) == instructions(m.take(i as int)),
        decreases messages@.len() - i,
    {
        assert(m.take(i + 1).drop_last() =~= m.take(i as int));
        assert(m.take(i + 1).last() == messages@[i as int]@);
        if same(messages[i].role.as_str(), "system") {
            let text = messages[i].content.clone();
            proof {
                lemma_views_push(texts@, text);
            }
            texts.push(text);
        }
        i += 1;
    }
    assert(m.take(messages@.len() as int) =~= m);
    join(&texts, "\n\n")
}

// ---------------------------------------------------------------------------------------------
// The form of OpenAI
// ---------------------------------------------------------------------------------------------

/// A message of the conversation: its images come before its text.
pub open spec fn openai_message(m: ChatMessageView) -> WireMessageView {
    WireMessageView {
        role: m.role,
        content: if m.has_images() {
            ContentView::Parts(
                m.images->0.map_values(|i: Seq<char>| PartView::ImageUrl(i)).push(
                    PartView::Text(m.content),
                ),
            )
        } else {
            ContentView::Text(m.content)
        },
    }
}

/// The messages of a request: all instructions first, in one message, then the conversation.
pub open spec fn openai_messages(m: Seq<ChatMessageView>) -> Seq<WireMessageView> {
    let said = spoken(m).map_values(|x: ChatMessageView| openai_message(x));
    if system_text(m).len() == 0 {
        said
    } else {
        seq![WireMessageView { role: "system"@, content: ContentView::Text(system_text(m)) }]
            + said
    }
}

fn openai_form(m: &ChatMessage) -> (r: WireMessage)
    ensures
        r@ == openai_message(m@),
{
    let content = match &m.images {
        Some(images) if images.len() > 0 => {
            let ghost all = views(images@).map_values(|i: Seq<char>| PartView::ImageUrl(i));
            let mut parts: Vec<Part> = Vec::new();
            let mut i: usize = 0;
            assert(part_views(parts@) =~= all.take(0));
            while i < images.len()
                invariant
                    all == views(images@).map_values(|i: Seq<char>| PartView::ImageUrl(i)),
                    i <= images@.len(),
                    part_views(parts@) == all.take(i as int),
                decreases images@.len() - i,
            {
                let ghost before = part_views(parts@);
                let part = Part::ImageUrl(images[i].clone());
                parts.push(part);
                assert(part_views(parts@) =~= before.push(part@));
                assert(all.take(i + 1) =~= all.take(i as int).push(all[i as int]));
                assert(all[i as int] == part@);
                i += 1;
            }
            assert(all.take(images@.len() as int) =~= all);
            let ghost before = part_views(parts@);
            let text = Part::Text(m.content.clone());
            parts.push(text);
            assert(part_views(parts@) =~= before.push(text@));
            Content::Parts(parts)
        },
        _ => Content::Text(m.content.clone()),
    };
    WireMessage { role: m.role.clone(), content }
}

/// The messages of a request, in the form of OpenAI.
pub fn serialize_messages_openai(messages: &Vec<ChatMessage>) -> (r: Vec<WireMessage>)
    ensures
        wire_views(r@) == openai_messages(message_views(messages@)),
{
    let ghost m = message_views(messages@);
    let mut out: Vec<WireMessage> = Vec::new();
    let system = merge_instructions(messages);
    if !system.as_str().is_empty() {
        let first = WireMessage {
            role: String::from_str("system"),
            content: Content::Text(system),
        };
        out.push(first);
        assert(wire_views(out@) =~= seq![first@]);
    }
    let ghost head = wire_views(out@);
    let said = spoken_messages(messages);
    let ghost forms = spoken(m).map_values(|x: ChatMessageView| openai_message(x));
    let mut i: usize = 0;
    assert(head + forms.take(0) =~= head);
    while i < said.len()
        invariant
            message_views(said@) == spoken(m),
            forms == spoken(m).map_values(|x: ChatMessageView| openai_message(x)),
            i <= said@.len(),
            wire_views(out@) == head + forms.take(i as int),
        decreases said@.len() - i,
    {
        let ghost before = wire_views(out@);
        let form = openai_form(&said[i]);
        out.push(form);
        assert(message_views(said@)[i as int] == said@[i as int]@);
        assert(forms[i as int] == form@);
        assert(wire_views(out@) =~= before.push(form@));
        assert(forms.take(i + 1) =~= forms.take(i as int).push(forms[i as int]));
        assert(wire_views(out@) =~= head + forms.take(i + 1));
        i += 1;
    }
    assert(said@.len() == spoken(m).len());
    assert(forms.take(said@.len() as int) =~= forms);
    assert(wire_views(out@) =~= openai_messages(m));
    out
}

/// A request holds at most one instruction, in front, and then the whole conversation in order.
pub proof fn law_instructions_come_first(m: Seq<ChatMessageView>, k: int)
    requires
        0 <= k < openai_messages(m).len(),
    ensures
        ({
            let w = openai_messages(m);
            let n = w.len() - spoken(m).len();
            &&& 0 <= n <= 1
            &&& k < n ==> w[k].role == "system"@ && system_text(m).len() > 0
            &&& k >= n ==> w[k] == openai_message(spoken(m)[k - n]) && w[k].role != "system"@
        }),
{
    lemma_spoken(m);
    let w = openai_messages(m);
    let n = w.len() - spoken(m).len();
    if k >= n {
        assert(!spoken(m)[k - n].is_system());
    }
}

// ---------------------------------------------------------------------------------------------
// The form of Anthropic
// ---------------------------------------------------------------------------------------------

/// Whether an image can be sent: it has no comma, or its first five bytes end at a character in
/// front of the first comma.
pub open spec fn sendable(image: Seq<char>) -> bool {
    let k = index_of(image, ',');
    k < image.len() ==> (index_at_byte(image, 5) matches Some(j) && j <= k)
}

/// An image from its data URI: the media type stands between the fifth byte and the first comma,
/// up to a semicolon, and the data behind the comma. Without a comma there is no image.
pub open spec fn image_part(image: Seq<char>) -> Option<PartView> {
    let k = index_of(image, ',');
    if k >= image.len() {
        None
    } else {
        let head = image.subrange(index_at_byte(image, 5)->0 as int, k as int);
        Some(
            PartView::Image {
                media_type: head.take(index_of(head, ';') as int),
                data: image.skip(k as int + 1),
            },
        )
    }
}

/// The images from their data URIs.
pub open spec fn image_parts(images: Seq<Seq<char>>) -> Seq<PartView>
    decreases images.len(),
{
    if images.len() == 0 {
        Seq::empty()
    } else {
        match image_part(images.last()) {
            Some(p) => image_parts(images.drop_last()).push(p),
            None => image_parts(images.drop_last()),
        }
    }
}

/// A message of the conversation: whoever is not the assistant is the user, and images come
/// before the text.
pub open spec fn anthropic_message(m: ChatMessageView) -> WireMessageView {
    WireMessageView {
        role: if m.role == "assistant"@ {
            "assistant"@
        } else {
            "user"@
        },
        content: if m.has_images() {
            ContentView::Parts(image_parts(m.images->0).push(PartView::Text(m.content)))
        } else {
            ContentView::Text(m.content)
        },
    }
}

/// The messages of a request: the conversation, without the instructions.
pub open spec fn anthropic_messages(m: Seq<ChatMessageView>) -> Seq<WireMessageView> {
    spoken(m).map_values(|x: ChatMessageView| anthropic_message(x))
}

/// Whether all images of a message can be sent.
pub open spec fn message_sendable(m: ChatMessageView) -> bool {
    m.images matches Some(images) ==> forall|i: int|
        0 <= i < images.len() ==> sendable(#[trigger] images[i])
}

/// Whether all images of the conversation can be sent; those of instructions never are.
pub open spec fn all_sendable(m: Seq<ChatMessageView>) -> bool {
    forall|k: int|
        0 <= k < m.len() && (#[trigger] m[k]).role != "system"@ ==> message_sendable(m[k])
}

/// Decides `sendable`.
pub fn is_sendable(image: &str) -> (r: bool)
    ensures
        r == sendable(image@),
{
    let s = chars_of(image);
    let k = position(s.as_slice(), ',', 0);
    proof {
        assert(s@.skip(0) =~= s@);
        lemma_index_of(s@, ',');
    }
    if k < s.len() {
        match char_index(s.as_slice(), 5) {
            Some(j) => j <= k,
            None => false,
        }
    } else {
        true
    }
}

/// Decides `all_sendable`.
pub fn are_sendable(messages: &Vec<ChatMessage>) -> (r: bool)
    ensures
        r == all_sendable(message_views(messages@)),
{
    let ghost m = message_views(messages@);
    let mut k: usize = 0;
    while k < messages.len()
        invariant
            m == message_views(messages@),
            k <= messages@.len(),
            forall|j: int|
                0 <= j < k && (#[trigger] m[j]).role != "system"@ ==> message_sendable(m[j]),
        decreases messages@.len() - k,
    {
        assert(m[k as int] == messages@[k as int]@);
        if same(messages[k].role.as_str(), "system") {
            k += 1;
            continue;
        }
        if let Some(images) = &messages[k].images {
            let ghost l = views(images@);
            let mut i: usize = 0;
            while i < images.len()
                invariant
                    k < messages@.len(),
                    m == message_views(messages@),
                    m[k as int].role != "system"@,
                    l == views(images@),
                    m[k as int].images == Some(l),
                    i <= images@.len(),
                    forall|j: int| 0 <= j < i ==> sendable(#[trigger] l[j]),
                decreases images@.len() - i,
            {
                assert(l[i as int] == images@[i as int]@);
                if !is_sendable(images[i].as_str()) {
                    assert(!sendable(m[k as int].images->0[i as int]));
                    assert(!message_sendable(m[k as int]));
                    return false;
                }
                i += 1;
            }
        }
        k += 1;
    }
    true
}

fn image_form(image: &str) -> (r: Option<Part>)
    requires
        sendable(image@),
    ensures
        match r {
            Some(p) => image_part(image@) == Some(p@),
            None => image_part(image@) is None,
        },
{
    let s = chars_of(image);
    let k = position(s.as_slice(), ',', 0);
    proof {
        assert(s@.skip(0) =~= s@);
        lemma_index_of(s@, ',');
    }
    if k < s.len() {
        if let Some(j) = char_index(s.as_slice(), 5) {
            let head = string_between(s.as_slice(), j, k);
            let h = chars_of(head.as_str());
            let e = position(h.as_slice(), ';', 0);
            proof {
                assert(h@.skip(0) =~= h@);
                lemma_index_of(h@, ';');
            }
            let media_type = string_between(h.as_slice(), 0, e);
            assert(media_type@ =~= head@.take(e as int));
            let data = string_between(s.as_slice(), k + 1, s.len());
            assert(data@ =~= image@.skip(k as int + 1));
            return Some(Part::Image { media_type, data });
        }
    }
    None
}

fn anthropic_form(m: &ChatMessage) -> (r: WireMessage)
    requires
        message_sendable(m@),
    ensures
        r@ == anthropic_message(m@),
{
    let role = String::from_str(
        if same(m.role.as_str(), "assistant") {
            "assistant"
        } else {
            "user"
        },
    );
    let content = match &m.images {
        Some(images) if images.len() > 0 => {
            let ghost l = views(images@);
            let mut parts: Vec<Part> = Vec::new();
            let mut i: usize = 0;
            assert(part_views(parts@) =~= image_parts(l.take(0)));
            while i < images.len()
                invariant
                    l == views(images@),
                    forall|j: int| 0 <= j < l.len() ==> sendable(#[trigger] l[j]),
                    i <= images@.len(),
                    part_views(parts@) == image_parts(l.take(i as int)),
                decreases images@.len() - i,
            {
                let ghost before = part_views(parts@);
                assert(l.take(i + 1).drop_last() =~= l.take(i as int));
                assert(l.take(i + 1).last() == l[i as int]);
                assert(l[i as int] == images@[i as int]@);
                if let Some(part) = image_form(images[i].as_str()) {
                    parts.push(part);
                    assert(part_views(parts@) =~= before.push(part@));
                }
                i += 1;
            }
            assert(l.take(images@.len() as int) =~= l);
            let ghost before = part_views(parts@);
            let text = Part::Text(m.content.clone());
            parts.push(text);
            assert(part_views(parts@) =~= before.push(text@));
            Content::Parts(parts)
        },
        _ => Content::Text(m.content.clone()),
    };
    WireMessage { role, content }
}

/// The messages of a request, in the form of Anthropic.
pub fn serialize_messages_anthropic(messages: &Vec<ChatMessage>) -> (r: Vec<WireMessage>)
    requires
        all_sendable(message_views(messages@)),
    ensures
        wire_views(r@) == anthropic_messages(message_views(messages@)),
{
    let ghost m = message_views(messages@);
    let said = spoken_messages(messages);
    let ghost forms = anthropic_messages(m);
    proof {
        lemma_spoken_sendable(m);
    }
    let mut out: Vec<WireMessage> = Vec::new();
    let mut i: usize = 0;
    assert(wire_views(out@) =~= forms.take(0));
    while i < said.len()
        invariant
            message_views(said@) == spoken(m),
            forall|k: int| 0 <= k < spoken(m).len() ==> message_sendable(#[trigger] spoken(m)[k]),
            forms == anthropic_messages(m),
            i <= said@.len(),
            wire_views(out@) == forms.take(i as int),
        decreases said@.len() - i,
    {
        let ghost before = wire_views(out@);
        assert(message_views(said@)[i as int] == said@[i as int]@);
        assert(message_sendable(spoken(m)[i as int]));
        let form = anthropic_form(&said[i]);
        out.push(form);
        assert(forms[i as int] == form@);
        assert(wire_views(out@) =~= before.push(form@));
        assert(forms.take(i + 1) =~= forms.take(i as int).push(forms[i as int]));
        i += 1;
    }
    assert(said@.len() == spoken(m).len());
    assert(forms.take(said@.len() as int) =~= forms);
    out
}

proof fn lemma_spoken_sendable(m: Seq<ChatMessageView>)
    requires
        all_sendable(m),
    ensures
        forall|k: int| 0 <= k < spoken(m).len() ==> message_sendable(#[trigger] spoken(m)[k]),
    decreases m.len(),
{
    if m.len() > 0 {
        let rest = m.drop_last();
        assert forall|k: int|
            0 <= k < rest.len() && (#[trigger] rest[k]).role
                != "system"@ implies message_sendable(rest[k]) by {
            assert(rest[k] == m[k]);
        }
        lemma_spoken_sendable(rest);
        if !m.last().is_system() {
            assert(m[m.len() - 1] == m.last());
            assert forall|k: int| 0 <= k < spoken(m).len() implies message_sendable(
                #[trigger] spoken(m)[k],
            ) by {
                if k < spoken(rest).len() {
                    assert(spoken(m)[k] == spoken(rest)[k]);
                }
            }
        }
    }
}

/// The data URI of an image.
pub open spec fn uri(media_type: Seq<char>, data: Seq<char>) -> Seq<char> {
    "data:"@ + media_type + ";base64,"@ + data
}

/// An image that was put into a data URI comes out of it again.
pub proof fn law_images_survive(media_type: Seq<char>, data: Seq<char>)
    requires
        !media_type.contains(','),
        !media_type.contains(';'),
    ensures
        sendable(uri(media_type, data)),
        image_part(uri(media_type, data)) == Some(PartView::Image { media_type, data }),
{
    let s = uri(media_type, data);
    reveal_strlit("data:");
    reveal_strlit(";base64,");
    let n = media_type.len();
    let k = 12 + n;
    assert(s[k as int] == ',');
    assert forall|i: int| 0 <= i < k implies s[i] != ',' by {
        if 5 <= i < 5 + n {
            assert(s[i] == media_type[i - 5]);
        } else if i >= 5 + n {
            assert(s[i] == ";base64,"@[i - 5 - n]);
        } else {
            assert(s[i] == "data:"@[i]);
        }
    }
    lemma_index_of(s, ',');
    assert(index_of(s, ',') == k);
    lemma_five_bytes(s);
    let head = s.subrange(5, k as int);
    assert(head[n as int] == ';');
    assert forall|i: int| 0 <= i < n implies head[i] != ';' by {
        assert(head[i] == media_type[i]);
    }
    lemma_index_of(head, ';');
    assert(head.take(n as int) =~= media_type);
    assert(s.skip(k as int + 1) =~= data);
}

proof fn lemma_five_bytes(s: Seq<char>)
    requires
        s.len() >= 5,
        forall|i: int| 0 <= i < 5 ==> (#[trigger] s[i]) as u32 <= 0x7f,
    ensures
        index_at_byte(s, 5) == Some(5nat),
{
    reveal_with_fuel(index_at_byte, 6);
    let a = s.skip(1);
    let b = a.skip(1);
    let c = b.skip(1);
    let d = c.skip(1);
    assert(a[0] == s[1] && b[0] == s[2] && c[0] == s[3] && d[0] == s[4]);
}

// ---------------------------------------------------------------------------------------------
// What holds of all conversations
// ---------------------------------------------------------------------------------------------

/// The conversation is what is not said by the system, and the instructions are what is, in order.
pub proof fn law_conversation(m: Seq<ChatMessageView>)
    ensures
        spoken(m) == m.filter(|x: ChatMessageView| x.role != "system"@),
        instructions(m) == m.filter(|x: ChatMessageView| x.role == "system"@).map_values(
            |x: ChatMessageView| x.content,
        ),
        system_text(m) == joined(instructions(m), "\n\n"@),
    decreases m.len(),
{
    reveal(Seq::filter);
    let text = |x: ChatMessageView| x.content;
    let system = |x: ChatMessageView| x.role == "system"@;
    if m.len() > 0 {
        let rest = m.drop_last();
        law_conversation(rest);
        if m.last().role == "system"@ {
            assert(rest.filter(system).push(m.last()).map_values(text) =~= rest.filter(
                system,
            ).map_values(text).push(m.last().content));
        }
    }
    assert(instructions(m) =~= m.filter(system).map_values(text));
    assert(spoken(m) =~= m.filter(|x: ChatMessageView| x.role != "system"@));
}

/// Every message of the conversation keeps its role, its text and its images in a request in the form
/// of OpenAI: all instructions come first, in one message with empty lines between them, and then each
/// message that is no instruction, with its text, or with all of its images in order and then its
/// text.
pub proof fn law_openai_requests_keep_everything(m: Seq<ChatMessageView>)
    ensures
        ({
            let said = m.filter(|x: ChatMessageView| x.role != "system"@);
            let told = joined(
                m.filter(|x: ChatMessageView| x.role == "system"@).map_values(
                    |x: ChatMessageView| x.content,
                ),
                "\n\n"@,
            );
            let w = openai_messages(m);
            let n: int = if told.len() > 0 {
                1
            } else {
                0
            };
            &&& w.len() == n + said.len()
            &&& n == 1 ==> w[0].role == "system"@ && w[0].content == ContentView::Text(told)
            &&& forall|k: int|
                0 <= k < said.len() ==> {
                    &&& (#[trigger] w[n + k]).role == said[k].role
                    &&& (said[k].images is None || said[k].images->0.len() == 0) ==> w[n
                        + k].content == ContentView::Text(said[k].content)
                    &&& said[k].images is Some && said[k].images->0.len() > 0 ==> {
                        let parts = w[n + k].content->Parts_0;
                        let images = said[k].images->0;
                        &&& w[n + k].content is Parts
                        &&& parts.len() == images.len() + 1
                        &&& forall|i: int|
                            0 <= i < images.len() ==> #[trigger] parts[i] == PartView::ImageUrl(
                                images[i],
                            )
                        &&& parts.last() == PartView::Text(said[k].content)
                    }
                }
        }),
{
    law_conversation(m);
    let said = spoken(m);
    let w = openai_messages(m);
    let n: int = if system_text(m).len() > 0 {
        1
    } else {
        0
    };
    assert forall|k: int| 0 <= k < said.len() implies #[trigger] w[n + k] == openai_message(
        said[k],
    ) by {}
}

/// Every message of the conversation keeps its text in a request in the form of Anthropic. The
/// assistant speaks for itself, and whoever else speaks is the user. A message with images is sent
/// with those that can be read, and then its text.
pub proof fn law_anthropic_requests_keep_everything(m: Seq<ChatMessageView>)
    ensures
        ({
            let said = m.filter(|x: ChatMessageView| x.role != "system"@);
            let w = anthropic_messages(m);
            &&& w.len() == said.len()
            &&& forall|k: int|
                0 <= k < said.len() ==> {
                    &&& (#[trigger] w[k]).role == "assistant"@ <==> said[k].role == "assistant"@
                    &&& w[k].role == "user"@ <==> said[k].role != "assistant"@
                    &&& (said[k].images is None || said[k].images->0.len() == 0) ==> w[k].content
                        == ContentView::Text(said[k].content)
                    &&& said[k].images is Some && said[k].images->0.len() > 0 ==> w[k].content
                        == ContentView::Parts(
                        image_parts(said[k].images->0).push(PartView::Text(said[k].content)),
                    )
                }
        }),
{
    law_conversation(m);
    reveal_strlit("assistant");
    reveal_strlit("user");
    assert("assistant"@.len() != "user"@.len());
    let said = spoken(m);
    let w = anthropic_messages(m);
    assert forall|k: int| 0 <= k < said.len() implies #[trigger] w[k] == anthropic_message(
        said[k],
    ) by {}
}

/// All images that were put into data URIs are sent to Anthropic, in order, each by its media type and
/// its data.
pub proof fn law_images_are_sent(
    images: Seq<Seq<char>>,
    media_types: Seq<Seq<char>>,
    data: Seq<Seq<char>>,
)
    requires
        media_types.len() == images.len(),
        data.len() == images.len(),
        forall|i: int|
            0 <= i < images.len() ==> {
                &&& #[trigger] images[i] == uri(media_types[i], data[i])
                &&& !media_types[i].contains(',')
                &&& !media_types[i].contains(';')
            },
    ensures
        image_parts(images).len() == images.len(),
        forall|i: int|
            0 <= i < images.len() ==> #[trigger] image_parts(images)[i] == (PartView::Image {
                media_type: media_types[i],
                data: data[i],
            }),
    decreases images.len(),
{
    if images.len() > 0 {
        let a = images.drop_last();
        let b = media_types.drop_last();
        let c = data.drop_last();
        assert forall|i: int| 0 <= i < a.len() implies {
            &&& #[trigger] a[i] == uri(b[i], c[i])
            &&& !b[i].contains(',')
            &&& !b[i].contains(';')
        } by {
            assert(images[i] == uri(media_types[i], data[i]));
        }
        law_images_are_sent(a, b, c);
        let z = images.len() - 1;
        assert(images[z] == uri(media_types[z], data[z]));
        law_images_survive(media_types[z], data[z]);
        assert(images.last() == images[z]);
        assert forall|i: int| 0 <= i < images.len() implies #[trigger] image_parts(images)[i] == (
        PartView::Image { media_type: media_types[i], data: data[i] }) by {
            if i < z {
                assert(image_parts(images)[i] == image_parts(a)[i]);
                assert(b[i] == media_types[i] && c[i] == data[i]);
            }
        }
    }
}

/// A data URI names the media type and that base64 text follows.
pub proof fn law_uri(media_type: Seq<char>, data: Seq<char>)
    ensures
        uri(media_type, data) == "data:"@ + media_type + ";base64,"@ + data,
{
}

/// An image that is no data URI cannot be sent by its data, and is left out without a trace. One with a
/// comma among its first five bytes cannot be sent at all.
pub proof fn law_other_images(images: Seq<Seq<char>>, image: Seq<char>)
    ensures
        !image.contains(',') ==> sendable(image) && image_part(image) is None && image_parts(
            images.push(image),
        ) == image_parts(images),
        image_parts(Seq::empty()) == Seq::<PartView>::empty(),
        image.len() > 0 && image[0] == ',' ==> !sendable(image),
{
    lemma_index_of(image, ',');
    assert(images.push(image).drop_last() =~= images);
    if !image.contains(',') {
        if index_of(image, ',') < image.len() {
            assert(image.contains(image[index_of(image, ',') as int]));
        }
    }
    if image.len() > 0 && image[0] == ',' {
        assert(index_of(image, ',') == 0);
    }
}

} // verus!
