//! The streams of server-sent events in which a model answers.
use crate::backend::protocol::{sent_views, BackendMessage, BackendMessageView};
use crate::json::{
    elements, get_elements, get_member, get_string, is_object, member, string_member,
};
use crate::outside::{from_utf8_lossy, json_node, lossy_text, JsonNodeView};
use crate::text::{
    begins, chars_of, contains, has, law_first_copy_replaced, law_nothing_to_replace, occurs_at,
    option_view, replace, replaced, same, starts_with, string_between, trim, trimmed, views,
};
use vstd::prelude::*;
use vstd::string::*;
use vstd::utf8::*;

verus! {

/// How the events of a stream are written.
#[derive(Clone, Copy, Debug, PartialEq, Eq, Structural)]
pub enum Dialect {
    OpenAi,
    Anthropic,
}

/// The change that an event of an OpenAI stream carries, as JSON text: the object `delta` of the
/// first element of the list `choices`.
pub open spec fn delta(data: Seq<char>) -> Option<Seq<char>> {
    match member(data, "choices"@) {
        Some(choices) => match elements(choices) {
            Some(list) => if list.len() == 0 {
                None
            } else {
                match member(list[0], "delta"@) {
                    Some(d) => match json_node(d) {
                        Some(JsonNodeView::Object(_)) => Some(d),
                        _ => None,
                    },
                    None => None,
                }
            },
            None => None,
        },
        None => None,
    }
}

/// What is shown of a piece of content, and whether the model is thinking afterwards. The marks
/// around its thoughts are taken out, and so is a piece that ends within them.
pub open spec fn visible(content: Seq<char>, thinking: bool) -> (Seq<char>, bool) {
    let (c1, t1) = if contains(content, "<think>"@) {
        (replaced(content, "<think>"@, ""@), true)
    } else {
        (content, thinking)
    };
    let (c2, t2) = if contains(c1, "</think>"@) {
        (replaced(c1, "</think>"@, ""@), false)
    } else {
        (c1, t1)
    };
    (
        if t2 {
            Seq::empty()
        } else {
            c2
        },
        t2,
    )
}

/// The text of a change, and whether the model is thinking afterwards: its reasoning, then what
/// is shown of its content.
pub open spec fn change_text(
    reasoning: Option<Seq<char>>,
    content: Option<Seq<char>>,
    thinking: bool,
) -> (Seq<char>, bool) {
    let thoughts = match reasoning {
        Some(s) => s,
        None => Seq::empty(),
    };
    match content {
        Some(c) => (thoughts + visible(c, thinking).0, visible(c, thinking).1),
        None => (thoughts, thinking),
    }
}

/// A token, unless it is empty.
pub open spec fn token(text: Seq<char>) -> Option<BackendMessageView> {
    if text.len() == 0 {
        None
    } else {
        Some(BackendMessageView::Token { content: text })
    }
}

/// What an event of an Anthropic stream leads to, from its type and the text that it carries.
pub open spec fn event_sent(kind: Option<Seq<char>>, text: Option<Seq<char>>) -> Option<
    BackendMessageView,
> {
    if kind == Some("content_block_delta"@) {
        match text {
            Some(t) => token(t),
            None => None,
        }
    } else if kind == Some("message_stop"@) {
        Some(BackendMessageView::Done)
    } else {
        None
    }
}

/// The text that an event of an Anthropic stream carries: the string `text` of its member `delta`.
pub open spec fn event_text(data: Seq<char>) -> Option<Seq<char>> {
    match member(data, "delta"@) {
        Some(d) => string_member(d, "text"@),
        None => None,
    }
}

/// What an event leads to, from its data.
pub open spec fn on_data(dialect: Dialect, data: Seq<char>, thinking: bool) -> (
    Option<BackendMessageView>,
    bool,
) {
    if data == "[DONE]"@ {
        (Some(BackendMessageView::Done), thinking)
    } else {
        match dialect {
            Dialect::OpenAi => match delta(data) {
                Some(d) => {
                    let (text, after) = change_text(
                        string_member(d, "reasoning_content"@),
                        string_member(d, "content"@),
                        thinking,
                    );
                    (token(text), after)
                },
                None => (None, thinking),
            },
            Dialect::Anthropic => (
                event_sent(string_member(data, "type"@), event_text(data)),
                thinking,
            ),
        }
    }
}

/// What a line of a stream leads to. Only lines that begin with `data:` count.
pub open spec fn on_line(dialect: Dialect, line: Seq<char>, thinking: bool) -> (
    Option<BackendMessageView>,
    bool,
) {
    if begins(line, "data:"@) {
        on_data(dialect, trim(line.skip(5)), thinking)
    } else {
        (None, thinking)
    }
}

/// The state of a stream: the line so far, whether the model is thinking, and whether the answer
/// is complete.
#[verifier::ext_equal]
pub struct StreamView {
    pub dialect: Dialect,
    pub line: Seq<char>,
    pub thinking: bool,
    pub done: bool,
}

/// The stream after one more character, and what it leads to. Nothing counts after the end.
pub open spec fn on_char(s: StreamView, c: char) -> (StreamView, Seq<BackendMessageView>) {
    if s.done {
        (s, Seq::empty())
    } else if c != '\n' {
        (StreamView { line: s.line.push(c), ..s }, Seq::empty())
    } else {
        let (sent, thinking) = on_line(s.dialect, s.line, s.thinking);
        match sent {
            Some(m) => (
                StreamView {
                    line: Seq::empty(),
                    thinking,
                    done: m is Done,
                    ..s
                },
                seq![m],
            ),
            None => (StreamView { line: Seq::empty(), thinking, ..s }, Seq::empty()),
        }
    }
}

/// The stream after some more text, and what it leads to.
pub open spec fn on_text(s: StreamView, text: Seq<char>) -> (StreamView, Seq<BackendMessageView>)
    decreases text.len(),
{
    if text.len() == 0 {
        (s, Seq::empty())
    } else {
        let (before, sent) = on_text(s, text.drop_last());
        let (after, more) = on_char(before, text.last());
        (after, sent + more)
    }
}

/// A stream that is being read.
pub struct Stream {
    dialect: Dialect,
    line: String,
    thinking: bool,
    done: bool,
}

impl View for Stream {
    type V = StreamView;

    closed spec fn view(&self) -> StreamView {
        StreamView {
            dialect: self.dialect,
            line: self.line@,
            thinking: self.thinking,
            done: self.done,
        }
    }
}

fn token_of(text: String) -> (r: Option<BackendMessage>)
    ensures
        message_option(r) == token(text@),
{
    if text.as_str().is_empty() {
        None
    } else {
        Some(BackendMessage::Token { content: text })
    }
}

/// The contents of an optional backend message.
pub open spec fn message_option(m: Option<BackendMessage>) -> Option<BackendMessageView> {
    match m {
        Some(x) => Some(x@),
        None => None,
    }
}

fn delta_of(data: &str) -> (r: Option<String>)
    ensures
        match r {
            Some(d) => delta(data@) == Some(d@),
            None => delta(data@) is None,
        },
{
    let choices = match get_member(data, "choices") {
        Some(c) => c,
        None => {
            return None;
        },
    };
    let list = match get_elements(choices.as_str()) {
        Some(l) => l,
        None => {
            return None;
        },
    };
    assert(views(list@).len() == list@.len());
    if list.len() == 0 {
        return None;
    }
    assert(views(list@)[0] == list@[0]@);
    match get_member(list[0].as_str(), "delta") {
        Some(d) => if is_object(d.as_str()) {
            Some(d)
        } else {
            None
        },
        None => None,
    }
}

/// What is shown of a piece of content, and whether the model is thinking afterwards.
pub fn visible_part(content: String, thinking: bool) -> (r: (String, bool))
    ensures
        (r.0@, r.1) == visible(content@, thinking),
{
    let mut c = content;
    let mut t = thinking;
    if has(c.as_str(), "<think>") {
        t = true;
        c = replace(c.as_str(), "<think>", "");
    }
    if has(c.as_str(), "</think>") {
        t = false;
        c = replace(c.as_str(), "</think>", "");
    }
    if t {
        c = String::new();
    }
    (c, t)
}

/// What a change leads to, from its two texts, and whether the model is thinking afterwards.
pub fn change_message(reasoning: Option<String>, content: Option<String>, thinking: bool) -> (r: (
    Option<BackendMessage>,
    bool,
))
    ensures
        ({
            let (text, after) = change_text(option_view(reasoning), option_view(content), thinking);
            message_option(r.0) == token(text) && r.1 == after
        }),
{
    let mut text = String::new();
    if let Some(s) = reasoning {
        text.append(s.as_str());
    }
    let mut after = thinking;
    if let Some(c) = content {
        let (shown, t) = visible_part(c, thinking);
        text.append(shown.as_str());
        after = t;
    }
    assert(text@ =~= change_text(option_view(reasoning), option_view(content), thinking).0);
    (token_of(text), after)
}

/// What an event of an Anthropic stream leads to, from its type and the text that it carries.
pub fn event_message(kind: Option<String>, text: Option<String>) -> (r: Option<BackendMessage>)
    ensures
        message_option(r) == event_sent(option_view(kind), option_view(text)),
{
    match kind {
        Some(k) => {
            if same(k.as_str(), "content_block_delta") {
                match text {
                    Some(t) => token_of(t),
                    None => None,
                }
            } else if same(k.as_str(), "message_stop") {
                Some(BackendMessage::Done)
            } else {
                None
            }
        },
        None => None,
    }
}

impl Stream {
    /// A stream of which nothing has been read.
    pub fn new(dialect: Dialect) -> (r: Stream)
        ensures
            r@ == (StreamView { dialect, line: Seq::empty(), thinking: false, done: false }),
    {
        Stream { dialect, line: String::new(), thinking: false, done: false }
    }

    /// Whether the answer is complete.
    pub fn is_done(&self) -> (r: bool)
        ensures
            r == self@.done,
    {
        self.done
    }

    fn take_data(&mut self, data: &str) -> (r: Option<BackendMessage>)
        ensures
            (message_option(r), final(self)@.thinking) == on_data(
                old(self)@.dialect,
                data@,
                old(self)@.thinking,
            ),
            final(self)@ == (StreamView { thinking: final(self)@.thinking, ..old(self)@ }),
    {
        if same(data, "[DONE]") {
            return Some(BackendMessage::Done);
        }
        match self.dialect {
            Dialect::OpenAi => match delta_of(data) {
                Some(d) => {
                    let reasoning = get_string(d.as_str(), "reasoning_content");
                    let content = get_string(d.as_str(), "content");
                    let (sent, thinking) = change_message(reasoning, content, self.thinking);
                    self.thinking = thinking;
                    sent
                },
                None => None,
            },
            Dialect::Anthropic => {
                let kind = get_string(data, "type");
                let text = match get_member(data, "delta") {
                    Some(d) => get_string(d.as_str(), "text"),
                    None => None,
                };
                event_message(kind, text)
            },
        }
    }

    fn take_char(&mut self, c: char, out: &mut Vec<BackendMessage>)
        ensures
            final(self)@ == on_char(old(self)@, c).0,
            sent_views(final(out)@) == sent_views(old(out)@) + on_char(old(self)@, c).1,
    {
        assert(sent_views(out@) + Seq::<BackendMessageView>::empty() =~= sent_views(out@));
        if self.done {
        } else if c != '\n' {
            self.line.push(c);
        } else {
            let ghost whole = self.line@;
            let line = self.line.clone();
            self.line = String::new();
            if starts_with(line.as_str(), "data:") {
                let chars = chars_of(line.as_str());
                proof {
                    reveal_strlit("data:");
                    assert("data:"@.len() == 5);
                }
                let rest = string_between(chars.as_slice(), 5, chars.len());
                assert(rest@ =~= whole.skip(5));
                let data = trimmed(rest.as_str());
                if let Some(m) = self.take_data(data.as_str()) {
                    self.done = matches!(m, BackendMessage::Done);
                    let ghost before = sent_views(out@);
                    out.push(m);
                    assert(sent_views(out@) =~= before + seq![m@]);
                }
            }
        }
    }

    /// Takes a piece of the text of the stream, and gives what it leads to.
    pub fn feed_text(&mut self, piece: &str) -> (r: Vec<BackendMessage>)
        ensures
            (final(self)@, sent_views(r@)) == on_text(old(self)@, piece@),
    {
        let chars = chars_of(piece);
        let ghost text = piece@;
        let mut out: Vec<BackendMessage> = Vec::new();
        let mut i: usize = 0;
        assert(text.take(0) =~= Seq::empty());
        assert(sent_views(out@) =~= Seq::empty());
        while i < chars.len()
            invariant
                chars@ == text,
                i <= chars@.len(),
                (self@, sent_views(out@)) == on_text(old(self)@, text.take(i as int)),
            decreases chars@.len() - i,
        {
            assert(text.take(i + 1).drop_last() =~= text.take(i as int));
            assert(text.take(i + 1).last() == text[i as int]);
            self.take_char(chars[i], &mut out);
            i += 1;
        }
        assert(text.take(text.len() as int) =~= text);
        out
    }

    /// Takes a piece of the stream as it comes, and gives what it leads to. Bytes that are no text
    /// are replaced.
    pub fn feed(&mut self, chunk: &[u8]) -> (r: Vec<BackendMessage>)
        ensures
            (final(self)@, sent_views(r@)) == on_text(old(self)@, lossy_text(chunk@)),
            valid_utf8(chunk@) ==> lossy_text(chunk@) == decode_utf8(chunk@),
    {
        let s = from_utf8_lossy(chunk);
        self.feed_text(s.as_str())
    }
}

/// It does not matter where the text of a stream is cut into pieces.
pub proof fn law_pieces_add_up(s: StreamView, x: Seq<char>, y: Seq<char>)
    ensures
        ({
            let (t, sent) = on_text(s, x);
            let (u, more) = on_text(t, y);
            on_text(s, x + y) == (u, sent + more)
        }),
    decreases y.len(),
{
    let (t, sent) = on_text(s, x);
    if y.len() == 0 {
        assert(x + y =~= x);
        assert(sent + Seq::<BackendMessageView>::empty() =~= sent);
    } else {
        law_pieces_add_up(s, x, y.drop_last());
        assert((x + y).drop_last() =~= x + y.drop_last());
        let (before, m1) = on_text(t, y.drop_last());
        let (after, m2) = on_char(before, y.last());
        assert(sent + (m1 + m2) =~= (sent + m1) + m2);
    }
}

/// Nothing follows the end of an answer, and no token is empty.
pub proof fn law_answers_end_once(s: StreamView, text: Seq<char>)
    requires
        !s.done,
    ensures
        ({
            let (t, sent) = on_text(s, text);
            &&& forall|i: int|
                0 <= i < sent.len() ==> match #[trigger] sent[i] {
                    BackendMessageView::Done => i == sent.len() - 1 && t.done,
                    BackendMessageView::Token { content } => content.len() > 0,
                    BackendMessageView::Error { .. } => false,
                }
            &&& t.done ==> sent.len() > 0 && sent.last() is Done
            &&& t.dialect == s.dialect
        }),
    decreases text.len(),
{
    if text.len() > 0 {
        law_answers_end_once(s, text.drop_last());
        let (before, sent) = on_text(s, text.drop_last());
        let (after, more) = on_char(before, text.last());
        let all = sent + more;
        assert forall|i: int| 0 <= i < all.len() implies match #[trigger] all[i] {
            BackendMessageView::Done => i == all.len() - 1 && after.done,
            BackendMessageView::Token { content } => content.len() > 0,
            BackendMessageView::Error { .. } => false,
        } by {
            if i < sent.len() {
                assert(all[i] == sent[i]);
            } else {
                assert(all[i] == more[i - sent.len()]);
            }
        }
    }
}

/// What the model thinks is not shown, and what it says is: a piece without marks is passed on
/// unchanged, or left out while the model is thinking.
pub proof fn law_thoughts_are_hidden(content: Seq<char>)
    requires
        !contains(content, "<think>"@),
        !contains(content, "</think>"@),
    ensures
        visible(content, false) == (content, false),
        visible(content, true) == (Seq::<char>::empty(), true),
{
}

proof fn lemma_line_so_far(s: StreamView, x: Seq<char>)
    requires
        !s.done,
        s.line.len() == 0,
        !x.contains('\n'),
    ensures
        on_text(s, x) == (StreamView { line: x, ..s }, Seq::<BackendMessageView>::empty()),
    decreases x.len(),
{
    if x.len() == 0 {
        assert(s.line =~= x);
    } else {
        let t = x.drop_last();
        assert forall|k: int| 0 <= k < t.len() implies t[k] != '\n' by {
            assert(x.contains(x[k]));
        }
        assert(x.contains(x.last()));
        lemma_line_so_far(s, t);
        assert(t.push(x.last()) =~= x);
        assert(Seq::<BackendMessageView>::empty() + Seq::<BackendMessageView>::empty()
            =~= Seq::<BackendMessageView>::empty());
    }
}

proof fn lemma_whole_line(s: StreamView, x: Seq<char>)
    requires
        !s.done,
        s.line.len() == 0,
        !x.contains('\n'),
    ensures
        on_text(s, x.push('\n')) == on_char(StreamView { line: x, ..s }, '\n'),
{
    lemma_line_so_far(s, x);
    let y = x.push('\n');
    assert(y.drop_last() =~= x);
    let more = on_char(StreamView { line: x, ..s }, '\n').1;
    assert(Seq::<BackendMessageView>::empty() + more =~= more);
}

/// Whether `line` is a whole line with an event that carries `data`.
pub open spec fn is_event(line: Seq<char>, data: Seq<char>) -> bool {
    &&& !line.contains('\n')
    &&& begins(line, "data:"@)
    &&& trim(line.skip(5)) == data
}

/// What an event of an OpenAI stream leads to. Its change holds a reasoning and a content, either of
/// which may be missing. The reasoning is passed on whole, whatever the content, and in front of it.
/// What comes of the content follows it. If both leave nothing, nothing is sent, else one token.
pub proof fn law_openai_event(
    s: StreamView,
    line: Seq<char>,
    data: Seq<char>,
    choices: Seq<char>,
    list: Seq<Seq<char>>,
    change: Seq<char>,
)
    requires
        s.dialect == Dialect::OpenAi,
        !s.done,
        s.line.len() == 0,
        is_event(line, data),
        data != "[DONE]"@,
        member(data, "choices"@) == Some(choices),
        elements(choices) == Some(list),
        list.len() > 0,
        member(list[0], "delta"@) == Some(change),
        json_node(change) matches Some(n) && n is Object,
    ensures
        ({
            let (t, sent) = on_text(s, line.push('\n'));
            let reasoning = string_member(change, "reasoning_content"@);
            let content = string_member(change, "content"@);
            let thoughts = if reasoning is Some {
                reasoning->0
            } else {
                Seq::empty()
            };
            &&& t == StreamView { thinking: t.thinking, ..s }
            &&& content is None ==> {
                &&& t.thinking == s.thinking
                &&& thoughts.len() > 0 ==> sent == seq![
                    BackendMessageView::Token { content: thoughts },
                ]
                &&& thoughts.len() == 0 ==> sent.len() == 0
            }
            &&& content matches Some(c) ==> {
                let text = thoughts + visible(c, s.thinking).0;
                &&& t.thinking == visible(c, s.thinking).1
                &&& text.len() > 0 ==> sent == seq![BackendMessageView::Token { content: text }]
                &&& text.len() == 0 ==> sent.len() == 0
            }
            &&& thoughts.len() > 0 ==> {
                &&& sent.len() == 1
                &&& sent[0] is Token
                &&& thoughts.is_prefix_of(sent[0]->content)
            }
        }),
{
    lemma_whole_line(s, line);
    let reasoning = string_member(change, "reasoning_content"@);
    let content = string_member(change, "content"@);
    let (text, after) = change_text(reasoning, content, s.thinking);
    assert(s.line =~= Seq::<char>::empty());
    assert(delta(data) == Some(change));
    assert(on_line(s.dialect, line, s.thinking) == (token(text), after));
}

/// What comes of a content with marks, where `a`, `b` and `c` hold none: the marks are taken out. A
/// thought that begins and ends in one piece is shown, one that goes on hides the piece, and the piece
/// in which one ends is shown.
pub proof fn law_marks(a: Seq<char>, b: Seq<char>, c: Seq<char>, thinking: bool)
    requires
        !a.contains('<'),
        !b.contains('<'),
        !c.contains('<'),
    ensures
        visible(a + "<think>"@ + b + "</think>"@ + c, thinking) == (a + b + c, false),
        visible(a + "<think>"@ + b, thinking) == (Seq::<char>::empty(), true),
        visible(a + "</think>"@ + b, thinking) == (a + b, false),
        visible(a, thinking) == (if thinking {
            Seq::<char>::empty()
        } else {
            a
        }, thinking),
{
    lemma_thought_goes_on(a, b, thinking);
    lemma_thought_ends(a, b, thinking);
    lemma_whole_thought(a, b, c, thinking);
    reveal_strlit("<think>");
    reveal_strlit("</think>");
    lemma_no_mark(a, "<think>"@);
    lemma_no_mark(a, "</think>"@);
}

proof fn lemma_thought_goes_on(a: Seq<char>, b: Seq<char>, thinking: bool)
    requires
        !a.contains('<'),
        !b.contains('<'),
    ensures
        visible(a + "<think>"@ + b, thinking) == (Seq::<char>::empty(), true),
{
    reveal_strlit("<think>");
    reveal_strlit("</think>");
    reveal_strlit("");
    assert("<think>"@[0] == '<' && "</think>"@[0] == '<');
    lemma_only_mark(a, "<think>"@, b);
    assert(a + ""@ + b =~= a + b);
    lemma_no_bracket(a, b);
    lemma_no_mark(a + b, "</think>"@);
}

proof fn lemma_thought_ends(a: Seq<char>, b: Seq<char>, thinking: bool)
    requires
        !a.contains('<'),
        !b.contains('<'),
    ensures
        visible(a + "</think>"@ + b, thinking) == (a + b, false),
{
    reveal_strlit("</think>");
    reveal_strlit("");
    assert("</think>"@[0] == '<');
    lemma_only_mark(a, "</think>"@, b);
    assert(a + ""@ + b =~= a + b);
    lemma_no_open(a, b);
}

proof fn lemma_whole_thought(a: Seq<char>, b: Seq<char>, c: Seq<char>, thinking: bool)
    requires
        !a.contains('<'),
        !b.contains('<'),
        !c.contains('<'),
    ensures
        visible(a + "<think>"@ + b + "</think>"@ + c, thinking) == (a + b + c, false),
{
    let rest = b + "</think>"@ + c;
    let w = a + b + "</think>"@ + c;
    reveal_strlit("<think>");
    reveal_strlit("</think>");
    reveal_strlit("");
    assert("<think>"@[0] == '<' && "</think>"@[0] == '<');
    assert(a + "<think>"@ + b + "</think>"@ + c =~= a + "<think>"@ + rest);
    lemma_first_mark(a, "<think>"@, rest);
    lemma_no_open(b, c);
    law_nothing_to_replace(rest, "<think>"@, ""@);
    assert(a + ""@ + rest =~= w);
    lemma_no_bracket(a, b);
    lemma_only_mark(a + b, "</think>"@, c);
    assert((a + b) + ""@ + c =~= a + b + c);
}

proof fn lemma_no_bracket(a: Seq<char>, b: Seq<char>)
    requires
        !a.contains('<'),
        !b.contains('<'),
    ensures
        !(a + b).contains('<'),
{
    let s = a + b;
    assert forall|k: int| 0 <= k < s.len() implies s[k] != '<' by {
        if k < a.len() {
            assert(a.contains(a[k]));
        } else {
            assert(b.contains(b[k - a.len()]));
        }
    }
}

proof fn lemma_no_mark(s: Seq<char>, p: Seq<char>)
    requires
        !s.contains('<'),
        p.len() > 0,
        p[0] == '<',
    ensures
        !contains(s, p),
{
    assert forall|i: int| !occurs_at(s, p, i) by {
        if occurs_at(s, p, i) {
            assert(s.subrange(i, i + p.len())[0] == s[i]);
            assert(s.contains(s[i]));
        }
    }
}

proof fn lemma_first_mark(a: Seq<char>, p: Seq<char>, y: Seq<char>)
    requires
        !a.contains('<'),
        p.len() > 0,
        p[0] == '<',
    ensures
        contains(a + p + y, p),
        replaced(a + p + y, p, ""@) == a + ""@ + replaced(y, p, ""@),
{
    let s = a + p + y;
    assert(s.subrange(a.len() as int, (a.len() + p.len()) as int) =~= p);
    assert(occurs_at(s, p, a.len() as int));
    assert forall|i: int| 0 <= i < a.len() implies !occurs_at(s, p, i) by {
        if occurs_at(s, p, i) {
            assert(s.subrange(i, i + p.len())[0] == s[i]);
            assert(a.contains(a[i]));
        }
    }
    law_first_copy_replaced(a, p, y, ""@);
}

proof fn lemma_only_mark(a: Seq<char>, p: Seq<char>, b: Seq<char>)
    requires
        !a.contains('<'),
        !b.contains('<'),
        p.len() > 0,
        p[0] == '<',
    ensures
        contains(a + p + b, p),
        replaced(a + p + b, p, ""@) == a + ""@ + b,
{
    lemma_first_mark(a, p, b);
    lemma_no_mark(b, p);
    law_nothing_to_replace(b, p, ""@);
}

proof fn lemma_no_open(a: Seq<char>, b: Seq<char>)
    requires
        !a.contains('<'),
        !b.contains('<'),
    ensures
        !contains(a + "</think>"@ + b, "<think>"@),
{
    reveal_strlit("<think>");
    reveal_strlit("</think>");
    let s = a + "</think>"@ + b;
    let p = "<think>"@;
    assert forall|i: int| !occurs_at(s, p, i) by {
        if occurs_at(s, p, i) {
            assert(s.subrange(i, i + p.len())[0] == s[i]);
            assert(s.subrange(i, i + p.len())[1] == s[i + 1]);
            if i < a.len() {
                assert(a.contains(a[i]));
            } else if i >= a.len() + 8 {
                assert(s[i] == b[i - a.len() - 8]);
                assert(b.contains(b[i - a.len() - 8]));
            } else {
                assert(s[i] == "</think>"@[i - a.len()]);
                assert(i == a.len());
                assert(s[i + 1] == "</think>"@[1]);
            }
        }
    }
}

/// What an event of an Anthropic stream leads to: the text of a change is passed on as it is, the end
/// of the message ends the answer, and nothing else counts.
pub proof fn law_anthropic_event(s: StreamView, line: Seq<char>, data: Seq<char>, change: Seq<char>)
    requires
        s.dialect == Dialect::Anthropic,
        !s.done,
        s.line.len() == 0,
        is_event(line, data),
        data != "[DONE]"@,
    ensures
        ({
            let (t, sent) = on_text(s, line.push('\n'));
            let kind = string_member(data, "type"@);
            &&& t == StreamView { done: t.done, ..s }
            &&& kind == Some("content_block_delta"@) && member(data, "delta"@) == Some(change) && (
            string_member(change, "text"@) matches Some(x) && x.len() > 0) ==> sent == seq![
                BackendMessageView::Token { content: string_member(change, "text"@)->0 },
            ]
            &&& kind == Some("message_stop"@) ==> sent == seq![BackendMessageView::Done]
            &&& t.done <==> kind == Some("message_stop"@)
            &&& kind != Some("content_block_delta"@) && kind != Some("message_stop"@)
                ==> sent.len() == 0
            &&& kind == Some("content_block_delta"@) && (member(data, "delta"@) is None
                || string_member(member(data, "delta"@)->0, "text"@) is None) ==> sent.len() == 0
        }),
{
    lemma_whole_line(s, line);
    assert(s.line =~= Seq::<char>::empty());
    reveal_strlit("content_block_delta");
    reveal_strlit("message_stop");
    assert("content_block_delta"@.len() != "message_stop"@.len());
}

/// The mark of the end ends an answer, a line without data leads to nothing, and so does an event of an
/// OpenAI stream without a change.
pub proof fn law_other_lines(s: StreamView, line: Seq<char>, data: Seq<char>)
    requires
        !s.done,
        s.line.len() == 0,
        !line.contains('\n'),
    ensures
        is_event(line, "[DONE]"@) ==> on_text(s, line.push('\n')) == (
            StreamView { done: true, ..s },
            seq![BackendMessageView::Done],
        ),
        !begins(line, "data:"@) ==> on_text(s, line.push('\n')) == (
            s,
            Seq::<BackendMessageView>::empty(),
        ),
        s.dialect == Dialect::OpenAi && is_event(line, data) && data != "[DONE]"@ && member(
            data,
            "choices"@,
        ) is None ==> on_text(s, line.push('\n')) == (s, Seq::<BackendMessageView>::empty()),
{
    lemma_whole_line(s, line);
    assert(s.line =~= Seq::<char>::empty());
}

/// What comes of any content: a mark of a beginning starts a thought, and a mark of an end that is left
/// then ends it. All marks are taken out. What is left is shown whole unless a thought goes on.
pub proof fn law_any_content(content: Seq<char>, thinking: bool)
    ensures
        ({
            let opened = replaced(content, "<think>"@, ""@);
            let closed = replaced(opened, "</think>"@, ""@);
            let (shown, after) = visible(content, thinking);
            &&& after == ((thinking || contains(content, "<think>"@)) && !contains(
                opened,
                "</think>"@,
            ))
            &&& after ==> shown.len() == 0
            &&& !after ==> shown == closed
        }),
{
    if !contains(content, "<think>"@) {
        law_nothing_to_replace(content, "<think>"@, ""@);
    }
    let opened = replaced(content, "<think>"@, ""@);
    if !contains(opened, "</think>"@) {
        law_nothing_to_replace(opened, "</think>"@, ""@);
    }
}

/// An event of an OpenAI stream leads to nothing where it has no choices, where the first of them has no
/// change, or where that is no object.
pub proof fn law_events_without_a_change(
    s: StreamView,
    line: Seq<char>,
    data: Seq<char>,
    choices: Seq<char>,
    list: Seq<Seq<char>>,
)
    requires
        s.dialect == Dialect::OpenAi,
        !s.done,
        s.line.len() == 0,
        is_event(line, data),
        data != "[DONE]"@,
        member(data, "choices"@) == Some(choices),
        elements(choices) is None || (elements(choices) == Some(list) && (list.len() == 0 || member(
            list[0],
            "delta"@,
        ) is None || !(json_node(member(list[0], "delta"@)->0) matches Some(n) && n is Object))),
    ensures
        on_text(s, line.push('\n')) == (s, Seq::<BackendMessageView>::empty()),
{
    lemma_whole_line(s, line);
    assert(s.line =~= Seq::<char>::empty());
}

} // verus!
