//! What stands on the screen: the lines of the chat, the status bar, and how far they are
//! scrolled.
use crate::backend::protocol::{message_views, ChatMessage, ChatMessageView};
use crate::outside::{wrap_line, wrapped};
use crate::text::{decimal, decimal_of, lines, lines_of, same, views};
use crate::tui::mode::AppMode;
use vstd::prelude::*;
use vstd::string::*;

verus! {

/// How a line is coloured.
#[derive(Clone, Copy, Debug, PartialEq, Eq, Structural)]
pub enum Tone {
    Plain,
    /// A line of a list that is not chosen.
    Idle,
    /// The line of a list that is chosen.
    Active,
    /// The headings of the messages.
    User,
    Assistant,
    Other,
    /// The heading of an answer that is not complete.
    Streaming,
    /// The lines about a repository.
    Branch,
    ModifiedHeading,
    UntrackedHeading,
    Clean,
    ActiveModified,
    ActiveUntracked,
    /// The lines of a change.
    Added,
    Removed,
    Hunk,
}

/// A line on the screen.
#[derive(Debug)]
pub struct Row {
    pub text: String,
    pub tone: Tone,
}

/// The contents of a `Row`.
#[verifier::ext_equal]
pub struct RowView {
    pub text: Seq<char>,
    pub tone: Tone,
}

impl View for Row {
    type V = RowView;

    open spec fn view(&self) -> RowView {
        RowView { text: self.text@, tone: self.tone }
    }
}

/// The contents of a list of lines.
pub open spec fn row_views(r: Seq<Row>) -> Seq<RowView> {
    r.map_values(|x: Row| x@)
}

/// A line.
pub open spec fn row(text: Seq<char>, tone: Tone) -> RowView {
    RowView { text, tone }
}

/// Adds a line at the end of a list.
pub fn push_row(rows: &mut Vec<Row>, text: String, tone: Tone)
    ensures
        row_views(final(rows)@) == row_views(old(rows)@).push(row(text@, tone)),
{
    rows.push(Row { text, tone });
    assert(row_views(rows@) =~= row_views(old(rows)@).push(row(text@, tone)));
}

// ---------------------------------------------------------------------------------------------
// The chat
// ---------------------------------------------------------------------------------------------

/// The width at which text is broken: two less than the panel, but not under ten.
pub open spec fn wrap_width(width: u16) -> nat {
    if width < 12 {
        10
    } else {
        (width - 2) as nat
    }
}

/// The lines that a line of text is broken into; an empty one where there are none.
pub open spec fn broken(line: Seq<char>, width: nat) -> Seq<RowView> {
    let parts = wrapped(line, width);
    if parts.len() == 0 {
        seq![row(Seq::empty(), Tone::Plain)]
    } else {
        parts.map_values(|p: Seq<char>| row(p, Tone::Plain))
    }
}

/// The lines that several lines of text are broken into.
pub open spec fn all_broken(l: Seq<Seq<char>>, width: nat) -> Seq<RowView>
    decreases l.len(),
{
    if l.len() == 0 {
        Seq::empty()
    } else {
        all_broken(l.drop_last(), width) + broken(l.last(), width)
    }
}

/// The heading of a message.
pub open spec fn heading(role: Seq<char>) -> RowView {
    if role == "user"@ {
        row("❯ You"@, Tone::User)
    } else if role == "assistant"@ {
        row("❯ AI Assistant"@, Tone::Assistant)
    } else {
        row("❯ System"@, Tone::Other)
    }
}

/// The lines of a message: its heading, its text, and an empty line. Instructions are not shown.
pub open spec fn message_rows(m: ChatMessageView, width: nat) -> Seq<RowView> {
    if m.is_system() {
        Seq::empty()
    } else {
        seq![heading(m.role)] + all_broken(lines(m.content), width) + seq![
            row(Seq::empty(), Tone::Plain),
        ]
    }
}

/// The lines of all messages.
pub open spec fn all_message_rows(m: Seq<ChatMessageView>, width: nat) -> Seq<RowView>
    decreases m.len(),
{
    if m.len() == 0 {
        Seq::empty()
    } else {
        all_message_rows(m.drop_last(), width) + message_rows(m.last(), width)
    }
}

/// The lines of the chat: the messages, then the answer so far if there is any.
pub open spec fn chat(m: Seq<ChatMessageView>, response: Seq<char>, width: u16) -> Seq<RowView> {
    let w = wrap_width(width);
    if response.len() == 0 {
        all_message_rows(m, w)
    } else {
        all_message_rows(m, w) + (seq![row("❯ AI Assistant "@, Tone::Streaming)] + all_broken(
            lines(response),
            w,
        ))
    }
}

/// Adds the lines that `parts` are broken into.
pub fn push_parts(rows: &mut Vec<Row>, parts: Vec<String>)
    ensures
        row_views(final(rows)@) == row_views(old(rows)@) + if parts@.len() == 0 {
            seq![row(Seq::empty(), Tone::Plain)]
        } else {
            views(parts@).map_values(|p: Seq<char>| row(p, Tone::Plain))
        },
{
    let ghost before = row_views(rows@);
    if parts.len() == 0 {
        push_row(rows, String::new(), Tone::Plain);
        assert(row_views(rows@) =~= before + seq![row(Seq::empty(), Tone::Plain)]);
        return;
    }
    let ghost all = views(parts@).map_values(|p: Seq<char>| row(p, Tone::Plain));
    let mut i: usize = 0;
    assert(before + all.take(0) =~= before);
    while i < parts.len()
        invariant
            all == views(parts@).map_values(|p: Seq<char>| row(p, Tone::Plain)),
            i <= parts@.len(),
            row_views(rows@) == before + all.take(i as int),
        decreases parts@.len() - i,
    {
        push_row(rows, parts[i].clone(), Tone::Plain);
        assert(all[i as int] == row(parts@[i as int]@, Tone::Plain));
        assert(all.take(i + 1) =~= all.take(i as int).push(all[i as int]));
        i += 1;
        assert(row_views(rows@) =~= before + all.take(i as int));
    }
    assert(all.take(parts@.len() as int) =~= all);
}

fn push_text(rows: &mut Vec<Row>, text: &str, width: usize)
    ensures
        row_views(final(rows)@) == row_views(old(rows)@) + all_broken(lines(text@), width as nat),
{
    let l = lines_of(text);
    let ghost v = views(l@);
    let ghost start = row_views(rows@);
    let mut i: usize = 0;
    assert(start + all_broken(v.take(0), width as nat) =~= start);
    while i < l.len()
        invariant
            v == views(l@),
            i <= l@.len(),
            row_views(rows@) == start + all_broken(v.take(i as int), width as nat),
        decreases l@.len() - i,
    {
        assert(v.take(i + 1).drop_last() =~= v.take(i as int));
        assert(v.take(i + 1).last() == l@[i as int]@);
        let ghost before = row_views(rows@);
        let parts = wrap_line(l[i].as_str(), width);
        assert(views(parts@).len() == parts@.len());
        push_parts(rows, parts);
        let ghost prior = all_broken(v.take(i as int), width as nat);
        let ghost more = broken(l@[i as int]@, width as nat);
        assert(row_views(rows@) == before + more);
        assert((start + prior) + more =~= start + (prior + more));
        i += 1;
    }
    assert(v.take(l@.len() as int) =~= v);
}

fn push_message_rows(rows: &mut Vec<Row>, m: &ChatMessage, width: usize)
    ensures
        row_views(final(rows)@) == row_views(old(rows)@) + message_rows(m@, width as nat),
{
    let ghost start = row_views(rows@);
    let role = m.role.as_str();
    if same(role, "system") {
        assert(start + Seq::<RowView>::empty() =~= start);
        return;
    }
    if same(role, "user") {
        push_row(rows, String::from_str("❯ You"), Tone::User);
    } else if same(role, "assistant") {
        push_row(rows, String::from_str("❯ AI Assistant"), Tone::Assistant);
    } else {
        push_row(rows, String::from_str("❯ System"), Tone::Other);
    }
    push_text(rows, m.content.as_str(), width);
    push_row(rows, String::new(), Tone::Plain);
    assert(row_views(rows@) =~= start + message_rows(m@, width as nat));
}

/// The lines of the chat.
pub fn chat_rows(messages: &Vec<ChatMessage>, response: &str, width: u16) -> (r: Vec<Row>)
    ensures
        row_views(r@) == chat(message_views(messages@), response@, width),
{
    let w: usize = if width < 12 {
        10
    } else {
        width as usize - 2
    };
    let ghost m = message_views(messages@);
    let mut rows: Vec<Row> = Vec::new();
    let mut i: usize = 0;
    assert(row_views(rows@) =~= all_message_rows(m.take(0), w as nat));
    while i < messages.len()
        invariant
            m == message_views(messages@),
            i <= messages@.len(),
            row_views(rows@) == all_message_rows(m.take(i as int), w as nat),
        decreases messages@.len() - i,
    {
        assert(m.take(i + 1).drop_last() =~= m.take(i as int));
        assert(m.take(i + 1).last() == messages@[i as int]@);
        push_message_rows(&mut rows, &messages[i], w);
        i += 1;
    }
    assert(m.take(messages@.len() as int) =~= m);
    if !response.is_empty() {
        let ghost before = row_views(rows@);
        push_row(&mut rows, String::from_str("❯ AI Assistant "), Tone::Streaming);
        push_text(&mut rows, response, w);
        assert(row_views(rows@) =~= before + (seq![row("❯ AI Assistant "@, Tone::Streaming)]
            + all_broken(lines(response@), w as nat)));
    }
    rows
}

/// The line of the chat at which it is shown: the last one, or as many above it as it is scrolled.
pub open spec fn chat_position(total: usize, scroll: usize) -> usize {
    if total == 0 || total - 1 <= scroll {
        0
    } else {
        (total - 1 - scroll) as usize
    }
}

/// The line of the chat at which it is shown.
pub fn selected_row(total: usize, scroll: usize) -> (r: usize)
    ensures
        r == chat_position(total, scroll),
{
    total.saturating_sub(1).saturating_sub(scroll)
}

/// How far a text is scrolled: no further than its last page.
pub open spec fn page_position(scroll: usize, total: usize, height: usize) -> usize {
    let last = if total < height {
        0
    } else {
        (total - height) as usize
    };
    if scroll < last {
        scroll
    } else {
        last
    }
}

/// How far a text is scrolled, in the sixteen bits that the terminal takes.
pub fn scroll_position(scroll: usize, total: usize, height: u16) -> (r: u16)
    ensures
        r == page_position(scroll, total, height as usize) as u16,
{
    let last: usize = total.saturating_sub(height as usize);
    let position: usize = if scroll < last {
        scroll
    } else {
        last
    };
    #[verifier::truncate]
    (position as u16)
}

/// The chat is always shown at one of its lines, the last one where it is not scrolled.
pub proof fn law_chat_position(total: usize, scroll: usize)
    requires
        total > 0,
    ensures
        chat_position(total, scroll) < total,
        chat_position(total, 0) == total - 1,
{
}

/// No instruction is shown in the chat.
pub proof fn law_instructions_are_not_shown(m: Seq<ChatMessageView>, width: nat)
    requires
        forall|i: int| 0 <= i < m.len() ==> (#[trigger] m[i]).is_system(),
    ensures
        all_message_rows(m, width) == Seq::<RowView>::empty(),
    decreases m.len(),
{
    if m.len() > 0 {
        let rest = m.drop_last();
        assert forall|i: int| 0 <= i < rest.len() implies (#[trigger] rest[i]).is_system() by {
            assert(rest[i] == m[i]);
        }
        law_instructions_are_not_shown(rest, width);
        assert(m[m.len() - 1].is_system());
        assert(Seq::<RowView>::empty() + Seq::<RowView>::empty() =~= Seq::<RowView>::empty());
    }
}

// ---------------------------------------------------------------------------------------------
// The bars
// ---------------------------------------------------------------------------------------------

/// What stands in the input box while an answer is awaited.
pub fn input_notice(is_generating: bool, response_empty: bool) -> (r: Option<&'static str>)
    ensures
        match r {
            Some(s) => is_generating && s@ == if response_empty {
                "  ▊ Warming up models..."@
            } else {
                "  ● Syncing with AI cluster node..."@
            },
            None => !is_generating,
        },
{
    if !is_generating {
        None
    } else if response_empty {
        Some("  ▊ Warming up models...")
    } else {
        Some("  ● Syncing with AI cluster node...")
    }
}

/// The name of the engine in the status bar.
pub fn engine_label(mode: AppMode) -> (r: &'static str)
    ensures
        r@ == if mode == AppMode::Ultra {
            " DEEP ENGINE "@
        } else {
            " FAST ENGINE "@
        },
{
    if mode.thinking_enabled() {
        " DEEP ENGINE "
    } else {
        " FAST ENGINE "
    }
}

/// The mark of a panel: full where it is in focus.
pub fn focus_marker(focused: bool) -> (r: &'static str)
    ensures
        r@ == if focused {
            " ● "@
        } else {
            " ○ "@
        },
{
    if focused {
        " ● "
    } else {
        " ○ "
    }
}

/// A text a number of times.
pub open spec fn repeated(s: Seq<char>, n: nat) -> Seq<char>
    decreases n,
{
    if n == 0 {
        Seq::empty()
    } else {
        repeated(s, (n - 1) as nat) + s
    }
}

/// A text a number of times.
pub fn repeat(s: &str, n: usize) -> (r: String)
    ensures
        r@ == repeated(s@, n as nat),
{
    let mut out = String::new();
    let mut i: usize = 0;
    while i < n
        invariant
            i <= n,
            out@ == repeated(s@, i as nat),
        decreases n - i,
    {
        out.append(s);
        i += 1;
    }
    out
}

/// The gauge of the requests: ten cells, of which `filled` are full, and their number.
pub fn rpm_gauge(max: u32, rpm: u32, filled: usize) -> (r: String)
    ensures
        r@ == if max > 0 {
            repeated("█"@, filled as nat) + repeated(
                "░"@,
                if filled < 10 {
                    (10 - filled) as nat
                } else {
                    0
                },
            ) + decimal(rpm as nat)
        } else {
            "--"@
        },
{
    if max > 0 {
        let mut s = repeat("█", filled);
        let empty = repeat("░", 10usize.saturating_sub(filled));
        s.append(empty.as_str());
        let n = decimal_of(rpm as u64);
        s.append(n.as_str());
        s
    } else {
        String::from_str("--")
    }
}

/// The gauge of the tokens.
pub fn token_gauge(tokens: usize, ctx_size: usize) -> (r: String)
    ensures
        r@ == "Ctx: "@ + decimal(tokens as nat) + "/"@ + if ctx_size > 0 {
            decimal(ctx_size as nat)
        } else {
            "Auto"@
        },
{
    let mut s = String::from_str("Ctx: ");
    let n = decimal_of(tokens as u64);
    s.append(n.as_str());
    s.append("/");
    if ctx_size > 0 {
        let size = decimal_of(ctx_size as u64);
        s.append(size.as_str());
    } else {
        s.append("Auto");
    }
    s
}

/// The margin on each side of a window that takes `percent` of the screen.
pub fn popup_margin(percent: u16) -> (r: u16)
    requires
        percent <= 100,
    ensures
        r == (100 - percent) / 2,
        2 * r + percent <= 100,
{
    (100 - percent) / 2
}

} // verus!
