//! The transcript in the note of a session, read back as messages.
use crate::backend::protocol::{message, message_views, push_message, ChatMessage, ChatMessageView};
use crate::text::{
    begins, law_prefixes, lemma_views_push, lines, lines_of, starts_with, strip_prefixes,
    terminate_between, terminated, trim, trimmed, views, without_prefixes,
};
use vstd::prelude::*;
use vstd::string::*;

verus! {

/// Whether a line is the heading of the transcript.
pub open spec fn is_heading(line: Seq<char>) -> bool {
    begins(line, "## Transcript"@)
}

/// The lines of the transcript: those that follow a heading and are no heading themselves.
/// `inside` says whether a heading came before.
pub open spec fn transcript_lines(l: Seq<Seq<char>>, inside: bool) -> Seq<Seq<char>>
    decreases l.len(),
{
    if l.len() == 0 {
        Seq::empty()
    } else if is_heading(l[0]) {
        transcript_lines(l.skip(1), true)
    } else if inside {
        seq![l[0]] + transcript_lines(l.skip(1), inside)
    } else {
        transcript_lines(l.skip(1), inside)
    }
}

/// The role of the speaker whom a line begins with, and the mark that it begins with.
pub open spec fn speaker(line: Seq<char>) -> Option<(Seq<char>, Seq<char>)> {
    if begins(line, "**You**:"@) {
        Some(("user"@, "**You**:"@))
    } else if begins(line, "**Gemma**:"@) {
        Some(("assistant"@, "**Gemma**:"@))
    } else if begins(line, "**QWEN**:"@) {
        Some(("assistant"@, "**QWEN**:"@))
    } else if begins(line, "**assistant**:"@) {
        Some(("assistant"@, "**assistant**:"@))
    } else {
        None
    }
}

/// The first line at or after `from` that begins with a speaker, or the number of lines.
pub open spec fn speaker_from(l: Seq<Seq<char>>, from: nat) -> nat
    decreases l.len() - from,
{
    if from >= l.len() {
        l.len()
    } else if speaker(l[from as int]) is Some {
        from
    } else {
        speaker_from(l, from + 1)
    }
}

/// `speaker_from` is a line at or after `from`.
pub proof fn lemma_speaker_from(l: Seq<Seq<char>>, from: nat)
    ensures
        speaker_from(l, from) <= l.len(),
        from <= l.len() ==> from <= speaker_from(l, from),
        speaker_from(l, from) < l.len() ==> speaker(l[speaker_from(l, from) as int]) is Some,
    decreases l.len() - from,
{
    if from < l.len() && speaker(l[from as int]) is None {
        lemma_speaker_from(l, from + 1);
    }
}

/// What a speaker says in the lines from `i` up to `j`: what follows the mark, then the other
/// lines, without white space at either end.
pub open spec fn said(l: Seq<Seq<char>>, i: nat, j: nat) -> Seq<char> {
    let (_, mark) = speaker(l[i as int])->0;
    trim(
        trim(without_prefixes(l[i as int], mark)) + "\n"@ + terminated(
            l.subrange(i as int + 1, j as int),
        ),
    )
}

/// The messages in the lines from `from` on: each speaker has the lines up to the next one, and
/// one who says nothing gives no message.
pub open spec fn turns_from(l: Seq<Seq<char>>, from: nat) -> Seq<ChatMessageView>
    decreases l.len() - from,
{
    let i = speaker_from(l, from);
    if from >= l.len() || i >= l.len() {
        Seq::empty()
    } else {
        let j = speaker_from(l, i + 1);
        let text = said(l, i, j);
        proof {
            lemma_speaker_from(l, from);
            lemma_speaker_from(l, i + 1);
        }
        let rest = turns_from(l, j);
        if text.len() == 0 {
            rest
        } else {
            let (role, _) = speaker(l[i as int])->0;
            seq![message(role, text)] + rest
        }
    }
}

/// The messages of the transcript in a note.
pub open spec fn turns(content: Seq<char>) -> Seq<ChatMessageView> {
    turns_from(transcript_lines(lines(content), false), 0)
}

fn transcript_of(content: &str) -> (r: Vec<String>)
    ensures
        views(r@) == transcript_lines(lines(content@), false),
{
    let all = lines_of(content);
    let ghost l = views(all@);
    let mut out: Vec<String> = Vec::new();
    let mut inside = false;
    let mut i: usize = 0;
    assert(views(out@) + transcript_lines(l.skip(0), false) =~= transcript_lines(l, false)) by {
        assert(l.skip(0) =~= l);
    }
    while i < all.len()
        invariant
            l == views(all@),
            i <= all@.len(),
            views(out@) + transcript_lines(l.skip(i as int), inside) == transcript_lines(l, false),
        decreases all@.len() - i,
    {
        let ghost rest = l.skip(i as int);
        let ghost before = views(out@);
        assert(rest[0] == all@[i as int]@);
        assert(rest.skip(1) =~= l.skip(i + 1));
        if starts_with(all[i].as_str(), "## Transcript") {
            inside = true;
        } else if inside {
            let line = all[i].clone();
            proof {
                lemma_views_push(out@, line);
            }
            out.push(line);
            assert(before + (seq![rest[0]] + transcript_lines(rest.skip(1), true)) =~= before.push(
                rest[0],
            ) + transcript_lines(rest.skip(1), true));
        }
        i += 1;
    }
    assert(l.skip(all@.len() as int) =~= Seq::<Seq<char>>::empty());
    assert(views(out@) + Seq::<Seq<char>>::empty() =~= views(out@));
    out
}

fn speaker_of(line: &str) -> (r: Option<(&'static str, &'static str)>)
    ensures
        match r {
            Some((role, mark)) => speaker(line@) == Some((role@, mark@)),
            None => speaker(line@) is None,
        },
{
    if starts_with(line, "**You**:") {
        Some(("user", "**You**:"))
    } else if starts_with(line, "**Gemma**:") {
        Some(("assistant", "**Gemma**:"))
    } else if starts_with(line, "**QWEN**:") {
        Some(("assistant", "**QWEN**:"))
    } else if starts_with(line, "**assistant**:") {
        Some(("assistant", "**assistant**:"))
    } else {
        None
    }
}

fn next_speaker(l: &Vec<String>, from: usize) -> (r: usize)
    requires
        from <= l@.len(),
    ensures
        r == speaker_from(views(l@), from as nat),
        from <= r <= l@.len(),
{
    let mut i: usize = from;
    while i < l.len() && speaker_of(l[i].as_str()).is_none()
        invariant
            from <= i <= l@.len(),
            speaker_from(views(l@), from as nat) == speaker_from(views(l@), i as nat),
        decreases l@.len() - i,
    {
        assert(views(l@)[i as int] == l@[i as int]@);
        i += 1;
    }
    assert(i < l@.len() ==> views(l@)[i as int] == l@[i as int]@);
    i
}

/// The messages of the transcript in a note.
pub fn read_transcript(content: &str) -> (r: Vec<ChatMessage>)
    ensures
        message_views(r@) == turns(content@),
{
    let all = transcript_of(content);
    let ghost l = views(all@);
    let mut messages: Vec<ChatMessage> = Vec::new();
    let mut pos: usize = 0;
    assert(message_views(messages@) + turns_from(l, 0) =~= turns_from(l, 0));
    while pos < all.len()
        invariant
            l == views(all@),
            l == transcript_lines(lines(content@), false),
            pos <= all@.len(),
            turns(content@) == message_views(messages@) + turns_from(l, pos as nat),
        decreases all@.len() - pos,
    {
        let ghost before = message_views(messages@);
        assert(before + Seq::<ChatMessageView>::empty() =~= before);
        let i = next_speaker(&all, pos);
        if i == all.len() {
            return messages;
        }
        let j = next_speaker(&all, i + 1);
        assert(l[i as int] == all@[i as int]@);
        proof {
            lemma_speaker_from(l, pos as nat);
        }
        if let Some((role, mark)) = speaker_of(all[i].as_str()) {
            let head = strip_prefixes(all[i].as_str(), mark);
            let mut text = trimmed(head.as_str());
            text.append("\n");
            let rest = terminate_between(&all, i + 1, j);
            text.append(rest.as_str());
            let content = trimmed(text.as_str());
            assert(content@ == said(l, i as nat, j as nat));
            if !content.as_str().is_empty() {
                let m = ChatMessage::new(role, content);
                push_message(&mut messages, m);
                assert(before + (seq![m@] + turns_from(l, j as nat)) =~= before.push(m@)
                    + turns_from(l, j as nat));
            }
        }
        pos = j;
    }
    assert(message_views(messages@) + Seq::<ChatMessageView>::empty() =~= message_views(messages@));
    messages
}

/// Whatever is read back was said by the user or the assistant, is not empty, and carries no
/// images.
pub proof fn law_turns_are_messages(l: Seq<Seq<char>>, from: nat, k: int)
    requires
        0 <= k < turns_from(l, from).len(),
    ensures
        turns_from(l, from)[k].role == "user"@ || turns_from(l, from)[k].role == "assistant"@,
        turns_from(l, from)[k].content.len() > 0,
        turns_from(l, from)[k].images is None,
    decreases l.len() - from,
{
    let i = speaker_from(l, from);
    lemma_speaker_from(l, from);
    lemma_speaker_from(l, i + 1);
    let j = speaker_from(l, i + 1);
    let rest = turns_from(l, j);
    if said(l, i, j).len() == 0 {
        law_turns_are_messages(l, j, k);
    } else if k > 0 {
        assert(turns_from(l, from)[k] == rest[k - 1]);
        law_turns_are_messages(l, j, k - 1);
    }
}

proof fn lemma_speaker_shift(x: Seq<Seq<char>>, y: Seq<Seq<char>>, k: nat)
    requires
        k <= y.len(),
    ensures
        speaker_from(x + y, x.len() + k) == x.len() + speaker_from(y, k),
    decreases y.len() - k,
{
    if k < y.len() {
        assert((x + y)[(x.len() + k) as int] == y[k as int]);
        lemma_speaker_shift(x, y, k + 1);
    }
}

proof fn lemma_turns_shift(x: Seq<Seq<char>>, y: Seq<Seq<char>>, k: nat)
    requires
        k <= y.len(),
    ensures
        turns_from(x + y, x.len() + k) == turns_from(y, k),
    decreases y.len() - k,
{
    let l = x + y;
    let i = speaker_from(y, k);
    lemma_speaker_shift(x, y, k);
    lemma_speaker_from(y, k);
    if k < y.len() && i < y.len() {
        let j = speaker_from(y, i + 1);
        lemma_speaker_shift(x, y, i + 1);
        lemma_speaker_from(y, i + 1);
        assert(l[(x.len() + i) as int] == y[i as int]);
        assert(l.subrange((x.len() + i + 1) as int, (x.len() + j) as int) =~= y.subrange(
            i as int + 1,
            j as int,
        ));
        lemma_turns_shift(x, y, j);
    }
}

proof fn lemma_speaker_front(x: Seq<Seq<char>>, y: Seq<Seq<char>>, k: nat)
    requires
        k <= x.len(),
        y.len() > 0 ==> speaker(y[0]) is Some,
    ensures
        speaker_from(x + y, k) == speaker_from(x, k),
    decreases x.len() - k,
{
    if k < x.len() {
        assert((x + y)[k as int] == x[k as int]);
        lemma_speaker_front(x, y, k + 1);
    } else if y.len() > 0 {
        assert((x + y)[k as int] == y[0]);
    }
}

proof fn lemma_turns_front(x: Seq<Seq<char>>, y: Seq<Seq<char>>, k: nat)
    requires
        k <= x.len(),
        y.len() > 0 ==> speaker(y[0]) is Some,
    ensures
        turns_from(x + y, k) == turns_from(x, k) + turns_from(y, 0),
    decreases x.len() - k,
{
    let l = x + y;
    let i = speaker_from(x, k);
    let none = Seq::<ChatMessageView>::empty();
    lemma_speaker_front(x, y, k);
    lemma_speaker_from(x, k);
    lemma_turns_shift(x, y, 0);
    assert(none + turns_from(y, 0) =~= turns_from(y, 0));
    if k >= x.len() {
    } else if i >= x.len() {
        // From `k` on nobody speaks before `y` begins.
        lemma_silence(l, k, x.len());
    } else {
        let j = speaker_from(x, i + 1);
        lemma_speaker_front(x, y, i + 1);
        lemma_speaker_from(x, i + 1);
        assert(l[i as int] == x[i as int]);
        assert(l.subrange(i as int + 1, j as int) =~= x.subrange(i as int + 1, j as int));
        lemma_turns_front(x, y, j);
        if said(x, i, j).len() > 0 {
            let (role, _) = speaker(x[i as int])->0;
            let m = message(role, said(x, i, j));
            assert(seq![m] + (turns_from(x, j) + turns_from(y, 0)) =~= (seq![m] + turns_from(
                x,
                j,
            )) + turns_from(y, 0));
        }
    }
}

proof fn lemma_silence(l: Seq<Seq<char>>, k: nat, n: nat)
    requires
        k <= n <= l.len(),
        speaker_from(l, k) == n,
    ensures
        turns_from(l, k) == turns_from(l, n),
{
    lemma_speaker_from(l, k);
    if n < l.len() {
        assert(speaker_from(l, n) == n);
    }
}

/// A transcript can be continued: what a speaker adds at its end is read after what was there, and
/// changes none of it.
pub proof fn law_transcripts_continue(x: Seq<Seq<char>>, y: Seq<Seq<char>>)
    requires
        y.len() > 0 ==> speaker(y[0]) is Some,
    ensures
        turns_from(x + y, 0) == turns_from(x, 0) + turns_from(y, 0),
{
    lemma_turns_front(x, y, 0);
}

/// The transcript of a note is what follows its heading.
pub proof fn law_transcript_follows_its_heading(
    before: Seq<Seq<char>>,
    heading: Seq<char>,
    after: Seq<Seq<char>>,
)
    requires
        begins(heading, "## Transcript"@),
        forall|k: int| 0 <= k < before.len() ==> !begins(#[trigger] before[k], "## Transcript"@),
        forall|k: int| 0 <= k < after.len() ==> !begins(#[trigger] after[k], "## Transcript"@),
    ensures
        transcript_lines(before + seq![heading] + after, false) == after,
        transcript_lines(before, false) == Seq::<Seq<char>>::empty(),
    decreases before.len(),
{
    let l = before + seq![heading] + after;
    if before.len() == 0 {
        assert(l[0] == heading);
        assert(l.skip(1) =~= after);
        lemma_all_inside(after);
    } else {
        let rest = before.skip(1);
        assert(l[0] == before[0]);
        assert(l.skip(1) =~= rest + seq![heading] + after);
        assert forall|k: int| 0 <= k < rest.len() implies !begins(
            #[trigger] rest[k],
            "## Transcript"@,
        ) by {
            assert(rest[k] == before[k + 1]);
        }
        law_transcript_follows_its_heading(rest, heading, after);
    }
}

proof fn lemma_all_inside(l: Seq<Seq<char>>)
    requires
        forall|k: int| 0 <= k < l.len() ==> !begins(#[trigger] l[k], "## Transcript"@),
    ensures
        transcript_lines(l, true) == l,
    decreases l.len(),
{
    if l.len() > 0 {
        let rest = l.skip(1);
        assert forall|k: int| 0 <= k < rest.len() implies !begins(
            #[trigger] rest[k],
            "## Transcript"@,
        ) by {
            assert(rest[k] == l[k + 1]);
        }
        lemma_all_inside(rest);
        assert(seq![l[0]] + rest =~= l);
    } else {
        assert(transcript_lines(l, true) =~= l);
    }
}

/// Whether a line begins with the mark of nobody.
pub open spec fn is_unmarked(line: Seq<char>) -> bool {
    &&& !begins(line, "**You**:"@)
    &&& !begins(line, "**Gemma**:"@)
    &&& !begins(line, "**QWEN**:"@)
    &&& !begins(line, "**assistant**:"@)
}

/// What a speaker says is read back whole: what follows the mark, and the lines below it up to the next
/// mark. The user has one mark, and the assistant three. Lines in front of the first mark do not count.
pub proof fn law_a_turn_is_read_whole(
    before: Seq<Seq<char>>,
    mark: Seq<char>,
    first: Seq<char>,
    more: Seq<Seq<char>>,
)
    requires
        mark == "**You**:"@ || mark == "**Gemma**:"@ || mark == "**QWEN**:"@ || mark
            == "**assistant**:"@,
        !begins(first, mark),
        forall|k: int| 0 <= k < before.len() ==> is_unmarked(#[trigger] before[k]),
        forall|k: int| 0 <= k < more.len() ==> is_unmarked(#[trigger] more[k]),
    ensures
        ({
            let text = trim(trim(first) + "\n"@ + terminated(more));
            turns_from(before + seq![mark + first] + more, 0) == if text.len() == 0 {
                Seq::empty()
            } else {
                seq![
                    ChatMessageView {
                        role: if mark == "**You**:"@ {
                            "user"@
                        } else {
                            "assistant"@
                        },
                        content: text,
                        images: None,
                    },
                ]
            }
        }),
{
    let line = mark + first;
    let l = before + seq![line] + more;
    let n = before.len();
    lemma_marks(mark, first);
    lemma_speaker_is(l, 0, n);
    assert(l[n as int] == line);
    assert forall|k: int| n + 1 <= k < l.len() implies speaker(#[trigger] l[k]) is None by {
        assert(l[k] == more[k - n - 1]);
        assert(is_unmarked(more[k - n - 1]));
    }
    lemma_speaker_is(l, n + 1, l.len());
    assert(l.subrange(n as int + 1, l.len() as int) =~= more);
    law_prefixes(first, mark);
    assert(turns_from(l, l.len()) =~= Seq::<ChatMessageView>::empty());
}

proof fn lemma_speaker_is(l: Seq<Seq<char>>, from: nat, i: nat)
    requires
        from <= i <= l.len(),
        i < l.len() ==> speaker(l[i as int]) is Some,
        forall|k: int|
            from <= k < i ==> (speaker(#[trigger] l[k]) is None || is_unmarked(l[k])),
    ensures
        speaker_from(l, from) == i,
    decreases i - from,
{
    if from < i {
        assert(speaker(l[from as int]) is None);
        lemma_speaker_is(l, from + 1, i);
    }
}

proof fn lemma_marks(mark: Seq<char>, first: Seq<char>)
    requires
        mark == "**You**:"@ || mark == "**Gemma**:"@ || mark == "**QWEN**:"@ || mark
            == "**assistant**:"@,
    ensures
        mark.len() > 0,
        speaker(mark + first) == Some(
            (
                if mark == "**You**:"@ {
                    "user"@
                } else {
                    "assistant"@
                },
                mark,
            ),
        ),
{
    reveal_strlit("**You**:");
    reveal_strlit("**Gemma**:");
    reveal_strlit("**QWEN**:");
    reveal_strlit("**assistant**:");
    let line = mark + first;
    assert(line.subrange(0, mark.len() as int) =~= mark);
    assert(line[2] == mark[2]);
    assert("**You**:"@[2] == 'Y' && "**Gemma**:"@[2] == 'G' && "**QWEN**:"@[2] == 'Q'
        && "**assistant**:"@[2] == 'a');
    lemma_third(line, "**You**:"@);
    lemma_third(line, "**Gemma**:"@);
    lemma_third(line, "**QWEN**:"@);
    lemma_third(line, "**assistant**:"@);
}

proof fn lemma_third(line: Seq<char>, p: Seq<char>)
    requires
        p.len() > 2,
    ensures
        begins(line, p) ==> line[2] == p[2],
{
    if begins(line, p) {
        assert(line.subrange(0, p.len() as int)[2] == line[2]);
    }
}

/// The messages of a note are those of its transcript.
pub proof fn law_turns(content: Seq<char>)
    ensures
        turns(content) == turns_from(transcript_lines(lines(content), false), 0),
{
}

} // verus!
