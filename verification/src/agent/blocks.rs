//! Fenced code blocks in Markdown.
use crate::text::{
    begins, is_white, law_line_ends, law_lines_read_back, law_lines_spell_the_text, law_prefixes,
    law_trim, law_trim_unique, lemma_lines_add, lemma_lines_feed, lines, lines_of, starts_with,
    strip_prefixes, terminate_between, terminated, trim, trimmed, views, without_cr,
    without_prefixes,
};
use vstd::prelude::*;
use vstd::string::*;

verus! {

/// A fenced block: what stands behind its opening fence, and the code between the fences.
pub struct Fenced {
    pub info: String,
    pub code: String,
}

/// The contents of a `Fenced`.
pub struct FencedView {
    pub info: Seq<char>,
    pub code: Seq<char>,
}

impl View for Fenced {
    type V = FencedView;

    open spec fn view(&self) -> FencedView {
        FencedView { info: self.info@, code: self.code@ }
    }
}

/// The contents of a list of fenced blocks.
pub open spec fn fenced_views(b: Seq<Fenced>) -> Seq<FencedView> {
    b.map_values(|x: Fenced| x@)
}

/// Whether a line opens or closes a block.
pub open spec fn is_fence(line: Seq<char>) -> bool {
    begins(line, "```"@)
}

/// The first fence at or after line `from`, or the number of lines.
pub open spec fn fence_from(l: Seq<Seq<char>>, from: nat) -> nat
    decreases l.len() - from,
{
    if from >= l.len() {
        l.len()
    } else if is_fence(l[from as int]) {
        from
    } else {
        fence_from(l, from + 1)
    }
}

/// `fence_from` is the first fence.
pub proof fn lemma_fence_from(l: Seq<Seq<char>>, from: nat)
    ensures
        fence_from(l, from) <= l.len(),
        from <= l.len() ==> from <= fence_from(l, from),
        fence_from(l, from) < l.len() ==> is_fence(l[fence_from(l, from) as int]),
        forall|k: int| from <= k < fence_from(l, from) ==> !is_fence(#[trigger] l[k]),
    decreases l.len() - from,
{
    if from < l.len() && !is_fence(l[from as int]) {
        lemma_fence_from(l, from + 1);
    }
}

/// The closed blocks from line `from` on: each runs from a fence to the next one.
pub open spec fn fenced_from(l: Seq<Seq<char>>, from: nat) -> Seq<FencedView>
    decreases l.len() - from,
{
    let i = fence_from(l, from);
    let j = fence_from(l, i + 1);
    if from >= l.len() || i >= l.len() || j >= l.len() {
        Seq::empty()
    } else {
        proof {
            lemma_fence_from(l, from);
            lemma_fence_from(l, i + 1);
        }
        seq![
            FencedView {
                info: trim(without_prefixes(l[i as int], "```"@)),
                code: trim(terminated(l.subrange(i as int + 1, j as int))),
            },
        ] + fenced_from(l, j + 1)
    }
}

/// The closed blocks of a text.
pub open spec fn fenced(s: Seq<char>) -> Seq<FencedView> {
    fenced_from(lines(s), 0)
}

/// How many fences there are at or after line `from`.
pub open spec fn fences_from(l: Seq<Seq<char>>, from: nat) -> nat
    decreases l.len() - from,
{
    if from >= l.len() {
        0
    } else if is_fence(l[from as int]) {
        1 + fences_from(l, from + 1)
    } else {
        fences_from(l, from + 1)
    }
}

proof fn lemma_fences_from(l: Seq<Seq<char>>, from: nat)
    ensures
        fences_from(l, from) == if fence_from(l, from) < l.len() {
            1 + fences_from(l, fence_from(l, from) + 1)
        } else {
            0
        },
    decreases l.len() - from,
{
    if from < l.len() && !is_fence(l[from as int]) {
        lemma_fences_from(l, from + 1);
    }
}

proof fn lemma_fence_behind(l: Seq<Seq<char>>, m: Seq<Seq<char>>, k: nat)
    ensures
        fence_from(l + m, l.len() + k) == l.len() + fence_from(m, k),
    decreases m.len() - k,
{
    if k < m.len() {
        assert((l + m)[(l.len() + k) as int] == m[k as int]);
        lemma_fence_behind(l, m, k + 1);
    }
}

proof fn lemma_fence_add(l: Seq<Seq<char>>, m: Seq<Seq<char>>, from: nat)
    requires
        from <= l.len(),
    ensures
        fence_from(l + m, from) == if fence_from(l, from) < l.len() {
            fence_from(l, from)
        } else {
            l.len() + fence_from(m, 0)
        },
    decreases l.len() - from,
{
    if from < l.len() {
        assert((l + m)[from as int] == l[from as int]);
        lemma_fence_add(l, m, from + 1);
    } else {
        lemma_fence_behind(l, m, 0);
    }
}

proof fn lemma_fenced_behind(l: Seq<Seq<char>>, m: Seq<Seq<char>>, k: nat)
    ensures
        fenced_from(l + m, l.len() + k) == fenced_from(m, k),
    decreases m.len() - k,
{
    let i = fence_from(m, k);
    let j = fence_from(m, i + 1);
    lemma_fence_behind(l, m, k);
    lemma_fence_behind(l, m, i + 1);
    lemma_fence_from(m, k);
    lemma_fence_from(m, i + 1);
    if k < m.len() && i < m.len() && j < m.len() {
        assert((l + m)[(l.len() + i) as int] == m[i as int]);
        assert((l + m).subrange((l.len() + i + 1) as int, (l.len() + j) as int) =~= m.subrange(
            i as int + 1,
            j as int,
        ));
        lemma_fenced_behind(l, m, j + 1);
    }
}

/// Behind lines whose fences go in pairs the blocks are those that the rest has by itself.
pub proof fn lemma_fenced_add(l: Seq<Seq<char>>, m: Seq<Seq<char>>, from: nat)
    requires
        from <= l.len(),
        fences_from(l, from) % 2 == 0,
    ensures
        fenced_from(l + m, from) == fenced_from(l, from) + fenced_from(m, 0),
    decreases l.len() - from,
{
    let i = fence_from(l, from);
    lemma_fence_add(l, m, from);
    lemma_fence_from(l, from);
    lemma_fences_from(l, from);
    if i >= l.len() {
        lemma_fence_behind(l, m, 0);
        lemma_fenced_behind(l, m, 0);
        assert(fenced_from(l + m, from) == fenced_from(l + m, l.len()));
        assert(fenced_from(l, from) + fenced_from(m, 0) =~= fenced_from(m, 0));
    } else {
        let j = fence_from(l, i + 1);
        lemma_fence_add(l, m, i + 1);
        lemma_fence_from(l, i + 1);
        lemma_fences_from(l, i + 1);
        assert((l + m)[i as int] == l[i as int]);
        assert((l + m).subrange(i as int + 1, j as int) =~= l.subrange(i as int + 1, j as int));
        lemma_fenced_add(l, m, j + 1);
        let first = seq![
            FencedView {
                info: trim(without_prefixes(l[i as int], "```"@)),
                code: trim(terminated(l.subrange(i as int + 1, j as int))),
            },
        ];
        assert(first + (fenced_from(l, j + 1) + fenced_from(m, 0)) =~= first + fenced_from(l, j + 1)
            + fenced_from(m, 0));
    }
}

/// Lines without a fence add no block.
pub proof fn lemma_fenced_plain(l: Seq<Seq<char>>, m: Seq<Seq<char>>, from: nat)
    requires
        from <= l.len(),
        forall|k: int| 0 <= k < m.len() ==> !is_fence(#[trigger] m[k]),
    ensures
        fenced_from(l + m, from) == fenced_from(l, from),
    decreases l.len() - from,
{
    let i = fence_from(l, from);
    lemma_fence_add(l, m, from);
    lemma_fence_from(l, from);
    lemma_fence_from(m, 0);
    if i < l.len() {
        let j = fence_from(l, i + 1);
        lemma_fence_add(l, m, i + 1);
        lemma_fence_from(l, i + 1);
        assert((l + m)[i as int] == l[i as int]);
        if j < l.len() {
            assert((l + m).subrange(i as int + 1, j as int) =~= l.subrange(
                i as int + 1,
                j as int,
            ));
            lemma_fenced_plain(l, m, j + 1);
        }
    }
}

proof fn lemma_fence_last(l: Seq<Seq<char>>, e: Seq<char>, from: nat)
    requires
        l.len() > 0,
        is_fence(e) == is_fence(l.last()),
    ensures
        fence_from(l.drop_last().push(e), from) == fence_from(l, from),
    decreases l.len() - from,
{
    if from < l.len() {
        lemma_fence_last(l, e, from + 1);
    }
}

/// What the last line holds is part of no block, as long as it stays a fence or none.
pub proof fn lemma_fenced_last(l: Seq<Seq<char>>, e: Seq<char>, from: nat)
    requires
        l.len() > 0,
        is_fence(e) == is_fence(l.last()),
    ensures
        fenced_from(l.drop_last().push(e), from) == fenced_from(l, from),
    decreases l.len() - from,
{
    let m = l.drop_last().push(e);
    let i = fence_from(l, from);
    let j = fence_from(l, i + 1);
    lemma_fence_last(l, e, from);
    lemma_fence_last(l, e, i + 1);
    lemma_fence_from(l, from);
    lemma_fence_from(l, i + 1);
    if from < l.len() && i < l.len() && j < l.len() {
        assert(m[i as int] == l[i as int]);
        assert(m.subrange(i as int + 1, j as int) =~= l.subrange(i as int + 1, j as int));
        lemma_fenced_last(l, e, j + 1);
    }
}

/// A carriage return at the end of a line makes no difference to whether it is a fence.
pub proof fn lemma_fence_cr(line: Seq<char>)
    ensures
        is_fence(without_cr(line)) == is_fence(line),
{
    reveal_strlit("```");
    let p = "```"@;
    if line.len() > 0 && line.last() == '\r' {
        let d = line.drop_last();
        if is_fence(line) {
            assert(line.subrange(0, 3)[2] == '`');
            assert(d.subrange(0, 3) =~= line.subrange(0, 3));
        }
        if is_fence(d) {
            assert(line.subrange(0, 3) =~= d.subrange(0, 3));
        }
    }
}

/// Text without a fence adds no block: behind any text, from a line of its own on, it leaves the
/// blocks as they are.
pub proof fn law_plain_text_adds_no_block(c: Seq<char>, t: Seq<char>)
    requires
        forall|k: int| 0 <= k < lines(t).len() ==> !begins(#[trigger] lines(t)[k], "```"@),
    ensures
        fenced(c + "\n"@ + t) == fenced(c),
        fenced(t) == Seq::<FencedView>::empty(),
{
    reveal_strlit("\n");
    let l = lines(c);
    let ended = c.push('\n');
    assert(c + "\n"@ =~= ended);
    assert forall|k: int| 0 <= k < lines(t).len() implies !is_fence(#[trigger] lines(t)[k]) by {}
    lemma_lines_add(ended, t);
    lemma_lines_feed(c);
    lemma_fenced_plain(lines(ended), lines(t), 0);
    if c.len() == 0 || c.last() == '\n' {
        let blank = seq![Seq::<char>::empty()];
        assert(l.push(Seq::empty()) =~= l + blank);
        assert(!is_fence(blank[0])) by {
            reveal_strlit("```");
        }
        lemma_fenced_plain(l, blank, 0);
    } else {
        lemma_fence_cr(l.last());
        lemma_fenced_last(l, without_cr(l.last()), 0);
    }
    let none = Seq::<Seq<char>>::empty();
    assert(none + lines(t) =~= lines(t));
    lemma_fenced_plain(none, lines(t), 0);
}

/// Where the fences of a text go in pairs and its last line has ended, what follows is read by
/// itself: the blocks are those of the text and then those of what follows.
pub proof fn law_blocks_add_up(c: Seq<char>, d: Seq<char>)
    requires
        c.len() == 0 || c.last() == '\n',
        fences_from(lines(c), 0) % 2 == 0,
    ensures
        fenced(c + d) == fenced(c) + fenced(d),
{
    lemma_lines_add(c, d);
    lemma_fenced_add(lines(c), lines(d), 0);
}

proof fn lemma_fence_is(l: Seq<Seq<char>>, from: nat, i: nat)
    requires
        from <= i <= l.len(),
        i < l.len() ==> is_fence(l[i as int]),
        forall|k: int| from <= k < i ==> !is_fence(#[trigger] l[k]),
    ensures
        fence_from(l, from) == i,
{
    lemma_fence_from(l, from);
    if fence_from(l, from) < i {
        assert(!is_fence(l[fence_from(l, from) as int]));
    }
}

/// White space behind a text makes no difference to what is left of it.
proof fn lemma_trim_feed(t: Seq<char>)
    ensures
        trim(t.push('\n')) == trim(t),
{
    let (a, b) = law_trim(t);
    let left = t.take(a);
    let mid = t.subrange(a, b);
    let right = t.skip(b).push('\n');
    assert(left + mid + right =~= t.push('\n'));
    assert forall|k: int| 0 <= k < left.len() implies is_white(#[trigger] left[k]) by {
        assert(left[k] == t[k]);
    }
    assert forall|k: int| 0 <= k < right.len() implies is_white(#[trigger] right[k]) by {
        if k < right.len() - 1 {
            assert(right[k] == t[b + k]);
        }
    }
    law_trim_unique(left, mid, right);
}

proof fn lemma_fence_line(info: Seq<char>)
    requires
        !info.contains('\n'),
        !info.contains('\r'),
    ensures
        lines("```"@ + info + "\n"@) == seq!["```"@ + info],
        is_fence("```"@ + info),
        !("```"@ + info).contains('\n'),
{
    reveal_strlit("```");
    reveal_strlit("\n");
    let h = "```"@ + info;
    assert forall|k: int| 0 <= k < h.len() implies h[k] != '\n' && h[k] != '\r' by {
        if k >= 3 {
            assert(h[k] == info[k - 3]);
            assert(info.contains(info[k - 3]));
        }
    }
    assert(h.subrange(0, 3) =~= "```"@);
    reveal_with_fuel(terminated, 2);
    assert(terminated(seq![h]) + Seq::<char>::empty() =~= h + "\n"@);
    law_lines_read_back(seq![h], Seq::empty());
    law_line_ends(h);
    let f = |x: Seq<char>| without_cr(x);
    assert(seq![h].map_values(f) + Seq::<Seq<char>>::empty() =~= seq![h]);
}

/// A block is the whole text between its fences: three backticks and a name, then any lines none of
/// which is a fence, then three backticks, make exactly one block. Its name and its code are the two
/// texts without white space at their ends.
pub proof fn law_a_block_is_what_its_fences_hold(info: Seq<char>, t: Seq<char>)
    requires
        !info.contains('\n'),
        !info.contains('\r'),
        !begins(info, "```"@),
        !t.contains('\r'),
        forall|k: int| 0 <= k < lines(t).len() ==> !begins(#[trigger] lines(t)[k], "```"@),
    ensures
        fenced("```"@ + info + "\n"@ + t + "\n```"@) == seq![
            FencedView { info: trim(info), code: trim(t) },
        ],
{
    let h = "```"@ + info;
    let first = h + "\n"@;
    let middle = t.push('\n');
    let m = lines(middle);
    reveal_strlit("\n");
    reveal_strlit("```");
    reveal_strlit("\n```");
    let s = "```"@ + info + "\n"@ + t + "\n```"@;
    assert(s =~= first + (middle + "```"@));
    lemma_fence_line(info);
    assert(first.last() == '\n');
    lemma_lines_add(first, middle + "```"@);
    lemma_lines_add(middle, "```"@);
    law_lines_read_back(Seq::empty(), "```"@);
    assert(terminated(Seq::<Seq<char>>::empty()) + "```"@ =~= "```"@);
    assert(Seq::<Seq<char>>::empty().map_values(|x: Seq<char>| without_cr(x)) + seq!["```"@]
        =~= seq!["```"@]);
    let l = seq![h] + m + seq!["```"@];
    assert(lines(s) =~= l);
    lemma_lines_feed(t);
    assert forall|k: int| 0 <= k < m.len() implies !is_fence(#[trigger] m[k]) by {
        if t.len() == 0 || t.last() == '\n' {
            if k < lines(t).len() {
                assert(m[k] == lines(t)[k]);
            } else {
                assert(m[k].len() == 0);
            }
        } else if k < lines(t).len() - 1 {
            assert(m[k] == lines(t)[k]);
        } else {
            lemma_fence_cr(lines(t).last());
            assert(lines(t).last() == lines(t)[lines(t).len() - 1]);
        }
    }
    let j = (1 + m.len()) as nat;
    assert(l[0] == h && l[j as int] == "```"@);
    assert("```"@.subrange(0, 3) =~= "```"@);
    lemma_fence_is(l, 0, 0);
    assert forall|k: int| 1 <= k < j implies !is_fence(#[trigger] l[k]) by {
        assert(l[k] == m[k - 1]);
    }
    lemma_fence_is(l, 1, j);
    assert(l.subrange(1, j as int) =~= m);
    assert forall|k: int| 0 <= k < middle.len() implies middle[k] != '\r' by {
        if k < t.len() {
            assert(t.contains(t[k]));
        }
    }
    law_lines_spell_the_text(middle);
    lemma_trim_feed(t);
    law_prefixes(info, "```"@);
    assert(fenced_from(l, j + 1) =~= Seq::<FencedView>::empty());
    assert(fenced_from(l, 0) =~= seq![FencedView { info: trim(info), code: trim(t) }]);
}

/// Whatever lines stand between two fences, all of them are the code of the block, and what follows the
/// first fence is its name.
pub proof fn law_a_block_has_all_its_lines(
    first: Seq<char>,
    m: Seq<Seq<char>>,
    last: Seq<char>,
)
    requires
        begins(first, "```"@),
        begins(last, "```"@),
        forall|k: int| 0 <= k < m.len() ==> !begins(#[trigger] m[k], "```"@),
    ensures
        fenced_from(seq![first] + m + seq![last], 0) == seq![
            FencedView { info: trim(without_prefixes(first, "```"@)), code: trim(terminated(m)) },
        ],
{
    let l = seq![first] + m + seq![last];
    let j = (1 + m.len()) as nat;
    assert(l[0] == first && l[j as int] == last);
    lemma_fence_is(l, 0, 0);
    assert forall|k: int| 1 <= k < j implies !is_fence(#[trigger] l[k]) by {
        assert(l[k] == m[k - 1]);
    }
    lemma_fence_is(l, 1, j);
    assert(l.subrange(1, j as int) =~= m);
    assert(fenced_from(l, j + 1) =~= Seq::<FencedView>::empty());
    assert(fenced_from(l, 0) =~= seq![
        FencedView { info: trim(without_prefixes(first, "```"@)), code: trim(terminated(m)) },
    ]);
}

/// The blocks of a text are those of its lines.
pub proof fn law_blocks_are_in_the_lines(s: Seq<char>)
    ensures
        fenced(s) == fenced_from(lines(s), 0),
{
}

/// A fence that is never closed opens no block.
pub proof fn law_open_blocks_do_not_count(info: Seq<char>, t: Seq<char>)
    requires
        !info.contains('\n'),
        !info.contains('\r'),
        forall|k: int| 0 <= k < lines(t).len() ==> !begins(#[trigger] lines(t)[k], "```"@),
    ensures
        fenced("```"@ + info + "\n"@ + t) == Seq::<FencedView>::empty(),
{
    let first = "```"@ + info + "\n"@;
    let h = "```"@ + info;
    reveal_strlit("\n");
    lemma_fence_line(info);
    assert(first.last() == '\n');
    lemma_lines_add(first, t);
    let l = lines(first + t);
    assert(l[0] == h);
    lemma_fence_is(l, 0, 0);
    assert forall|k: int| 1 <= k < l.len() implies !is_fence(#[trigger] l[k]) by {
        assert(l[k] == lines(t)[k - 1]);
    }
    lemma_fence_is(l, 1, l.len());
}

fn next_fence(l: &Vec<String>, from: usize) -> (r: usize)
    requires
        from <= l@.len(),
    ensures
        r == fence_from(views(l@), from as nat),
        from <= r <= l@.len(),
{
    let mut i: usize = from;
    while i < l.len() && !starts_with(l[i].as_str(), "```")
        invariant
            from <= i <= l@.len(),
            fence_from(views(l@), from as nat) == fence_from(views(l@), i as nat),
        decreases l@.len() - i,
    {
        assert(views(l@)[i as int] == l@[i as int]@);
        i += 1;
    }
    assert(i < l@.len() ==> views(l@)[i as int] == l@[i as int]@);
    i
}

/// The closed blocks of a text.
pub fn fenced_blocks(content: &str) -> (r: Vec<Fenced>)
    ensures
        fenced_views(r@) == fenced(content@),
{
    let all = lines_of(content);
    let ghost l = views(all@);
    let mut blocks: Vec<Fenced> = Vec::new();
    let mut pos: usize = 0;
    assert(fenced_views(blocks@) + fenced_from(l, 0) =~= fenced_from(l, 0));
    while pos < all.len()
        invariant
            l == views(all@),
            l == lines(content@),
            pos <= all@.len(),
            fenced(content@) == fenced_views(blocks@) + fenced_from(l, pos as nat),
        decreases all@.len() - pos,
    {
        let ghost before = fenced_views(blocks@);
        assert(before + Seq::<FencedView>::empty() =~= before);
        let i = next_fence(&all, pos);
        if i == all.len() {
            return blocks;
        }
        let j = next_fence(&all, i + 1);
        if j == all.len() {
            return blocks;
        }
        let head = strip_prefixes(all[i].as_str(), "```");
        let info = trimmed(head.as_str());
        let body = terminate_between(&all, i + 1, j);
        let code = trimmed(body.as_str());
        let block = Fenced { info, code };
        assert(l[i as int] == all@[i as int]@);
        assert(fenced_views(blocks@.push(block)) =~= before.push(block@));
        blocks.push(block);
        assert(before + (seq![block@] + fenced_from(l, (j + 1) as nat)) =~= before.push(block@)
            + fenced_from(l, (j + 1) as nat));
        pos = j + 1;
    }
    assert(fenced_views(blocks@) + Seq::<FencedView>::empty() =~= fenced_views(blocks@));
    blocks
}

} // verus!
