//! The preview of a change to a file.
use crate::text::{
    contains, decimal, decimal_of, lemma_decimal_one_line, lemma_index_of_is,
    lemma_lines_one_line_each, lemma_pieces, lemma_terminated_add, lines, lines_of, occurs_at, one_line_each, pieces, same, terminated, views,
};
use vstd::prelude::*;
use vstd::string::*;

verus! {

/// How many unchanged lines are shown on each side of a changed one.
pub const CONTEXT: usize = 3;

/// How many changed lines, or lines of a new file, are shown at most.
pub const MAX_SHOWN: usize = 20;

/// Line `i`, where there is one.
pub open spec fn line_at(l: Seq<Seq<char>>, i: int) -> Option<Seq<char>> {
    if 0 <= i < l.len() {
        Some(l[i])
    } else {
        None
    }
}

/// The larger of two line counts.
pub open spec fn longer(a: Seq<Seq<char>>, b: Seq<Seq<char>>) -> int {
    if a.len() >= b.len() {
        a.len() as int
    } else {
        b.len() as int
    }
}

/// The positions below `n` at which the two texts differ, in order.
pub open spec fn changed(a: Seq<Seq<char>>, b: Seq<Seq<char>>, n: int) -> Seq<int>
    decreases n,
{
    if n <= 0 {
        Seq::empty()
    } else if line_at(a, n - 1) != line_at(b, n - 1) {
        changed(a, b, n - 1).push(n - 1)
    } else {
        changed(a, b, n - 1)
    }
}

/// How position `i` is shown: the old line and the new one where they differ, else the line.
pub open spec fn row(a: Seq<Seq<char>>, b: Seq<Seq<char>>, i: int) -> Seq<char> {
    match (line_at(a, i), line_at(b, i)) {
        (Some(x), Some(y)) => if x != y {
            "-"@ + x + "\n"@ + "+"@ + y + "\n"@
        } else {
            " "@ + x + "\n"@
        },
        (Some(x), None) => "-"@ + x + "\n"@,
        (None, Some(y)) => "+"@ + y + "\n"@,
        (None, None) => Seq::empty(),
    }
}

/// How the positions from `from` up to `to` are shown.
pub open spec fn rows(a: Seq<Seq<char>>, b: Seq<Seq<char>>, from: int, to: int) -> Seq<char>
    decreases to - from,
{
    if to <= from {
        Seq::empty()
    } else {
        rows(a, b, from, to - 1) + row(a, b, to - 1)
    }
}

/// The first position that is shown for a change at `i`.
pub open spec fn window_start(i: int) -> int {
    if i < CONTEXT {
        0
    } else {
        i - CONTEXT
    }
}

/// The position behind the last that is shown for a change at `i` in texts of at most `n` lines.
pub open spec fn window_end(i: int, n: int) -> int {
    if i + CONTEXT + 1 < n {
        i + CONTEXT + 1
    } else {
        n
    }
}

/// How the changes at `at` are shown: the surroundings of each, with an ellipsis where lines were
/// left out since the one before.
pub open spec fn hunks(a: Seq<Seq<char>>, b: Seq<Seq<char>>, at: Seq<int>) -> Seq<char>
    decreases at.len(),
{
    if at.len() == 0 {
        Seq::empty()
    } else {
        let n = longer(a, b);
        let i = at.last();
        let gap = if at.len() > 1 && window_start(i) > window_end(at[at.len() - 2], n) {
            "...\n"@
        } else {
            Seq::empty()
        };
        hunks(a, b, at.drop_last()) + gap + rows(a, b, window_start(i), window_end(i, n))
    }
}

/// The first lines of every preview.
pub open spec fn header(path: Seq<char>) -> Seq<char> {
    "--- a/"@ + path + "\n"@ + "+++ b/"@ + path + "\n"@ + "@@ Diff Preview @@\n\n"@
}

/// The lines of `l` below `n`, each as an added line.
pub open spec fn added(l: Seq<Seq<char>>, n: int) -> Seq<char>
    decreases n,
{
    if n <= 0 {
        Seq::empty()
    } else {
        added(l, n - 1) + ("+"@ + l[n - 1] + "\n"@)
    }
}

/// The preview of a change of the file at `path` from `original`, if it exists, to `proposed`.
pub open spec fn preview(
    path: Seq<char>,
    original: Option<Seq<char>>,
    proposed: Seq<char>,
) -> Seq<char> {
    match original {
        None => {
            let l = lines(proposed);
            if l.len() > MAX_SHOWN {
                header(path) + "(new file)\n"@ + added(l, MAX_SHOWN as int) + ("... ("@ + decimal(
                    (l.len() - MAX_SHOWN) as nat,
                ) + " more lines)\n"@)
            } else {
                header(path) + "(new file)\n"@ + added(l, l.len() as int)
            }
        },
        Some(text) => {
            let a = lines(text);
            let b = lines(proposed);
            let at = changed(a, b, longer(a, b));
            if at.len() == 0 {
                header(path) + "(no changes)\n"@
            } else if at.len() > MAX_SHOWN {
                header(path) + ("Too many changes to display ("@ + decimal(at.len())
                    + " lines changed)."@)
            } else {
                header(path) + hunks(a, b, at)
            }
        },
    }
}

proof fn lemma_changed_same(a: Seq<Seq<char>>, n: int)
    ensures
        changed(a, a, n) == Seq::<int>::empty(),
    decreases n,
{
    if n > 0 {
        lemma_changed_same(a, n - 1);
    }
}

/// A file that stays as it is shows no changes.
pub proof fn law_no_change(path: Seq<char>, text: Seq<char>)
    ensures
        preview(path, Some(text), text) == header(path) + "(no changes)\n"@,
{
    lemma_changed_same(lines(text), longer(lines(text), lines(text)));
}

/// `changed` lists exactly the positions at which the texts differ.
pub proof fn lemma_changed(a: Seq<Seq<char>>, b: Seq<Seq<char>>, n: int)
    ensures
        forall|i: int| #[trigger]
            changed(a, b, n).contains(i) <==> 0 <= i < n && line_at(a, i) != line_at(b, i),
    decreases n,
{
    if n > 0 {
        lemma_changed(a, b, n - 1);
        let c = changed(a, b, n - 1);
        assert forall|i: int| #[trigger]
            changed(a, b, n).contains(i) <==> 0 <= i < n && line_at(a, i) != line_at(b, i) by {
            if line_at(a, n - 1) != line_at(b, n - 1) {
                let d = c.push(n - 1);
                if d.contains(i) {
                    let k = choose|k: int| 0 <= k < d.len() && d[k] == i;
                    if k < c.len() {
                        assert(c[k] == i);
                        assert(c.contains(i));
                    }
                }
                if c.contains(i) {
                    let k = choose|k: int| 0 <= k < c.len() && c[k] == i;
                    assert(d[k] == i);
                }
                assert(d[c.len() as int] == n - 1);
            }
        }
    }
}

proof fn lemma_contains_within(s: Seq<char>, p: Seq<char>, left: Seq<char>, right: Seq<char>)
    requires
        contains(s, p),
    ensures
        contains(left + s + right, p),
{
    let i = choose|i: int| occurs_at(s, p, i);
    let t = left + s + right;
    assert(t.subrange(left.len() + i, left.len() + i + p.len()) =~= s.subrange(i, i + p.len()));
    assert(occurs_at(t, p, left.len() + i));
}

proof fn lemma_rows_contain(a: Seq<Seq<char>>, b: Seq<Seq<char>>, from: int, to: int, i: int)
    requires
        from <= i < to,
    ensures
        contains(rows(a, b, from, to), row(a, b, i)),
    decreases to - from,
{
    let e = Seq::<char>::empty();
    if i == to - 1 {
        let r = row(a, b, i);
        assert(r.subrange(0, r.len() as int) =~= r);
        assert(occurs_at(r, r, 0));
        lemma_contains_within(r, r, rows(a, b, from, to - 1), e);
        assert(rows(a, b, from, to - 1) + r + e =~= rows(a, b, from, to));
    } else {
        lemma_rows_contain(a, b, from, to - 1, i);
        lemma_contains_within(rows(a, b, from, to - 1), row(a, b, i), e, row(a, b, to - 1));
        assert(e + rows(a, b, from, to - 1) + row(a, b, to - 1) =~= rows(a, b, from, to));
    }
}

proof fn lemma_hunks_contain(a: Seq<Seq<char>>, b: Seq<Seq<char>>, at: Seq<int>, k: int)
    requires
        0 <= k < at.len(),
        forall|j: int| 0 <= j < at.len() ==> 0 <= #[trigger] at[j] < longer(a, b),
    ensures
        contains(hunks(a, b, at), row(a, b, at[k])),
    decreases at.len(),
{
    let n = longer(a, b);
    let i = at.last();
    let e = Seq::<char>::empty();
    let gap = if at.len() > 1 && window_start(i) > window_end(at[at.len() - 2], n) {
        "...\n"@
    } else {
        Seq::empty()
    };
    let front = hunks(a, b, at.drop_last());
    let back = rows(a, b, window_start(i), window_end(i, n));
    if k == at.len() - 1 {
        lemma_rows_contain(a, b, window_start(i), window_end(i, n), i);
        lemma_contains_within(back, row(a, b, i), front + gap, e);
        assert(front + gap + back + e =~= hunks(a, b, at));
    } else {
        assert forall|j: int| 0 <= j < at.drop_last().len() implies 0 <= #[trigger] at.drop_last()[j]
            < longer(a, b) by {
            assert(at.drop_last()[j] == at[j]);
        }
        lemma_hunks_contain(a, b, at.drop_last(), k);
        assert(at.drop_last()[k] == at[k]);
        lemma_contains_within(front, row(a, b, at[k]), e, gap + back);
        assert(e + front + (gap + back) =~= hunks(a, b, at));
    }
}

/// Where few enough lines change, the preview shows each of them.
pub proof fn law_every_change_is_shown(
    path: Seq<char>,
    text: Seq<char>,
    proposed: Seq<char>,
    i: int,
)
    requires
        line_at(lines(text), i) != line_at(lines(proposed), i),
        changed(
            lines(text),
            lines(proposed),
            longer(lines(text), lines(proposed)),
        ).len() <= MAX_SHOWN,
    ensures
        contains(preview(path, Some(text), proposed), row(lines(text), lines(proposed), i)),
{
    let a = lines(text);
    let b = lines(proposed);
    let n = longer(a, b);
    let at = changed(a, b, n);
    lemma_changed(a, b, n);
    assert(at.contains(i));
    let k = choose|k: int| 0 <= k < at.len() && at[k] == i;
    assert forall|j: int| 0 <= j < at.len() implies 0 <= #[trigger] at[j] < n by {
        assert(at.contains(at[j]));
    }
    lemma_hunks_contain(a, b, at, k);
    let e = Seq::<char>::empty();
    lemma_contains_within(hunks(a, b, at), row(a, b, i), header(path), e);
    assert(header(path) + hunks(a, b, at) + e =~= header(path) + hunks(a, b, at));
}

/// The texts of the lines that begin with `mark`, without it, in order.
pub open spec fn marked(l: Seq<Seq<char>>, mark: char) -> Seq<Seq<char>>
    decreases l.len(),
{
    if l.len() == 0 {
        Seq::empty()
    } else {
        let rest = marked(l.drop_last(), mark);
        if l.last().len() > 0 && l.last()[0] == mark {
            rest.push(l.last().skip(1))
        } else {
            rest
        }
    }
}

/// The lines that are neither removed nor added ones, in order.
pub open spec fn unmarked(l: Seq<Seq<char>>) -> Seq<Seq<char>>
    decreases l.len(),
{
    if l.len() == 0 {
        Seq::empty()
    } else {
        let rest = unmarked(l.drop_last());
        if l.last().len() > 0 && (l.last()[0] == '-' || l.last()[0] == '+') {
            rest
        } else {
            rest.push(l.last())
        }
    }
}

/// Whether the one list removes what the other adds, adds what it removes, and is otherwise the
/// same.
pub open spec fn opposite(l: Seq<Seq<char>>, m: Seq<Seq<char>>) -> bool {
    &&& marked(m, '-') == marked(l, '+')
    &&& marked(m, '+') == marked(l, '-')
    &&& unmarked(m) == unmarked(l)
}

proof fn lemma_marked_add(x: Seq<Seq<char>>, y: Seq<Seq<char>>)
    ensures
        marked(x + y, '-') == marked(x, '-') + marked(y, '-'),
        marked(x + y, '+') == marked(x, '+') + marked(y, '+'),
        unmarked(x + y) == unmarked(x) + unmarked(y),
    decreases y.len(),
{
    if y.len() == 0 {
        assert(x + y =~= x);
    } else {
        assert((x + y).drop_last() =~= x + y.drop_last());
        assert((x + y).last() == y.last());
        lemma_marked_add(x, y.drop_last());
    }
    assert(marked(x + y, '-') =~= marked(x, '-') + marked(y, '-'));
    assert(marked(x + y, '+') =~= marked(x, '+') + marked(y, '+'));
    assert(unmarked(x + y) =~= unmarked(x) + unmarked(y));
}

proof fn lemma_opposite_add(
    l: Seq<Seq<char>>,
    m: Seq<Seq<char>>,
    x: Seq<Seq<char>>,
    y: Seq<Seq<char>>,
)
    requires
        opposite(l, m),
        opposite(x, y),
    ensures
        opposite(l + x, m + y),
{
    lemma_marked_add(l, x);
    lemma_marked_add(m, y);
}

proof fn lemma_opposite_one(x: Seq<char>)
    requires
        x.len() > 0 ==> x[0] != '-' && x[0] != '+',
    ensures
        opposite(seq![x], seq![x]),
{
    reveal_with_fuel(marked, 2);
    assert(marked(seq![x], '-') =~= marked(seq![x], '+'));
}

/// The lines of `row`.
pub open spec fn row_lines(a: Seq<Seq<char>>, b: Seq<Seq<char>>, i: int) -> Seq<Seq<char>> {
    match (line_at(a, i), line_at(b, i)) {
        (Some(x), Some(y)) => if x != y {
            seq!["-"@ + x, "+"@ + y]
        } else {
            seq![" "@ + x]
        },
        (Some(x), None) => seq!["-"@ + x],
        (None, Some(y)) => seq!["+"@ + y],
        (None, None) => Seq::empty(),
    }
}

/// The lines of `rows`.
pub open spec fn rows_lines(a: Seq<Seq<char>>, b: Seq<Seq<char>>, from: int, to: int) -> Seq<
    Seq<char>,
>
    decreases to - from,
{
    if to <= from {
        Seq::empty()
    } else {
        rows_lines(a, b, from, to - 1) + row_lines(a, b, to - 1)
    }
}

/// The lines of `hunks`.
pub open spec fn hunk_lines(a: Seq<Seq<char>>, b: Seq<Seq<char>>, at: Seq<int>) -> Seq<Seq<char>>
    decreases at.len(),
{
    if at.len() == 0 {
        Seq::empty()
    } else {
        let n = longer(a, b);
        let i = at.last();
        let gap = if at.len() > 1 && window_start(i) > window_end(at[at.len() - 2], n) {
            seq!["..."@]
        } else {
            Seq::empty()
        };
        hunk_lines(a, b, at.drop_last()) + gap + rows_lines(a, b, window_start(i), window_end(i, n))
    }
}

proof fn lemma_one_line(mark: char, x: Seq<char>)
    requires
        mark != '\n',
        !x.contains('\n'),
    ensures
        !(seq![mark] + x).contains('\n'),
{
    let s = seq![mark] + x;
    assert forall|k: int| 0 <= k < s.len() implies s[k] != '\n' by {
        if k > 0 {
            assert(s[k] == x[k - 1]);
        }
    }
}

proof fn lemma_terminated_one(x: Seq<char>)
    ensures
        terminated(seq![x]) == x.push('\n'),
{
    reveal_with_fuel(terminated, 2);
    assert(terminated(seq![x]) =~= x.push('\n'));
}

proof fn lemma_row_lines(a: Seq<Seq<char>>, b: Seq<Seq<char>>, i: int)
    requires
        one_line_each(a),
        one_line_each(b),
    ensures
        terminated(row_lines(a, b, i)) == row(a, b, i),
        one_line_each(row_lines(a, b, i)),
        opposite(row_lines(a, b, i), row_lines(b, a, i)),
{
    reveal_strlit("-");
    reveal_strlit("+");
    reveal_strlit(" ");
    reveal_strlit("\n");
    assert("-"@ =~= seq!['-']);
    assert("+"@ =~= seq!['+']);
    assert(" "@ =~= seq![' ']);
    assert("\n"@ =~= seq!['\n']);
    reveal_with_fuel(marked, 3);
    reveal_with_fuel(unmarked, 3);
    let l = row_lines(a, b, i);
    let m = row_lines(b, a, i);
    if let Some(x) = line_at(a, i) {
        lemma_one_line('-', x);
        lemma_one_line('+', x);
        lemma_one_line(' ', x);
        lemma_terminated_one("-"@ + x);
        lemma_terminated_one(" "@ + x);
        assert(("-"@ + x).skip(1) =~= x);
        assert(("+"@ + x).skip(1) =~= x);
    }
    if let Some(y) = line_at(b, i) {
        lemma_one_line('+', y);
        lemma_terminated_one("+"@ + y);
        assert(("-"@ + y).skip(1) =~= y);
        assert(("+"@ + y).skip(1) =~= y);
    }
    match (line_at(a, i), line_at(b, i)) {
        (Some(x), Some(y)) => {
            if x != y {
                assert(l =~= seq!["-"@ + x] + seq!["+"@ + y]);
                lemma_terminated_add(seq!["-"@ + x], seq!["+"@ + y]);
                assert(l.drop_last() =~= seq!["-"@ + x]);
                assert(m.drop_last() =~= seq!["-"@ + y]);
                assert(l.drop_last().drop_last() =~= Seq::<Seq<char>>::empty());
                assert(m.drop_last().drop_last() =~= Seq::<Seq<char>>::empty());
            } else {
                lemma_opposite_one(" "@ + x);
            }
        },
        _ => {},
    }
    assert(terminated(l) =~= row(a, b, i));
    assert(marked(m, '-') =~= marked(l, '+'));
    assert(marked(m, '+') =~= marked(l, '-'));
    assert(unmarked(m) =~= unmarked(l));
}

proof fn lemma_one_line_each_add(x: Seq<Seq<char>>, y: Seq<Seq<char>>)
    requires
        one_line_each(x),
        one_line_each(y),
    ensures
        one_line_each(x + y),
{
}

proof fn lemma_rows_lines(a: Seq<Seq<char>>, b: Seq<Seq<char>>, from: int, to: int)
    requires
        one_line_each(a),
        one_line_each(b),
    ensures
        terminated(rows_lines(a, b, from, to)) == rows(a, b, from, to),
        one_line_each(rows_lines(a, b, from, to)),
        opposite(rows_lines(a, b, from, to), rows_lines(b, a, from, to)),
    decreases to - from,
{
    if from < to {
        let front = rows_lines(a, b, from, to - 1);
        let last = row_lines(a, b, to - 1);
        lemma_rows_lines(a, b, from, to - 1);
        lemma_row_lines(a, b, to - 1);
        lemma_terminated_add(front, last);
        lemma_one_line_each_add(front, last);
        lemma_opposite_add(
            front,
            rows_lines(b, a, from, to - 1),
            last,
            row_lines(b, a, to - 1),
        );
    }
}

proof fn lemma_hunk_lines(a: Seq<Seq<char>>, b: Seq<Seq<char>>, at: Seq<int>)
    requires
        one_line_each(a),
        one_line_each(b),
    ensures
        terminated(hunk_lines(a, b, at)) == hunks(a, b, at),
        one_line_each(hunk_lines(a, b, at)),
        opposite(hunk_lines(a, b, at), hunk_lines(b, a, at)),
    decreases at.len(),
{
    if at.len() > 0 {
        let n = longer(a, b);
        let i = at.last();
        let skips = at.len() > 1 && window_start(i) > window_end(at[at.len() - 2], n);
        let gap: Seq<Seq<char>> = if skips {
            seq!["..."@]
        } else {
            Seq::empty()
        };
        let front = hunk_lines(a, b, at.drop_last());
        let back = rows_lines(a, b, window_start(i), window_end(i, n));
        lemma_hunk_lines(a, b, at.drop_last());
        lemma_rows_lines(a, b, window_start(i), window_end(i, n));
        reveal_strlit("...");
        reveal_strlit("...\n");
        if skips {
            lemma_terminated_one("..."@);
            assert("..."@.push('\n') =~= "...\n"@);
            lemma_opposite_one("..."@);
            assert(one_line_each(gap));
        } else {
            assert(terminated(gap) =~= Seq::<char>::empty());
        }
        lemma_terminated_add(front, gap);
        lemma_terminated_add(front + gap, back);
        lemma_one_line_each_add(front, gap);
        lemma_one_line_each_add(front + gap, back);
        let front2 = hunk_lines(b, a, at.drop_last());
        lemma_opposite_add(front, front2, gap, gap);
        lemma_opposite_add(
            front + gap,
            front2 + gap,
            back,
            rows_lines(b, a, window_start(i), window_end(i, n)),
        );
    }
}

proof fn lemma_changed_back(a: Seq<Seq<char>>, b: Seq<Seq<char>>, n: int)
    ensures
        changed(a, b, n) == changed(b, a, n),
    decreases n,
{
    if n > 0 {
        lemma_changed_back(a, b, n - 1);
    }
}

/// What a preview shows below its first lines.
pub open spec fn body(path: Seq<char>, original: Seq<char>, proposed: Seq<char>) -> Seq<
    Seq<char>,
> {
    pieces(preview(path, Some(original), proposed).skip(header(path).len() as int))
}

/// The way back shows what the way there shows, with removed and added lines exchanged: below the
/// first lines, which are the same, it removes what the other adds, in the same order, adds what
/// the other removes, and all other lines are the same.
pub proof fn law_the_way_back(path: Seq<char>, a: Seq<char>, b: Seq<char>)
    ensures
        preview(path, Some(a), b).take(header(path).len() as int) == header(path),
        preview(path, Some(b), a).take(header(path).len() as int) == header(path),
        marked(body(path, b, a), '-') == marked(body(path, a, b), '+'),
        marked(body(path, b, a), '+') == marked(body(path, a, b), '-'),
        unmarked(body(path, b, a)) == unmarked(body(path, a, b)),
{
    let x = lines(a);
    let y = lines(b);
    let n = longer(x, y);
    let at = changed(x, y, n);
    let h = header(path);
    let there = preview(path, Some(a), b);
    let back = preview(path, Some(b), a);
    lemma_changed_back(x, y, n);
    assert(there.take(h.len() as int) =~= h);
    assert(back.take(h.len() as int) =~= h);
    if at.len() == 0 {
        let t = "(no changes)"@;
        reveal_strlit("(no changes)");
        reveal_strlit("(no changes)\n");
        lemma_terminated_one(t);
        assert(t.push('\n') =~= "(no changes)\n"@);
        assert(there.skip(h.len() as int) =~= terminated(seq![t]));
        assert(one_line_each(seq![t]));
        lemma_pieces(seq![t]);
        lemma_opposite_one(t);
        lemma_closed(seq![t], seq![t]);
    } else if at.len() > MAX_SHOWN {
        let t = "Too many changes to display ("@ + decimal(at.len()) + " lines changed)."@;
        reveal_strlit("Too many changes to display (");
        reveal_strlit(" lines changed).");
        lemma_decimal_one_line(at.len());
        assert forall|k: int| 0 <= k < t.len() implies t[k] != '\n' by {
            let p = "Too many changes to display ("@;
            let d = decimal(at.len());
            if p.len() <= k < p.len() + d.len() {
                assert(t[k] == d[k - p.len()]);
            }
        }
        assert(there.skip(h.len() as int) =~= t);
        assert(back.skip(h.len() as int) =~= t);
        lemma_index_of_is(t, '\n', t.len() as int);
        lemma_opposite_one(t);
    } else {
        lemma_lines_one_line_each(a);
        lemma_lines_one_line_each(b);
        let l = hunk_lines(x, y, at);
        let m = hunk_lines(y, x, at);
        lemma_hunk_lines(x, y, at);
        lemma_hunk_lines(y, x, at);
        assert(there.skip(h.len() as int) =~= hunks(x, y, at));
        assert(back.skip(h.len() as int) =~= hunks(y, x, at));
        lemma_pieces(l);
        lemma_pieces(m);
        lemma_closed(l, m);
    }
}

proof fn lemma_closed(l: Seq<Seq<char>>, m: Seq<Seq<char>>)
    requires
        opposite(l, m),
    ensures
        opposite(l.push(Seq::empty()), m.push(Seq::empty())),
{
    assert(l.push(Seq::empty()).drop_last() =~= l);
    assert(m.push(Seq::empty()).drop_last() =~= m);
}

/// The first lines of every preview name the file twice.
pub proof fn law_header(path: Seq<char>)
    ensures
        header(path) == "--- a/"@ + path + "\n+++ b/"@ + path + "\n@@ Diff Preview @@\n\n"@,
{
    reveal_strlit("\n");
    reveal_strlit("+++ b/");
    reveal_strlit("\n+++ b/");
    reveal_strlit("@@ Diff Preview @@\n\n");
    reveal_strlit("\n@@ Diff Preview @@\n\n");
    assert("\n"@ + "+++ b/"@ =~= "\n+++ b/"@);
    assert("\n"@ + "@@ Diff Preview @@\n\n"@ =~= "\n@@ Diff Preview @@\n\n"@);
    assert(header(path) =~= "--- a/"@ + path + ("\n"@ + "+++ b/"@) + path + ("\n"@
        + "@@ Diff Preview @@\n\n"@));
}

proof fn lemma_added(l: Seq<Seq<char>>, n: int)
    requires
        0 <= n <= l.len(),
        one_line_each(l),
    ensures
        added(l, n) == terminated(Seq::new(n as nat, |k: int| "+"@ + l[k])),
        one_line_each(Seq::new(n as nat, |k: int| "+"@ + l[k])),
    decreases n,
{
    let p = Seq::new(n as nat, |k: int| "+"@ + l[k]);
    reveal_strlit("+");
    reveal_strlit("\n");
    assert("+"@ =~= seq!['+']);
    if n > 0 {
        lemma_added(l, n - 1);
        let q = Seq::new((n - 1) as nat, |k: int| "+"@ + l[k]);
        assert(p.drop_last() =~= q);
        assert(p.last() == "+"@ + l[n - 1]);
        assert(("+"@ + l[n - 1]).push('\n') =~= "+"@ + l[n - 1] + "\n"@);
    }
    assert forall|k: int| 0 <= k < p.len() implies !(#[trigger] p[k]).contains('\n') by {
        lemma_one_line('+', l[k]);
    }
}

/// The preview of a new file shows its first lines in order: below the first lines of every preview
/// and a line that says that the file is new come the lines of the text, twenty at most, each behind
/// a plus sign, and where there are more of them, how many.
pub proof fn law_new_files_show_their_first_lines(path: Seq<char>, proposed: Seq<char>)
    ensures
        ({
            let l = lines(proposed);
            let all = preview(path, None, proposed);
            let p = pieces(all.skip(header(path).len() as int));
            let n = if l.len() <= 20 {
                l.len() as int
            } else {
                20
            };
            &&& all.take(header(path).len() as int) == header(path)
            &&& p.len() == (if l.len() <= 20 {
                n + 2
            } else {
                n + 3
            })
            &&& p[0] == "(new file)"@
            &&& forall|k: int| 0 <= k < n ==> #[trigger] p[k + 1] == "+"@ + l[k]
            &&& l.len() > 20 ==> p[21] == "... ("@ + decimal((l.len() - 20) as nat)
                + " more lines)"@
            &&& p.last().len() == 0
        }),
{
    let l = lines(proposed);
    let all = preview(path, None, proposed);
    let h = header(path);
    let n: int = if l.len() <= 20 {
        l.len() as int
    } else {
        20
    };
    let first = seq!["(new file)"@];
    let plus = Seq::new(n as nat, |k: int| "+"@ + l[k]);
    lemma_lines_one_line_each(proposed);
    lemma_added(l, n);
    reveal_strlit("(new file)");
    reveal_strlit("(new file)\n");
    lemma_terminated_one("(new file)"@);
    assert("(new file)"@.push('\n') =~= "(new file)\n"@);
    lemma_terminated_add(first, plus);
    lemma_one_line_each_add(first, plus);
    assert(all.take(h.len() as int) =~= h);
    if l.len() > 20 {
        let more = (l.len() - 20) as nat;
        let rest = "... ("@ + decimal(more) + " more lines)"@;
        reveal_strlit("... (");
        reveal_strlit(" more lines)");
        reveal_strlit(" more lines)\n");
        lemma_decimal_one_line(more);
        assert forall|k: int| 0 <= k < rest.len() implies rest[k] != '\n' by {
            let d = decimal(more);
            if 5 <= k < 5 + d.len() {
                assert(rest[k] == d[k - 5]);
            }
        }
        lemma_terminated_one(rest);
        assert(" more lines)"@.push('\n') =~= " more lines)\n"@);
        assert(rest.push('\n') =~= "... ("@ + decimal(more) + " more lines)\n"@);
        let list = first + plus + seq![rest];
        lemma_terminated_add(first + plus, seq![rest]);
        assert(one_line_each(seq![rest]));
        lemma_one_line_each_add(first + plus, seq![rest]);
        assert(all.skip(h.len() as int) =~= terminated(list));
        lemma_pieces(list);
        let p = list.push(Seq::empty());
        assert forall|k: int| 0 <= k < n implies #[trigger] p[k + 1] == "+"@ + l[k] by {
            assert(p[k + 1] == plus[k]);
        }
    } else {
        let list = first + plus;
        assert(all.skip(h.len() as int) =~= terminated(list));
        lemma_pieces(list);
        let p = list.push(Seq::empty());
        assert forall|k: int| 0 <= k < n implies #[trigger] p[k + 1] == "+"@ + l[k] by {
            assert(p[k + 1] == plus[k]);
        }
    }
}

/// Whether `c` lists, in order, exactly the positions at which two texts differ: those where only
/// one of them has a line, and those where both have one and it is not the same.
pub open spec fn lists_changes(c: Seq<int>, x: Seq<Seq<char>>, y: Seq<Seq<char>>) -> bool {
    &&& forall|i: int, j: int| 0 <= i < j < c.len() ==> c[i] < c[j]
    &&& forall|i: int| #[trigger]
        c.contains(i) <==> 0 <= i && (i < x.len() || i < y.len()) && !(i < x.len() && i < y.len()
            && x[i] == y[i])
}

proof fn lemma_changed_sorted(a: Seq<Seq<char>>, b: Seq<Seq<char>>, n: int)
    ensures
        forall|i: int, j: int|
            0 <= i < j < changed(a, b, n).len() ==> changed(a, b, n)[i] < changed(a, b, n)[j],
        forall|i: int| 0 <= i < changed(a, b, n).len() ==> 0 <= #[trigger] changed(a, b, n)[i] < n,
    decreases n,
{
    if n > 0 {
        lemma_changed_sorted(a, b, n - 1);
        let c = changed(a, b, n);
        let d = changed(a, b, n - 1);
        assert forall|i: int| 0 <= i < c.len() implies 0 <= #[trigger] c[i] < n by {
            if i < d.len() {
                assert(c[i] == d[i]);
            }
        }
        assert forall|i: int, j: int| 0 <= i < j < c.len() implies c[i] < c[j] by {
            assert(c[i] == d[i]);
            if j < d.len() {
                assert(c[j] == d[j]);
            }
        }
    }
}

proof fn lemma_same_list(c: Seq<int>, d: Seq<int>)
    requires
        forall|i: int, j: int| 0 <= i < j < c.len() ==> c[i] < c[j],
        forall|i: int, j: int| 0 <= i < j < d.len() ==> d[i] < d[j],
        forall|i: int| c.contains(i) <==> d.contains(i),
    ensures
        c == d,
    decreases c.len(),
{
    if c.len() == 0 {
        if d.len() > 0 {
            assert(d.contains(d[0]));
        }
        assert(c =~= d);
    } else {
        assert(c.contains(c.last()));
        let k = choose|k: int| 0 <= k < d.len() && d[k] == c.last();
        assert(d.contains(d.last()));
        let m = choose|m: int| 0 <= m < c.len() && c[m] == d.last();
        assert(c.last() == d.last()) by {
            if m < c.len() - 1 {
                assert(c[m] < c[c.len() - 1]);
            }
            if k < d.len() - 1 {
                assert(d[k] < d[d.len() - 1]);
            }
        }
        let e = c.drop_last();
        let f = d.drop_last();
        assert forall|i: int| e.contains(i) <==> f.contains(i) by {
            if e.contains(i) {
                let q = choose|q: int| 0 <= q < e.len() && e[q] == i;
                assert(c[q] == i && c[q] < c[c.len() - 1]);
                assert(c.contains(i));
                assert(d.contains(i));
                let r = choose|r: int| 0 <= r < d.len() && d[r] == i;
                assert(f[r] == i);
            }
            if f.contains(i) {
                let q = choose|q: int| 0 <= q < f.len() && f[q] == i;
                assert(d[q] == i && d[q] < d[d.len() - 1]);
                assert(d.contains(i));
                assert(c.contains(i));
                let r = choose|r: int| 0 <= r < c.len() && c[r] == i;
                assert(e[r] == i);
            }
        }
        lemma_same_list(e, f);
        assert(c =~= e.push(c.last()));
        assert(d =~= f.push(d.last()));
    }
}

proof fn lemma_lists_changes(c: Seq<int>, x: Seq<Seq<char>>, y: Seq<Seq<char>>)
    requires
        lists_changes(c, x, y),
    ensures
        c == changed(x, y, longer(x, y)),
{
    let n = longer(x, y);
    let d = changed(x, y, n);
    lemma_changed(x, y, n);
    lemma_changed_sorted(x, y, n);
    assert forall|i: int| c.contains(i) <==> d.contains(i) by {
        assert(d.contains(i) <==> 0 <= i < n && line_at(x, i) != line_at(y, i));
    }
    lemma_same_list(c, d);
}

/// Two texts with the same lines show no changes, and more than twenty changes are only counted.
pub proof fn law_none_or_too_many(path: Seq<char>, a: Seq<char>, b: Seq<char>, c: Seq<int>)
    requires
        lists_changes(c, lines(a), lines(b)),
    ensures
        c.len() == 0 ==> body(path, a, b) == seq!["(no changes)"@, Seq::<char>::empty()],
        c.len() > 20 ==> body(path, a, b) == seq![
            "Too many changes to display ("@ + decimal(c.len()) + " lines changed)."@,
        ],
{
    lemma_lists_changes(c, lines(a), lines(b));
    let h = header(path);
    let there = preview(path, Some(a), b);
    if c.len() == 0 {
        let t = "(no changes)"@;
        reveal_strlit("(no changes)");
        reveal_strlit("(no changes)\n");
        lemma_terminated_one(t);
        assert(t.push('\n') =~= "(no changes)\n"@);
        assert(there.skip(h.len() as int) =~= terminated(seq![t]));
        assert(one_line_each(seq![t]));
        lemma_pieces(seq![t]);
        assert(seq![t].push(Seq::empty()) =~= seq![t, Seq::<char>::empty()]);
    } else if c.len() > 20 {
        let t = "Too many changes to display ("@ + decimal(c.len()) + " lines changed)."@;
        lemma_count_is_one_line(c.len());
        assert(there.skip(h.len() as int) =~= t);
        lemma_index_of_is(t, '\n', t.len() as int);
    }
}

proof fn lemma_count_is_one_line(n: nat)
    ensures
        ({
            let t = "Too many changes to display ("@ + decimal(n) + " lines changed)."@;
            forall|k: int| 0 <= k < t.len() ==> t[k] != '\n'
        }),
{
    let p = "Too many changes to display ("@;
    let d = decimal(n);
    let t = p + d + " lines changed)."@;
    reveal_strlit("Too many changes to display (");
    reveal_strlit(" lines changed).");
    lemma_decimal_one_line(n);
    assert forall|k: int| 0 <= k < t.len() implies t[k] != '\n' by {
        if p.len() <= k < p.len() + d.len() {
            assert(t[k] == d[k - p.len()]);
        }
    }
}

/// Whether line `j` of two texts is shown from piece `p` up to piece `q` of a preview: the line where
/// both have it, else what is removed and then what is added.
pub open spec fn shown_between(
    body: Seq<Seq<char>>,
    x: Seq<Seq<char>>,
    y: Seq<Seq<char>>,
    j: int,
    p: int,
    q: int,
) -> bool {
    if j < x.len() && j < y.len() {
        if x[j] == y[j] {
            q == p + 1 && body[p] == " "@ + x[j]
        } else {
            q == p + 2 && body[p] == "-"@ + x[j] && body[p + 1] == "+"@ + y[j]
        }
    } else if j < x.len() {
        q == p + 1 && body[p] == "-"@ + x[j]
    } else {
        q == p + 1 && body[p] == "+"@ + y[j]
    }
}

/// The first line that is shown for a change at `i`: three lines in front of it.
pub open spec fn three_before(i: int) -> int {
    if i >= 3 {
        i - 3
    } else {
        0
    }
}

/// The line behind the last that is shown for a change at `i`: four lines behind it, within the
/// longer of the two texts.
pub open spec fn four_behind(i: int, x: Seq<Seq<char>>, y: Seq<Seq<char>>) -> int {
    let n = if x.len() >= y.len() {
        x.len() as int
    } else {
        y.len() as int
    };
    if i + 4 <= n {
        i + 4
    } else {
        n
    }
}

proof fn lemma_rows_grow(a: Seq<Seq<char>>, b: Seq<Seq<char>>, from: int, mid: int, to: int)
    requires
        from <= mid <= to,
    ensures
        rows_lines(a, b, from, mid).is_prefix_of(rows_lines(a, b, from, to)),
    decreases to - mid,
{
    if mid < to {
        lemma_rows_grow(a, b, from, mid, to - 1);
    }
}

proof fn lemma_hunks_grow(a: Seq<Seq<char>>, b: Seq<Seq<char>>, at: Seq<int>, k: int)
    requires
        0 <= k <= at.len(),
    ensures
        hunk_lines(a, b, at.take(k)).is_prefix_of(hunk_lines(a, b, at)),
    decreases at.len() - k,
{
    if k == at.len() {
        assert(at.take(k) =~= at);
    } else {
        let d = at.drop_last();
        assert(d.take(k) =~= at.take(k));
        lemma_hunks_grow(a, b, d, k);
    }
}

spec fn gap_lines(x: Seq<Seq<char>>, y: Seq<Seq<char>>, c: Seq<int>, k: int) -> Seq<Seq<char>> {
    if k > 0 && window_start(c[k]) > window_end(c[k - 1], longer(x, y)) {
        seq!["..."@]
    } else {
        Seq::empty()
    }
}

spec fn hunk_base(x: Seq<Seq<char>>, y: Seq<Seq<char>>, c: Seq<int>, k: int) -> int {
    (hunk_lines(x, y, c.take(k)).len() + gap_lines(x, y, c, k).len()) as int
}

spec fn places_of(x: Seq<Seq<char>>, y: Seq<Seq<char>>, c: Seq<int>, k: int) -> Seq<int> {
    let from = window_start(c[k]);
    Seq::new(
        (window_end(c[k], longer(x, y)) - from + 1) as nat,
        |m: int| hunk_base(x, y, c, k) + rows_lines(x, y, from, from + m).len() as int,
    )
}

spec fn places(x: Seq<Seq<char>>, y: Seq<Seq<char>>, c: Seq<int>) -> Seq<Seq<int>> {
    Seq::new(c.len(), |k: int| places_of(x, y, c, k))
}

proof fn lemma_hunk_step(x: Seq<Seq<char>>, y: Seq<Seq<char>>, c: Seq<int>, k: int)
    requires
        0 <= k < c.len(),
        0 <= c[k] < longer(x, y),
    ensures
        hunk_lines(x, y, c.take(k + 1)) == hunk_lines(x, y, c.take(k)) + gap_lines(x, y, c, k)
            + rows_lines(x, y, window_start(c[k]), window_end(c[k], longer(x, y))),
        places_of(x, y, c, k).last() == hunk_lines(x, y, c.take(k + 1)).len(),
        places_of(x, y, c, k)[0] == hunk_base(x, y, c, k),
{
    let t = c.take(k + 1);
    assert(t.drop_last() =~= c.take(k));
    assert(t.last() == c[k]);
    if k > 0 {
        assert(t[t.len() - 2] == c[k - 1]);
    }
    let from = window_start(c[k]);
    let to = window_end(c[k], longer(x, y));
    assert(from <= to);
    assert(from + (to - from) == to);
    assert(rows_lines(x, y, from, from + 0) =~= Seq::<Seq<char>>::empty());
}

proof fn lemma_row_is_shown(x: Seq<Seq<char>>, y: Seq<Seq<char>>, c: Seq<int>, k: int, m: int)
    requires
        0 <= k < c.len(),
        0 <= c[k] < longer(x, y),
        0 <= m < window_end(c[k], longer(x, y)) - window_start(c[k]),
    ensures
        shown_between(
            hunk_lines(x, y, c).push(Seq::empty()),
            x,
            y,
            window_start(c[k]) + m,
            places_of(x, y, c, k)[m],
            places_of(x, y, c, k)[m + 1],
        ),
{
    let all = hunk_lines(x, y, c);
    let p = all.push(Seq::empty());
    let from = window_start(c[k]);
    let to = window_end(c[k], longer(x, y));
    let j = from + m;
    let whole = rows_lines(x, y, from, to);
    let front = rows_lines(x, y, from, j);
    let upto = rows_lines(x, y, from, j + 1);
    let row = row_lines(x, y, j);
    let base = hunk_base(x, y, c, k);
    assert(upto == front + row);
    assert(from + (m + 1) == j + 1);
    lemma_rows_grow(x, y, from, j + 1, to);
    lemma_hunks_grow(x, y, c, k + 1);
    lemma_hunk_step(x, y, c, k);
    let head = hunk_lines(x, y, c.take(k + 1));
    assert forall|q: int| 0 <= q < row.len() implies p[base + front.len() + q] == #[trigger] row[q] by {
        assert(upto[front.len() + q] == row[q]);
        assert(whole[front.len() + q] == row[q]);
        assert(head[base + front.len() + q] == row[q]);
        assert(all[base + front.len() + q] == row[q]);
    }
    assert(0 <= j < longer(x, y));
    assert(p[base + front.len() + 0] == row[0]);
    if row.len() > 1 {
        assert(p[base + front.len() + 1] == row[1]);
    }
}

/// Whether the pieces `p` show the changes at `c`, in order, each with three lines on either side, as
/// far as the texts reach, and nothing else. The surroundings of a change follow those of the one
/// before at once, or behind a line with three dots where lines were left out. `r[k][m]` is the piece
/// at which line `m` of the surroundings of change `k` begins.
pub open spec fn laid_out(
    p: Seq<Seq<char>>,
    x: Seq<Seq<char>>,
    y: Seq<Seq<char>>,
    c: Seq<int>,
    r: Seq<Seq<int>>,
) -> bool {
    &&& r.len() == c.len()
    &&& forall|k: int|
        0 <= k < c.len() ==> (#[trigger] r[k]).len() == four_behind(c[k], x, y) - three_before(c[k])
            + 1
    &&& r[0][0] == 0
    &&& p.len() == r.last().last() + 1
    &&& p.last().len() == 0
    &&& forall|k: int, m: int|
        0 <= k < c.len() && 0 <= m < r[k].len() - 1 ==> shown_between(
            p,
            x,
            y,
            three_before(c[k]) + m,
            #[trigger] r[k][m],
            r[k][m + 1],
        )
    &&& forall|k: int|
        0 < k < c.len() ==> if three_before(c[k]) > four_behind(c[k - 1], x, y) {
            (#[trigger] r[k])[0] == r[k - 1].last() + 1 && p[r[k - 1].last()] == "..."@
        } else {
            r[k][0] == r[k - 1].last()
        }
}

proof fn lemma_place(x: Seq<Seq<char>>, y: Seq<Seq<char>>, c: Seq<int>, k: int)
    requires
        0 <= k < c.len(),
        0 <= c[k] < longer(x, y),
    ensures
        places(x, y, c)[k] == places_of(x, y, c, k),
        window_start(c[k]) == three_before(c[k]),
        window_end(c[k], longer(x, y)) == four_behind(c[k], x, y),
        places_of(x, y, c, k).len() == four_behind(c[k], x, y) - three_before(c[k]) + 1,
        places_of(x, y, c, k).len() > 1,
{
}

proof fn lemma_hunk_follows(x: Seq<Seq<char>>, y: Seq<Seq<char>>, c: Seq<int>, k: int)
    requires
        0 < k < c.len(),
        0 <= c[k - 1] < longer(x, y),
        0 <= c[k] < longer(x, y),
    ensures
        ({
            let r = places(x, y, c);
            let p = hunk_lines(x, y, c).push(Seq::empty());
            if three_before(c[k]) > four_behind(c[k - 1], x, y) {
                r[k][0] == r[k - 1].last() + 1 && p[r[k - 1].last()] == "..."@
            } else {
                r[k][0] == r[k - 1].last()
            }
        }),
{
    lemma_place(x, y, c, k);
    lemma_place(x, y, c, k - 1);
    lemma_hunk_step(x, y, c, k - 1);
    lemma_hunk_step(x, y, c, k);
    lemma_hunks_grow(x, y, c, k + 1);
    let front = hunk_lines(x, y, c.take(k));
    let head = hunk_lines(x, y, c.take(k + 1));
    assert(k - 1 + 1 == k);
    if gap_lines(x, y, c, k).len() > 0 {
        assert(head[front.len() as int] == gap_lines(x, y, c, k)[0]);
        assert(hunk_lines(x, y, c)[front.len() as int] == head[front.len() as int]);
    }
}

proof fn lemma_laid_out(x: Seq<Seq<char>>, y: Seq<Seq<char>>, c: Seq<int>)
    requires
        c.len() > 0,
        forall|k: int| 0 <= k < c.len() ==> 0 <= #[trigger] c[k] < longer(x, y),
    ensures
        laid_out(hunk_lines(x, y, c).push(Seq::empty()), x, y, c, places(x, y, c)),
{
    let r = places(x, y, c);
    let p = hunk_lines(x, y, c).push(Seq::empty());
    assert forall|k: int| 0 <= k < c.len() implies (#[trigger] r[k]).len() == four_behind(
        c[k],
        x,
        y,
    ) - three_before(c[k]) + 1 by {
        assert(0 <= c[k] < longer(x, y));
        lemma_place(x, y, c, k);
    }
    assert(0 <= c[0] < longer(x, y));
    lemma_place(x, y, c, 0);
    lemma_hunk_step(x, y, c, 0);
    assert(c.take(0) =~= Seq::<int>::empty());
    let z = c.len() - 1;
    assert(0 <= c[z] < longer(x, y));
    lemma_place(x, y, c, z);
    lemma_hunk_step(x, y, c, z);
    assert(c.take(z + 1) =~= c);
    assert forall|k: int, m: int| 0 <= k < c.len() && 0 <= m < r[k].len() - 1 implies shown_between(
        p,
        x,
        y,
        three_before(c[k]) + m,
        #[trigger] r[k][m],
        r[k][m + 1],
    ) by {
        assert(0 <= c[k] < longer(x, y));
        lemma_place(x, y, c, k);
        lemma_row_is_shown(x, y, c, k, m);
    }
    assert forall|k: int| 0 < k < c.len() implies if three_before(c[k]) > four_behind(
        c[k - 1],
        x,
        y,
    ) {
        (#[trigger] r[k])[0] == r[k - 1].last() + 1 && p[r[k - 1].last()] == "..."@
    } else {
        r[k][0] == r[k - 1].last()
    } by {
        assert(0 <= c[k] < longer(x, y) && 0 <= c[k - 1] < longer(x, y));
        lemma_hunk_follows(x, y, c, k);
    }
}

/// Where up to twenty lines change, the preview shows the changes in order with their surroundings,
/// and nothing else.
pub proof fn law_changes_are_shown(path: Seq<char>, a: Seq<char>, b: Seq<char>, c: Seq<int>) -> (r:
    Seq<Seq<int>>)
    requires
        lists_changes(c, lines(a), lines(b)),
        0 < c.len() <= 20,
    ensures
        laid_out(body(path, a, b), lines(a), lines(b), c, r),
{
    let x = lines(a);
    let y = lines(b);
    lemma_lists_changes(c, x, y);
    lemma_changed_sorted(x, y, longer(x, y));
    lemma_lines_one_line_each(a);
    lemma_lines_one_line_each(b);
    lemma_hunk_lines(x, y, c);
    assert(preview(path, Some(a), b).skip(header(path).len() as int) =~= hunks(x, y, c));
    lemma_pieces(hunk_lines(x, y, c));
    lemma_laid_out(x, y, c);
    places(x, y, c)
}

fn push_row(diff: &mut String, a: &Vec<String>, b: &Vec<String>, i: usize)
    ensures
        final(diff)@ == old(diff)@ + row(views(a@), views(b@), i as int),
{
    let ghost before = diff@;
    if i < a.len() && i < b.len() {
        if same(a[i].as_str(), b[i].as_str()) {
            diff.append(" ");
            diff.append(a[i].as_str());
            diff.append("\n");
        } else {
            diff.append("-");
            diff.append(a[i].as_str());
            diff.append("\n");
            diff.append("+");
            diff.append(b[i].as_str());
            diff.append("\n");
        }
    } else if i < a.len() {
        diff.append("-");
        diff.append(a[i].as_str());
        diff.append("\n");
    } else if i < b.len() {
        diff.append("+");
        diff.append(b[i].as_str());
        diff.append("\n");
    }
    assert(diff@ =~= before + row(views(a@), views(b@), i as int));
}

fn differs(a: &Vec<String>, b: &Vec<String>, i: usize) -> (r: bool)
    ensures
        r == (line_at(views(a@), i as int) != line_at(views(b@), i as int)),
{
    if i < a.len() && i < b.len() {
        !same(a[i].as_str(), b[i].as_str())
    } else {
        i < a.len() || i < b.len()
    }
}

fn push_added(diff: &mut String, l: &Vec<String>, n: usize)
    requires
        n <= l@.len(),
    ensures
        final(diff)@ == old(diff)@ + added(views(l@), n as int),
{
    let ghost before = diff@;
    let mut i: usize = 0;
    assert(before + added(views(l@), 0) =~= before);
    while i < n
        invariant
            i <= n <= l@.len(),
            diff@ == before + added(views(l@), i as int),
        decreases n - i,
    {
        diff.append("+");
        diff.append(l[i].as_str());
        diff.append("\n");
        assert(diff@ =~= before + added(views(l@), i + 1));
        i += 1;
    }
}

fn push_hunks(diff: &mut String, a: &Vec<String>, b: &Vec<String>, at: &Vec<usize>, max_len: usize)
    requires
        max_len == longer(views(a@), views(b@)),
        forall|k: int| 0 <= k < at@.len() ==> #[trigger] at@[k] < max_len,
    ensures
        final(diff)@ == old(diff)@ + hunks(
            views(a@),
            views(b@),
            at@.map_values(|x: usize| x as int),
        ),
{
    let ghost before = diff@;
    let ghost x = views(a@);
    let ghost y = views(b@);
    let ghost all = at@.map_values(|v: usize| v as int);
    let mut last_end: usize = 0;
    let mut k: usize = 0;
    assert(before + hunks(x, y, all.take(0)) =~= before);
    while k < at.len()
        invariant
            x == views(a@),
            y == views(b@),
            max_len == longer(x, y),
            all == at@.map_values(|v: usize| v as int),
            k <= at@.len(),
            k > 0 ==> last_end == window_end(all[k - 1], max_len as int),
            forall|j: int| 0 <= j < at@.len() ==> #[trigger] at@[j] < max_len,
            diff@ == before + hunks(x, y, all.take(k as int)),
        decreases at@.len() - k,
    {
        let idx = at[k];
        let ghost upto = all.take(k + 1);
        assert(upto.drop_last() =~= all.take(k as int));
        assert(upto.last() == idx as int);
        let start: usize = idx.saturating_sub(CONTEXT);
        let end: usize = if max_len - idx > CONTEXT + 1 {
            idx + CONTEXT + 1
        } else {
            max_len
        };
        if k > 0 && start > last_end {
            diff.append("...\n");
        }
        let ghost opened = diff@;
        let mut i: usize = start;
        assert(opened + rows(x, y, start as int, start as int) =~= opened);
        while i < end
            invariant
                x == views(a@),
                y == views(b@),
                start <= i <= end,
                diff@ == opened + rows(x, y, start as int, i as int),
            decreases end - i,
        {
            push_row(diff, a, b, i);
            assert(diff@ =~= opened + rows(x, y, start as int, i + 1));
            i += 1;
        }
        assert(diff@ =~= before + hunks(x, y, upto));
        last_end = end;
        k += 1;
    }
    assert(all.take(at@.len() as int) =~= all);
}

/// A preview of the change of the file at `path` from `original`, if it exists, to `proposed`.
pub fn generate_file_diff(path: &str, original: Option<&str>, proposed: &str) -> (r: String)
    ensures
        r@ == preview(
            path@,
            match original {
                Some(text) => Some(text@),
                None => None,
            },
            proposed@,
        ),
{
    let mut diff = String::from_str("--- a/");
    diff.append(path);
    diff.append("\n");
    diff.append("+++ b/");
    diff.append(path);
    diff.append("\n");
    diff.append("@@ Diff Preview @@\n\n");
    let b = lines_of(proposed);
    match original {
        Some(text) => {
            if same(text, proposed) {
                proof {
                    law_no_change(path@, text@);
                }
                diff.append("(no changes)\n");
                return diff;
            }
            let a = lines_of(text);
            let max_len: usize = if a.len() >= b.len() {
                a.len()
            } else {
                b.len()
            };
            let ghost x = views(a@);
            let ghost y = views(b@);
            let mut at: Vec<usize> = Vec::new();
            let mut i: usize = 0;
            assert(at@.map_values(|v: usize| v as int) =~= changed(x, y, 0));
            while i < max_len
                invariant
                    x == views(a@),
                    y == views(b@),
                    i <= max_len,
                    at@.map_values(|v: usize| v as int) == changed(x, y, i as int),
                    forall|j: int| 0 <= j < at@.len() ==> #[trigger] at@[j] < i,
                decreases max_len - i,
            {
                if differs(&a, &b, i) {
                    let ghost prior = at@.map_values(|v: usize| v as int);
                    at.push(i);
                    assert(at@.map_values(|v: usize| v as int) =~= prior.push(i as int));
                }
                i += 1;
            }
            assert(at@.len() == at@.map_values(|v: usize| v as int).len());
            if at.len() == 0 {
                diff.append("(no changes)\n");
            } else if at.len() > MAX_SHOWN {
                let mut note = String::from_str("Too many changes to display (");
                let count = decimal_of(at.len() as u64);
                note.append(count.as_str());
                note.append(" lines changed).");
                diff.append(note.as_str());
            } else {
                push_hunks(&mut diff, &a, &b, &at, max_len);
            }
        },
        None => {
            diff.append("(new file)\n");
            if b.len() > MAX_SHOWN {
                push_added(&mut diff, &b, MAX_SHOWN);
                let mut note = String::from_str("... (");
                let count = decimal_of((b.len() - MAX_SHOWN) as u64);
                note.append(count.as_str());
                note.append(" more lines)\n");
                diff.append(note.as_str());
            } else {
                push_added(&mut diff, &b, b.len());
            }
        },
    }
    diff
}

} // verus!
