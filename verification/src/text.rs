//! Text as sequences of characters: the string operations that the rest of the library is
//! written with, each with a mathematical meaning over `Seq<char>`.
use vstd::prelude::*;
use vstd::string::*;

verus! {

/// `String::push` appends one character.
pub assume_specification[ String::push ](s: &mut String, c: char)
    ensures
        final(s)@ == old(s)@.push(c),
;

/// The contents of a list of strings.
pub open spec fn views(v: Seq<String>) -> Seq<Seq<char>> {
    v.map_values(|x: String| x@)
}

/// Pushing a string pushes its contents.
pub proof fn lemma_views_push(v: Seq<String>, x: String)
    ensures
        views(v.push(x)) == views(v).push(x@),
{
    assert(views(v.push(x)) =~= views(v).push(x@));
}

/// The contents of an optional string.
pub open spec fn option_view(s: Option<String>) -> Option<Seq<char>> {
    match s {
        Some(t) => Some(t@),
        None => None,
    }
}

/// A copy of a list of strings.
pub fn clone_strings(v: &Vec<String>) -> (r: Vec<String>)
    ensures
        r@ == v@,
{
    let mut out: Vec<String> = Vec::new();
    let mut i: usize = 0;
    while i < v.len()
        invariant
            i <= v@.len(),
            out@ == v@.take(i as int),
        decreases v@.len() - i,
    {
        out.push(v[i].clone());
        assert(v@.take(i + 1) =~= v@.take(i as int).push(v@[i as int]));
        i += 1;
    }
    assert(v@.take(v@.len() as int) =~= v@);
    out
}

/// The characters of a string.
pub fn chars_of(s: &str) -> (r: Vec<char>)
    ensures
        r@ == s@,
{
    let mut r: Vec<char> = Vec::new();
    for c in it: s.chars()
        invariant
            it.seq() == s@,
            r@ == s@.take(it.index()),
    {
        r.push(c);
    }
    r
}

/// The string that the characters of `v` from `from` up to `to` spell.
pub fn string_between(v: &[char], from: usize, to: usize) -> (r: String)
    requires
        from <= to <= v@.len(),
    ensures
        r@ == v@.subrange(from as int, to as int),
{
    let mut r = String::new();
    let mut i: usize = from;
    while i < to
        invariant
            from <= i <= to <= v@.len(),
            r@ == v@.subrange(from as int, i as int),
        decreases to - i,
    {
        r.push(v[i]);
        i += 1;
    }
    r
}

/// Whether two strings hold the same characters.
pub fn same(a: &str, b: &str) -> (r: bool)
    ensures
        r == (a@ == b@),
{
    let x = chars_of(a);
    let y = chars_of(b);
    same_chars(x.as_slice(), y.as_slice())
}

/// Whether two character slices are equal.
pub fn same_chars(a: &[char], b: &[char]) -> (r: bool)
    ensures
        r == (a@ == b@),
{
    if a.len() != b.len() {
        return false;
    }
    let mut i: usize = 0;
    while i < a.len()
        invariant
            i <= a@.len(),
            a@.len() == b@.len(),
            forall|k: int| 0 <= k < i ==> a@[k] == b@[k],
        decreases a@.len() - i,
    {
        if a[i] != b[i] {
            return false;
        }
        i += 1;
    }
    assert(a@ =~= b@);
    true
}

// ---------------------------------------------------------------------------------------------
// White space
// ---------------------------------------------------------------------------------------------

/// The characters with the Unicode property `White_Space`.
pub open spec fn is_white(c: char) -> bool {
    let n = c as u32;
    ||| 0x9 <= n <= 0xd
    ||| n == 0x20
    ||| n == 0x85
    ||| n == 0xa0
    ||| n == 0x1680
    ||| 0x2000 <= n <= 0x200a
    ||| n == 0x2028
    ||| n == 0x2029
    ||| n == 0x202f
    ||| n == 0x205f
    ||| n == 0x3000
}

/// Decides `is_white`.
pub fn white(c: char) -> (r: bool)
    ensures
        r == is_white(c),
{
    let n: u32 = c as u32;
    (0x9 <= n && n <= 0xd) || n == 0x20 || n == 0x85 || n == 0xa0 || n == 0x1680 || (0x2000 <= n
        && n <= 0x200a) || n == 0x2028 || n == 0x2029 || n == 0x202f || n == 0x205f || n == 0x3000
}

/// `s` without its leading white space.
pub open spec fn trim_start(s: Seq<char>) -> Seq<char>
    decreases s.len(),
{
    if s.len() > 0 && is_white(s[0]) {
        trim_start(s.skip(1))
    } else {
        s
    }
}

/// `s` without its trailing white space.
pub open spec fn trim_end(s: Seq<char>) -> Seq<char>
    decreases s.len(),
{
    if s.len() > 0 && is_white(s.last()) {
        trim_end(s.drop_last())
    } else {
        s
    }
}

/// `s` without the white space at its two ends.
pub open spec fn trim(s: Seq<char>) -> Seq<char> {
    trim_end(trim_start(s))
}

/// Trimming `v` from `from` up to `to`.
pub fn trimmed_between(v: &[char], from: usize, to: usize) -> (r: String)
    requires
        from <= to <= v@.len(),
    ensures
        r@ == trim(v@.subrange(from as int, to as int)),
{
    let ghost whole = v@.subrange(from as int, to as int);
    let mut a: usize = from;
    while a < to && white(v[a])
        invariant
            from <= a <= to <= v@.len(),
            trim_start(whole) == trim_start(v@.subrange(a as int, to as int)),
        decreases to - a,
    {
        assert(v@.subrange(a as int, to as int).skip(1) =~= v@.subrange(a + 1, to as int));
        a += 1;
    }
    let ghost left = v@.subrange(a as int, to as int);
    assert(trim_start(whole) == left);
    let mut b: usize = to;
    while b > a && white(v[b - 1])
        invariant
            a <= b <= to <= v@.len(),
            trim_end(left) == trim_end(v@.subrange(a as int, b as int)),
        decreases b,
    {
        assert(v@.subrange(a as int, b as int).drop_last() =~= v@.subrange(a as int, b - 1));
        b -= 1;
    }
    string_between(v, a, b)
}

/// `s` without the white space at its two ends.
pub fn trimmed(s: &str) -> (r: String)
    ensures
        r@ == trim(s@),
{
    let v = chars_of(s);
    let r = trimmed_between(v.as_slice(), 0, v.len());
    assert(v@.subrange(0, v@.len() as int) =~= v@);
    r
}

// ---------------------------------------------------------------------------------------------
// Prefixes, searching and replacing
// ---------------------------------------------------------------------------------------------

/// Whether `p` stands in `s` at position `i`.
pub open spec fn occurs_at(s: Seq<char>, p: Seq<char>, i: int) -> bool {
    0 <= i && i + p.len() <= s.len() && s.subrange(i, i + p.len()) == p
}

/// Whether `s` begins with `p`.
pub open spec fn begins(s: Seq<char>, p: Seq<char>) -> bool {
    occurs_at(s, p, 0)
}

/// Whether `p` stands anywhere in `s`.
pub open spec fn contains(s: Seq<char>, p: Seq<char>) -> bool {
    exists|i: int| occurs_at(s, p, i)
}

/// The first position from `from` on at which `p` stands in `s`.
pub open spec fn find_from(s: Seq<char>, p: Seq<char>, from: nat) -> Option<nat>
    decreases s.len() + 1 - from,
{
    if from + p.len() > s.len() {
        None
    } else if occurs_at(s, p, from as int) {
        Some(from)
    } else {
        find_from(s, p, from + 1)
    }
}

/// The last position at which `p` stands in `s` and ends no later than `limit`.
pub open spec fn find_last_before(s: Seq<char>, p: Seq<char>, limit: nat) -> Option<nat>
    decreases limit,
{
    if limit < p.len() {
        None
    } else if occurs_at(s, p, limit - p.len()) {
        Some((limit - p.len()) as nat)
    } else if limit == 0 {
        None
    } else {
        find_last_before(s, p, (limit - 1) as nat)
    }
}

/// What `find_from` finds is the first occurrence, and it finds one where there is one.
pub proof fn lemma_find_from(s: Seq<char>, p: Seq<char>, from: nat)
    ensures
        match find_from(s, p, from) {
            Some(i) => from <= i && occurs_at(s, p, i as int) && forall|j: int|
                from <= j < i ==> !occurs_at(s, p, j),
            None => forall|j: int| from <= j ==> !occurs_at(s, p, j),
        },
    decreases s.len() + 1 - from,
{
    if from + p.len() > s.len() {
    } else if occurs_at(s, p, from as int) {
    } else {
        lemma_find_from(s, p, from + 1);
        match find_from(s, p, from + 1) {
            Some(i) => {
                assert forall|j: int| from <= j < i implies !occurs_at(s, p, j) by {
                    if j > from {
                    }
                }
            },
            None => {
                assert forall|j: int| from <= j implies !occurs_at(s, p, j) by {
                    if j > from {
                    }
                }
            },
        }
    }
}

/// Whether `p` stands in `s` at `i`.
pub fn stands_at(s: &[char], p: &[char], i: usize) -> (r: bool)
    ensures
        r == occurs_at(s@, p@, i as int),
{
    if i > s.len() || p.len() > s.len() - i {
        return false;
    }
    let mut k: usize = 0;
    while k < p.len()
        invariant
            k <= p@.len(),
            i + p@.len() <= s.len(),
            forall|j: int| 0 <= j < k ==> s@[i + j] == p@[j],
        decreases p@.len() - k,
    {
        if s[i + k] != p[k] {
            assert(s@.subrange(i as int, i + p@.len())[k as int] != p@[k as int]);
            return false;
        }
        k += 1;
    }
    assert(s@.subrange(i as int, i + p@.len()) =~= p@);
    true
}

/// The first position from `from` on at which `p` stands in `s`.
pub fn find(s: &[char], p: &str, from: usize) -> (r: Option<usize>)
    ensures
        match r {
            Some(i) => find_from(s@, p@, from as nat) == Some(i as nat),
            None => find_from(s@, p@, from as nat) is None,
        },
        r matches Some(i) ==> from <= i && i + p@.len() <= s.len(),
{
    let pat = chars_of(p);
    let mut i: usize = from;
    while i <= s.len() && pat.len() <= s.len() - i
        invariant
            pat@ == p@,
            from <= i,
            find_from(s@, p@, from as nat) == find_from(s@, p@, i as nat),
        decreases s@.len() + 1 - i,
    {
        if stands_at(s, pat.as_slice(), i) {
            return Some(i);
        }
        if i == s.len() {
            assert(find_from(s@, p@, (i + 1) as nat) is None);
            return None;
        }
        i += 1;
    }
    None
}

/// The last position at which `p` stands in `s` and ends no later than `limit`.
pub fn find_last(s: &[char], p: &str, limit: usize) -> (r: Option<usize>)
    ensures
        match r {
            Some(i) => find_last_before(s@, p@, limit as nat) == Some(i as nat),
            None => find_last_before(s@, p@, limit as nat) is None,
        },
        r matches Some(i) ==> i + p@.len() <= limit && i + p@.len() <= s.len(),
{
    let pat = chars_of(p);
    let mut i: usize = limit;
    while i >= pat.len()
        invariant
            pat@ == p@,
            i <= limit,
            find_last_before(s@, p@, limit as nat) == find_last_before(s@, p@, i as nat),
        decreases i,
    {
        if stands_at(s, pat.as_slice(), i - pat.len()) {
            return Some(i - pat.len());
        }
        if i == 0 {
            return None;
        }
        i -= 1;
    }
    None
}

/// Whether `s` begins with `p`.
pub fn starts_with(s: &str, p: &str) -> (r: bool)
    ensures
        r == begins(s@, p@),
{
    let a = chars_of(s);
    let b = chars_of(p);
    stands_at(a.as_slice(), b.as_slice(), 0)
}

/// Whether `p` stands anywhere in `s`.
pub fn has(s: &str, p: &str) -> (r: bool)
    ensures
        r == contains(s@, p@),
{
    let a = chars_of(s);
    proof {
        lemma_find_from(s@, p@, 0);
    }
    match find(a.as_slice(), p, 0) {
        Some(_i) => true,
        None => {
            assert forall|i: int| !occurs_at(s@, p@, i) by {}
            false
        },
    }
}

/// `s` without all the copies of `p` in front of it.
pub open spec fn without_prefixes(s: Seq<char>, p: Seq<char>) -> Seq<char>
    decreases s.len(),
{
    if p.len() > 0 && begins(s, p) {
        without_prefixes(s.skip(p.len() as int), p)
    } else {
        s
    }
}

/// `s` without all the copies of `p` in front of it.
pub fn strip_prefixes(s: &str, p: &str) -> (r: String)
    ensures
        r@ == without_prefixes(s@, p@),
{
    let v = chars_of(s);
    let pat = chars_of(p);
    let mut i: usize = 0;
    assert(v@.skip(0) =~= v@);
    while pat.len() > 0 && stands_at(v.as_slice(), pat.as_slice(), i)
        invariant
            i <= v.len(),
            pat@ == p@,
            without_prefixes(s@, p@) == without_prefixes(v@.skip(i as int), p@),
        decreases v@.len() - i,
    {
        assert(v@.skip(i as int).subrange(0, p@.len() as int) =~= v@.subrange(
            i as int,
            i + p@.len(),
        ));
        assert(v@.skip(i as int).skip(p@.len() as int) =~= v@.skip(i + p@.len()));
        i += pat.len();
    }
    assert(!(p@.len() > 0 && begins(v@.skip(i as int), p@))) by {
        if p@.len() > 0 && begins(v@.skip(i as int), p@) {
            assert(v@.skip(i as int).subrange(0, p@.len() as int) =~= v@.subrange(
                i as int,
                i + p@.len(),
            ));
        }
    }
    let r = string_between(v.as_slice(), i, v.len());
    assert(v@.subrange(i as int, v@.len() as int) =~= v@.skip(i as int));
    r
}

/// `s` with every copy of `p`, taken from the left and without overlaps, replaced by `w`.
pub open spec fn replaced(s: Seq<char>, p: Seq<char>, w: Seq<char>) -> Seq<char>
    decreases s.len(),
{
    if p.len() == 0 || s.len() < p.len() {
        s
    } else if begins(s, p) {
        w + replaced(s.skip(p.len() as int), p, w)
    } else {
        seq![s[0]] + replaced(s.skip(1), p, w)
    }
}

/// `s` with every copy of `p` replaced by `w`.
pub fn replace(s: &str, p: &str, w: &str) -> (r: String)
    ensures
        r@ == replaced(s@, p@, w@),
{
    let v = chars_of(s);
    let pat = chars_of(p);
    let mut out = String::new();
    let mut i: usize = 0;
    assert(v@.skip(0) =~= v@);
    assert(out@ + replaced(v@.skip(0), p@, w@) =~= replaced(s@, p@, w@));
    while pat.len() > 0 && i < v.len() && pat.len() <= v.len() - i
        invariant
            i <= v@.len(),
            pat@ == p@,
            replaced(s@, p@, w@) == out@ + replaced(v@.skip(i as int), p@, w@),
        decreases v@.len() - i,
    {
        let ghost before = out@;
        let ghost rest = v@.skip(i as int);
        assert(rest.subrange(0, p@.len() as int) =~= v@.subrange(i as int, i + p@.len()));
        if stands_at(v.as_slice(), pat.as_slice(), i) {
            out.append(w);
            assert(rest.skip(p@.len() as int) =~= v@.skip(i + p@.len()));
            assert(before + (w@ + replaced(v@.skip(i + p@.len()), p@, w@)) =~= out@ + replaced(
                v@.skip(i + p@.len()),
                p@,
                w@,
            ));
            i += pat.len();
        } else {
            out.push(v[i]);
            assert(rest.skip(1) =~= v@.skip(i + 1));
            assert(before + (seq![rest[0]] + replaced(v@.skip(i + 1), p@, w@)) =~= out@ + replaced(
                v@.skip(i + 1),
                p@,
                w@,
            ));
            i += 1;
        }
    }
    let tail = string_between(v.as_slice(), i, v.len());
    assert(tail@ =~= v@.skip(i as int));
    out.append(tail.as_str());
    out
}

// ---------------------------------------------------------------------------------------------
// Lines
// ---------------------------------------------------------------------------------------------

/// The position of the first `c` in `s`, or the length of `s`.
pub open spec fn index_of(s: Seq<char>, c: char) -> nat
    decreases s.len(),
{
    if s.len() == 0 || s[0] == c {
        0
    } else {
        1 + index_of(s.skip(1), c)
    }
}

/// `s` without one carriage return at its end.
pub open spec fn without_cr(s: Seq<char>) -> Seq<char> {
    if s.len() > 0 && s.last() == '\r' {
        s.drop_last()
    } else {
        s
    }
}

/// The lines of `s`: each ends at a line feed, which with a carriage return in front of it is
/// not part of the line; what follows the last line feed is a line unless it is empty.
pub open spec fn lines(s: Seq<char>) -> Seq<Seq<char>>
    decreases s.len(),
{
    if s.len() == 0 {
        Seq::empty()
    } else {
        let i = index_of(s, '\n');
        if i >= s.len() {
            seq![s]
        } else {
            seq![without_cr(s.take(i as int))] + lines(s.skip(i as int + 1))
        }
    }
}

/// The position of the first `c` at or after `from`, or the length of `v`.
pub fn position(v: &[char], c: char, from: usize) -> (r: usize)
    requires
        from <= v@.len(),
    ensures
        from <= r <= v@.len(),
        r == from + index_of(v@.skip(from as int), c),
        r < v@.len() ==> v@[r as int] == c,
        forall|k: int| from <= k < r ==> v@[k] != c,
{
    let mut i: usize = from;
    while i < v.len() && v[i] != c
        invariant
            from <= i <= v@.len(),
            from + index_of(v@.skip(from as int), c) == i + index_of(v@.skip(i as int), c),
            forall|k: int| from <= k < i ==> v@[k] != c,
        decreases v@.len() - i,
    {
        assert(v@.skip(i as int).skip(1) =~= v@.skip(i + 1));
        i += 1;
    }
    i
}

/// The lines of a string.
pub fn lines_of(s: &str) -> (r: Vec<String>)
    ensures
        views(r@) == lines(s@),
{
    let v = chars_of(s);
    let mut out: Vec<String> = Vec::new();
    let mut pos: usize = 0;
    assert(v@.skip(0) =~= v@);
    assert(views(out@) + lines(v@.skip(0)) =~= lines(s@));
    while pos < v.len()
        invariant
            v@ == s@,
            pos <= v@.len(),
            lines(s@) == views(out@) + lines(v@.skip(pos as int)),
        decreases v@.len() - pos,
    {
        let ghost rest = v@.skip(pos as int);
        let ghost before = views(out@);
        let e = position(v.as_slice(), '\n', pos);
        if e == v.len() {
            let line = string_between(v.as_slice(), pos, e);
            assert(line@ =~= rest);
            proof {
                lemma_views_push(out@, line);
            }
            out.push(line);
            assert(views(out@) =~= lines(s@));
            return out;
        }
        let mut stop: usize = e;
        if e > pos && v[e - 1] == '\r' {
            stop = e - 1;
        }
        let line = string_between(v.as_slice(), pos, stop);
        assert(line@ =~= without_cr(rest.take(e - pos)));
        assert(rest.skip(e - pos + 1) =~= v@.skip(e + 1));
        proof {
            lemma_views_push(out@, line);
        }
        out.push(line);
        assert(before + (seq![line@] + lines(v@.skip(e + 1))) =~= views(out@) + lines(
            v@.skip(e + 1),
        ));
        pos = e + 1;
    }
    assert(views(out@) + lines(v@.skip(pos as int)) =~= views(out@));
    out
}

/// `index_of` is the first position of the character.
pub proof fn lemma_index_of(s: Seq<char>, c: char)
    ensures
        index_of(s, c) <= s.len(),
        index_of(s, c) < s.len() ==> s[index_of(s, c) as int] == c,
        forall|k: int| 0 <= k < index_of(s, c) ==> s[k] != c,
    decreases s.len(),
{
    if s.len() > 0 && s[0] != c {
        lemma_index_of(s.skip(1), c);
        assert forall|k: int| 0 <= k < index_of(s, c) implies s[k] != c by {
            if k > 0 {
                assert(s.skip(1)[k - 1] == s[k]);
            }
        }
    }
}

/// Whatever is the first position of the character is `index_of`.
pub proof fn lemma_index_of_is(s: Seq<char>, c: char, i: int)
    requires
        0 <= i <= s.len(),
        i < s.len() ==> s[i] == c,
        forall|k: int| 0 <= k < i ==> s[k] != c,
    ensures
        index_of(s, c) == i,
{
    lemma_index_of(s, c);
    if index_of(s, c) < i {
        assert(s[index_of(s, c) as int] != c);
    }
}

/// The lines of two texts, the first of which ends with a line, are those of the one and then
/// those of the other.
pub proof fn lemma_lines_add(c: Seq<char>, d: Seq<char>)
    requires
        c.len() == 0 || c.last() == '\n',
    ensures
        lines(c + d) == lines(c) + lines(d),
    decreases c.len(),
{
    if c.len() == 0 {
        assert(c + d =~= d);
        assert(lines(c) + lines(d) =~= lines(d));
    } else {
        let i = index_of(c, '\n') as int;
        lemma_index_of(c, '\n');
        assert(i < c.len()) by {
            if i >= c.len() {
                assert(c[c.len() - 1] != '\n');
            }
        }
        lemma_index_of_is(c + d, '\n', i);
        assert((c + d).take(i) =~= c.take(i));
        assert((c + d).skip(i + 1) =~= c.skip(i + 1) + d);
        lemma_lines_add(c.skip(i + 1), d);
        let first = seq![without_cr(c.take(i))];
        assert(first + (lines(c.skip(i + 1)) + lines(d)) =~= first + lines(c.skip(i + 1)) + lines(
            d,
        ));
    }
}

/// A line feed behind a text ends its last line, or adds an empty one where it has ended.
pub proof fn lemma_lines_feed(c: Seq<char>)
    ensures
        c.len() == 0 || c.last() == '\n' ==> lines(c.push('\n')) == lines(c).push(Seq::empty()),
        c.len() > 0 && c.last() != '\n' ==> lines(c).len() > 0 && lines(c.push('\n')) == lines(
            c,
        ).drop_last().push(without_cr(lines(c).last())),
    decreases c.len(),
{
    let feed = seq!['\n'];
    assert(c + feed =~= c.push('\n'));
    assert(lines(feed) =~= seq![Seq::<char>::empty()]) by {
        lemma_index_of_is(feed, '\n', 0);
        assert(feed.take(0) =~= Seq::<char>::empty());
        assert(feed.skip(1) =~= Seq::<char>::empty());
        assert(lines(feed.skip(1)) =~= Seq::<Seq<char>>::empty());
    }
    if c.len() == 0 || c.last() == '\n' {
        lemma_lines_add(c, feed);
    } else {
        let i = index_of(c, '\n') as int;
        let d = c.push('\n');
        lemma_index_of(c, '\n');
        lemma_index_of_is(d, '\n', i);
        assert(d.take(i) =~= c.take(i));
        if i >= c.len() {
            assert(c.take(i) =~= c);
            assert(d.skip(i + 1) =~= Seq::<char>::empty());
            assert(lines(d.skip(i + 1)) =~= Seq::<Seq<char>>::empty());
            assert(lines(d) =~= seq![without_cr(c)]);
            assert(lines(c).drop_last() =~= Seq::<Seq<char>>::empty());
        } else {
            let rest = c.skip(i + 1);
            assert(d.skip(i + 1) =~= rest.push('\n'));
            assert(rest.last() == c.last());
            lemma_lines_feed(rest);
            let first = seq![without_cr(c.take(i))];
            assert(lines(c).last() == lines(rest).last());
            assert(lines(c).drop_last() =~= first + lines(rest).drop_last());
            assert(first + lines(rest).drop_last().push(without_cr(lines(rest).last())) =~= lines(
                c,
            ).drop_last().push(without_cr(lines(c).last())));
        }
    }
}

/// The texts of `parts`, each followed by a line feed.
pub open spec fn terminated(parts: Seq<Seq<char>>) -> Seq<char>
    decreases parts.len(),
{
    if parts.len() == 0 {
        Seq::empty()
    } else {
        terminated(parts.drop_last()) + parts.last().push('\n')
    }
}

/// The texts of two lists follow each other.
pub proof fn lemma_terminated_add(x: Seq<Seq<char>>, y: Seq<Seq<char>>)
    ensures
        terminated(x + y) == terminated(x) + terminated(y),
    decreases y.len(),
{
    if y.len() == 0 {
        assert(x + y =~= x);
        assert(terminated(x) + terminated(y) =~= terminated(x));
    } else {
        assert((x + y).drop_last() =~= x + y.drop_last());
        assert((x + y).last() == y.last());
        lemma_terminated_add(x, y.drop_last());
        assert(terminated(x + y) =~= terminated(x) + terminated(y));
    }
}

/// What stands between the line feeds of `s`.
pub open spec fn pieces(s: Seq<char>) -> Seq<Seq<char>>
    decreases s.len(),
{
    let i = index_of(s, '\n') as int;
    if i >= s.len() {
        seq![s]
    } else {
        seq![s.take(i)] + pieces(s.skip(i + 1))
    }
}

/// Whether no text of a list holds a line feed.
pub open spec fn one_line_each(l: Seq<Seq<char>>) -> bool {
    forall|k: int| 0 <= k < l.len() ==> !(#[trigger] l[k]).contains('\n')
}

/// Texts of one line each, each followed by a line feed, come apart again at the line feeds.
pub proof fn lemma_pieces(l: Seq<Seq<char>>)
    requires
        one_line_each(l),
    ensures
        pieces(terminated(l)) == l.push(Seq::empty()),
    decreases l.len(),
{
    if l.len() == 0 {
        assert(terminated(l) =~= Seq::<char>::empty());
        assert(pieces(terminated(l)) =~= l.push(Seq::empty()));
    } else {
        let first = l[0];
        let rest = l.skip(1);
        let s = terminated(l);
        let i = first.len() as int;
        assert(seq![first] + rest =~= l);
        lemma_terminated_add(seq![first], rest);
        assert(seq![first].drop_last() =~= Seq::<Seq<char>>::empty());
        assert(terminated(Seq::<Seq<char>>::empty()) =~= Seq::<char>::empty());
        assert(terminated(seq![first]) =~= first.push('\n'));
        assert(s == first.push('\n') + terminated(rest));
        assert forall|k: int| 0 <= k < i implies s[k] != '\n' by {
            assert(first[k] == s[k]);
            assert(!first.contains('\n'));
        }
        lemma_index_of_is(s, '\n', i);
        assert(s.take(i) =~= first);
        assert(s.skip(i + 1) =~= terminated(rest));
        assert forall|k: int| 0 <= k < rest.len() implies !(#[trigger] rest[k]).contains('\n') by {
            assert(rest[k] == l[k + 1]);
        }
        lemma_pieces(rest);
        assert(seq![first] + rest.push(Seq::empty()) =~= l.push(Seq::empty()));
    }
}

/// No line holds a line feed.
pub proof fn lemma_lines_one_line_each(s: Seq<char>)
    ensures
        one_line_each(lines(s)),
    decreases s.len(),
{
    if s.len() > 0 {
        let i = index_of(s, '\n') as int;
        lemma_index_of(s, '\n');
        if i < s.len() {
            lemma_lines_one_line_each(s.skip(i + 1));
            let rest = lines(s.skip(i + 1));
            assert forall|k: int| 0 <= k < lines(s).len() implies !(#[trigger] lines(
                s,
            )[k]).contains('\n') by {
                if k > 0 {
                    assert(lines(s)[k] == rest[k - 1]);
                }
            }
        }
    }
}

/// The texts of `parts` with `sep` between each two neighbours.
pub open spec fn joined(parts: Seq<Seq<char>>, sep: Seq<char>) -> Seq<char>
    decreases parts.len(),
{
    if parts.len() == 0 {
        Seq::empty()
    } else if parts.len() == 1 {
        parts[0]
    } else {
        joined(parts.drop_last(), sep) + sep + parts.last()
    }
}

/// The strings of `parts` with `sep` between each two neighbours.
pub fn join(parts: &Vec<String>, sep: &str) -> (r: String)
    ensures
        r@ == joined(views(parts@), sep@),
{
    let r = join_first(parts, sep, parts.len());
    assert(views(parts@).take(parts@.len() as int) =~= views(parts@));
    r
}

/// The first `n` strings of `parts` with `sep` between each two neighbours.
pub fn join_first(parts: &Vec<String>, sep: &str, n: usize) -> (r: String)
    requires
        n <= parts@.len(),
    ensures
        r@ == joined(views(parts@).take(n as int), sep@),
{
    let mut out = String::new();
    let mut i: usize = 0;
    while i < n
        invariant
            i <= n <= parts@.len(),
            out@ == joined(views(parts@).take(i as int), sep@),
        decreases n - i,
    {
        if i > 0 {
            out.append(sep);
        }
        out.append(parts[i].as_str());
        assert(views(parts@).take(i + 1).drop_last() =~= views(parts@).take(i as int));
        assert(out@ =~= joined(views(parts@).take(i + 1), sep@));
        i += 1;
    }
    out
}

/// The strings of `parts` from `from` up to `to`, each followed by a line feed.
pub fn terminate_between(parts: &Vec<String>, from: usize, to: usize) -> (r: String)
    requires
        from <= to <= parts@.len(),
    ensures
        r@ == terminated(views(parts@).subrange(from as int, to as int)),
{
    let mut out = String::new();
    let mut i: usize = from;
    while i < to
        invariant
            from <= i <= to <= parts@.len(),
            out@ == terminated(views(parts@).subrange(from as int, i as int)),
        decreases to - i,
    {
        out.append(parts[i].as_str());
        out.push('\n');
        let ghost all = views(parts@).subrange(from as int, i + 1);
        assert(all.drop_last() =~= views(parts@).subrange(from as int, i as int));
        assert(all.last() == parts@[i as int]@);
        assert(out@ =~= terminated(all));
        i += 1;
    }
    out
}

// ---------------------------------------------------------------------------------------------
// Numbers
// ---------------------------------------------------------------------------------------------

/// The character of a decimal digit.
pub open spec fn digit(d: nat) -> char {
    if d == 0 {
        '0'
    } else if d == 1 {
        '1'
    } else if d == 2 {
        '2'
    } else if d == 3 {
        '3'
    } else if d == 4 {
        '4'
    } else if d == 5 {
        '5'
    } else if d == 6 {
        '6'
    } else if d == 7 {
        '7'
    } else if d == 8 {
        '8'
    } else {
        '9'
    }
}

/// The decimal notation of a number, without leading zeros.
pub open spec fn decimal(n: nat) -> Seq<char>
    decreases n,
{
    if n < 10 {
        seq![digit(n)]
    } else {
        decimal(n / 10).push(digit(n % 10))
    }
}

/// Numbers are written on one line.
pub proof fn lemma_decimal_one_line(n: nat)
    ensures
        !decimal(n).contains('\n'),
    decreases n,
{
    if n >= 10 {
        lemma_decimal_one_line(n / 10);
        let d = decimal(n);
        assert forall|k: int| 0 <= k < d.len() implies d[k] != '\n' by {
            if k < d.len() - 1 {
                assert(d[k] == decimal(n / 10)[k]);
            }
        }
    }
}

fn digit_char(d: u64) -> (r: char)
    requires
        d < 10,
    ensures
        r == digit(d as nat),
{
    if d == 0 {
        '0'
    } else if d == 1 {
        '1'
    } else if d == 2 {
        '2'
    } else if d == 3 {
        '3'
    } else if d == 4 {
        '4'
    } else if d == 5 {
        '5'
    } else if d == 6 {
        '6'
    } else if d == 7 {
        '7'
    } else if d == 8 {
        '8'
    } else {
        '9'
    }
}

/// The decimal notation of `n`.
pub fn decimal_of(n: u64) -> (r: String)
    ensures
        r@ == decimal(n as nat),
    decreases n,
{
    if n < 10 {
        let mut r = String::new();
        r.push(digit_char(n));
        assert(r@ =~= decimal(n as nat));
        r
    } else {
        let mut r = decimal_of(n / 10);
        r.push(digit_char(n % 10));
        r
    }
}

/// The value of a decimal digit.
pub open spec fn digit_value(c: char) -> Option<nat> {
    if '0' <= c <= '9' {
        Some((c as u32 - '0' as u32) as nat)
    } else {
        None
    }
}

/// The value of a non-empty run of decimal digits.
pub open spec fn digits_value(s: Seq<char>) -> Option<nat>
    decreases s.len(),
{
    if s.len() == 0 {
        None
    } else {
        match digit_value(s.last()) {
            None => None,
            Some(d) => if s.len() == 1 {
                Some(d)
            } else {
                match digits_value(s.drop_last()) {
                    None => None,
                    Some(h) => Some(10 * h + d),
                }
            },
        }
    }
}

/// The number that `s` spells: one optional plus sign, then digits, with a value below 2^64.
pub open spec fn number(s: Seq<char>) -> Option<u64> {
    let body = if s.len() > 0 && s[0] == '+' {
        s.skip(1)
    } else {
        s
    };
    match digits_value(body) {
        Some(n) => if n <= u64::MAX {
            Some(n as u64)
        } else {
            None
        },
        None => None,
    }
}

/// Digits in front only make a number larger, and a run with a wrong character is no number.
proof fn lemma_digits_prefix(s: Seq<char>, i: int)
    requires
        0 < i <= s.len(),
    ensures
        digits_value(s.take(i)) is None ==> digits_value(s) is None,
        digits_value(s) matches Some(n) ==> digits_value(s.take(i)) matches Some(m) && m <= n,
    decreases s.len() - i,
{
    if i < s.len() {
        lemma_digits_prefix(s, i + 1);
        assert(s.take(i + 1).drop_last() =~= s.take(i));
    } else {
        assert(s.take(i) =~= s);
    }
}

/// The number that `s` spells.
pub fn parse_number(s: &str) -> (r: Option<u64>)
    ensures
        r == number(s@),
{
    let v = chars_of(s);
    let mut from: usize = 0;
    if v.len() > 0 && v[0] == '+' {
        from = 1;
    }
    let ghost body = v@.skip(from as int);
    assert(from == 0 ==> body =~= v@);
    assert(body == if s@.len() > 0 && s@[0] == '+' {
        s@.skip(1)
    } else {
        s@
    });
    if from == v.len() {
        return None;
    }
    let mut acc: u64 = 0;
    let mut i: usize = from;
    while i < v.len()
        invariant
            from <= i <= v@.len(),
            v@ == s@,
            body == v@.skip(from as int),
            body == if s@.len() > 0 && s@[0] == '+' {
                s@.skip(1)
            } else {
                s@
            },
            i == from ==> acc == 0,
            i > from ==> digits_value(body.take(i - from)) == Some(acc as nat),
        decreases v@.len() - i,
    {
        let c = v[i];
        let ghost upto = body.take(i + 1 - from);
        assert(upto.last() == c);
        assert(upto.drop_last() =~= body.take(i - from));
        proof {
            lemma_digits_prefix(body, i + 1 - from);
        }
        if c < '0' || c > '9' {
            return None;
        }
        let d: u64 = (c as u32 - '0' as u32) as u64;
        if acc > (u64::MAX - d) / 10 {
            assert(10 * acc + d > u64::MAX);
            return None;
        }
        acc = acc * 10 + d;
        i += 1;
    }
    assert(body.take(v@.len() - from) =~= body);
    Some(acc)
}

// ---------------------------------------------------------------------------------------------
// What holds of all texts
// ---------------------------------------------------------------------------------------------

/// Trimming takes white space off the two ends and nothing else: what is left is a stretch of the
/// text with only white space in front of it and behind it, and neither begins nor ends with any.
pub proof fn law_trim(s: Seq<char>) -> (r: (int, int))
    ensures
        0 <= r.0 <= r.1 <= s.len(),
        trim(s) == s.subrange(r.0, r.1),
        forall|k: int| 0 <= k < r.0 ==> is_white(#[trigger] s[k]),
        forall|k: int| r.1 <= k < s.len() ==> is_white(#[trigger] s[k]),
        r.0 < r.1 ==> !is_white(s[r.0]) && !is_white(s[r.1 - 1]),
    decreases s.len(),
{
    if s.len() == 0 {
        assert(trim(s) =~= s.subrange(0, 0));
        (0, 0)
    } else if is_white(s[0]) {
        let t = s.skip(1);
        let (a, b) = law_trim(t);
        assert(t.subrange(a, b) =~= s.subrange(a + 1, b + 1));
        assert forall|k: int| 0 <= k < a + 1 implies is_white(#[trigger] s[k]) by {
            if k > 0 {
                assert(t[k - 1] == s[k]);
            }
        }
        assert forall|k: int| b + 1 <= k < s.len() implies is_white(#[trigger] s[k]) by {
            assert(t[k - 1] == s[k]);
        }
        if a < b {
            assert(t[a] == s[a + 1] && t[b - 1] == s[b]);
        }
        (a + 1, b + 1)
    } else {
        let b = lemma_trim_end(s);
        assert(trim_start(s) == s);
        if b == 0 {
            assert(is_white(s[0]));
        }
        assert(s.take(b) =~= s.subrange(0, b));
        (0, b)
    }
}

proof fn lemma_trim_end(s: Seq<char>) -> (b: int)
    ensures
        0 <= b <= s.len(),
        trim_end(s) == s.take(b),
        forall|k: int| b <= k < s.len() ==> is_white(#[trigger] s[k]),
        b > 0 ==> !is_white(s[b - 1]),
    decreases s.len(),
{
    if s.len() > 0 && is_white(s.last()) {
        let t = s.drop_last();
        let b = lemma_trim_end(t);
        assert(t.take(b) =~= s.take(b));
        assert forall|k: int| b <= k < s.len() implies is_white(#[trigger] s[k]) by {
            if k < t.len() {
                assert(t[k] == s[k]);
            }
        }
        if b > 0 {
            assert(t[b - 1] == s[b - 1]);
        }
        b
    } else {
        assert(s.take(s.len() as int) =~= s);
        s.len() as int
    }
}

/// Whatever stands between white space, and neither begins nor ends with any, is what trimming
/// leaves.
pub proof fn law_trim_unique(left: Seq<char>, t: Seq<char>, right: Seq<char>)
    requires
        forall|k: int| 0 <= k < left.len() ==> is_white(#[trigger] left[k]),
        forall|k: int| 0 <= k < right.len() ==> is_white(#[trigger] right[k]),
        t.len() > 0 ==> !is_white(t[0]) && !is_white(t.last()),
    ensures
        trim(left + t + right) == t,
{
    let s = left + t + right;
    let (a, b) = law_trim(s);
    if t.len() == 0 {
        if a < b {
            if a < left.len() {
                assert(s[a] == left[a]);
            } else {
                assert(s[a] == right[a - left.len()]);
            }
        }
        assert(s.subrange(a, b) =~= t);
    } else {
        let x = left.len() as int;
        let y = left.len() + t.len();
        assert(s[x] == t[0]);
        assert(s[y - 1] == t.last());
        if a < x {
            assert(a < b) by {
                if a >= b {
                    assert(is_white(s[x]));
                }
            }
            assert(s[a] == left[a]);
        }
        if a > x {
            assert(is_white(s[x]));
        }
        if b < y {
            assert(is_white(s[y - 1]));
        }
        if b > y {
            assert(s[b - 1] == right[b - 1 - y]);
        }
        assert(s.subrange(a, b) =~= t);
    }
}

/// The characters that are white space: twenty-five in all.
pub proof fn law_white(c: char)
    ensures
        is_white(c) <==> seq![
            9u32,
            10u32,
            11u32,
            12u32,
            13u32,
            32u32,
            133u32,
            160u32,
            5760u32,
            8192u32,
            8193u32,
            8194u32,
            8195u32,
            8196u32,
            8197u32,
            8198u32,
            8199u32,
            8200u32,
            8201u32,
            8202u32,
            8232u32,
            8233u32,
            8239u32,
            8287u32,
            12288u32,
        ].contains(c as u32),
{
    let n = c as u32;
    let w = seq![
        9u32,
        10u32,
        11u32,
        12u32,
        13u32,
        32u32,
        133u32,
        160u32,
        5760u32,
        8192u32,
        8193u32,
        8194u32,
        8195u32,
        8196u32,
        8197u32,
        8198u32,
        8199u32,
        8200u32,
        8201u32,
        8202u32,
        8232u32,
        8233u32,
        8239u32,
        8287u32,
        12288u32,
    ];
    assert(w[0] == 9 && w[1] == 10 && w[2] == 11 && w[3] == 12 && w[4] == 13 && w[5] == 32 && w[6]
        == 133 && w[7] == 160 && w[8] == 5760 && w[9] == 8192 && w[10] == 8193 && w[11] == 8194
        && w[12] == 8195 && w[13] == 8196 && w[14] == 8197 && w[15] == 8198 && w[16] == 8199
        && w[17] == 8200 && w[18] == 8201 && w[19] == 8202 && w[20] == 8232 && w[21] == 8233
        && w[22] == 8239 && w[23] == 8287 && w[24] == 12288);
}

/// A text stands in another where the other is made of what comes before, the text itself, and what
/// comes behind.
pub proof fn law_occurs(x: Seq<char>, p: Seq<char>, y: Seq<char>, s: Seq<char>, i: int)
    ensures
        occurs_at(x + p + y, p, x.len() as int),
        contains(x + p + y, p),
        occurs_at(s, p, i) ==> 0 <= i && i + p.len() <= s.len() && s == s.take(i) + p + s.skip(
            i + p.len(),
        ),
        contains(s, p) ==> exists|k: int| occurs_at(s, p, k),
        begins(s, p) <==> p.is_prefix_of(s),
{
    let t = x + p + y;
    assert(t.subrange(x.len() as int, (x.len() + p.len()) as int) =~= p);
    assert(occurs_at(t, p, x.len() as int));
    if occurs_at(s, p, i) {
        assert(s =~= s.take(i) + s.subrange(i, i + p.len()) + s.skip(i + p.len()));
    }
    if begins(s, p) {
        assert forall|k: int| 0 <= k < p.len() implies p[k] == s[k] by {
            assert(s.subrange(0, p.len() as int)[k] == s[k]);
        }
    }
    if p.is_prefix_of(s) {
        assert(s.subrange(0, p.len() as int) =~= p);
    }
}

/// Each text of a list is followed by a line feed, and nothing else comes between them.
pub proof fn law_terminated(l: Seq<Seq<char>>, x: Seq<char>)
    ensures
        terminated(l.push(x)) == terminated(l) + x + seq!['\n'],
        terminated(Seq::empty()) == Seq::<char>::empty(),
{
    assert(l.push(x).drop_last() =~= l);
    assert(terminated(l) + x.push('\n') =~= terminated(l) + x + seq!['\n']);
}

/// Lines that were written one below the other are read back, whichever way each was ended.
pub proof fn law_lines_read_back(l: Seq<Seq<char>>, last: Seq<char>)
    requires
        one_line_each(l),
        !last.contains('\n'),
    ensures
        lines(terminated(l) + last) == l.map_values(|x: Seq<char>| without_cr(x)) + if last.len()
            == 0 {
            Seq::empty()
        } else {
            seq![last]
        },
    decreases l.len(),
{
    let f = |x: Seq<char>| without_cr(x);
    let tail = if last.len() == 0 {
        Seq::empty()
    } else {
        seq![last]
    };
    if l.len() == 0 {
        assert(terminated(l) + last =~= last);
        lemma_index_of(last, '\n');
        if last.len() > 0 {
            if index_of(last, '\n') < last.len() {
                assert(last.contains(last[index_of(last, '\n') as int]));
            }
        }
        assert(l.map_values(f) + tail =~= tail);
    } else {
        let rest = l.drop_last();
        let x = l.last();
        assert(l[l.len() - 1] == x);
        assert forall|k: int| 0 <= k < rest.len() implies !(#[trigger] rest[k]).contains('\n') by {
            assert(rest[k] == l[k]);
        }
        law_lines_read_back(rest, Seq::empty());
        assert(terminated(rest) + Seq::<char>::empty() =~= terminated(rest));
        lemma_terminated_ends(rest);
        let line = x.push('\n') + last;
        assert(terminated(l) + last =~= terminated(rest) + line);
        lemma_lines_add(terminated(rest), line);
        assert forall|k: int| 0 <= k < x.len() implies line[k] != '\n' by {
            assert(x.contains(x[k]));
        }
        lemma_index_of_is(line, '\n', x.len() as int);
        assert(line.take(x.len() as int) =~= x);
        assert(line.skip(x.len() as int + 1) =~= last);
        law_lines_read_back(Seq::empty(), last);
        assert(terminated(Seq::<Seq<char>>::empty()) + last =~= last);
        assert(Seq::<Seq<char>>::empty().map_values(f) + tail =~= tail);
        assert(lines(line) =~= seq![without_cr(x)] + tail);
        assert(l.map_values(f) =~= rest.map_values(f).push(without_cr(x)));
        assert(rest.map_values(f) + Seq::<Seq<char>>::empty() =~= rest.map_values(f));
        assert(lines(terminated(l) + last) =~= l.map_values(f) + tail);
    }
}

proof fn lemma_terminated_ends(l: Seq<Seq<char>>)
    ensures
        terminated(l).len() == 0 || terminated(l).last() == '\n',
{
}

/// A line ends in front of the carriage return and line feed, or the line feed, that end it.
pub proof fn law_line_ends(x: Seq<char>)
    requires
        x.len() > 0 ==> x.last() != '\r',
    ensures
        without_cr(x) == x,
        without_cr(x.push('\r')) == x,
{
    assert(x.push('\r').drop_last() =~= x);
}

/// Lines that were written one below the other spell the text again, where it has no carriage
/// return.
pub proof fn law_lines_spell_the_text(s: Seq<char>)
    requires
        !s.contains('\r'),
        s.len() == 0 || s.last() == '\n',
    ensures
        terminated(lines(s)) == s,
    decreases s.len(),
{
    if s.len() == 0 {
        assert(terminated(lines(s)) =~= s);
    } else {
        let i = index_of(s, '\n') as int;
        lemma_index_of(s, '\n');
        if i >= s.len() {
            assert(s[s.len() - 1] != '\n');
        }
        let rest = s.skip(i + 1);
        assert forall|k: int| 0 <= k < rest.len() implies rest[k] != '\r' by {
            assert(s.contains(s[k + i + 1]));
        }
        if rest.len() > 0 {
            assert(rest.last() == s.last());
        }
        law_lines_spell_the_text(rest);
        let x = s.take(i);
        assert(without_cr(x) == x) by {
            if x.len() > 0 {
                assert(s.contains(s[i - 1]));
                assert(x.last() == s[i - 1]);
            }
        }
        lemma_terminated_add(seq![x], lines(rest));
        reveal_with_fuel(terminated, 2);
        assert(seq![x].drop_last() =~= Seq::<Seq<char>>::empty());
        assert(terminated(seq![x]) =~= x.push('\n'));
        assert(x.push('\n') + rest =~= s);
    }
}

/// Nothing is replaced in a text without the pattern.
pub proof fn law_nothing_to_replace(s: Seq<char>, p: Seq<char>, w: Seq<char>)
    requires
        !contains(s, p),
    ensures
        replaced(s, p, w) == s,
    decreases s.len(),
{
    if p.len() > 0 && s.len() >= p.len() {
        assert(!occurs_at(s, p, 0));
        let t = s.skip(1);
        assert forall|i: int| !occurs_at(t, p, i) by {
            if occurs_at(t, p, i) {
                assert(s.subrange(i + 1, i + 1 + p.len()) =~= t.subrange(i, i + p.len()));
                assert(occurs_at(s, p, i + 1));
            }
        }
        law_nothing_to_replace(t, p, w);
        assert(seq![s[0]] + t =~= s);
    }
}

/// The first copy of the pattern is replaced where it stands, and then those behind it.
pub proof fn law_first_copy_replaced(x: Seq<char>, p: Seq<char>, y: Seq<char>, w: Seq<char>)
    requires
        p.len() > 0,
        forall|i: int| 0 <= i < x.len() ==> !occurs_at(x + p + y, p, i),
    ensures
        replaced(x + p + y, p, w) == x + w + replaced(y, p, w),
    decreases x.len(),
{
    let s = x + p + y;
    if x.len() == 0 {
        assert(s.subrange(0, p.len() as int) =~= p);
        assert(s.skip(p.len() as int) =~= y);
        assert(x + w + replaced(y, p, w) =~= w + replaced(y, p, w));
    } else {
        let u = x.skip(1);
        let t = u + p + y;
        assert(s.skip(1) =~= t);
        assert(!occurs_at(s, p, 0));
        assert forall|i: int| 0 <= i < u.len() implies !occurs_at(t, p, i) by {
            if occurs_at(t, p, i) {
                assert(s.subrange(i + 1, i + 1 + p.len()) =~= t.subrange(i, i + p.len()));
                assert(occurs_at(s, p, i + 1));
            }
        }
        law_first_copy_replaced(u, p, y, w);
        assert(seq![s[0]] + (u + w + replaced(y, p, w)) =~= x + w + replaced(y, p, w));
    }
}

/// Two lists that are joined with the separator between them are joined as one.
pub proof fn law_joined_add(x: Seq<Seq<char>>, y: Seq<Seq<char>>, sep: Seq<char>)
    requires
        x.len() > 0,
        y.len() > 0,
    ensures
        joined(x + y, sep) == joined(x, sep) + sep + joined(y, sep),
        joined(seq![x[0]], sep) == x[0],
        joined(Seq::empty(), sep) == Seq::<char>::empty(),
    decreases y.len(),
{
    assert((x + y).drop_last() =~= x + y.drop_last());
    assert((x + y).last() == y.last());
    if y.len() == 1 {
        assert(x + y.drop_last() =~= x);
        assert(joined(x + y, sep) =~= joined(x, sep) + sep + joined(y, sep));
    } else {
        law_joined_add(x, y.drop_last(), sep);
        assert(joined(x + y, sep) =~= joined(x, sep) + sep + joined(y, sep));
    }
}

/// A number that was written is read back, and it is written without leading zeros.
pub proof fn law_numbers_read_back(n: u64)
    ensures
        number(decimal(n as nat)) == Some(n),
        n > 0 ==> decimal(n as nat)[0] != '0',
        n == 0 ==> decimal(n as nat) == "0"@,
{
    lemma_digits_read_back(n as nat);
    let d = decimal(n as nat);
    reveal_strlit("0");
    assert(n == 0 ==> d =~= "0"@);
}

proof fn lemma_digits_read_back(n: nat)
    ensures
        digits_value(decimal(n)) == Some(n),
        decimal(n).len() > 0,
        decimal(n)[0] != '+',
        n > 0 ==> decimal(n)[0] != '0',
    decreases n,
{
    if n >= 10 {
        lemma_digits_read_back(n / 10);
        let d = decimal(n);
        assert(d.drop_last() =~= decimal(n / 10));
        assert(d[0] == decimal(n / 10)[0]);
        assert(10 * (n / 10) + n % 10 == n);
    }
}

/// Only digits, behind one plus sign at most, make a number.
pub proof fn law_numbers_are_digits(s: Seq<char>)
    requires
        number(s) is Some,
    ensures
        s.len() > 0,
        forall|k: int| 0 <= k < s.len() ==> '0' <= #[trigger] s[k] <= '9' || (k == 0 && s[k] == '+'
            && s.len() > 1),
{
    let body = if s.len() > 0 && s[0] == '+' {
        s.skip(1)
    } else {
        s
    };
    lemma_all_digits(body);
    assert forall|k: int| 0 <= k < s.len() implies '0' <= #[trigger] s[k] <= '9' || (k == 0 && s[k]
        == '+' && s.len() > 1) by {
        if s[0] == '+' {
            if k > 0 {
                assert(body[k - 1] == s[k]);
            }
        } else {
            assert(body[k] == s[k]);
        }
    }
}

proof fn lemma_all_digits(s: Seq<char>)
    requires
        digits_value(s) is Some,
    ensures
        s.len() > 0,
        forall|k: int| 0 <= k < s.len() ==> '0' <= #[trigger] s[k] <= '9',
    decreases s.len(),
{
    if s.len() > 1 {
        lemma_all_digits(s.drop_last());
        assert forall|k: int| 0 <= k < s.len() implies '0' <= #[trigger] s[k] <= '9' by {
            if k < s.len() - 1 {
                assert(s.drop_last()[k] == s[k]);
            }
        }
    }
}

/// What is found from the back is the last occurrence that ends in time, and one is found where
/// there is one.
pub proof fn law_find_last_before(s: Seq<char>, p: Seq<char>, limit: nat)
    ensures
        match find_last_before(s, p, limit) {
            Some(i) => i + p.len() <= limit && occurs_at(s, p, i as int) && forall|j: int|
                i < j && j + p.len() <= limit ==> !occurs_at(s, p, j),
            None => forall|j: int| j + p.len() <= limit ==> !occurs_at(s, p, j),
        },
    decreases limit,
{
    if limit >= p.len() && !occurs_at(s, p, limit - p.len()) && limit > 0 {
        law_find_last_before(s, p, (limit - 1) as nat);
        assert forall|j: int|
            j + p.len() <= limit && !(j + p.len() <= limit - 1) implies !occurs_at(s, p, j) by {
            assert(j == limit - p.len());
        }
        match find_last_before(s, p, (limit - 1) as nat) {
            Some(i) => {
                assert forall|j: int| i < j && j + p.len() <= limit implies !occurs_at(s, p, j) by {
                    if j + p.len() <= limit - 1 {
                    }
                }
            },
            None => {
                assert forall|j: int| j + p.len() <= limit implies !occurs_at(s, p, j) by {
                    if j + p.len() <= limit - 1 {
                    }
                }
            },
        }
    }
}

/// All copies of a prefix are taken off, and nothing else.
pub proof fn law_prefixes(s: Seq<char>, p: Seq<char>)
    requires
        p.len() > 0,
    ensures
        !begins(without_prefixes(s, p), p),
        without_prefixes(p + s, p) == without_prefixes(s, p),
        !begins(s, p) ==> without_prefixes(s, p) == s,
    decreases s.len(),
{
    if begins(s, p) {
        law_prefixes(s.skip(p.len() as int), p);
    }
    assert((p + s).subrange(0, p.len() as int) =~= p);
    assert((p + s).skip(p.len() as int) =~= s);
}

} // verus!
