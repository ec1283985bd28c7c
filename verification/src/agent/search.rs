//! Searching files for a pattern.
use crate::agent::executor::{completed, printed, ExecutionStatus, ExecutionStatusView};
use crate::outside::{regex_compile_error, regex_error, regex_is_match, regex_matches};
use crate::text::{
    chars_of, decimal, decimal_of, lines, lines_of, replace, replaced, trim, trimmed, views,
};
use vstd::prelude::*;
use vstd::string::*;

verus! {

/// Larger files are not searched.
pub const MAX_FILE_BYTES: u64 = 1_000_000;

// ---------------------------------------------------------------------------------------------
// File name patterns
// ---------------------------------------------------------------------------------------------

/// What one character of a file name pattern means as a regular expression.
pub open spec fn glob_char(c: char) -> Seq<char> {
    if c == '*' {
        ".*"@
    } else if c == '?' {
        "."@
    } else if c == '.' {
        "\\."@
    } else {
        seq![c]
    }
}

/// The regular expressions of the characters of a file name pattern, one behind the other.
pub open spec fn glob_body(glob: Seq<char>) -> Seq<char>
    decreases glob.len(),
{
    if glob.len() == 0 {
        Seq::empty()
    } else {
        glob_body(glob.drop_last()) + glob_char(glob.last())
    }
}

/// The regular expression of a file name pattern; it spans the whole name.
pub open spec fn glob_regex(glob: Seq<char>) -> Seq<char> {
    "^"@ + glob_body(glob) + "$"@
}

/// The regular expression of a file name pattern.
pub fn glob_to_regex(glob: &str) -> (r: String)
    ensures
        r@ == glob_regex(glob@),
{
    let v = chars_of(glob);
    let mut out = String::from_str("^");
    let mut i: usize = 0;
    assert("^"@ + glob_body(v@.take(0)) =~= "^"@);
    while i < v.len()
        invariant
            i <= v@.len(),
            out@ == "^"@ + glob_body(v@.take(i as int)),
        decreases v@.len() - i,
    {
        let c = v[i];
        assert(v@.take(i + 1).drop_last() =~= v@.take(i as int));
        if c == '*' {
            out.append(".*");
        } else if c == '?' {
            out.append(".");
        } else if c == '.' {
            out.append("\\.");
        } else {
            out.push(c);
        }
        assert(out@ =~= "^"@ + glob_body(v@.take(i + 1)));
        i += 1;
    }
    assert(v@.take(v@.len() as int) =~= v@);
    out.append("$");
    out
}

// ---------------------------------------------------------------------------------------------
// Matches
// ---------------------------------------------------------------------------------------------

/// A line that matches: the file, the number of the line and the line.
pub struct Hit {
    pub path: String,
    pub line: usize,
    pub context: String,
}

/// The contents of a `Hit`.
pub struct HitView {
    pub path: Seq<char>,
    pub line: nat,
    pub context: Seq<char>,
}

impl View for Hit {
    type V = HitView;

    open spec fn view(&self) -> HitView {
        HitView { path: self.path@, line: self.line as nat, context: self.context@ }
    }
}

/// The contents of a list of hits.
pub open spec fn hit_views(h: Seq<Hit>) -> Seq<HitView> {
    h.map_values(|x: Hit| x@)
}

/// The hits in the lines of a file from line `k` on, when `have` hits were made before and the
/// search ends with `max`.
pub open spec fn hits_from(
    pattern: Seq<char>,
    path: Seq<char>,
    l: Seq<Seq<char>>,
    k: int,
    have: nat,
    max: nat,
) -> Seq<HitView>
    decreases l.len() - k,
{
    if k < 0 || k >= l.len() {
        Seq::empty()
    } else if !regex_matches(pattern, l[k]) {
        hits_from(pattern, path, l, k + 1, have, max)
    } else {
        let hit = HitView { path, line: (k + 1) as nat, context: l[k] };
        if have + 1 >= max {
            seq![hit]
        } else {
            seq![hit] + hits_from(pattern, path, l, k + 1, have + 1, max)
        }
    }
}

/// A search in progress.
pub struct Search {
    pub pattern: String,
    pub file_pattern: Option<String>,
    pub max_results: usize,
    pub hits: Vec<Hit>,
}

/// The contents of a `Search`.
pub struct SearchView {
    pub pattern: Seq<char>,
    pub file_pattern: Option<Seq<char>>,
    pub max_results: nat,
    pub hits: Seq<HitView>,
}

impl View for Search {
    type V = SearchView;

    open spec fn view(&self) -> SearchView {
        SearchView {
            pattern: self.pattern@,
            file_pattern: match self.file_pattern {
                Some(p) => Some(p@),
                None => None,
            },
            max_results: self.max_results as nat,
            hits: hit_views(self.hits@),
        }
    }
}

/// How a search for `pattern` begins: a pattern that is no regular expression fails it, and a file
/// name pattern that yields none is left out of account.
pub open spec fn search_begins(
    pattern: Seq<char>,
    file_pattern: Option<Seq<char>>,
    max_results: nat,
) -> Result<SearchView, ExecutionStatusView> {
    match regex_error(pattern) {
        Some(e) => Err(ExecutionStatusView::Failed("Invalid regex pattern: "@ + e)),
        None => Ok(
            SearchView {
                pattern,
                file_pattern: match file_pattern {
                    Some(p) => if regex_error(glob_regex(p)) is None {
                        Some(glob_regex(p))
                    } else {
                        None
                    },
                    None => None,
                },
                max_results,
                hits: Seq::empty(),
            },
        ),
    }
}

/// What a search reports that ended with `hits`.
pub open spec fn search_report(hits: Seq<HitView>) -> ExecutionStatusView {
    if hits.len() == 0 {
        printed("No matches found."@)
    } else {
        printed("Found "@ + decimal(hits.len()) + " matches:\n\n"@ + hit_lines(hits))
    }
}

/// How hits are listed: path, line number and the trimmed line, one to a line.
pub open spec fn hit_lines(hits: Seq<HitView>) -> Seq<char>
    decreases hits.len(),
{
    if hits.len() == 0 {
        Seq::empty()
    } else {
        let h = hits.last();
        hit_lines(hits.drop_last()) + (h.path + ":"@ + decimal(h.line) + ": "@ + trim(h.context)
            + "\n"@)
    }
}

/// The failure that a search in a missing directory ends with.
pub fn directory_not_found(root: &str) -> (r: ExecutionStatus)
    ensures
        r@ == ExecutionStatusView::Failed("Directory not found: "@ + root@),
{
    let mut text = String::from_str("Directory not found: ");
    text.append(root);
    ExecutionStatus::Failed(text)
}

impl Search {
    /// Begins a search.
    pub fn begin(pattern: &str, file_pattern: Option<&str>, max_results: usize) -> (r: Result<
        Search,
        ExecutionStatus,
    >)
        ensures
            match r {
                Ok(s) => search_begins(
                    pattern@,
                    match file_pattern {
                        Some(p) => Some(p@),
                        None => None,
                    },
                    max_results as nat,
                ) == Ok::<SearchView, ExecutionStatusView>(s@),
                Err(e) => search_begins(
                    pattern@,
                    match file_pattern {
                        Some(p) => Some(p@),
                        None => None,
                    },
                    max_results as nat,
                ) == Err::<SearchView, ExecutionStatusView>(e@),
            },
    {
        match regex_compile_error(pattern) {
            Some(e) => {
                let mut text = String::from_str("Invalid regex pattern: ");
                text.append(e.as_str());
                Err(ExecutionStatus::Failed(text))
            },
            None => {
                let files: Option<String> = match file_pattern {
                    Some(p) => {
                        let source = glob_to_regex(p);
                        match regex_compile_error(source.as_str()) {
                            Some(_e) => None,
                            None => Some(source),
                        }
                    },
                    None => None,
                };
                let hits: Vec<Hit> = Vec::new();
                assert(hit_views(hits@) =~= Seq::<HitView>::empty());
                Ok(
                    Search {
                        pattern: String::from_str(pattern),
                        file_pattern: files,
                        max_results,
                        hits,
                    },
                )
            },
        }
    }

    /// Whether a file of this name and size is searched.
    pub fn wants(&self, name: &str, size: u64) -> (r: bool)
        ensures
            r == wanted(self@, name@, size),
    {
        if size > MAX_FILE_BYTES {
            return false;
        }
        match &self.file_pattern {
            Some(p) => regex_is_match(p.as_str(), name),
            None => true,
        }
    }

    /// Searches the file at `path`, in which a backslash separates directories as a slash does.
    /// The answer says whether the search goes on.
    pub fn scan(&mut self, path: &str, content: &str) -> (more: bool)
        ensures
            ({
                let s = old(self)@;
                let found = hits_from(
                    s.pattern,
                    replaced(path@, "\\"@, "/"@),
                    lines(content@),
                    0,
                    s.hits.len(),
                    s.max_results,
                );
                &&& final(self)@ == SearchView { hits: s.hits + found, ..s }
                &&& more == (final(self)@.hits.len() < s.max_results)
            }),
    {
        let relative = replace(path, "\\", "/");
        let all = lines_of(content);
        let ghost s = self@;
        let ghost l = lines(content@);
        let ghost target = hits_from(s.pattern, relative@, l, 0, s.hits.len(), s.max_results);
        let mut k: usize = 0;
        let ghost mut got: Seq<HitView> = Seq::empty();
        assert(got + target =~= target);
        assert(s.hits + got =~= s.hits);
        while k < all.len()
            invariant
                s == old(self)@,
                relative@ == replaced(path@, "\\"@, "/"@),
                l == lines(content@),
                l == views(all@),
                k <= all@.len(),
                target == hits_from(s.pattern, relative@, l, 0, s.hits.len(), s.max_results),
                self@ == (SearchView { hits: s.hits + got, ..s }),
                target == got + hits_from(
                    s.pattern,
                    relative@,
                    l,
                    k as int,
                    s.hits.len() + got.len(),
                    s.max_results,
                ),
            decreases all@.len() - k,
        {
            assert(l[k as int] == all@[k as int]@);
            if regex_is_match(self.pattern.as_str(), all[k].as_str()) {
                let ghost earlier = self.hits@;
                let hit = Hit {
                    path: relative.clone(),
                    line: k + 1,
                    context: all[k].clone(),
                };
                let ghost before = got;
                proof {
                    got = got.push(hit@);
                }
                self.hits.push(hit);
                assert(hit_views(self.hits@) =~= hit_views(earlier).push(hit@));
                assert(s.hits + got =~= (s.hits + before).push(hit@));
                assert(before + seq![hit@] =~= got);
                if self.hits.len() >= self.max_results {
                    return false;
                }
                assert(forall|rest: Seq<HitView>|
                    before + (#[trigger] (seq![hit@] + rest)) =~= got + rest);
            }
            k += 1;
        }
        assert(got + Seq::<HitView>::empty() =~= got);
        self.hits.len() < self.max_results
    }

    /// What the search reports.
    pub fn report(&self) -> (r: ExecutionStatus)
        ensures
            r@ == search_report(self@.hits),
    {
        let ghost hits = self@.hits;
        if self.hits.len() == 0 {
            return completed(String::from_str("No matches found."));
        }
        let mut output = String::from_str("Found ");
        let count = decimal_of(self.hits.len() as u64);
        output.append(count.as_str());
        output.append(" matches:\n\n");
        let ghost head = output@;
        let mut i: usize = 0;
        assert(head + hit_lines(hits.take(0)) =~= head);
        while i < self.hits.len()
            invariant
                hits == self@.hits,
                hits.len() == self.hits@.len(),
                i <= self.hits@.len(),
                output@ == head + hit_lines(hits.take(i as int)),
            decreases self.hits@.len() - i,
        {
            let ghost upto = hits.take(i + 1);
            assert(upto.drop_last() =~= hits.take(i as int));
            assert(upto.last() == self.hits@[i as int]@);
            let mut entry = self.hits[i].path.clone();
            entry.append(":");
            let number = decimal_of(self.hits[i].line as u64);
            entry.append(number.as_str());
            entry.append(": ");
            let context = trimmed(self.hits[i].context.as_str());
            entry.append(context.as_str());
            entry.append("\n");
            output.append(entry.as_str());
            assert(output@ =~= head + hit_lines(upto));
            i += 1;
        }
        assert(hits.take(hits.len() as int) =~= hits);
        completed(output)
    }
}

// ---------------------------------------------------------------------------------------------
// Whole searches
// ---------------------------------------------------------------------------------------------

/// A file that a search comes across.
pub struct Candidate {
    pub name: String,
    pub path: String,
    pub size: u64,
    pub content: String,
}

/// The contents of a `Candidate`.
pub struct CandidateView {
    pub name: Seq<char>,
    pub path: Seq<char>,
    pub size: u64,
    pub content: Seq<char>,
}

impl View for Candidate {
    type V = CandidateView;

    open spec fn view(&self) -> CandidateView {
        CandidateView {
            name: self.name@,
            path: self.path@,
            size: self.size,
            content: self.content@,
        }
    }
}

/// The contents of a list of files.
pub open spec fn candidate_views(c: Seq<Candidate>) -> Seq<CandidateView> {
    c.map_values(|x: Candidate| x@)
}

/// Whether a search looks into a file of this name and size.
pub open spec fn wanted(s: SearchView, name: Seq<char>, size: u64) -> bool {
    size <= MAX_FILE_BYTES && match s.file_pattern {
        Some(p) => regex_matches(p, name),
        None => true,
    }
}

/// A search after one more file.
pub open spec fn searched(s: SearchView, f: CandidateView) -> SearchView {
    SearchView {
        hits: s.hits + hits_from(
            s.pattern,
            replaced(f.path, "\\"@, "/"@),
            lines(f.content),
            0,
            s.hits.len(),
            s.max_results,
        ),
        ..s
    }
}

/// A search after the files from `i` on, as far as it has room: files that it does not want are
/// passed over, and it ends when it has made as many hits as it may.
pub open spec fn searched_from(s: SearchView, files: Seq<CandidateView>, i: nat) -> SearchView
    decreases files.len() - i,
{
    if i >= files.len() {
        s
    } else if !wanted(s, files[i as int].name, files[i as int].size) {
        searched_from(s, files, i + 1)
    } else {
        let t = searched(s, files[i as int]);
        if t.hits.len() >= s.max_results {
            t
        } else {
            searched_from(t, files, i + 1)
        }
    }
}

/// What a search of the directory `root` comes to.
pub open spec fn search_outcome(
    root: Seq<char>,
    exists_root: bool,
    pattern: Seq<char>,
    file_pattern: Option<Seq<char>>,
    max_results: nat,
    files: Seq<CandidateView>,
) -> ExecutionStatusView {
    if !exists_root {
        ExecutionStatusView::Failed("Directory not found: "@ + root)
    } else {
        match search_begins(pattern, file_pattern, max_results) {
            Err(e) => e,
            Ok(s) => search_report(searched_from(s, files, 0).hits),
        }
    }
}

/// Searches the files of a directory, in the order in which they come.
pub fn search_files(
    root: &str,
    exists_root: bool,
    pattern: &str,
    file_pattern: Option<&str>,
    max_results: usize,
    files: &Vec<Candidate>,
) -> (r: ExecutionStatus)
    ensures
        r@ == search_outcome(
            root@,
            exists_root,
            pattern@,
            match file_pattern {
                Some(p) => Some(p@),
                None => None,
            },
            max_results as nat,
            candidate_views(files@),
        ),
{
    if !exists_root {
        return directory_not_found(root);
    }
    let mut search = match Search::begin(pattern, file_pattern, max_results) {
        Ok(s) => s,
        Err(e) => {
            return e;
        },
    };
    let ghost start = search@;
    let ghost f = candidate_views(files@);
    let mut i: usize = 0;
    while i < files.len()
        invariant
            f == candidate_views(files@),
            i <= files@.len(),
            search@.max_results == start.max_results,
            searched_from(start, f, 0) == searched_from(search@, f, i as nat),
            search_begins(
                pattern@,
                match file_pattern {
                    Some(p) => Some(p@),
                    None => None,
                },
                max_results as nat,
            ) == Ok::<SearchView, ExecutionStatusView>(start),
            exists_root,
        decreases files@.len() - i,
    {
        assert(f[i as int] == files@[i as int]@);
        if search.wants(files[i].name.as_str(), files[i].size) {
            if !search.scan(files[i].path.as_str(), files[i].content.as_str()) {
                return search.report();
            }
        }
        i += 1;
    }
    search.report()
}

proof fn lemma_hits_from_count(
    pattern: Seq<char>,
    path: Seq<char>,
    l: Seq<Seq<char>>,
    k: int,
    have: nat,
    max: nat,
)
    requires
        have < max,
    ensures
        have + hits_from(pattern, path, l, k, have, max).len() <= max,
    decreases l.len() - k,
{
    if 0 <= k < l.len() {
        if !regex_matches(pattern, l[k]) {
            lemma_hits_from_count(pattern, path, l, k + 1, have, max);
        } else if have + 1 < max {
            lemma_hits_from_count(pattern, path, l, k + 1, have + 1, max);
        }
    }
}

proof fn lemma_search_is_bounded(s: SearchView, files: Seq<CandidateView>, i: nat)
    requires
        s.hits.len() < s.max_results,
    ensures
        searched_from(s, files, i).hits.len() <= s.max_results,
    decreases files.len() - i,
{
    if i < files.len() {
        let f = files[i as int];
        lemma_hits_from_count(
            s.pattern,
            replaced(f.path, "\\"@, "/"@),
            lines(f.content),
            0,
            s.hits.len(),
            s.max_results,
        );
        if !wanted(s, f.name, f.size) {
            lemma_search_is_bounded(s, files, i + 1);
        } else {
            let t = searched(s, f);
            if t.hits.len() < s.max_results {
                lemma_search_is_bounded(t, files, i + 1);
            }
        }
    }
}

/// A search never makes more hits than it may, where it may make any.
pub proof fn law_search_is_bounded(
    pattern: Seq<char>,
    file_pattern: Option<Seq<char>>,
    max_results: nat,
    files: Seq<CandidateView>,
)
    requires
        max_results > 0,
    ensures
        search_begins(pattern, file_pattern, max_results) matches Ok(s) ==> searched_from(
            s,
            files,
            0,
        ).hits.len() <= max_results,
{
    match search_begins(pattern, file_pattern, max_results) {
        Ok(s) => {
            lemma_search_is_bounded(s, files, 0);
        },
        Err(_) => {},
    }
}

} // verus!
