//! What holds of the tools, whatever they are given.
use crate::agent::executor::{
    code_plan, command_plan, printed, shown, told, ExecutionRequestView, ExecutionStatusView, PlanView,
};
use crate::agent::mcp::{content_items, item_texts, tool_def, tool_defs, tool_outcome};
use crate::agent::search::{
    glob_body, glob_regex, hit_lines, hits_from, search_begins, search_outcome, search_report,
    searched, searched_from, wanted, CandidateView, HitView, SearchView,
};
use crate::agent::tools::{tool_plan, ToolCallView, ToolPlanView};
use crate::json::{bool_member, elements, member, string_member, string_value};
use crate::outside::{json_debug, regex_error, regex_matches};
use crate::text::{decimal, joined, lines, replaced, terminated, trim};
use vstd::prelude::*;
use vstd::string::*;

verus! {

// ---------------------------------------------------------------------------------------------
// Searching
// ---------------------------------------------------------------------------------------------

/// The lines of a file that match, in order, each with its path and its number.
pub open spec fn matching_lines(pattern: Seq<char>, f: CandidateView) -> Seq<HitView> {
    Seq::new(
        lines(f.content).len(),
        |i: int|
            HitView {
                path: replaced(f.path, "\\"@, "/"@),
                line: (i + 1) as nat,
                context: lines(f.content)[i],
            },
    ).filter(|h: HitView| regex_matches(pattern, h.context))
}

/// Whether a file is searched: it is no larger than a million bytes, and its whole name matches the
/// pattern for names, where there is one that can be understood.
pub open spec fn is_searched(names: Option<Seq<char>>, f: CandidateView) -> bool {
    &&& f.size <= 1_000_000
    &&& names matches Some(p) ==> regex_error(glob_regex(p)) is Some || regex_matches(
        glob_regex(p),
        f.name,
    )
}

/// All lines that match in the files from `i` on that are searched, in order.
pub open spec fn matches_in(
    pattern: Seq<char>,
    names: Option<Seq<char>>,
    files: Seq<CandidateView>,
    i: nat,
) -> Seq<HitView>
    decreases files.len() - i,
{
    if i >= files.len() {
        Seq::empty()
    } else if is_searched(names, files[i as int]) {
        matching_lines(pattern, files[i as int]) + matches_in(pattern, names, files, i + 1)
    } else {
        matches_in(pattern, names, files, i + 1)
    }
}

/// The first `n` elements of a list, or all of it where it has no more.
pub open spec fn first<A>(s: Seq<A>, n: nat) -> Seq<A> {
    if s.len() <= n {
        s
    } else {
        s.take(n as int)
    }
}

proof fn lemma_hits_of_a_file(
    pattern: Seq<char>,
    path: Seq<char>,
    l: Seq<Seq<char>>,
    k: int,
    have: nat,
    max: nat,
)
    requires
        0 <= k <= l.len(),
        have < max,
    ensures
        ({
            let all = Seq::new(
                l.len(),
                |i: int| HitView { path, line: (i + 1) as nat, context: l[i] },
            );
            hits_from(pattern, path, l, k, have, max) == first(
                all.skip(k).filter(|h: HitView| regex_matches(pattern, h.context)),
                (max - have) as nat,
            )
        }),
    decreases l.len() - k,
{
    let all = Seq::new(l.len(), |i: int| HitView { path, line: (i + 1) as nat, context: l[i] });
    let keep = |h: HitView| regex_matches(pattern, h.context);
    let h = hits_from(pattern, path, l, k, have, max);
    if k == l.len() {
        reveal(Seq::filter);
        assert(all.skip(k) =~= Seq::<HitView>::empty());
        assert(all.skip(k).filter(keep) =~= Seq::<HitView>::empty());
    } else {
        let rest = all.skip(k + 1);
        assert(all.skip(k) =~= seq![all[k]] + rest);
        rest.lemma_filter_prepend(all[k], keep);
        if !regex_matches(pattern, l[k]) {
            lemma_hits_of_a_file(pattern, path, l, k + 1, have, max);
            assert(all.skip(k).filter(keep) =~= rest.filter(keep));
        } else if have + 1 >= max {
            let f = seq![all[k]] + rest.filter(keep);
            assert(all.skip(k).filter(keep) =~= f);
            if f.len() <= 1 {
                assert(f =~= seq![all[k]]);
            } else {
                assert(f.take(1) =~= seq![all[k]]);
            }
        } else {
            lemma_hits_of_a_file(pattern, path, l, k + 1, have + 1, max);
            let f = seq![all[k]] + rest.filter(keep);
            assert(all.skip(k).filter(keep) =~= f);
            let n = (max - have) as nat;
            if rest.filter(keep).len() > n - 1 {
                assert(seq![all[k]] + rest.filter(keep).take(n - 1) =~= f.take(n as int));
            }
        }
    }
}

proof fn lemma_search(
    pattern: Seq<char>,
    names: Option<Seq<char>>,
    s: SearchView,
    files: Seq<CandidateView>,
    i: nat,
)
    requires
        s.pattern == pattern,
        s.file_pattern == (match names {
            Some(p) => if regex_error(glob_regex(p)) is None {
                Some(glob_regex(p))
            } else {
                None
            },
            None => None,
        }),
        s.hits.len() < s.max_results,
    ensures
        searched_from(s, files, i).hits == first(
            s.hits + matches_in(pattern, names, files, i),
            s.max_results,
        ),
    decreases files.len() - i,
{
    let later = matches_in(pattern, names, files, i + 1);
    if i >= files.len() {
        assert(s.hits + matches_in(pattern, names, files, i) =~= s.hits);
    } else {
        let f = files[i as int];
        assert(wanted(s, f.name, f.size) == is_searched(names, f));
        if !wanted(s, f.name, f.size) {
            lemma_search(pattern, names, s, files, i + 1);
        } else {
            let l = lines(f.content);
            let path = replaced(f.path, "\\"@, "/"@);
            let all = Seq::new(
                l.len(),
                |i: int| HitView { path, line: (i + 1) as nat, context: l[i] },
            );
            let own = matching_lines(pattern, f);
            lemma_hits_of_a_file(pattern, path, l, 0, s.hits.len(), s.max_results);
            assert(all.skip(0) =~= all);
            let t = searched(s, f);
            let room = (s.max_results - s.hits.len()) as nat;
            assert(t.hits == s.hits + first(own, room));
            if t.hits.len() >= s.max_results {
                assert(t.hits =~= (s.hits + (own + later)).take(s.max_results as int));
                if (s.hits + (own + later)).len() <= s.max_results {
                    assert(t.hits =~= s.hits + (own + later));
                }
            } else {
                lemma_search(pattern, names, t, files, i + 1);
                assert(s.hits + (own + later) =~= t.hits + later);
            }
        }
    }
}

/// A search finds every line that matches, in the order of the files and of their lines, as many as
/// it may give, and nothing else. It fails where the directory is missing or the pattern is none.
pub proof fn law_search_finds_every_match(
    root: Seq<char>,
    exists_root: bool,
    pattern: Seq<char>,
    names: Option<Seq<char>>,
    max_results: nat,
    files: Seq<CandidateView>,
)
    requires
        max_results > 0,
    ensures
        exists_root && regex_error(pattern) is None ==> search_outcome(
            root,
            exists_root,
            pattern,
            names,
            max_results,
            files,
        ) == search_report(first(matches_in(pattern, names, files, 0), max_results)),
        !exists_root ==> search_outcome(root, exists_root, pattern, names, max_results, files)
            == ExecutionStatusView::Failed("Directory not found: "@ + root),
        exists_root ==> (regex_error(pattern) matches Some(e) ==> search_outcome(
            root,
            exists_root,
            pattern,
            names,
            max_results,
            files,
        ) == ExecutionStatusView::Failed("Invalid regex pattern: "@ + e)),
{
    match search_begins(pattern, names, max_results) {
        Ok(s) => {
            lemma_search(pattern, names, s, files, 0);
            assert(s.hits + matches_in(pattern, names, files, 0) =~= matches_in(
                pattern,
                names,
                files,
                0,
            ));
        },
        Err(_) => {},
    }
}

proof fn lemma_hit_lines_grow(hits: Seq<HitView>, k: int)
    requires
        0 <= k <= hits.len(),
    ensures
        hit_lines(hits.take(k)).is_prefix_of(hit_lines(hits)),
    decreases hits.len() - k,
{
    if k == hits.len() {
        assert(hits.take(k) =~= hits);
    } else {
        let d = hits.drop_last();
        assert(d.take(k) =~= hits.take(k));
        lemma_hit_lines_grow(d, k);
    }
}

/// The report of a search counts its hits and lists each of them, in order, with its file, the number
/// of the line, and the line without white space at its ends. What is given back says where: hit `k`
/// stands from `r[k]` up to `r[k + 1]`.
pub proof fn law_report_lists_every_hit(hits: Seq<HitView>) -> (r: Seq<int>)
    ensures
        hits.len() == 0 ==> search_report(hits) == (ExecutionStatusView::Completed {
            stdout: "No matches found."@,
            stderr: Seq::empty(),
            exit_code: 0,
        }),
        hits.len() > 0 ==> {
            let report = search_report(hits);
            let text = report->stdout;
            &&& report is Completed
            &&& report->stderr.len() == 0
            &&& report->exit_code == 0
            &&& r.len() == hits.len() + 1
            &&& 0 <= r[0] <= text.len()
            &&& text.take(r[0]) == "Found "@ + decimal(hits.len()) + " matches:\n\n"@
            &&& r.last() == text.len()
            &&& forall|k: int|
                0 <= k < hits.len() ==> {
                    &&& 0 <= r[k] <= r[k + 1] <= text.len()
                    &&& text.subrange(#[trigger] r[k], r[k + 1]) == hits[k].path + ":"@ + decimal(
                        hits[k].line,
                    ) + ": "@ + trim(hits[k].context) + "\n"@
                }
        },
{
    let head = "Found "@ + decimal(hits.len()) + " matches:\n\n"@;
    let text = head + hit_lines(hits);
    let r = Seq::new(
        hits.len() + 1,
        |k: int| head.len() + hit_lines(hits.take(k)).len() as int,
    );
    assert(text.take(head.len() as int) =~= head);
    assert(hits.take(0) =~= Seq::<HitView>::empty());
    assert(hits.take(hits.len() as int) =~= hits);
    assert forall|k: int| 0 <= k < hits.len() implies {
        &&& 0 <= r[k] <= r[k + 1] <= text.len()
        &&& text.subrange(#[trigger] r[k], r[k + 1]) == hits[k].path + ":"@ + decimal(hits[k].line)
            + ": "@ + trim(hits[k].context) + "\n"@
    } by {
        let front = hit_lines(hits.take(k));
        let upto = hit_lines(hits.take(k + 1));
        let own = hits[k].path + ":"@ + decimal(hits[k].line) + ": "@ + trim(hits[k].context)
            + "\n"@;
        assert(hits.take(k + 1).drop_last() =~= hits.take(k));
        assert(hits.take(k + 1).last() == hits[k]);
        assert(upto == front + own);
        lemma_hit_lines_grow(hits, k + 1);
        let all = hit_lines(hits);
        assert(text.subrange(r[k], r[k + 1]) =~= all.subrange(
            front.len() as int,
            upto.len() as int,
        ));
        assert(all.subrange(front.len() as int, upto.len() as int) =~= upto.skip(
            front.len() as int,
        ));
        assert(upto.skip(front.len() as int) =~= own);
    }
    r
}

/// How a pattern for names is understood: it spans the whole name, a star stands for any text, a
/// question mark for any character, and every other character for itself.
pub proof fn law_globs(x: Seq<char>, y: Seq<char>, c: char)
    ensures
        glob_regex(x) == "^"@ + glob_body(x) + "$"@,
        glob_body(x + y) == glob_body(x) + glob_body(y),
        glob_body(seq!['*']) == ".*"@,
        glob_body(seq!['?']) == "."@,
        glob_body(seq!['.']) == "\\."@,
        c != '*' && c != '?' && c != '.' ==> glob_body(seq![c]) == seq![c],
    decreases y.len(),
{
    reveal_with_fuel(glob_body, 2);
    let e = Seq::<char>::empty();
    assert(seq!['*'].drop_last() =~= e);
    assert(seq!['?'].drop_last() =~= e);
    assert(seq!['.'].drop_last() =~= e);
    assert(seq![c].drop_last() =~= e);
    assert(e + ".*"@ =~= ".*"@);
    assert(e + "."@ =~= "."@);
    assert(e + "\\."@ =~= "\\."@);
    assert(e + seq![c] =~= seq![c]);
    if y.len() == 0 {
        assert(x + y =~= x);
        assert(glob_body(x) + glob_body(y) =~= glob_body(x));
    } else {
        law_globs(x, y.drop_last(), c);
        assert((x + y).drop_last() =~= x + y.drop_last());
        assert((x + y).last() == y.last());
        assert(glob_body(x + y) =~= glob_body(x) + glob_body(y));
    }
}

// ---------------------------------------------------------------------------------------------
// Programs and files
// ---------------------------------------------------------------------------------------------

/// Code is handed to its interpreter whole, as the last argument, and runs where the request says. Two
/// names of a language mean the same.
pub proof fn law_code_is_run_whole(q: ExecutionRequestView, windows: bool)
    ensures
        code_plan(q, windows) matches PlanView::Run { program, args, dir } ==> {
            &&& args.len() == 2
            &&& args[1] == q.code
            &&& dir == q.working_dir
            &&& q.language == "python"@ || q.language == "py"@ ==> program == "python"@ && args[0]
                == "-c"@
            &&& q.language == "bash"@ || q.language == "sh"@ ==> if windows {
                program == "cmd"@ && args[0] == "/C"@
            } else {
                program == "bash"@ && args[0] == "-c"@
            }
            &&& q.language == "javascript"@ || q.language == "js"@ || q.language == "node"@
                ==> program == "node"@ && args[0] == "-e"@
        },
        code_plan(q, windows) is Run <==> seq![
            "python"@,
            "py"@,
            "bash"@,
            "sh"@,
            "javascript"@,
            "js"@,
            "node"@,
        ].contains(q.language),
        code_plan(q, windows) matches PlanView::Refused(s) ==> s is Failed,
{
    let names = seq!["python"@, "py"@, "bash"@, "sh"@, "javascript"@, "js"@, "node"@];
    lemma_language_names();
    assert(names[0] == "python"@ && names[1] == "py"@ && names[2] == "bash"@ && names[3] == "sh"@
        && names[4] == "javascript"@ && names[5] == "js"@ && names[6] == "node"@);
    let l = q.language;
    assert(names.contains(l) <==> l == "python"@ || l == "py"@ || l == "bash"@ || l == "sh"@ || l
        == "javascript"@ || l == "js"@ || l == "node"@);
}

proof fn lemma_language_names()
    ensures
        "rust"@ != "python"@ && "rust"@ != "py"@ && "rust"@ != "bash"@ && "rust"@ != "sh"@ && "rust"@
            != "javascript"@ && "rust"@ != "js"@ && "rust"@ != "node"@,
        "rs"@ != "python"@ && "rs"@ != "py"@ && "rs"@ != "bash"@ && "rs"@ != "sh"@ && "rs"@
            != "javascript"@ && "rs"@ != "js"@ && "rs"@ != "node"@,
        "python"@ != "bash"@ && "python"@ != "sh"@ && "py"@ != "bash"@ && "py"@ != "sh"@,
        "python"@ != "javascript"@ && "python"@ != "js"@ && "python"@ != "node"@,
        "py"@ != "javascript"@ && "py"@ != "js"@ && "py"@ != "node"@,
        "bash"@ != "javascript"@ && "bash"@ != "js"@ && "bash"@ != "node"@,
        "sh"@ != "javascript"@ && "sh"@ != "js"@ && "sh"@ != "node"@,
{
    reveal_strlit("python");
    reveal_strlit("py");
    reveal_strlit("bash");
    reveal_strlit("sh");
    reveal_strlit("javascript");
    reveal_strlit("js");
    reveal_strlit("node");
    reveal_strlit("rust");
    reveal_strlit("rs");
    assert("rust"@[0] == 'r' && "rs"@[0] == 'r');
    assert("python"@[0] == 'p' && "py"@[0] == 'p' && "bash"@[0] == 'b' && "sh"@[0] == 's');
    assert("javascript"@[0] == 'j' && "js"@[0] == 'j' && "node"@[0] == 'n');
}

/// A command goes to the shell of the system whole, and runs in the given directory.
pub proof fn law_commands_are_run_whole(command: Seq<char>, dir: Seq<char>, windows: bool)
    ensures
        command_plan(command, dir, windows) matches PlanView::Run { program, args, dir: d } && {
            &&& d == Some(dir)
            &&& args.len() == 2
            &&& args[1] == command
            &&& if windows {
                program == "cmd"@ && args[0] == "/C"@
            } else {
                program == "sh"@ && args[0] == "-c"@
            }
        },
{
}

/// Each call of a tool does what it says with what it was given: nothing is read, written, searched or
/// fetched but what the call names, and only a command runs a program.
pub proof fn law_tools_do_as_told(call: ToolCallView, windows: bool)
    ensures
        match call {
            ToolCallView::RunCommand { command, working_dir } => tool_plan(call, windows)
                == ToolPlanView::Run(
                command_plan(
                    command,
                    if working_dir is Some {
                        working_dir->0
                    } else {
                        "."@
                    },
                    windows,
                ),
            ),
            ToolCallView::ReadFile { path } => tool_plan(call, windows) matches ToolPlanView::Read {
                path: p,
            } && p == path,
            ToolCallView::WriteFile { path, content } => tool_plan(
                call,
                windows,
            ) matches ToolPlanView::Write { path: p, content: c } && p == path && c == content,
            ToolCallView::SearchFiles { query, file_pattern } => tool_plan(
                call,
                windows,
            ) matches ToolPlanView::Search { query: q, file_pattern: f, max_results } && q == query
                && f == file_pattern && max_results == 20,
            ToolCallView::WebSearch { query } => tool_plan(
                call,
                windows,
            ) matches ToolPlanView::Fetch { query: q, url } && q == query && url
                == "https://html.duckduckgo.com/html/?q="@ + replaced(query, " "@, "+"@),
            ToolCallView::ScrapeUrl { url } => tool_plan(call, windows) matches ToolPlanView::Scrape {
                url: u,
            } && u == url,
        },
{
}

/// All that a program printed is told, first its output and then, behind a mark, its errors. It went
/// well exactly where it ended with zero.
pub proof fn law_nothing_is_kept_back(stdout: Seq<char>, stderr: Seq<char>, code: i32, e: Seq<char>)
    ensures
        ({
            let (text, well) = told(
                Ok(ExecutionStatusView::Completed { stdout, stderr, exit_code: code }),
            );
            &&& well <==> code == 0
            &&& stdout.is_prefix_of(text)
            &&& stderr.len() == 0 ==> text == stdout
            &&& stderr.len() > 0 ==> text == stdout + "\n--- STDERR ---\n"@ + stderr
        }),
        told(Ok(ExecutionStatusView::Failed(e))) == (e, false),
        told(Err(e)) == (e, false),
{
}

/// A file of up to three hundred lines is shown as it is, and of a longer one the first three hundred
/// lines and how many it has.
pub proof fn law_files_are_shown(content: Seq<char>)
    ensures
        lines(content).len() <= 300 ==> shown(content) == content,
        lines(content).len() > 300 ==> shown(content) == joined(
            Seq::new(300, |i: int| lines(content)[i]),
            "\n"@,
        ) + "\n\n--- TRUNCATED: Showing first 300 of "@ + decimal(lines(content).len())
            + " total lines ---"@,
{
    if lines(content).len() > 300 {
        assert(lines(content).take(300) =~= Seq::new(300, |i: int| lines(content)[i]));
    }
}

/// A run that ended well printed what it printed.
pub proof fn law_printed(text: Seq<char>)
    ensures
        printed(text) == (ExecutionStatusView::Completed {
            stdout: text,
            stderr: Seq::empty(),
            exit_code: 0,
        }),
        told(Ok(printed(text))) == (text, true),
{
}

// ---------------------------------------------------------------------------------------------
// Tools of other servers
// ---------------------------------------------------------------------------------------------

/// What a tool of a server gives is all the texts of its content, in order, one below the other. A
/// result without a content is a failure, whether or not it is marked as one.
pub proof fn law_tool_outcome(result: Seq<char>, content: Seq<char>, items: Seq<Seq<char>>)
    ensures
        member(result, "content"@) == Some(content) && elements(content) == Some(items)
            ==> tool_outcome(Some(result)) == Ok::<Seq<char>, Seq<char>>(
            trim(
                terminated(items.filter_map(|x: Seq<char>| string_member(x, "text"@))),
            ),
        ),
        member(result, "content"@) is None && bool_member(result, "isError"@) == Some(true)
            ==> tool_outcome(Some(result)) == Err::<Seq<char>, Seq<char>>(
            "Tool call returned an error flag: "@ + json_debug(result),
        ),
        member(result, "content"@) is None && bool_member(result, "isError"@) != Some(true)
            ==> tool_outcome(Some(result)) == Err::<Seq<char>, Seq<char>>(
            "Invalid response from tool call"@,
        ),
        tool_outcome(None) == Err::<Seq<char>, Seq<char>>("Invalid response from tool call"@),
{
    lemma_item_texts(items);
}

proof fn lemma_item_texts(items: Seq<Seq<char>>)
    ensures
        item_texts(items) == items.filter_map(|x: Seq<char>| string_member(x, "text"@)),
    decreases items.len(),
{
    if items.len() > 0 {
        lemma_item_texts(items.drop_last());
    }
    assert(item_texts(items) =~= items.filter_map(|x: Seq<char>| string_member(x, "text"@)));
}

/// A server offers one tool for each element of its list, in order, with the name, the description and
/// the schema that the element gives. Where one element gives less, none is offered.
pub proof fn law_offered_tools(items: Seq<Seq<char>>)
    ensures
        tool_defs(items) matches Some(t) ==> {
            &&& t.len() == items.len()
            &&& forall|k: int|
                0 <= k < t.len() && elements(items[k]) is None ==> {
                    &&& string_member(items[k], "name"@) == Some((#[trigger] t[k]).name)
                    &&& string_member(items[k], "description"@) == Some(t[k].description)
                    &&& member(items[k], "inputSchema"@) == Some(t[k].input_schema)
                }
            &&& forall|k: int|
                0 <= k < t.len() && elements(items[k]) is Some ==> {
                    let l = elements(items[k])->0;
                    &&& l.len() == 3
                    &&& string_value(l[0]) == Some((#[trigger] t[k]).name)
                    &&& string_value(l[1]) == Some(t[k].description)
                    &&& l[2] == t[k].input_schema
                }
        },
        tool_defs(items) is None <==> exists|k: int|
            0 <= k < items.len() && tool_def(#[trigger] items[k]) is None,
        forall|j: Seq<char>|
            elements(j) is None ==> (#[trigger] tool_def(j) is None <==> string_member(j, "name"@)
                is None || string_member(j, "description"@) is None || member(j, "inputSchema"@)
                is None),
        forall|j: Seq<char>|
            elements(j) is Some ==> (#[trigger] tool_def(j) is None <==> elements(j)->0.len() != 3
                || string_value(elements(j)->0[0]) is None || string_value(elements(j)->0[1])
                is None),
    decreases items.len(),
{
    if items.len() > 0 {
        let d = items.drop_last();
        law_offered_tools(d);
        let z = items.len() - 1;
        assert(items.last() == items[z]);
        if let Some(t) = tool_defs(items) {
            let u = tool_defs(d)->0;
            assert(t == u.push(tool_def(items.last())->0));
            assert forall|k: int| 0 <= k < t.len() && elements(items[k]) is None implies {
                &&& string_member(items[k], "name"@) == Some((#[trigger] t[k]).name)
                &&& string_member(items[k], "description"@) == Some(t[k].description)
                &&& member(items[k], "inputSchema"@) == Some(t[k].input_schema)
            } by {
                if k < z {
                    assert(d[k] == items[k] && u[k] == t[k]);
                }
            }
            assert forall|k: int| 0 <= k < t.len() && elements(items[k]) is Some implies {
                let l = elements(items[k])->0;
                &&& l.len() == 3
                &&& string_value(l[0]) == Some((#[trigger] t[k]).name)
                &&& string_value(l[1]) == Some(t[k].description)
                &&& l[2] == t[k].input_schema
            } by {
                if k < z {
                    assert(d[k] == items[k] && u[k] == t[k]);
                }
            }
            assert forall|k: int| 0 <= k < items.len() implies !(tool_def(#[trigger] items[k])
                is None) by {
                if k < z {
                    assert(d[k] == items[k]);
                    if tool_def(d[k]) is None {
                        assert(tool_defs(d) is None);
                    }
                }
            }
        } else {
            if tool_defs(d) is None {
                let k = choose|k: int| 0 <= k < d.len() && tool_def(#[trigger] d[k]) is None;
                assert(items[k] == d[k]);
            }
        }
    }
}

/// The content of a result is its list of that name.
pub proof fn law_content(result: Seq<char>, content: Seq<char>)
    ensures
        member(result, "content"@) == Some(content) ==> content_items(result) == elements(content),
        member(result, "content"@) is None ==> content_items(result) is None,
{
}

} // verus!
