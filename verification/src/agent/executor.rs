//! Running code and tools: what is run, and how the outcome is reported.
use crate::agent::blocks::{
    fenced, fenced_blocks, fenced_views, fences_from, law_a_block_is_what_its_fences_hold,
    law_blocks_add_up, law_plain_text_adds_no_block, FencedView,
};
use crate::bytes::{byte_len, byte_length};
use crate::outside::{from_utf8_lossy, lossy_text, lowercase, to_lowercase};
use crate::text::{
    begins, decimal, decimal_of, join_first, joined, lines, lines_of, option_view, same, trim, views,
};
use vstd::prelude::*;
use vstd::string::*;

verus! {

/// A piece of code that waits to be run.
#[derive(Debug)]
pub struct ExecutionRequest {
    pub language: String,
    pub code: String,
    pub working_dir: Option<String>,
}

/// What became of a request.
#[derive(Debug)]
pub enum ExecutionStatus {
    PendingApproval(ExecutionRequest),
    Running,
    Completed { stdout: String, stderr: String, exit_code: i32 },
    Failed(String),
}

/// The contents of an `ExecutionRequest`.
pub struct ExecutionRequestView {
    pub language: Seq<char>,
    pub code: Seq<char>,
    pub working_dir: Option<Seq<char>>,
}

/// The contents of an `ExecutionStatus`.
pub enum ExecutionStatusView {
    PendingApproval(ExecutionRequestView),
    Running,
    Completed { stdout: Seq<char>, stderr: Seq<char>, exit_code: i32 },
    Failed(Seq<char>),
}

impl View for ExecutionRequest {
    type V = ExecutionRequestView;

    open spec fn view(&self) -> ExecutionRequestView {
        ExecutionRequestView {
            language: self.language@,
            code: self.code@,
            working_dir: option_view(self.working_dir),
        }
    }
}

impl View for ExecutionStatus {
    type V = ExecutionStatusView;

    open spec fn view(&self) -> ExecutionStatusView {
        match *self {
            ExecutionStatus::PendingApproval(r) => ExecutionStatusView::PendingApproval(r@),
            ExecutionStatus::Running => ExecutionStatusView::Running,
            ExecutionStatus::Completed { stdout, stderr, exit_code } => {
                ExecutionStatusView::Completed { stdout: stdout@, stderr: stderr@, exit_code }
            },
            ExecutionStatus::Failed(e) => ExecutionStatusView::Failed(e@),
        }
    }
}

/// A run that ended well and printed `text`.
pub open spec fn printed(text: Seq<char>) -> ExecutionStatusView {
    ExecutionStatusView::Completed { stdout: text, stderr: Seq::empty(), exit_code: 0 }
}

/// A run that ended well and printed `text`.
pub fn completed(text: String) -> (r: ExecutionStatus)
    ensures
        r@ == printed(text@),
{
    ExecutionStatus::Completed { stdout: text, stderr: String::new(), exit_code: 0 }
}

impl Clone for ExecutionRequest {
    fn clone(&self) -> (r: Self)
        ensures
            r == *self,
    {
        ExecutionRequest {
            language: self.language.clone(),
            code: self.code.clone(),
            working_dir: self.working_dir.clone(),
        }
    }
}

impl Clone for ExecutionStatus {
    fn clone(&self) -> (r: Self)
        ensures
            r == *self,
    {
        match self {
            ExecutionStatus::PendingApproval(q) => ExecutionStatus::PendingApproval(q.clone()),
            ExecutionStatus::Running => ExecutionStatus::Running,
            ExecutionStatus::Completed { stdout, stderr, exit_code } => {
                ExecutionStatus::Completed {
                    stdout: stdout.clone(),
                    stderr: stderr.clone(),
                    exit_code: *exit_code,
                }
            },
            ExecutionStatus::Failed(e) => ExecutionStatus::Failed(e.clone()),
        }
    }
}

// ---------------------------------------------------------------------------------------------
// Commands
// ---------------------------------------------------------------------------------------------

/// What is to be done with a request: run a program, or nothing, because it has failed already.
pub enum Plan {
    Run { program: String, args: Vec<String>, dir: Option<String> },
    Refused(ExecutionStatus),
}

/// The contents of a `Plan`.
pub enum PlanView {
    Run { program: Seq<char>, args: Seq<Seq<char>>, dir: Option<Seq<char>> },
    Refused(ExecutionStatusView),
}

impl View for Plan {
    type V = PlanView;

    open spec fn view(&self) -> PlanView {
        match *self {
            Plan::Run { program, args, dir } => PlanView::Run {
                program: program@,
                args: views(args@),
                dir: option_view(dir),
            },
            Plan::Refused(s) => PlanView::Refused(s@),
        }
    }
}

/// Whether `lang` is one of two names.
pub open spec fn one_of(lang: Seq<char>, a: Seq<char>, b: Seq<char>) -> bool {
    lang == a || lang == b
}

/// How code is run: each language has its interpreter, which takes the code as an argument. Shell
/// code goes to the shell of the system, Rust code is not run, nor is any other language.
pub open spec fn code_plan(req: ExecutionRequestView, windows: bool) -> PlanView {
    let lang = req.language;
    let run = |program: Seq<char>, flag: Seq<char>|
        PlanView::Run { program, args: seq![flag, req.code], dir: req.working_dir };
    if one_of(lang, "python"@, "py"@) {
        run("python"@, "-c"@)
    } else if one_of(lang, "bash"@, "sh"@) {
        if windows {
            run("cmd"@, "/C"@)
        } else {
            run("bash"@, "-c"@)
        }
    } else if one_of(lang, "rust"@, "rs"@) {
        PlanView::Refused(
            ExecutionStatusView::Failed(
                "Rust execution requires cargo project. Use tool calling for 'cargo check'."@,
            ),
        )
    } else if one_of(lang, "javascript"@, "js"@) || lang == "node"@ {
        run("node"@, "-e"@)
    } else {
        PlanView::Refused(
            ExecutionStatusView::Failed("Unsupported language for execution: "@ + lang),
        )
    }
}

fn run_plan(program: &str, flag: &str, code: &str, dir: Option<String>) -> (r: Plan)
    ensures
        r@ == (PlanView::Run {
            program: program@,
            args: seq![flag@, code@],
            dir: option_view(dir),
        }),
{
    let mut args: Vec<String> = Vec::new();
    args.push(String::from_str(flag));
    args.push(String::from_str(code));
    assert(views(args@) =~= seq![flag@, code@]);
    Plan::Run { program: String::from_str(program), args, dir }
}

/// How the code of a request is run.
pub fn execute_code(req: &ExecutionRequest, windows: bool) -> (r: Plan)
    ensures
        r@ == code_plan(req@, windows),
{
    let lang = req.language.as_str();
    let code = req.code.as_str();
    if same(lang, "python") || same(lang, "py") {
        run_plan("python", "-c", code, req.working_dir.clone())
    } else if same(lang, "bash") || same(lang, "sh") {
        if windows {
            run_plan("cmd", "/C", code, req.working_dir.clone())
        } else {
            run_plan("bash", "-c", code, req.working_dir.clone())
        }
    } else if same(lang, "rust") || same(lang, "rs") {
        Plan::Refused(
            ExecutionStatus::Failed(
                String::from_str(
                    "Rust execution requires cargo project. Use tool calling for 'cargo check'.",
                ),
            ),
        )
    } else if same(lang, "javascript") || same(lang, "js") || same(lang, "node") {
        run_plan("node", "-e", code, req.working_dir.clone())
    } else {
        let mut text = String::from_str("Unsupported language for execution: ");
        text.append(lang);
        Plan::Refused(ExecutionStatus::Failed(text))
    }
}

/// How a shell command is run: by the shell of the system, in the given directory.
pub open spec fn command_plan(command: Seq<char>, dir: Seq<char>, windows: bool) -> PlanView {
    if windows {
        PlanView::Run { program: "cmd"@, args: seq!["/C"@, command], dir: Some(dir) }
    } else {
        PlanView::Run { program: "sh"@, args: seq!["-c"@, command], dir: Some(dir) }
    }
}

/// How a shell command is run.
pub fn execute_tool_command(command: &str, working_dir: &str, windows: bool) -> (r: Plan)
    ensures
        r@ == command_plan(command@, working_dir@, windows),
{
    let dir = Some(String::from_str(working_dir));
    if windows {
        run_plan("cmd", "/C", command, dir)
    } else {
        run_plan("sh", "-c", command, dir)
    }
}

/// What a finished program left: its two outputs, and its exit code unless a signal ended it.
pub struct ProgramOutput {
    pub stdout: Vec<u8>,
    pub stderr: Vec<u8>,
    pub code: Option<i32>,
}

/// How the end of a program is reported; one without an exit code counts as -1.
pub fn program_status(output: Result<ProgramOutput, String>) -> (r: ExecutionStatus)
    ensures
        r@ == match output {
            Ok(o) => ExecutionStatusView::Completed {
                stdout: lossy_text(o.stdout@),
                stderr: lossy_text(o.stderr@),
                exit_code: match o.code {
                    Some(c) => c,
                    None => -1i32,
                },
            },
            Err(e) => ExecutionStatusView::Failed(e@),
        },
{
    match output {
        Ok(o) => {
            let stdout = from_utf8_lossy(o.stdout.as_slice());
            let stderr = from_utf8_lossy(o.stderr.as_slice());
            let exit_code: i32 = match o.code {
                Some(c) => c,
                None => -1,
            };
            ExecutionStatus::Completed { stdout, stderr, exit_code }
        },
        Err(e) => ExecutionStatus::Failed(e),
    }
}

/// What is told of a run, and whether it went well: its output, followed by what it wrote to the
/// error stream if anything, or the reason why there is none.
pub open spec fn told(status: Result<ExecutionStatusView, Seq<char>>) -> (Seq<char>, bool) {
    match status {
        Ok(ExecutionStatusView::Completed { stdout, stderr, exit_code }) => (
            if stderr.len() > 0 {
                stdout + "\n--- STDERR ---\n"@ + stderr
            } else {
                stdout
            },
            exit_code == 0,
        ),
        Ok(ExecutionStatusView::Failed(e)) => (e, false),
        Ok(_) => ("Unknown error"@, false),
        Err(e) => (e, false),
    }
}

/// The contents of the result of a run.
pub open spec fn result_view(r: Result<ExecutionStatus, String>) -> Result<
    ExecutionStatusView,
    Seq<char>,
> {
    match r {
        Ok(s) => Ok(s@),
        Err(e) => Err(e@),
    }
}

/// What is told of a run, and whether it went well.
pub fn tell(result: Result<ExecutionStatus, String>) -> (r: (String, bool))
    ensures
        (r.0@, r.1) == told(result_view(result)),
{
    match result {
        Ok(ExecutionStatus::Completed { stdout, stderr, exit_code }) => {
            let mut out = stdout;
            if !stderr.as_str().is_empty() {
                out.append("\n--- STDERR ---\n");
                out.append(stderr.as_str());
            }
            (out, exit_code == 0)
        },
        Ok(ExecutionStatus::Failed(e)) => (e, false),
        Ok(ExecutionStatus::Running) => (String::from_str("Unknown error"), false),
        Ok(ExecutionStatus::PendingApproval(_q)) => (String::from_str("Unknown error"), false),
        Err(e) => (e, false),
    }
}

// ---------------------------------------------------------------------------------------------
// Files
// ---------------------------------------------------------------------------------------------

/// How many lines of a file are shown at most.
pub const MAX_LINES: usize = 300;

/// What came of an attempt to read a file.
pub enum FileRead {
    Missing,
    Content(String),
    Unreadable(String),
}

/// What is shown of the content of a file: all of it, or its first lines and how many it has.
pub open spec fn shown(content: Seq<char>) -> Seq<char> {
    let l = lines(content);
    if l.len() > MAX_LINES {
        joined(l.take(MAX_LINES as int), "\n"@) + "\n\n--- TRUNCATED: Showing first 300 of "@
            + decimal(l.len()) + " total lines ---"@
    } else {
        content
    }
}

/// How the reading of the file at `path` is reported.
pub fn read_file_global(path: &str, read: FileRead) -> (r: ExecutionStatus)
    ensures
        r@ == match read {
            FileRead::Missing => ExecutionStatusView::Failed("File not found: "@ + path@),
            FileRead::Content(c) => printed(shown(c@)),
            FileRead::Unreadable(e) => ExecutionStatusView::Failed(
                "Failed to read file: "@ + e@,
            ),
        },
{
    match read {
        FileRead::Missing => {
            let mut text = String::from_str("File not found: ");
            text.append(path);
            ExecutionStatus::Failed(text)
        },
        FileRead::Content(content) => {
            let l = lines_of(content.as_str());
            assert(l@.len() == lines(content@).len());
            if l.len() > MAX_LINES {
                let mut text = join_first(&l, "\n", MAX_LINES);
                text.append("\n\n--- TRUNCATED: Showing first 300 of ");
                let total = decimal_of(l.len() as u64);
                text.append(total.as_str());
                text.append(" total lines ---");
                completed(text)
            } else {
                completed(content)
            }
        },
        FileRead::Unreadable(e) => {
            let mut text = String::from_str("Failed to read file: ");
            text.append(e.as_str());
            ExecutionStatus::Failed(text)
        },
    }
}

/// What a change of a file is compared with: its content, nothing for a new file, or the reason
/// why it cannot be read.
pub fn read_file_for_diff(read: FileRead) -> (r: Result<Option<String>, String>)
    ensures
        r == match read {
            FileRead::Missing => Ok::<Option<String>, String>(None),
            FileRead::Content(c) => Ok(Some(c)),
            FileRead::Unreadable(e) => Err(e),
        },
{
    match read {
        FileRead::Missing => Ok(None),
        FileRead::Content(c) => Ok(Some(c)),
        FileRead::Unreadable(e) => Err(e),
    }
}

/// What came of an attempt to write a file.
pub enum FileWrite {
    NoDirectory(String),
    Written,
    Unwritable(String),
}

/// How the writing of `content` to the file at `path` is reported.
pub fn write_file_global(path: &str, content: &str, write: FileWrite) -> (r: ExecutionStatus)
    ensures
        r@ == match write {
            FileWrite::NoDirectory(e) => ExecutionStatusView::Failed(
                "Failed to create directories for "@ + path@ + ": "@ + e@,
            ),
            FileWrite::Written => printed(
                "File written successfully: "@ + path@ + " ("@ + decimal(lines(content@).len())
                    + " lines, "@ + decimal(byte_len(content@)) + " bytes)"@,
            ),
            FileWrite::Unwritable(e) => ExecutionStatusView::Failed(
                "Failed to write file: "@ + e@,
            ),
        },
{
    match write {
        FileWrite::NoDirectory(e) => {
            let mut text = String::from_str("Failed to create directories for ");
            text.append(path);
            text.append(": ");
            text.append(e.as_str());
            ExecutionStatus::Failed(text)
        },
        FileWrite::Written => {
            let l = lines_of(content);
            assert(l@.len() == lines(content@).len());
            let mut text = String::from_str("File written successfully: ");
            text.append(path);
            text.append(" (");
            let count = decimal_of(l.len() as u64);
            text.append(count.as_str());
            text.append(" lines, ");
            let size = decimal_of(byte_length(content) as u64);
            text.append(size.as_str());
            text.append(" bytes)");
            completed(text)
        },
        FileWrite::Unwritable(e) => {
            let mut text = String::from_str("Failed to write file: ");
            text.append(e.as_str());
            ExecutionStatus::Failed(text)
        },
    }
}

// ---------------------------------------------------------------------------------------------
// Tools of other servers
// ---------------------------------------------------------------------------------------------

/// How a call of a tool of `server` is reported: its output, its error, or that there is no such
/// server.
pub fn execute_mcp_tool(server: &str, reply: Option<Result<String, String>>) -> (r: ExecutionStatus)
    ensures
        r@ == match reply {
            Some(Ok(out)) => printed(out@),
            Some(Err(e)) => ExecutionStatusView::Failed(e@),
            None => ExecutionStatusView::Failed("MCP Server '"@ + server@ + "' not found"@),
        },
{
    match reply {
        Some(Ok(out)) => completed(out),
        Some(Err(e)) => ExecutionStatus::Failed(e),
        None => {
            let mut text = String::from_str("MCP Server '");
            text.append(server);
            text.append("' not found");
            ExecutionStatus::Failed(text)
        },
    }
}

// ---------------------------------------------------------------------------------------------
// Code in answers
// ---------------------------------------------------------------------------------------------

/// The languages whose blocks are offered for execution.
pub open spec fn executable(lang: Seq<char>) -> bool {
    one_of(lang, "python"@, "py"@) || one_of(lang, "bash"@, "sh"@) || one_of(
        lang,
        "javascript"@,
        "js"@,
    ) || lang == "node"@
}

/// Decides `executable`.
pub fn is_executable(lang: &str) -> (r: bool)
    ensures
        r == executable(lang@),
{
    same(lang, "python") || same(lang, "py") || same(lang, "bash") || same(lang, "sh") || same(
        lang,
        "javascript",
    ) || same(lang, "js") || same(lang, "node")
}

/// The requests to run the blocks of `b` whose language, in lower case, can be run.
pub open spec fn executable_requests(b: Seq<FencedView>) -> Seq<ExecutionRequestView>
    decreases b.len(),
{
    if b.len() == 0 {
        Seq::empty()
    } else {
        let rest = executable_requests(b.drop_last());
        let lang = lowercase(b.last().info);
        if executable(lang) {
            rest.push(
                ExecutionRequestView { language: lang, code: b.last().code, working_dir: None },
            )
        } else {
            rest
        }
    }
}

/// The contents of a list of requests.
pub open spec fn request_views(r: Seq<ExecutionRequest>) -> Seq<ExecutionRequestView> {
    r.map_values(|x: ExecutionRequest| x@)
}

/// The blocks of `content` that can be run.
pub fn detect_executable_blocks(content: &str) -> (r: Vec<ExecutionRequest>)
    ensures
        request_views(r@) == executable_requests(fenced(content@)),
{
    let found = fenced_blocks(content);
    let ghost b = fenced_views(found@);
    let mut blocks: Vec<ExecutionRequest> = Vec::new();
    let mut i: usize = 0;
    assert(request_views(blocks@) =~= executable_requests(b.take(0)));
    while i < found.len()
        invariant
            b == fenced_views(found@),
            i <= found@.len(),
            request_views(blocks@) == executable_requests(b.take(i as int)),
        decreases found@.len() - i,
    {
        let ghost before = request_views(blocks@);
        assert(b.take(i + 1).drop_last() =~= b.take(i as int));
        assert(b.take(i + 1).last() == found@[i as int]@);
        let language = to_lowercase(found[i].info.as_str());
        if is_executable(language.as_str()) {
            let request = ExecutionRequest {
                language,
                code: found[i].code.clone(),
                working_dir: None,
            };
            blocks.push(request);
            assert(request_views(blocks@) =~= before.push(request@));
        }
        i += 1;
    }
    assert(b.take(found@.len() as int) =~= b);
    blocks
}

proof fn lemma_requests_add(x: Seq<FencedView>, y: Seq<FencedView>)
    ensures
        executable_requests(x + y) == executable_requests(x) + executable_requests(y),
    decreases y.len(),
{
    if y.len() == 0 {
        assert(x + y =~= x);
        assert(executable_requests(x) + executable_requests(y) =~= executable_requests(x));
    } else {
        assert((x + y).drop_last() =~= x + y.drop_last());
        assert((x + y).last() == y.last());
        lemma_requests_add(x, y.drop_last());
        assert(executable_requests(x + y) =~= executable_requests(x) + executable_requests(y));
    }
}

/// Text without a fence adds nothing to run: behind any text, from a line of its own on, it leaves
/// the requests as they are.
pub proof fn law_plain_text_adds_nothing(c: Seq<char>, t: Seq<char>)
    requires
        forall|k: int| 0 <= k < lines(t).len() ==> !begins(#[trigger] lines(t)[k], "```"@),
    ensures
        executable_requests(fenced(c + "\n"@ + t)) == executable_requests(fenced(c)),
{
    law_plain_text_adds_no_block(c, t);
}

/// Where the fences of a text go in pairs and its last line has ended, what follows is read by
/// itself: the requests are those of the text and then those of what follows.
pub proof fn law_requests_add_up(c: Seq<char>, d: Seq<char>)
    requires
        c.len() == 0 || c.last() == '\n',
        fences_from(lines(c), 0) % 2 == 0,
    ensures
        executable_requests(fenced(c + d)) == executable_requests(fenced(c)) + executable_requests(
            fenced(d),
        ),
{
    law_blocks_add_up(c, d);
    lemma_requests_add(fenced(c), fenced(d));
}

/// A block in one of seven languages, named in any case, is offered to be run with all of its code,
/// and a block in any other is not.
pub proof fn law_code_is_offered_whole(info: Seq<char>, t: Seq<char>)
    requires
        !info.contains('\n'),
        !info.contains('\r'),
        !begins(info, "```"@),
        !t.contains('\r'),
        forall|k: int| 0 <= k < lines(t).len() ==> !begins(#[trigger] lines(t)[k], "```"@),
    ensures
        ({
            let language = lowercase(trim(info));
            let r = executable_requests(fenced("```"@ + info + "\n"@ + t + "\n```"@));
            if seq![
                "python"@,
                "py"@,
                "bash"@,
                "sh"@,
                "javascript"@,
                "js"@,
                "node"@,
            ].contains(language) {
                r == seq![ExecutionRequestView { language, code: trim(t), working_dir: None }]
            } else {
                r == Seq::<ExecutionRequestView>::empty()
            }
        }),
{
    law_a_block_is_what_its_fences_hold(info, t);
    let b = seq![FencedView { info: trim(info), code: trim(t) }];
    let language = lowercase(trim(info));
    let names = seq!["python"@, "py"@, "bash"@, "sh"@, "javascript"@, "js"@, "node"@];
    reveal_with_fuel(executable_requests, 2);
    assert(b.drop_last() =~= Seq::<FencedView>::empty());
    assert(names[0] == "python"@ && names[1] == "py"@ && names[2] == "bash"@ && names[3] == "sh"@
        && names[4] == "javascript"@ && names[5] == "js"@ && names[6] == "node"@);
    assert(names.contains(language) == executable(language));
    assert(executable_requests(b) =~= if executable(language) {
        seq![ExecutionRequestView { language, code: trim(t), working_dir: None }]
    } else {
        Seq::empty()
    });
}

/// The requests are made of the blocks that can be run, one of each, in order.
pub proof fn law_requests_are_blocks(b: Seq<FencedView>)
    ensures
        executable_requests(b) == b.filter(|x: FencedView| executable(lowercase(x.info))).map_values(
            |x: FencedView|
                ExecutionRequestView {
                    language: lowercase(x.info),
                    code: x.code,
                    working_dir: None,
                },
        ),
    decreases b.len(),
{
    reveal(Seq::filter);
    let keep = |x: FencedView| executable(lowercase(x.info));
    let made = |x: FencedView|
        ExecutionRequestView { language: lowercase(x.info), code: x.code, working_dir: None };
    if b.len() > 0 {
        law_requests_are_blocks(b.drop_last());
        let rest = b.drop_last().filter(keep);
        if keep(b.last()) {
            assert(rest.push(b.last()).map_values(made) =~= rest.map_values(made).push(
                made(b.last()),
            ));
        }
    }
    assert(executable_requests(b) =~= b.filter(keep).map_values(made));
}

/// Whatever is offered for execution is given to an interpreter.
pub proof fn law_offered_code_can_run(b: Seq<FencedView>, windows: bool, k: int)
    requires
        0 <= k < executable_requests(b).len(),
    ensures
        code_plan(executable_requests(b)[k], windows) is Run,
    decreases b.len(),
{
    let rest = executable_requests(b.drop_last());
    let q = executable_requests(b)[k];
    if k < rest.len() {
        assert(q == rest[k]);
        law_offered_code_can_run(b.drop_last(), windows, k);
    } else {
        assert(executable(q.language));
        lemma_not_rust(q.language);
    }
}

proof fn lemma_not_rust(lang: Seq<char>)
    requires
        executable(lang),
    ensures
        !one_of(lang, "rust"@, "rs"@),
{
    reveal_strlit("python");
    reveal_strlit("py");
    reveal_strlit("bash");
    reveal_strlit("sh");
    reveal_strlit("javascript");
    reveal_strlit("js");
    reveal_strlit("node");
    reveal_strlit("rust");
    reveal_strlit("rs");
    assert("rust"@[0] == 'r' && "rs"@[0] == 'r');
    assert("python"@[0] == 'p' && "py"@[0] == 'p' && "bash"@[0] == 'b' && "sh"@[0] == 's');
    assert("javascript"@[0] == 'j' && "js"@[0] == 'j' && "node"@[0] == 'n');
}

} // verus!
