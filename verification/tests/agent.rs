use leanlayercli::agent::blocks::fenced_blocks;
use leanlayercli::agent::diff::generate_file_diff;
use leanlayercli::agent::executor::{
    detect_executable_blocks, execute_code, execute_mcp_tool, execute_tool_command, is_executable,
    program_status, read_file_for_diff, read_file_global, tell, write_file_global,
    ExecutionRequest, ExecutionStatus, FileRead, FileWrite, Plan, ProgramOutput,
};
use leanlayercli::agent::mcp::{
    call_result, call_tool, initialize_params, list_tools, read_tools, reply_result,
    send_notification, JsonRpcResponse, McpClient,
};
use leanlayercli::agent::search::{
    directory_not_found, glob_to_regex, search_files, Candidate, Search,
};
use leanlayercli::agent::tools::{plan_tool, ToolCall, ToolPlan};
use leanlayercli::agent::web::{
    execute_web_search, parse_duckduckgo_html, search_url, strip_html_tags, url_decode,
};

fn stdout_of(status: ExecutionStatus) -> String {
    match status {
        ExecutionStatus::Completed { stdout, stderr, exit_code } => {
            assert_eq!(stderr, "");
            assert_eq!(exit_code, 0);
            stdout
        },
        other => panic!("{:?}", other),
    }
}

fn failure_of(status: ExecutionStatus) -> String {
    match status {
        ExecutionStatus::Failed(e) => e,
        other => panic!("{:?}", other),
    }
}

fn request(language: &str, code: &str) -> ExecutionRequest {
    ExecutionRequest {
        language: language.to_string(),
        code: code.to_string(),
        working_dir: Some("/tmp".to_string()),
    }
}

fn run_of(plan: Plan) -> (String, Vec<String>, Option<String>) {
    match plan {
        Plan::Run { program, args, dir } => (program, args, dir),
        Plan::Refused(s) => panic!("{:?}", s),
    }
}

#[test]
fn interpreters_by_language() {
    let dir = Some("/tmp".to_string());
    for lang in ["python", "py"] {
        let (p, a, d) = run_of(execute_code(&request(lang, "print(1)"), false));
        assert_eq!((p.as_str(), d), ("python", dir.clone()));
        assert_eq!(a, vec!["-c", "print(1)"]);
    }
    for lang in ["bash", "sh"] {
        assert_eq!(run_of(execute_code(&request(lang, "ls"), false)).0, "bash");
        let (p, a, _) = run_of(execute_code(&request(lang, "dir"), true));
        assert_eq!(p, "cmd");
        assert_eq!(a, vec!["/C", "dir"]);
    }
    for lang in ["javascript", "js", "node"] {
        let (p, a, _) = run_of(execute_code(&request(lang, "1"), false));
        assert_eq!(p, "node");
        assert_eq!(a, vec!["-e", "1"]);
    }
}

#[test]
fn languages_that_are_not_run() {
    match execute_code(&request("rust", "fn main() {}"), false) {
        Plan::Refused(s) => assert_eq!(
            failure_of(s),
            "Rust execution requires cargo project. Use tool calling for 'cargo check'."
        ),
        _ => panic!(),
    }
    match execute_code(&request("cobol", ""), false) {
        Plan::Refused(s) => {
            assert_eq!(failure_of(s), "Unsupported language for execution: cobol")
        },
        _ => panic!(),
    }
    assert!(!is_executable("rust"));
    assert!(!is_executable("Python"));
    assert!(is_executable("node"));
}

#[test]
fn shell_commands() {
    let (p, a, d) = run_of(execute_tool_command("ls -l", "/srv", false));
    assert_eq!(p, "sh");
    assert_eq!(a, vec!["-c", "ls -l"]);
    assert_eq!(d, Some("/srv".to_string()));
    assert_eq!(run_of(execute_tool_command("dir", ".", true)).0, "cmd");
}

#[test]
fn ends_of_programs() {
    let out = ProgramOutput { stdout: b"hi\xff".to_vec(), stderr: b"oops".to_vec(), code: None };
    match program_status(Ok(out)) {
        ExecutionStatus::Completed { stdout, stderr, exit_code } => {
            assert_eq!(stdout, "hi\u{fffd}");
            assert_eq!(stderr, "oops");
            assert_eq!(exit_code, -1);
        },
        other => panic!("{:?}", other),
    }
    assert_eq!(failure_of(program_status(Err("no such file".to_string()))), "no such file");
}

#[test]
fn what_is_told_of_a_run() {
    let ok = ExecutionStatus::Completed {
        stdout: "out".to_string(),
        stderr: String::new(),
        exit_code: 0,
    };
    assert_eq!(tell(Ok(ok)), ("out".to_string(), true));
    let bad = ExecutionStatus::Completed {
        stdout: "out".to_string(),
        stderr: "err".to_string(),
        exit_code: 2,
    };
    assert_eq!(tell(Ok(bad)), ("out\n--- STDERR ---\nerr".to_string(), false));
    assert_eq!(tell(Ok(ExecutionStatus::Failed("no".to_string()))), ("no".to_string(), false));
    assert_eq!(tell(Ok(ExecutionStatus::Running)), ("Unknown error".to_string(), false));
    assert_eq!(tell(Err("io".to_string())), ("io".to_string(), false));
}

#[test]
fn files_are_read_and_cut() {
    assert_eq!(
        failure_of(read_file_global("a.txt", FileRead::Missing)),
        "File not found: a.txt"
    );
    assert_eq!(
        failure_of(read_file_global("a.txt", FileRead::Unreadable("denied".to_string()))),
        "Failed to read file: denied"
    );
    let exact = "x\n".repeat(300);
    assert_eq!(stdout_of(read_file_global("a", FileRead::Content(exact.clone()))), exact);
    let long = "x\n".repeat(301);
    let shown = stdout_of(read_file_global("a", FileRead::Content(long)));
    assert_eq!(
        shown,
        format!(
            "{}\n\n--- TRUNCATED: Showing first 300 of 301 total lines ---",
            vec!["x"; 300].join("\n")
        )
    );
}

#[test]
fn files_are_written() {
    assert_eq!(
        stdout_of(write_file_global("a.txt", "é\nb", FileWrite::Written)),
        "File written successfully: a.txt (2 lines, 4 bytes)"
    );
    assert_eq!(
        failure_of(write_file_global("a/b", "", FileWrite::NoDirectory("ro".to_string()))),
        "Failed to create directories for a/b: ro"
    );
    assert_eq!(
        failure_of(write_file_global("a", "", FileWrite::Unwritable("full".to_string()))),
        "Failed to write file: full"
    );
}

#[test]
fn files_for_a_comparison() {
    assert_eq!(read_file_for_diff(FileRead::Missing), Ok(None));
    assert_eq!(
        read_file_for_diff(FileRead::Content("x".to_string())),
        Ok(Some("x".to_string()))
    );
    assert_eq!(
        read_file_for_diff(FileRead::Unreadable("no".to_string())),
        Err("no".to_string())
    );
}

#[test]
fn calls_of_other_servers() {
    assert_eq!(stdout_of(execute_mcp_tool("s", Some(Ok("out".to_string())))), "out");
    assert_eq!(failure_of(execute_mcp_tool("s", Some(Err("bad".to_string())))), "bad");
    assert_eq!(failure_of(execute_mcp_tool("s", None)), "MCP Server 's' not found");
}

#[test]
fn fences() {
    let text = "a\n```Python  \nx = 1\n\n```\n```\nplain\n```\n```open\nnever closed";
    let blocks = fenced_blocks(text);
    assert_eq!(blocks.len(), 2);
    assert_eq!((blocks[0].info.as_str(), blocks[0].code.as_str()), ("Python", "x = 1"));
    assert_eq!((blocks[1].info.as_str(), blocks[1].code.as_str()), ("", "plain"));
}

#[test]
fn code_is_offered_in_lower_case() {
    let found = detect_executable_blocks("```PYTHON\nprint(1)\n```\n```rust\nx\n```\n```sh\nls\n```");
    assert_eq!(found.len(), 2);
    assert_eq!(found[0].language, "python");
    assert_eq!(found[0].code, "print(1)");
    assert!(found[0].working_dir.is_none());
    assert_eq!(found[1].language, "sh");
    assert!(detect_executable_blocks("no code here").is_empty());
}

#[test]
fn offered_code_has_an_interpreter() {
    for r in detect_executable_blocks("```Js\n1\n```\n```bash\nls\n```\n```py\n2\n```") {
        assert!(matches!(execute_code(&r, false), Plan::Run { .. }));
    }
}

fn offered(text: &str) -> Vec<(String, String)> {
    detect_executable_blocks(text).into_iter().map(|r| (r.language, r.code)).collect()
}

#[test]
fn plain_text_adds_nothing_to_run() {
    for c in [
        "",
        "words",
        "```sh\nls\n```",
        "```sh\nls\n```\n",
        "```sh\nls\n```\r",
        "```sh\r\nls\r\n```\r\n```py\r",
        "```sh\nls\n```\n```py\nopen",
    ] {
        for t in ["", "\n", "more words\n and `code`", " ```\n"] {
            assert_eq!(offered(&format!("{c}\n{t}")), offered(c));
        }
    }
    assert_eq!(offered("```sh\nls\n```\nmore"), vec![("sh".to_string(), "ls".to_string())]);
}

#[test]
fn what_is_offered_adds_up() {
    for c in ["", "words\n", "```sh\nls\n```\n", "```rust\nx\n```\n```py\n1\n```\nend\n"] {
        for d in ["", "words", "```sh\npwd\n```", "```js\n2\n```\n```py\nopen"] {
            let mut both = offered(c);
            both.extend(offered(d));
            assert_eq!(offered(&format!("{c}{d}")), both);
        }
    }
    let open = "```sh\nls\n";
    assert_eq!(offered(&format!("{open}```sh\npwd\n```")).len(), 1);
    assert_eq!(offered("```sh\npwd\n```").len(), 1);
    assert_eq!(offered(open).len(), 0);
}

fn body_of(diff: &str) -> Vec<&str> {
    let head = "--- a/f\n+++ b/f\n@@ Diff Preview @@\n\n";
    diff.strip_prefix(head).unwrap().split('\n').collect()
}

fn marked_with<'a>(body: &[&'a str], mark: char) -> Vec<&'a str> {
    body.iter().filter_map(|l| l.strip_prefix(mark)).collect()
}

#[test]
fn the_way_back_exchanges_what_is_removed_and_added() {
    let many = "line\n".repeat(30);
    let long = (0..30).map(|i| format!("{i}\n")).collect::<String>();
    let edited = long.replace("3\n", "-x\r\r\n").replace("28\n", "+y\n");
    let few = long.replacen("4\n", "four\n", 1).replace("29\n", "");
    let pairs = [
        ("a\nb\nc", "a\nB\nc\nd"),
        ("", "-a\n+b\n c"),
        ("same", "same\n"),
        (long.as_str(), edited.as_str()),
        (long.as_str(), few.as_str()),
        (long.as_str(), many.as_str()),
    ];
    for (a, b) in pairs {
        let there = generate_file_diff("f", Some(a), b);
        let back = generate_file_diff("f", Some(b), a);
        let (there, back) = (body_of(&there), body_of(&back));
        assert_eq!(marked_with(&back, '-'), marked_with(&there, '+'));
        assert_eq!(marked_with(&back, '+'), marked_with(&there, '-'));
        let rest = |body: &[&str]| -> Vec<String> {
            body.iter()
                .filter(|l| !l.starts_with('-') && !l.starts_with('+'))
                .map(|l| l.to_string())
                .collect()
        };
        assert_eq!(rest(&back), rest(&there));
    }
    let diff = generate_file_diff("f", Some("a\nb"), "a\nc");
    let body = body_of(&diff);
    assert_eq!(marked_with(&body, '-'), vec!["b"]);
    assert_eq!(marked_with(&body, '+'), vec!["c"]);
}

#[test]
fn previews_of_changes() {
    let head = "--- a/f\n+++ b/f\n@@ Diff Preview @@\n\n";
    assert_eq!(generate_file_diff("f", None, "a\nb"), format!("{head}(new file)\n+a\n+b\n"));
    assert_eq!(generate_file_diff("f", Some("a"), "a"), format!("{head}(no changes)\n"));
    assert_eq!(generate_file_diff("f", Some("a\n"), "a"), format!("{head}(no changes)\n"));
    assert_eq!(
        generate_file_diff("f", Some("a\nb\nc"), "a\nB\nc\nd"),
        format!("{head} a\n-b\n+B\n c\n+d\n a\n-b\n+B\n c\n+d\n")
    );
    let new = "x\n".repeat(23);
    assert_eq!(
        generate_file_diff("f", None, &new),
        format!("{head}(new file)\n{}... (3 more lines)\n", "+x\n".repeat(20))
    );
    let (old, new) = ("a\n".repeat(21), "b\n".repeat(21));
    assert_eq!(
        generate_file_diff("f", Some(&old), &new),
        format!("{head}Too many changes to display (21 lines changed).")
    );
}

#[test]
fn distant_changes_are_parted() {
    let old: Vec<String> = (0..20).map(|i| i.to_string()).collect();
    let mut new = old.clone();
    new[0] = "x".to_string();
    new[15] = "y".to_string();
    let diff = generate_file_diff("f", Some(&old.join("\n")), &new.join("\n"));
    assert!(diff.contains("-0\n+x\n 1\n 2\n 3\n...\n 12\n 13\n 14\n-15\n+y\n 16\n 17\n 18\n"));
}

#[test]
fn tags_are_stripped() {
    assert_eq!(strip_html_tags("a <b>bold</b> > c"), "a bold  c");
    assert_eq!(strip_html_tags("plain"), "plain");
    assert_eq!(strip_html_tags("x<never"), "x");
}

#[test]
fn percent_signs_are_decoded() {
    assert_eq!(url_decode("a%20b+c"), "a b c");
    assert_eq!(url_decode("%zzx"), "x");
    assert_eq!(url_decode("%4"), "\u{4}");
    assert_eq!(url_decode("%E9"), "é");
    assert_eq!(url_decode("https%3A%2F%2Fx.org"), "https://x.org");
}

#[test]
fn queries_survive_the_address() {
    let url = search_url("how to  brew tea");
    let query = url.strip_prefix("https://html.duckduckgo.com/html/?q=").unwrap();
    assert_eq!(query, "how+to++brew+tea");
    assert_eq!(url_decode(query), "how to  brew tea");
}

#[test]
fn search_pages() {
    assert_eq!(search_url("rust book"), "https://html.duckduckgo.com/html/?q=rust+book");
    let page = "<a href=\"//duckduckgo.com/l/?uddg=https%3A%2F%2Fa.org&rut=1\" \
        class=\"result__a\">The <b>A</b></a><a class=\"result__snippet\">About a</a>\
        <a href=\"https://b.org\" class=\"result__a\"> B </a>";
    let found = parse_duckduckgo_html(page);
    assert_eq!(
        found,
        vec![
            ("The A".to_string(), "About a".to_string(), "https://a.org".to_string()),
            ("B".to_string(), String::new(), "https://b.org".to_string()),
        ]
    );
    let many = "<a href=\"u\" class=\"result__a\">T</a>".repeat(9);
    assert_eq!(parse_duckduckgo_html(&many).len(), 5);
    assert!(parse_duckduckgo_html("nothing").is_empty());
}

#[test]
fn searches_are_reported() {
    let page = "<a href=\"u\" class=\"result__a\">T</a>";
    assert_eq!(
        stdout_of(execute_web_search("q", Ok(page.to_string()))),
        "Web search results for 'q':\n\n1. **T**\n   \n   URL: u\n\n"
    );
    assert_eq!(
        stdout_of(execute_web_search("q", Ok(String::new()))),
        "Web search for 'q': No results found."
    );
    assert_eq!(
        failure_of(execute_web_search("q", Err("offline".to_string()))),
        "Web search failed: offline"
    );
}

#[test]
fn globs() {
    assert_eq!(glob_to_regex("*.rs"), "^.*\\.rs$");
    assert_eq!(glob_to_regex("a?c"), "^a.c$");
}

#[test]
fn hits_hold_the_whole_line() {
    let mut s = match Search::begin("needle", None, 20) {
        Ok(s) => s,
        Err(e) => panic!("{:?}", e),
    };
    let line = format!("  {}needle{}\t", "é".repeat(30), "b".repeat(100));
    assert!(s.scan("a.txt", &format!("first\n{line}\nlast")));
    assert_eq!(s.hits.len(), 1);
    assert_eq!(s.hits[0].path, "a.txt");
    assert_eq!(s.hits[0].line, 2);
    assert_eq!(s.hits[0].context, line);
    assert_eq!(
        stdout_of(s.report()),
        format!("Found 1 matches:\n\na.txt:2: {}\n", line.trim())
    );
}

#[test]
fn workspace_searches() {
    let mut s = match Search::begin("fo+", Some("*.rs"), 2) {
        Ok(s) => s,
        Err(e) => panic!("{:?}", e),
    };
    assert!(s.wants("main.rs", 1_000_000));
    assert!(!s.wants("main.rs", 1_000_001));
    assert!(!s.wants("main.py", 10));
    assert_eq!(s.scan("src\\a.rs", "x\nfoo here\nbar"), true);
    assert_eq!(s.scan("b.rs", "fo\nfo\nfo"), false);
    assert_eq!(
        stdout_of(s.report()),
        "Found 2 matches:\n\nsrc/a.rs:2: foo here\nb.rs:1: fo\n"
    );
}

fn candidate(name: &str, size: u64, content: &str) -> Candidate {
    Candidate {
        name: name.to_string(),
        path: format!("dir\\{name}"),
        size,
        content: content.to_string(),
    }
}

#[test]
fn whole_searches() {
    let files = vec![
        candidate("a.rs", 10, "fn one\nlet x\nfn two"),
        candidate("b.py", 10, "fn no"),
        candidate("c.rs", 2_000_000, "fn huge"),
        candidate("d.rs", 10, "fn three\nfn four"),
    ];
    let found = search_files("/w", true, "^fn", Some("*.rs"), 3, &files);
    assert_eq!(
        stdout_of(found),
        "Found 3 matches:\n\ndir/a.rs:1: fn one\ndir/a.rs:3: fn two\ndir/d.rs:1: fn three\n"
    );
    let missing = search_files("/w", false, "x", None, 3, &files);
    assert_eq!(failure_of(missing), "Directory not found: /w");
    let invalid = search_files("/w", true, "[", None, 3, &files);
    assert!(failure_of(invalid).starts_with("Invalid regex pattern: "));
    let none = search_files("/w", true, "nowhere", Some("["), 3, &files);
    assert_eq!(stdout_of(none), "No matches found.");
}

#[test]
fn a_search_ends_with_its_last_hit() {
    let mut s = match Search::begin("z", None, 2) {
        Ok(s) => s,
        Err(e) => panic!("{:?}", e),
    };
    assert!(s.scan("a", "éabcdefghijklmnopqrsz\nno"));
    assert!(!s.scan("a", "z\nz\nz"));
    assert_eq!(s.hits.len(), 2);
}

#[test]
fn searches_that_fail() {
    match Search::begin("(", None, 2) {
        Err(e) => assert!(failure_of(e).starts_with("Invalid regex pattern: regex parse error")),
        Ok(_) => panic!(),
    }
    assert_eq!(failure_of(directory_not_found("/x")), "Directory not found: /x");
    let s = match Search::begin("a", None, 20) {
        Ok(s) => s,
        Err(e) => panic!("{:?}", e),
    };
    assert!(s.wants("anything", 1));
    assert_eq!(stdout_of(s.report()), "No matches found.");
}

#[test]
fn plans_of_tools() {
    let call = ToolCall::RunCommand { command: "ls".to_string(), working_dir: None };
    assert!(call.is_risky());
    match plan_tool(&call, false) {
        ToolPlan::Run(p) => assert_eq!(run_of(p).2, Some(".".to_string())),
        _ => panic!(),
    }
    let search = ToolCall::SearchFiles { query: "q".to_string(), file_pattern: None };
    assert!(!search.is_risky());
    assert!(matches!(plan_tool(&search, false), ToolPlan::Search { max_results: 20, .. }));
    let web = ToolCall::WebSearch { query: "a b".to_string() };
    match plan_tool(&web, false) {
        ToolPlan::Fetch { query, url } => {
            assert_eq!(query, "a b");
            assert!(url.ends_with("?q=a+b"));
        },
        _ => panic!(),
    }
    let write = ToolCall::WriteFile { path: "p".to_string(), content: "c".to_string() };
    assert!(write.is_risky());
    assert!(matches!(plan_tool(&write, true), ToolPlan::Write { .. }));
    let read = ToolCall::ReadFile { path: "p".to_string() };
    assert!(matches!(plan_tool(&read, true), ToolPlan::Read { .. }));
    let scrape = ToolCall::ScrapeUrl { url: "u".to_string() };
    assert!(matches!(plan_tool(&scrape, true), ToolPlan::Scrape { .. }));
}

#[test]
fn replies_reach_the_asker_once() {
    let mut client: McpClient<&str> = McpClient::new("files");
    assert_eq!(client.server_name(), "files");
    let a = client.send_request("tools/list", None, "first");
    let b = client.send_request("tools/call", Some("{}".to_string()), "second");
    assert_eq!((a.id, b.id), (1, 2));
    assert_eq!(a.jsonrpc, "2.0");
    assert_eq!(a.method, "tools/list");
    assert_eq!(b.params, Some("{}".to_string()));
    assert_eq!(client.receive(2), Some("second"));
    assert_eq!(client.receive(2), None);
    assert_eq!(client.receive(9), None);
    assert_eq!(client.receive(1), Some("first"));
}

#[test]
fn first_messages_to_a_server() {
    let n = send_notification("initialized", None);
    assert_eq!((n.jsonrpc.as_str(), n.method.as_str()), ("2.0", "initialized"));
    assert!(n.params.is_none());
    let value: serde_json::Value = serde_json::from_str(&initialize_params()).unwrap();
    assert_eq!(value["protocolVersion"], "2024-11-05");
    assert_eq!(value["clientInfo"]["name"], "airllm-rs");
    assert_eq!(value["clientInfo"]["version"], "0.1.0");
    assert_eq!(value["capabilities"].as_object().unwrap().len(), 0);
}

#[test]
fn errors_of_a_server() {
    let reply = |result: Option<&str>, error: Option<&str>| JsonRpcResponse {
        jsonrpc: "2.0".to_string(),
        id: 1,
        result: result.map(|s| s.to_string()),
        error: error.map(|s| s.to_string()),
    };
    assert_eq!(reply_result(reply(Some("1"), None)), Ok(Some("1".to_string())));
    assert_eq!(
        reply_result(reply(None, Some("{\"code\":1}"))),
        Err("MCP Error: {\"code\":1}".to_string())
    );
}

#[test]
fn tools_of_a_server() {
    let result = "{\"tools\":[{\"name\":\"a\",\"description\":\"d\",\"inputSchema\":{\"x\":1}},\
        [\"b\",\"e\",null]]}";
    let json = list_tools(Some(result.to_string())).unwrap();
    let tools = read_tools(&json).unwrap();
    assert_eq!(tools.len(), 2);
    assert_eq!(tools[0].name, "a");
    assert_eq!(tools[0].description, "d");
    assert_eq!(tools[0].input_schema, "{\"x\":1}");
    assert_eq!(tools[1].name, "b");
    assert_eq!(tools[1].input_schema, "null");
    assert_eq!(list_tools(Some("{}".to_string())), None);
    assert_eq!(list_tools(None), None);
    assert!(read_tools("[{\"name\":\"a\"}]").is_none());
    assert!(read_tools("{}").is_none());
    assert_eq!(read_tools("[]").unwrap().len(), 0);
}

#[test]
fn results_of_calls() {
    let ok = "{\"content\":[{\"text\":\"a\"},{\"kind\":1},{\"text\":\"b \"}]}";
    assert_eq!(call_tool(Some(ok.to_string())), Ok("a\nb".to_string()));
    assert_eq!(call_tool(Some("{\"content\":[]}".to_string())), Ok(String::new()));
    assert_eq!(
        call_tool(Some("{\"isError\":true}".to_string())),
        Err("Tool call returned an error flag: Object {\"isError\": Bool(true)}".to_string())
    );
    let invalid = Err("Invalid response from tool call".to_string());
    assert_eq!(call_tool(Some("{\"isError\":false}".to_string())), invalid);
    assert_eq!(call_tool(Some("{\"content\":1}".to_string())), invalid);
    assert_eq!(call_tool(None), invalid);
    assert_eq!(
        call_result(Some(vec!["x".to_string(), "y".to_string()]), true, ""),
        Ok("x\ny".to_string())
    );
}
