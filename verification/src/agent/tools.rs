//! The tools that a model may ask for.
use crate::agent::executor::{command_plan, execute_tool_command, Plan, PlanView};
use crate::agent::web::{encoded_query, search_url};
use crate::text::option_view;
use vstd::prelude::*;
use vstd::string::*;

verus! {

/// A call of a tool.
#[derive(Debug)]
pub enum ToolCall {
    RunCommand { command: String, working_dir: Option<String> },
    ReadFile { path: String },
    WriteFile { path: String, content: String },
    SearchFiles { query: String, file_pattern: Option<String> },
    WebSearch { query: String },
    ScrapeUrl { url: String },
}

/// The contents of a `ToolCall`.
#[verifier::ext_equal]
pub enum ToolCallView {
    RunCommand { command: Seq<char>, working_dir: Option<Seq<char>> },
    ReadFile { path: Seq<char> },
    WriteFile { path: Seq<char>, content: Seq<char> },
    SearchFiles { query: Seq<char>, file_pattern: Option<Seq<char>> },
    WebSearch { query: Seq<char> },
    ScrapeUrl { url: Seq<char> },
}

impl View for ToolCall {
    type V = ToolCallView;

    open spec fn view(&self) -> ToolCallView {
        match *self {
            ToolCall::RunCommand { command, working_dir } => ToolCallView::RunCommand {
                command: command@,
                working_dir: option_view(working_dir),
            },
            ToolCall::ReadFile { path } => ToolCallView::ReadFile { path: path@ },
            ToolCall::WriteFile { path, content } => ToolCallView::WriteFile {
                path: path@,
                content: content@,
            },
            ToolCall::SearchFiles { query, file_pattern } => ToolCallView::SearchFiles {
                query: query@,
                file_pattern: option_view(file_pattern),
            },
            ToolCall::WebSearch { query } => ToolCallView::WebSearch { query: query@ },
            ToolCall::ScrapeUrl { url } => ToolCallView::ScrapeUrl { url: url@ },
        }
    }
}

/// The contents of a list of calls.
pub open spec fn call_views(c: Seq<ToolCall>) -> Seq<ToolCallView> {
    c.map_values(|x: ToolCall| x@)
}

impl ToolCallView {
    /// Whether the call can change the system: it runs a command or writes a file.
    pub open spec fn is_risky(self) -> bool {
        self is RunCommand || self is WriteFile
    }
}

impl Clone for ToolCall {
    fn clone(&self) -> (r: Self)
        ensures
            r == *self,
    {
        match self {
            ToolCall::RunCommand { command, working_dir } => ToolCall::RunCommand {
                command: command.clone(),
                working_dir: working_dir.clone(),
            },
            ToolCall::ReadFile { path } => ToolCall::ReadFile { path: path.clone() },
            ToolCall::WriteFile { path, content } => ToolCall::WriteFile {
                path: path.clone(),
                content: content.clone(),
            },
            ToolCall::SearchFiles { query, file_pattern } => ToolCall::SearchFiles {
                query: query.clone(),
                file_pattern: file_pattern.clone(),
            },
            ToolCall::WebSearch { query } => ToolCall::WebSearch { query: query.clone() },
            ToolCall::ScrapeUrl { url } => ToolCall::ScrapeUrl { url: url.clone() },
        }
    }
}

impl ToolCall {
    /// Whether the call can change the system.
    pub fn is_risky(&self) -> (r: bool)
        ensures
            r == self@.is_risky(),
    {
        match self {
            ToolCall::RunCommand { command: _, working_dir: _ } => true,
            ToolCall::WriteFile { path: _, content: _ } => true,
            _ => false,
        }
    }
}

// ---------------------------------------------------------------------------------------------
// How calls are run
// ---------------------------------------------------------------------------------------------

/// How many matches a search of the workspace gives at most.
pub const MAX_MATCHES: usize = 20;

/// What is done for a call.
pub enum ToolPlan {
    /// Run a program.
    Run(Plan),
    /// Read a file.
    Read { path: String },
    /// Write a file.
    Write { path: String, content: String },
    /// Search the files of the workspace.
    Search { query: String, file_pattern: Option<String>, max_results: usize },
    /// Fetch the page of a search for `query`.
    Fetch { query: String, url: String },
    /// Take the text out of a page.
    Scrape { url: String },
}

/// The contents of a `ToolPlan`.
pub enum ToolPlanView {
    Run(PlanView),
    Read { path: Seq<char> },
    Write { path: Seq<char>, content: Seq<char> },
    Search { query: Seq<char>, file_pattern: Option<Seq<char>>, max_results: usize },
    Fetch { query: Seq<char>, url: Seq<char> },
    Scrape { url: Seq<char> },
}

impl View for ToolPlan {
    type V = ToolPlanView;

    open spec fn view(&self) -> ToolPlanView {
        match *self {
            ToolPlan::Run(p) => ToolPlanView::Run(p@),
            ToolPlan::Read { path } => ToolPlanView::Read { path: path@ },
            ToolPlan::Write { path, content } => ToolPlanView::Write {
                path: path@,
                content: content@,
            },
            ToolPlan::Search { query, file_pattern, max_results } => ToolPlanView::Search {
                query: query@,
                file_pattern: option_view(file_pattern),
                max_results,
            },
            ToolPlan::Fetch { query, url } => ToolPlanView::Fetch { query: query@, url: url@ },
            ToolPlan::Scrape { url } => ToolPlanView::Scrape { url: url@ },
        }
    }
}

/// What is done for a call. A command without a directory runs in the current one.
pub open spec fn tool_plan(call: ToolCallView, windows: bool) -> ToolPlanView {
    match call {
        ToolCallView::RunCommand { command, working_dir } => ToolPlanView::Run(
            command_plan(
                command,
                match working_dir {
                    Some(d) => d,
                    None => "."@,
                },
                windows,
            ),
        ),
        ToolCallView::ReadFile { path } => ToolPlanView::Read { path },
        ToolCallView::WriteFile { path, content } => ToolPlanView::Write { path, content },
        ToolCallView::SearchFiles { query, file_pattern } => ToolPlanView::Search {
            query,
            file_pattern,
            max_results: MAX_MATCHES,
        },
        ToolCallView::WebSearch { query } => ToolPlanView::Fetch {
            query,
            url: "https://html.duckduckgo.com/html/?q="@ + encoded_query(query),
        },
        ToolCallView::ScrapeUrl { url } => ToolPlanView::Scrape { url },
    }
}

/// What is done for a call.
pub fn plan_tool(call: &ToolCall, windows: bool) -> (r: ToolPlan)
    ensures
        r@ == tool_plan(call@, windows),
{
    match call {
        ToolCall::RunCommand { command, working_dir } => {
            let dir = match working_dir {
                Some(d) => d.as_str(),
                None => ".",
            };
            ToolPlan::Run(execute_tool_command(command.as_str(), dir, windows))
        },
        ToolCall::ReadFile { path } => ToolPlan::Read { path: path.clone() },
        ToolCall::WriteFile { path, content } => ToolPlan::Write {
            path: path.clone(),
            content: content.clone(),
        },
        ToolCall::SearchFiles { query, file_pattern } => ToolPlan::Search {
            query: query.clone(),
            file_pattern: file_pattern.clone(),
            max_results: MAX_MATCHES,
        },
        ToolCall::WebSearch { query } => ToolPlan::Fetch {
            query: query.clone(),
            url: search_url(query.as_str()),
        },
        ToolCall::ScrapeUrl { url } => ToolPlan::Scrape { url: url.clone() },
    }
}

} // verus!
