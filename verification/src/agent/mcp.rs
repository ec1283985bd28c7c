//! Talking to servers that offer tools: requests by number, and the replies to them.
use crate::json::{
    as_string, bool_member, elements, get_bool, get_elements, get_member, get_string, member,
    string_member, string_value,
};
use crate::outside::{debug_json, json_debug};
use crate::text::{
    lemma_views_push, option_view, terminate_between, terminated, trim, trimmed, views,
};
use std::collections::HashMap;
use vstd::prelude::*;
use vstd::string::*;

verus! {

broadcast use vstd::std_specs::hash::group_hash_axioms;

/// A request to a server. Its parameters are JSON text.
#[derive(Debug)]
pub struct JsonRpcRequest {
    pub jsonrpc: String,
    pub id: u64,
    pub method: String,
    pub params: Option<String>,
}

/// A message to a server that has no reply.
#[derive(Debug)]
pub struct JsonRpcNotification {
    pub jsonrpc: String,
    pub method: String,
    pub params: Option<String>,
}

/// A reply of a server. Its result and its error are JSON text.
#[derive(Debug)]
pub struct JsonRpcResponse {
    pub jsonrpc: String,
    pub id: u64,
    pub result: Option<String>,
    pub error: Option<String>,
}

/// A tool that a server offers. What it takes is described by JSON text.
#[derive(Debug, Clone)]
pub struct McpToolDef {
    pub name: String,
    pub description: String,
    pub input_schema: String,
}

/// The requests to a server that have no reply yet, each with whoever waits for it.
pub struct McpClient<T> {
    pending_requests: HashMap<u64, T>,
    next_id: u64,
    server_name: String,
}

impl<T> McpClient<T> {
    /// Who waits for which reply.
    pub closed spec fn pending(&self) -> Map<u64, T> {
        self.pending_requests@
    }

    /// The number of the next request.
    pub closed spec fn next(&self) -> u64 {
        self.next_id
    }

    /// The name of the server.
    pub closed spec fn name(&self) -> Seq<char> {
        self.server_name@
    }

    /// All requests that wait have smaller numbers than the next one.
    pub open spec fn well_formed(&self) -> bool {
        forall|id: u64| #[trigger] self.pending().dom().contains(id) ==> id < self.next()
    }

    /// A server that has not been asked anything.
    pub fn new(name: &str) -> (r: Self)
        ensures
            r.well_formed(),
            r.pending() == Map::<u64, T>::empty(),
            r.next() == 1,
            r.name() == name@,
    {
        McpClient {
            pending_requests: HashMap::new(),
            next_id: 1,
            server_name: String::from_str(name),
        }
    }

    /// The name of the server.
    pub fn server_name(&self) -> (r: &str)
        ensures
            r@ == self.name(),
    {
        self.server_name.as_str()
    }

    /// A new request, under a number of its own (the numbers begin again from zero when they run
    /// out). `waiter` is who waits for the reply.
    pub fn send_request(&mut self, method: &str, params: Option<String>, waiter: T) -> (r:
        JsonRpcRequest)
        ensures
            old(self).well_formed() && old(self).next() < u64::MAX ==> final(self).well_formed(),
            old(self).well_formed() ==> !old(self).pending().dom().contains(r.id),
            final(self).next() == if old(self).next() == u64::MAX {
                0
            } else {
                old(self).next() + 1
            },
            final(self).pending() == old(self).pending().insert(old(self).next(), waiter),
            final(self).name() == old(self).name(),
            r.id == old(self).next(),
            r.jsonrpc@ == "2.0"@,
            r.method@ == method@,
            option_view(r.params) == option_view(params),
    {
        let id = self.next_id;
        self.next_id = if id == u64::MAX {
            0
        } else {
            id + 1
        };
        self.pending_requests.insert(id, waiter);
        assert forall|k: u64|
            old(self).well_formed() && id < u64::MAX && #[trigger] self.pending().dom().contains(
                k,
            ) implies k < self.next() by {
            assert(k == id || old(self).pending().dom().contains(k));
        }
        JsonRpcRequest {
            jsonrpc: String::from_str("2.0"),
            id,
            method: String::from_str(method),
            params,
        }
    }

    /// Takes a reply: whoever waits for it is given back, once. Nobody waits for a reply to a
    /// number that was not used, or that has been replied to.
    pub fn receive(&mut self, id: u64) -> (r: Option<T>)
        ensures
            old(self).well_formed() ==> final(self).well_formed(),
            final(self).next() == old(self).next(),
            final(self).pending() == old(self).pending().remove(id),
            final(self).name() == old(self).name(),
            match r {
                Some(w) => old(self).pending().dom().contains(id) && old(self).pending()[id] == w,
                None => !old(self).pending().dom().contains(id),
            },
    {
        let r = self.pending_requests.remove(&id);
        assert(self.pending() =~= old(self).pending().remove(id));
        r
    }
}

/// A message without a reply.
pub fn send_notification(method: &str, params: Option<String>) -> (r: JsonRpcNotification)
    ensures
        r.jsonrpc@ == "2.0"@,
        r.method@ == method@,
        option_view(r.params) == option_view(params),
{
    JsonRpcNotification {
        jsonrpc: String::from_str("2.0"),
        method: String::from_str(method),
        params,
    }
}

/// The parameters of the first request to a server.
pub fn initialize_params() -> (r: String)
    ensures
        r@
            == "{\"capabilities\":{},\"clientInfo\":{\"name\":\"airllm-rs\",\"version\":\"0.1.0\"},\"protocolVersion\":\"2024-11-05\"}"@,
{
    String::from_str(
        "{\"capabilities\":{},\"clientInfo\":{\"name\":\"airllm-rs\",\"version\":\"0.1.0\"},\"protocolVersion\":\"2024-11-05\"}",
    )
}

/// The result of a reply, or the complaint about its error.
pub fn reply_result(response: JsonRpcResponse) -> (r: Result<Option<String>, String>)
    ensures
        match response.error {
            Some(e) => r matches Err(text) && text@ == "MCP Error: "@ + e@,
            None => r matches Ok(result) && result == response.result,
        },
{
    match response.error {
        Some(e) => {
            let mut text = String::from_str("MCP Error: ");
            text.append(e.as_str());
            Err(text)
        },
        None => Ok(response.result),
    }
}

/// The list of tools in a result, as JSON text; without one a server offers none.
pub fn list_tools(result: Option<String>) -> (r: Option<String>)
    ensures
        option_view(r) == match result {
            Some(json) => member(json@, "tools"@),
            None => None,
        },
{
    match result {
        Some(json) => get_member(json.as_str(), "tools"),
        None => None,
    }
}

/// The contents of an `McpToolDef`.
#[verifier::ext_equal]
pub struct McpToolDefView {
    pub name: Seq<char>,
    pub description: Seq<char>,
    pub input_schema: Seq<char>,
}

impl View for McpToolDef {
    type V = McpToolDefView;

    open spec fn view(&self) -> McpToolDefView {
        McpToolDefView {
            name: self.name@,
            description: self.description@,
            input_schema: self.input_schema@,
        }
    }
}

/// The contents of a list of tools.
pub open spec fn tool_views(t: Seq<McpToolDef>) -> Seq<McpToolDefView> {
    t.map_values(|x: McpToolDef| x@)
}

/// A tool from its parts, where its name and its description are strings.
pub open spec fn tool_of(
    name: Option<Seq<char>>,
    description: Option<Seq<char>>,
    schema: Option<Seq<char>>,
) -> Option<McpToolDefView> {
    match (name, description, schema) {
        (Some(name), Some(description), Some(input_schema)) => Some(
            McpToolDefView { name, description, input_schema },
        ),
        _ => None,
    }
}

/// The tool that JSON text describes: an object with its name, its description and its schema, or
/// a list of the three.
pub open spec fn tool_def(json: Seq<char>) -> Option<McpToolDefView> {
    match elements(json) {
        Some(l) => if l.len() == 3 {
            tool_of(string_value(l[0]), string_value(l[1]), Some(l[2]))
        } else {
            None
        },
        None => tool_of(
            string_member(json, "name"@),
            string_member(json, "description"@),
            member(json, "inputSchema"@),
        ),
    }
}

/// The tools that the elements of a list describe; none where one of them describes no tool.
pub open spec fn tool_defs(items: Seq<Seq<char>>) -> Option<Seq<McpToolDefView>>
    decreases items.len(),
{
    if items.len() == 0 {
        Some(Seq::empty())
    } else {
        match (tool_defs(items.drop_last()), tool_def(items.last())) {
            (Some(rest), Some(last)) => Some(rest.push(last)),
            _ => None,
        }
    }
}

/// A tool from its parts.
pub fn make_tool(name: Option<String>, description: Option<String>, schema: Option<String>) -> (r:
    Option<McpToolDef>)
    ensures
        match r {
            Some(t) => tool_of(option_view(name), option_view(description), option_view(schema))
                == Some(t@),
            None => tool_of(option_view(name), option_view(description), option_view(schema))
                is None,
        },
{
    match (name, description, schema) {
        (Some(name), Some(description), Some(input_schema)) => Some(
            McpToolDef { name, description, input_schema },
        ),
        _ => None,
    }
}

fn read_tool(json: &str) -> (r: Option<McpToolDef>)
    ensures
        match r {
            Some(t) => tool_def(json@) == Some(t@),
            None => tool_def(json@) is None,
        },
{
    match get_elements(json) {
        Some(l) => {
            assert(views(l@).len() == l@.len());
            if l.len() == 3 {
                assert(views(l@)[0] == l@[0]@ && views(l@)[1] == l@[1]@ && views(l@)[2]
                    == l@[2]@);
                let name = as_string(l[0].as_str());
                let description = as_string(l[1].as_str());
                make_tool(name, description, Some(l[2].clone()))
            } else {
                None
            }
        },
        None => {
            let name = get_string(json, "name");
            let description = get_string(json, "description");
            let schema = get_member(json, "inputSchema");
            make_tool(name, description, schema)
        },
    }
}

/// The tools that a list in JSON text describes; none where it is no such list.
pub fn read_tools(json: &str) -> (r: Option<Vec<McpToolDef>>)
    ensures
        match elements(json@) {
            Some(items) => match (tool_defs(items), r) {
                (Some(defs), Some(tools)) => defs == tool_views(tools@),
                (None, None) => true,
                _ => false,
            },
            None => r is None,
        },
{
    let items = match get_elements(json) {
        Some(l) => l,
        None => {
            return None;
        },
    };
    let ghost l = views(items@);
    let mut tools: Vec<McpToolDef> = Vec::new();
    let mut i: usize = 0;
    assert(tool_views(tools@) =~= Seq::empty());
    assert(l.take(0) =~= Seq::empty());
    while i < items.len()
        invariant
            l == views(items@),
            elements(json@) == Some(l),
            i <= items@.len(),
            tool_defs(l.take(i as int)) == Some(tool_views(tools@)),
        decreases items@.len() - i,
    {
        assert(l.take(i + 1).drop_last() =~= l.take(i as int));
        assert(l.take(i + 1).last() == items@[i as int]@);
        let ghost before = tool_views(tools@);
        match read_tool(items[i].as_str()) {
            Some(t) => {
                tools.push(t);
                assert(tool_views(tools@) =~= before.push(t@));
            },
            None => {
                proof {
                    lemma_no_tools(l, i + 1);
                }
                return None;
            },
        }
        i += 1;
    }
    assert(l.take(items@.len() as int) =~= l);
    Some(tools)
}

proof fn lemma_no_tools(l: Seq<Seq<char>>, k: int)
    requires
        0 <= k <= l.len(),
        tool_defs(l.take(k)) is None,
    ensures
        tool_defs(l) is None,
    decreases l.len() - k,
{
    if k < l.len() {
        assert(l.take(k + 1).drop_last() =~= l.take(k));
        lemma_no_tools(l, k + 1);
    } else {
        assert(l.take(k) =~= l);
    }
}

// ---------------------------------------------------------------------------------------------
// Calls of tools
// ---------------------------------------------------------------------------------------------

/// The texts of the items of a list that have one.
pub open spec fn item_texts(items: Seq<Seq<char>>) -> Seq<Seq<char>>
    decreases items.len(),
{
    if items.len() == 0 {
        Seq::empty()
    } else {
        match string_member(items.last(), "text"@) {
            Some(t) => item_texts(items.drop_last()).push(t),
            None => item_texts(items.drop_last()),
        }
    }
}

/// The list `content` of a result.
pub open spec fn content_items(result: Seq<char>) -> Option<Seq<Seq<char>>> {
    match member(result, "content"@) {
        Some(c) => elements(c),
        None => None,
    }
}

/// What a call of a tool gives: the texts of its content, a line each, or a complaint.
/// `flagged` says that the result is marked as an error, and `shown` is what is said of it then.
pub open spec fn call_outcome(
    texts: Option<Seq<Seq<char>>>,
    flagged: bool,
    shown: Seq<char>,
) -> Result<Seq<char>, Seq<char>> {
    match texts {
        Some(t) => Ok(trim(terminated(t))),
        None => if flagged {
            Err("Tool call returned an error flag: "@ + shown)
        } else {
            Err("Invalid response from tool call"@)
        },
    }
}

/// What a call of a tool gives, from the result of the reply.
pub open spec fn tool_outcome(result: Option<Seq<char>>) -> Result<Seq<char>, Seq<char>> {
    match result {
        Some(json) => call_outcome(
            match content_items(json) {
                Some(items) => Some(item_texts(items)),
                None => None,
            },
            bool_member(json, "isError"@) == Some(true),
            json_debug(json),
        ),
        None => call_outcome(None, false, Seq::empty()),
    }
}

/// The contents of a text or a complaint.
pub open spec fn outcome_view(r: Result<String, String>) -> Result<Seq<char>, Seq<char>> {
    match r {
        Ok(s) => Ok(s@),
        Err(e) => Err(e@),
    }
}

/// What a call of a tool gives.
pub fn call_result(texts: Option<Vec<String>>, flagged: bool, shown: &str) -> (r: Result<
    String,
    String,
>)
    ensures
        outcome_view(r) == call_outcome(
            match texts {
                Some(t) => Some(views(t@)),
                None => None,
            },
            flagged,
            shown@,
        ),
{
    match texts {
        Some(t) => {
            let all = terminate_between(&t, 0, t.len());
            assert(views(t@).subrange(0, t@.len() as int) =~= views(t@));
            Ok(trimmed(all.as_str()))
        },
        None => {
            if flagged {
                let mut text = String::from_str("Tool call returned an error flag: ");
                text.append(shown);
                Err(text)
            } else {
                Err(String::from_str("Invalid response from tool call"))
            }
        },
    }
}

fn texts_of(items: &Vec<String>) -> (r: Vec<String>)
    ensures
        views(r@) == item_texts(views(items@)),
{
    let ghost l = views(items@);
    let mut texts: Vec<String> = Vec::new();
    let mut i: usize = 0;
    assert(views(texts@) =~= item_texts(l.take(0)));
    while i < items.len()
        invariant
            l == views(items@),
            i <= items@.len(),
            views(texts@) == item_texts(l.take(i as int)),
        decreases items@.len() - i,
    {
        assert(l.take(i + 1).drop_last() =~= l.take(i as int));
        assert(l.take(i + 1).last() == items@[i as int]@);
        if let Some(text) = get_string(items[i].as_str(), "text") {
            proof {
                lemma_views_push(texts@, text);
            }
            texts.push(text);
        }
        i += 1;
    }
    assert(l.take(items@.len() as int) =~= l);
    texts
}

/// What a call of a tool gives, from the result of the reply.
pub fn call_tool(result: Option<String>) -> (r: Result<String, String>)
    ensures
        outcome_view(r) == tool_outcome(option_view(result)),
{
    match result {
        Some(json) => {
            let items = match get_member(json.as_str(), "content") {
                Some(c) => get_elements(c.as_str()),
                None => None,
            };
            let texts = match items {
                Some(l) => Some(texts_of(&l)),
                None => None,
            };
            let flagged = get_bool(json.as_str(), "isError") == Some(true);
            let shown = if flagged {
                debug_json(json.as_str())
            } else {
                String::new()
            };
            call_result(texts, flagged, shown.as_str())
        },
        None => call_result(None, false, ""),
    }
}

// ---------------------------------------------------------------------------------------------
// Laws
// ---------------------------------------------------------------------------------------------

/// A reply reaches the one who asked, whatever is asked in between, and a second reply to the same
/// number reaches nobody.
pub proof fn law_replies_reach_the_asker<T>(pending: Map<u64, T>, a: u64, x: T, b: u64, y: T)
    requires
        !pending.dom().contains(a),
        a < b,
    ensures
        ({
            let p = pending.insert(a, x).insert(b, y);
            &&& p.dom().contains(a) && p[a] == x
            &&& p.remove(a).dom().contains(b) && p.remove(a)[b] == y
            &&& !p.remove(a).dom().contains(a)
        }),
{
}

} // verus!
