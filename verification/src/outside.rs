//! The calls into other crates, and into parts of `std`, that the library builds on.
//!
//! Each function here hands its arguments to one outside function. What its contract says of the
//! result is taken on trust.
use crate::bytes::byte_len;
use crate::text::views;
use vstd::prelude::*;
use vstd::string::*;
use vstd::utf8::*;

verus! {

// ---------------------------------------------------------------------------------------------
// Letters and bytes
// ---------------------------------------------------------------------------------------------

/// The lower case of a text.
pub uninterp spec fn lowercase(s: Seq<char>) -> Seq<char>;

/// The lower case of an ASCII letter.
pub open spec fn ascii_lower(c: char) -> char {
    if 'A' <= c <= 'Z' {
        ((c as u32 + 32) as u32) as char
    } else {
        c
    }
}

/// `str::to_lowercase`: the lower case depends on the text alone, and on ASCII text it changes
/// the letters from A to Z and nothing else.
#[verifier::external_body]
pub(crate) fn to_lowercase(s: &str) -> (r: String)
    ensures
        r@ == lowercase(s@),
        is_ascii_chars(s@) ==> r@ == s@.map_values(|c: char| ascii_lower(c)),
{
    s.to_lowercase()
}

/// The text that bytes stand for, with replacement characters for what is no UTF-8.
pub uninterp spec fn lossy_text(bytes: Seq<u8>) -> Seq<char>;

/// `String::from_utf8_lossy`: the text depends on the bytes alone, and valid UTF-8 is decoded.
#[verifier::external_body]
pub(crate) fn from_utf8_lossy(bytes: &[u8]) -> (r: String)
    ensures
        r@ == lossy_text(bytes@),
        valid_utf8(bytes@) ==> r@ == decode_utf8(bytes@),
{
    String::from_utf8_lossy(bytes).to_string()
}

// ---------------------------------------------------------------------------------------------
// Regular expressions
// ---------------------------------------------------------------------------------------------

/// Why a pattern is no regular expression; none where it is one.
pub uninterp spec fn regex_error(pattern: Seq<char>) -> Option<Seq<char>>;

/// Whether a pattern has a match anywhere in a text.
pub uninterp spec fn regex_matches(pattern: Seq<char>, text: Seq<char>) -> bool;

/// `regex::Regex::new`: whether a pattern compiles, and the message where it does not, depend on
/// the pattern alone.
#[verifier::external_body]
pub(crate) fn regex_compile_error(pattern: &str) -> (r: Option<String>)
    ensures
        match r {
            Some(e) => regex_error(pattern@) == Some(e@),
            None => regex_error(pattern@) is None,
        },
{
    regex::Regex::new(pattern).err().map(|e| e.to_string())
}

/// `regex::Regex::is_match`, on the expression that `pattern` compiles to: whether there is a match
/// anywhere in the text depends on the pattern and the text alone. A pattern that does not compile
/// has no match.
#[verifier::external_body]
pub(crate) fn regex_is_match(pattern: &str, text: &str) -> (r: bool)
    ensures
        r == regex_matches(pattern@, text@),
        r ==> regex_error(pattern@) is None,
{
    match regex::Regex::new(pattern) {
        Ok(re) => re.is_match(text),
        Err(_) => false,
    }
}

// ---------------------------------------------------------------------------------------------
// JSON
// ---------------------------------------------------------------------------------------------

/// A JSON value: a scalar, or a list or an object whose members are given as JSON text.
pub enum JsonNode {
    Null,
    Bool(bool),
    /// A number, with its value where it is an integer from 0 up to 2^64 - 1.
    Number(Option<u64>),
    Text(String),
    Array(Vec<String>),
    Object(Vec<(String, String)>),
}

/// The contents of a `JsonNode`.
pub enum JsonNodeView {
    Null,
    Bool(bool),
    Number(Option<u64>),
    Text(Seq<char>),
    Array(Seq<Seq<char>>),
    Object(Seq<(Seq<char>, Seq<char>)>),
}

impl View for JsonNode {
    type V = JsonNodeView;

    open spec fn view(&self) -> JsonNodeView {
        match *self {
            JsonNode::Null => JsonNodeView::Null,
            JsonNode::Bool(b) => JsonNodeView::Bool(b),
            JsonNode::Number(n) => JsonNodeView::Number(n),
            JsonNode::Text(s) => JsonNodeView::Text(s@),
            JsonNode::Array(a) => JsonNodeView::Array(views(a@)),
            JsonNode::Object(o) => JsonNodeView::Object(
                o@.map_values(|m: (String, String)| (m.0@, m.1@)),
            ),
        }
    }
}

/// The value that JSON text stands for; none where the text is no JSON.
pub uninterp spec fn json_node(text: Seq<char>) -> Option<JsonNodeView>;

/// `serde_json::from_str`, into a `serde_json::Value`: what is read depends on the text alone.
/// The members of a list or an object are handed out as the JSON text of `Value::to_string`.
#[verifier::external_body]
pub(crate) fn parse_json(text: &str) -> (r: Option<JsonNode>)
    ensures
        match r {
            Some(n) => json_node(text@) == Some(n@),
            None => json_node(text@) is None,
        },
{
    Some(match serde_json::from_str::<serde_json::Value>(text).ok()? {
        serde_json::Value::Null => JsonNode::Null,
        serde_json::Value::Bool(b) => JsonNode::Bool(b),
        serde_json::Value::Number(n) => JsonNode::Number(n.as_u64()),
        serde_json::Value::String(s) => JsonNode::Text(s),
        serde_json::Value::Array(a) => JsonNode::Array(a.iter().map(|v| v.to_string()).collect()),
        serde_json::Value::Object(o) => {
            JsonNode::Object(o.iter().map(|(k, v)| (k.clone(), v.to_string())).collect())
        },
    })
}

/// How the value that JSON text stands for is written for debugging.
pub uninterp spec fn json_debug(text: Seq<char>) -> Seq<char>;

/// The `Debug` form of the `serde_json::Value` that `serde_json::from_str` reads: it depends on
/// the text alone.
#[verifier::external_body]
pub(crate) fn debug_json(text: &str) -> (r: String)
    requires
        json_node(text@) is Some,
    ensures
        r@ == json_debug(text@),
{
    serde_json::from_str::<serde_json::Value>(text).map(|v| format!("{:?}", v)).unwrap_or_default()
}

// ---------------------------------------------------------------------------------------------
// Base64
// ---------------------------------------------------------------------------------------------

/// The character for a group of six bits in the standard alphabet.
pub open spec fn base64_digit(n: int) -> char {
    if n < 26 {
        ('A' as int + n) as char
    } else if n < 52 {
        ('a' as int + (n - 26)) as char
    } else if n < 62 {
        ('0' as int + (n - 52)) as char
    } else if n == 62 {
        '+'
    } else {
        '/'
    }
}

/// The base64 text of bytes: four characters for each group of three bytes, and the last group
/// padded with `=`.
pub open spec fn base64_of(b: Seq<u8>) -> Seq<char>
    decreases b.len(),
{
    if b.len() == 0 {
        Seq::empty()
    } else {
        let x = b[0] as int;
        let y = if b.len() > 1 {
            b[1] as int
        } else {
            0
        };
        let z = if b.len() > 2 {
            b[2] as int
        } else {
            0
        };
        let group = seq![
            base64_digit(x / 4),
            base64_digit((x % 4) * 16 + y / 16),
            if b.len() > 1 {
                base64_digit((y % 16) * 4 + z / 64)
            } else {
                '='
            },
            if b.len() > 2 {
                base64_digit(z % 64)
            } else {
                '='
            },
        ];
        if b.len() > 3 {
            group + base64_of(b.skip(3))
        } else {
            group
        }
    }
}

/// `base64::engine::general_purpose::STANDARD.encode`: the standard alphabet, with padding. The
/// text has to fit in memory.
#[verifier::external_body]
pub(crate) fn base64_encode(bytes: &[u8]) -> (r: String)
    requires
        bytes@.len() <= usize::MAX / 4,
    ensures
        r@ == base64_of(bytes@),
{
    base64::Engine::encode(&base64::engine::general_purpose::STANDARD, bytes)
}

// ---------------------------------------------------------------------------------------------
// Line breaks
// ---------------------------------------------------------------------------------------------

/// The lines that a line of text is broken into at a width.
pub uninterp spec fn wrapped(line: Seq<char>, width: nat) -> Seq<Seq<char>>;

/// A text without the blanks at its end.
pub open spec fn without_blanks(s: Seq<char>) -> Seq<char>
    decreases s.len(),
{
    if s.len() > 0 && s.last() == ' ' {
        without_blanks(s.drop_last())
    } else {
        s
    }
}

/// `textwrap::wrap`, with a width for options: the lines depend on the text and the width alone.
/// A line that has fewer bytes than the width is not broken, and only loses the blanks at its end.
#[verifier::external_body]
pub(crate) fn wrap_line(line: &str, width: usize) -> (r: Vec<String>)
    ensures
        views(r@) == wrapped(line@, width as nat),
        !line@.contains('\n') && byte_len(line@) < width ==> views(r@) == seq![
            without_blanks(line@),
        ],
{
    textwrap::wrap(line, width).into_iter().map(|l| l.into_owned()).collect()
}

// ---------------------------------------------------------------------------------------------
// Tokens
// ---------------------------------------------------------------------------------------------

/// How many tokens of the `cl100k_base` vocabulary a text has; none where the tokenizer gives up.
pub uninterp spec fn tokens_in(text: Seq<char>) -> Option<nat>;

/// `tiktoken_rs::CoreBPE::encode`, with the `cl100k_base` vocabulary and no special tokens: the
/// number of tokens depends on the text alone.
#[verifier::external_body]
pub(crate) fn count_tokens(text: &str) -> (r: Option<usize>)
    ensures
        match r {
            Some(n) => tokens_in(text@) == Some(n as nat),
            None => tokens_in(text@) is None,
        },
{
    let bpe = tiktoken_rs::cl100k_base_singleton();
    bpe.encode(text, &std::collections::HashSet::new()).ok().map(|t| t.0.len())
}

} // verus!
