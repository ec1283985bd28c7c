//! Web search: the request that is sent and what is read from the answer.
use crate::agent::executor::{completed, printed, ExecutionStatus, ExecutionStatusView};
use crate::text::{
    begins, chars_of, contains, decimal, decimal_of, find, find_from, find_last, find_last_before,
    index_of, law_find_last_before, lemma_find_from, lemma_index_of_is, occurs_at, position, replace,
    replaced, string_between, trim, trimmed,
};
use vstd::prelude::*;
use vstd::string::*;

verus! {

// ---------------------------------------------------------------------------------------------
// Tags
// ---------------------------------------------------------------------------------------------

/// Whether the last bracket of `s` opens a tag.
pub open spec fn tag_open(s: Seq<char>) -> bool
    decreases s.len(),
{
    if s.len() == 0 || s.last() == '>' {
        false
    } else if s.last() == '<' {
        true
    } else {
        tag_open(s.drop_last())
    }
}

/// The characters of `s` that are no angle bracket and stand in no tag.
pub open spec fn untagged(s: Seq<char>) -> Seq<char>
    decreases s.len(),
{
    if s.len() == 0 {
        Seq::empty()
    } else if s.last() == '<' || s.last() == '>' || tag_open(s.drop_last()) {
        untagged(s.drop_last())
    } else {
        untagged(s.drop_last()).push(s.last())
    }
}

/// The text of `s` outside its tags.
pub fn strip_html_tags(s: &str) -> (r: String)
    ensures
        r@ == untagged(s@),
{
    let v = chars_of(s);
    let mut result = String::new();
    let mut in_tag: bool = false;
    let mut i: usize = 0;
    while i < v.len()
        invariant
            v@ == s@,
            i <= v@.len(),
            in_tag == tag_open(v@.take(i as int)),
            result@ == untagged(v@.take(i as int)),
        decreases v@.len() - i,
    {
        let ch = v[i];
        assert(v@.take(i + 1).drop_last() =~= v@.take(i as int));
        if ch == '<' {
            in_tag = true;
        } else if ch == '>' {
            in_tag = false;
        } else if !in_tag {
            result.push(ch);
        }
        i += 1;
    }
    assert(v@.take(v@.len() as int) =~= v@);
    result
}

/// Stripped text holds no angle bracket.
pub proof fn law_no_brackets_left(s: Seq<char>)
    ensures
        !untagged(s).contains('<'),
        !untagged(s).contains('>'),
    decreases s.len(),
{
    if s.len() > 0 {
        law_no_brackets_left(s.drop_last());
        let r = untagged(s.drop_last());
        assert forall|i: int| 0 <= i < untagged(s).len() implies untagged(s)[i] != '<' && untagged(
            s,
        )[i] != '>' by {
            if i < r.len() {
                assert(untagged(s)[i] == r[i]);
                assert(r.contains(r[i]));
            }
        }
    }
}

/// Text without angle brackets comes out of the stripping as it went in.
pub proof fn law_plain_text_untouched(s: Seq<char>)
    requires
        !s.contains('<'),
        !s.contains('>'),
    ensures
        untagged(s) == s,
        !tag_open(s),
    decreases s.len(),
{
    if s.len() > 0 {
        let t = s.drop_last();
        assert(s.contains(s.last()));
        assert forall|c: char| t.contains(c) implies s.contains(c) by {
            let i = choose|i: int| 0 <= i < t.len() && t[i] == c;
            assert(s[i] == c);
        }
        law_plain_text_untouched(t);
        assert(t.push(s.last()) =~= s);
    }
}

// ---------------------------------------------------------------------------------------------
// Percent encoding
// ---------------------------------------------------------------------------------------------

/// The value of a hexadecimal digit.
pub open spec fn hex_digit(c: char) -> Option<nat> {
    let n = c as u32;
    if '0' <= c <= '9' {
        Some((n - '0' as u32) as nat)
    } else if 'a' <= c <= 'f' {
        Some((n - 'a' as u32 + 10) as nat)
    } else if 'A' <= c <= 'F' {
        Some((n - 'A' as u32 + 10) as nat)
    } else {
        None
    }
}

/// The number that at most two characters spell in base sixteen, with one plus sign allowed in
/// front of the digits.
pub open spec fn hex_byte(h: Seq<char>) -> Option<nat> {
    if h.len() == 1 {
        hex_digit(h[0])
    } else if h.len() == 2 && h[0] == '+' {
        hex_digit(h[1])
    } else if h.len() == 2 {
        match (hex_digit(h[0]), hex_digit(h[1])) {
            (Some(a), Some(b)) => Some(16 * a + b),
            _ => None,
        }
    } else {
        None
    }
}

/// The number of characters that the escape at the head of `s` takes up.
pub open spec fn escape_len(s: Seq<char>) -> int {
    if s.len() < 3 {
        s.len() as int
    } else {
        3
    }
}

/// `s` with its escapes resolved: a plus sign is a space, and a percent sign with the two
/// characters behind it is the character with that number, or nothing where they are no number.
pub open spec fn url_decoded(s: Seq<char>) -> Seq<char>
    decreases s.len(),
{
    if s.len() == 0 {
        Seq::empty()
    } else if s[0] == '%' {
        let rest = url_decoded(s.skip(escape_len(s)));
        match hex_byte(s.subrange(1, escape_len(s))) {
            Some(b) => seq![b as char] + rest,
            None => rest,
        }
    } else if s[0] == '+' {
        seq![' '] + url_decoded(s.skip(1))
    } else {
        seq![s[0]] + url_decoded(s.skip(1))
    }
}

fn hex_digit_of(c: char) -> (r: Option<u8>)
    ensures
        match r {
            Some(d) => hex_digit(c) == Some(d as nat) && d < 16,
            None => hex_digit(c) is None,
        },
{
    let n: u32 = c as u32;
    if '0' <= c && c <= '9' {
        Some((n - '0' as u32) as u8)
    } else if 'a' <= c && c <= 'f' {
        Some((n - 'a' as u32 + 10) as u8)
    } else if 'A' <= c && c <= 'F' {
        Some((n - 'A' as u32 + 10) as u8)
    } else {
        None
    }
}

fn hex_byte_of(v: &[char], from: usize, to: usize) -> (r: Option<u8>)
    requires
        from <= to <= v@.len(),
        to - from <= 2,
    ensures
        match r {
            Some(d) => hex_byte(v@.subrange(from as int, to as int)) == Some(d as nat),
            None => hex_byte(v@.subrange(from as int, to as int)) is None,
        },
{
    if to - from == 1 {
        hex_digit_of(v[from])
    } else if to - from == 2 {
        if v[from] == '+' {
            hex_digit_of(v[from + 1])
        } else {
            match (hex_digit_of(v[from]), hex_digit_of(v[from + 1])) {
                (Some(a), Some(b)) => Some(16 * a + b),
                _ => None,
            }
        }
    } else {
        None
    }
}

/// Resolves the escapes of `s`.
pub fn url_decode(s: &str) -> (r: String)
    ensures
        r@ == url_decoded(s@),
{
    let v = chars_of(s);
    let mut result = String::new();
    let mut i: usize = 0;
    assert(v@.skip(0) =~= v@);
    assert(result@ + url_decoded(v@) =~= url_decoded(s@));
    while i < v.len()
        invariant
            i <= v@.len(),
            url_decoded(s@) == result@ + url_decoded(v@.skip(i as int)),
        decreases v@.len() - i,
    {
        let ghost rest = v@.skip(i as int);
        let ghost before = result@;
        let ch = v[i];
        assert(rest.skip(1) =~= v@.skip(i + 1));
        if ch == '%' {
            let end: usize = if v.len() - i < 3 {
                v.len()
            } else {
                i + 3
            };
            assert(rest.subrange(1, escape_len(rest)) =~= v@.subrange(i + 1, end as int));
            assert(rest.skip(escape_len(rest)) =~= v@.skip(end as int));
            match hex_byte_of(v.as_slice(), i + 1, end) {
                Some(b) => {
                    result.push(b as char);
                    assert(before + (seq![b as char] + url_decoded(v@.skip(end as int)))
                        =~= result@ + url_decoded(v@.skip(end as int)));
                },
                None => {},
            }
            i = end;
        } else if ch == '+' {
            result.push(' ');
            assert(before + (seq![' '] + url_decoded(v@.skip(i + 1))) =~= result@ + url_decoded(
                v@.skip(i + 1),
            ));
            i += 1;
        } else {
            result.push(ch);
            assert(before + (seq![ch] + url_decoded(v@.skip(i + 1))) =~= result@ + url_decoded(
                v@.skip(i + 1),
            ));
            i += 1;
        }
    }
    assert(result@ + url_decoded(v@.skip(i as int)) =~= result@);
    result
}

/// The query as it stands in the address of a search.
pub open spec fn encoded_query(query: Seq<char>) -> Seq<char> {
    replaced(query, " "@, "+"@)
}

/// Decoding gives back what was searched for, where it holds no percent or plus sign.
pub proof fn law_query_round_trip(query: Seq<char>)
    requires
        !query.contains('%'),
        !query.contains('+'),
    ensures
        url_decoded(encoded_query(query)) == query,
    decreases query.len(),
{
    reveal_strlit(" ");
    reveal_strlit("+");
    let p = " "@;
    let w = "+"@;
    assert(p =~= seq![' ']);
    assert(w =~= seq!['+']);
    if query.len() > 0 {
        let t = query.skip(1);
        assert forall|c: char| t.contains(c) implies query.contains(c) by {
            let i = choose|i: int| 0 <= i < t.len() && t[i] == c;
            assert(query[i + 1] == c);
        }
        law_query_round_trip(t);
        assert(query.contains(query[0]));
        let e = encoded_query(t);
        if query[0] == ' ' {
            assert(query.subrange(0, 1) =~= p);
            assert(encoded_query(query) == w + e);
            assert((w + e).skip(1) =~= e);
            assert(url_decoded(w + e) == seq![' '] + url_decoded(e));
            assert(seq![' '] + t =~= query);
        } else {
            assert(query.subrange(0, 1)[0] == query[0]);
            assert(!begins(query, p));
            let h = seq![query[0]];
            assert(encoded_query(query) == h + e);
            assert((h + e).skip(1) =~= e);
            assert(url_decoded(h + e) == h + url_decoded(e));
            assert(h + t =~= query);
        }
    }
}

/// The address that a search for `query` asks.
pub fn search_url(query: &str) -> (r: String)
    ensures
        r@ == "https://html.duckduckgo.com/html/?q="@ + encoded_query(query@),
{
    let encoded = replace(query, " ", "+");
    let mut url = String::from_str("https://html.duckduckgo.com/html/?q=");
    url.append(encoded.as_str());
    url
}

// ---------------------------------------------------------------------------------------------
// Search results
// ---------------------------------------------------------------------------------------------

/// One search result.
pub struct Found {
    pub title: Seq<char>,
    pub snippet: Seq<char>,
    pub url: Seq<char>,
}

/// The contents of a search result.
pub open spec fn found_view(r: (String, String, String)) -> Found {
    Found { title: r.0@, snippet: r.1@, url: r.2@ }
}

/// The contents of a list of search results.
pub open spec fn found_views(rs: Seq<(String, String, String)>) -> Seq<Found> {
    rs.map_values(|r: (String, String, String)| found_view(r))
}

/// What marks the link of a result.
pub open spec fn link_marker() -> Seq<char> {
    "class=\"result__a\""@
}

/// The target of the link whose marker stands at `k`: the last attribute value in front of it.
pub open spec fn href_at(html: Seq<char>, k: nat) -> Option<Seq<char>> {
    match find_last_before(html, "href=\""@, k) {
        None => None,
        Some(h) => match find_from(html, "\""@, h + 6) {
            None => None,
            Some(e) => Some(html.subrange(h as int + 6, e as int)),
        },
    }
}

/// Where the text of the link whose marker stands at `k` begins and ends.
pub open spec fn title_span(html: Seq<char>, k: nat) -> Option<(nat, nat)> {
    match find_from(html, ">"@, k) {
        None => None,
        Some(t) => match find_from(html, "</a>"@, t + 1) {
            None => None,
            Some(e) => Some((t + 1, e)),
        },
    }
}

/// The first snippet after `from`, or nothing where there is none or it is cut off.
pub open spec fn snippet_after(html: Seq<char>, from: nat) -> Seq<char> {
    match find_from(html, "class=\"result__snippet\""@, from) {
        None => Seq::empty(),
        Some(a) => match find_from(html, ">"@, a) {
            None => Seq::empty(),
            Some(b) => match find_from(html, "</"@, b + 1) {
                None => Seq::empty(),
                Some(c) => trim(untagged(html.subrange(b as int + 1, c as int))),
            },
        },
    }
}

/// The address that a link leads to: the decoded forwarding parameter where the link has one.
pub open spec fn target_of(raw: Seq<char>) -> Seq<char> {
    match find_from(raw, "uddg="@, 0) {
        None => raw,
        Some(u) => {
            let rest = raw.skip(u as int + 5);
            url_decoded(rest.take(index_of(rest, '&') as int))
        },
    }
}

/// The results that are read from position `pos` on, at most `room` of them. A marker without a
/// complete link is passed over, and so is a link without a title.
pub open spec fn results_from(html: Seq<char>, pos: nat, room: nat) -> Seq<Found>
    decreases html.len() + 1 - pos,
{
    if room == 0 {
        Seq::empty()
    } else {
        match find_from(html, link_marker(), pos) {
            None => Seq::empty(),
            Some(k) => {
                proof {
                    lemma_find_from(html, link_marker(), pos);
                    lemma_link_marker();
                    lemma_title_after_marker(html, k);
                }
                match (href_at(html, k), title_span(html, k)) {
                    (Some(raw), Some((a, b))) => {
                        let title = trim(untagged(html.subrange(a as int, b as int)));
                        if title.len() == 0 {
                            results_from(html, b, room)
                        } else {
                            seq![
                                Found {
                                    title,
                                    snippet: snippet_after(html, b),
                                    url: target_of(raw),
                                },
                            ] + results_from(html, b, (room - 1) as nat)
                        }
                    },
                    _ => results_from(html, k + link_marker().len(), room),
                }
            },
        }
    }
}

/// The results of a page: the first five.
pub open spec fn results_of(html: Seq<char>) -> Seq<Found> {
    results_from(html, 0, 5)
}

/// The marker of a link has seventeen characters.
pub proof fn lemma_link_marker()
    ensures
        link_marker().len() == 17,
{
    reveal_strlit("class=\"result__a\"");
}

/// The text of a link stands behind its marker.
pub proof fn lemma_title_after_marker(html: Seq<char>, k: nat)
    ensures
        title_span(html, k) matches Some((a, b)) ==> k < a <= b && b <= html.len(),
{
    lemma_find_from(html, ">"@, k);
    match find_from(html, ">"@, k) {
        None => {},
        Some(t) => {
            lemma_find_from(html, "</a>"@, t + 1);
        },
    }
}

/// No more than five results are read, and each has a title.
pub proof fn law_results_are_few_and_titled(html: Seq<char>)
    ensures
        results_of(html).len() <= 5,
        forall|i: int|
            0 <= i < results_of(html).len() ==> (#[trigger] results_of(html)[i]).title.len() > 0,
{
    lemma_results_from(html, 0, 5);
}

proof fn lemma_results_from(html: Seq<char>, pos: nat, room: nat)
    ensures
        results_from(html, pos, room).len() <= room,
        forall|i: int|
            0 <= i < results_from(html, pos, room).len() ==> (#[trigger] results_from(
                html,
                pos,
                room,
            )[i]).title.len() > 0,
    decreases html.len() + 1 - pos,
{
    if room > 0 {
        lemma_find_from(html, link_marker(), pos);
        lemma_link_marker();
        match find_from(html, link_marker(), pos) {
            None => {},
            Some(k) => {
                lemma_title_after_marker(html, k);
                match (href_at(html, k), title_span(html, k)) {
                    (Some(_raw), Some((a, b))) => {
                        let title = trim(untagged(html.subrange(a as int, b as int)));
                        if title.len() == 0 {
                            lemma_results_from(html, b, room);
                        } else {
                            lemma_results_from(html, b, (room - 1) as nat);
                        }
                    },
                    _ => {
                        lemma_results_from(html, k + link_marker().len(), room);
                    },
                }
            },
        }
    }
}

fn snippet(v: &[char], from: usize) -> (r: String)
    ensures
        r@ == snippet_after(v@, from as nat),
{
    proof {
        reveal_strlit(">");
    }
    match find(v, "class=\"result__snippet\"", from) {
        None => String::new(),
        Some(a) => match find(v, ">", a) {
            None => String::new(),
            Some(b) => match find(v, "</", b + 1) {
                None => String::new(),
                Some(c) => {
                    let inner = string_between(v, b + 1, c);
                    let plain = strip_html_tags(inner.as_str());
                    trimmed(plain.as_str())
                },
            },
        },
    }
}

fn target(raw: &str) -> (r: String)
    ensures
        r@ == target_of(raw@),
{
    let v = chars_of(raw);
    proof {
        reveal_strlit("uddg=");
    }
    match find(v.as_slice(), "uddg=", 0) {
        None => String::from_str(raw),
        Some(u) => {
            let end = position(v.as_slice(), '&', u + 5);
            let part = string_between(v.as_slice(), u + 5, end);
            assert(part@ =~= raw@.skip(u + 5).take(end - (u + 5)));
            url_decode(part.as_str())
        },
    }
}

/// The search results of a page, each with title, snippet and address.
pub fn parse_duckduckgo_html(html: &str) -> (r: Vec<(String, String, String)>)
    ensures
        found_views(r@) == results_of(html@),
{
    let page = chars_of(html);
    let v = page.as_slice();
    let mut results: Vec<(String, String, String)> = Vec::new();
    let mut pos: usize = 0;
    proof {
        lemma_link_marker();
        reveal_strlit("href=\"");
        reveal_strlit("\"");
        reveal_strlit(">");
        reveal_strlit("</a>");
    }
    assert(found_views(results@) + results_from(v@, 0, 5) =~= results_of(html@));
    while results.len() < 5
        invariant_except_break
            results@.len() <= 5,
            results_of(html@) == found_views(results@) + results_from(
                v@,
                pos as nat,
                (5 - results@.len()) as nat,
            ),
        invariant
            "href=\""@.len() == 6,
            "\""@.len() == 1,
            ">"@.len() == 1,
            "</a>"@.len() == 4,
            link_marker().len() == 17,
        ensures
            results_of(html@) == found_views(results@),
        decreases v@.len() + 1 - pos,
    {
        let ghost room = (5 - results@.len()) as nat;
        let ghost before = found_views(results@);
        match find(v, "class=\"result__a\"", pos) {
            None => {
                assert(found_views(results@) + Seq::<Found>::empty() =~= found_views(results@));
                break;
            },
            Some(k) => {
                proof {
                    lemma_find_from(v@, link_marker(), pos as nat);
                    lemma_title_after_marker(v@, k as nat);
                }
                let after: usize = k + 17;
                let href_start: usize = match find_last(v, "href=\"", k) {
                    Some(h) => h + 6,
                    None => {
                        pos = after;
                        continue;
                    },
                };
                let href_end: usize = match find(v, "\"", href_start) {
                    Some(e) => e,
                    None => {
                        pos = after;
                        continue;
                    },
                };
                let title_start: usize = match find(v, ">", k) {
                    Some(t) => t + 1,
                    None => {
                        pos = after;
                        continue;
                    },
                };
                let title_end: usize = match find(v, "</a>", title_start) {
                    Some(e) => e,
                    None => {
                        pos = after;
                        continue;
                    },
                };
                let raw = string_between(v, href_start, href_end);
                let inner = string_between(v, title_start, title_end);
                let plain = strip_html_tags(inner.as_str());
                let title = trimmed(plain.as_str());
                let about = snippet(v, title_end);
                let url = target(raw.as_str());
                if !title.as_str().is_empty() {
                    let ghost item = found_view((title, about, url));
                    assert(found_views(results@.push((title, about, url))) =~= before.push(item));
                    assert(before + (seq![item] + results_from(
                        v@,
                        title_end as nat,
                        (room - 1) as nat,
                    )) =~= before.push(item) + results_from(
                        v@,
                        title_end as nat,
                        (room - 1) as nat,
                    ));
                    results.push((title, about, url));
                }
                pos = title_end;
            },
        }
    }
    results
}

/// How the result with number `n` is listed.
pub open spec fn result_entry(n: nat, f: Found) -> Seq<char> {
    decimal(n) + ". **"@ + f.title + "**\n   "@ + f.snippet + "\n   URL: "@ + f.url + "\n\n"@
}

/// How the first `n` results are listed.
pub open spec fn result_entries(found: Seq<Found>, n: nat) -> Seq<char>
    decreases n,
{
    if n == 0 {
        Seq::empty()
    } else {
        result_entries(found, (n - 1) as nat) + result_entry(n, found[n - 1])
    }
}

/// What a search reports: the results that the page holds, or that there are none, or why the
/// page could not be had.
pub open spec fn search_report(
    query: Seq<char>,
    reply: Result<Seq<char>, Seq<char>>,
) -> ExecutionStatusView {
    match reply {
        Ok(page) => {
            let found = results_of(page);
            if found.len() == 0 {
                printed("Web search for '"@ + query + "': No results found."@)
            } else {
                printed(
                    "Web search results for '"@ + query + "':\n\n"@ + result_entries(
                        found,
                        found.len(),
                    ),
                )
            }
        },
        Err(e) => ExecutionStatusView::Failed("Web search failed: "@ + e),
    }
}

/// The contents of a reply: a page, or an error message.
pub open spec fn reply_view(reply: Result<String, String>) -> Result<Seq<char>, Seq<char>> {
    match reply {
        Ok(s) => Ok(s@),
        Err(e) => Err(e@),
    }
}

/// What a search for `query` reports when it is answered with `reply`.
pub fn execute_web_search(query: &str, reply: Result<String, String>) -> (r: ExecutionStatus)
    ensures
        r@ == search_report(query@, reply_view(reply)),
{
    match reply {
        Ok(page) => {
            let results = parse_duckduckgo_html(page.as_str());
            let ghost found = results_of(page@);
            assert(found.len() == results@.len());
            if results.len() == 0 {
                let mut text = String::from_str("Web search for '");
                text.append(query);
                text.append("': No results found.");
                return completed(text);
            }
            let mut output = String::from_str("Web search results for '");
            output.append(query);
            output.append("':\n\n");
            let ghost head = output@;
            let mut i: usize = 0;
            assert(head + result_entries(found, 0) =~= head);
            while i < results.len()
                invariant
                    i <= results@.len(),
                    results@.len() == found.len(),
                    found_views(results@) == found,
                    output@ == head + result_entries(found, i as nat),
                decreases results@.len() - i,
            {
                let ghost f = found[i as int];
                assert(f == found_view(results@[i as int]));
                let number = decimal_of((i + 1) as u64);
                let mut entry = number;
                entry.append(". **");
                entry.append(results[i].0.as_str());
                entry.append("**\n   ");
                entry.append(results[i].1.as_str());
                entry.append("\n   URL: ");
                entry.append(results[i].2.as_str());
                entry.append("\n\n");
                output.append(entry.as_str());
                assert(output@ =~= head + result_entries(found, (i + 1) as nat));
                i += 1;
            }
            completed(output)
        },
        Err(e) => {
            let mut text = String::from_str("Web search failed: ");
            text.append(e.as_str());
            ExecutionStatus::Failed(text)
        },
    }
}

// ---------------------------------------------------------------------------------------------
// What holds of all pages
// ---------------------------------------------------------------------------------------------

/// The report lists every result that is read from the page, in the order of the page, each under its
/// own number with its title, its snippet and its address, and nothing else. What is given back says
/// where: entry `k` stands from `r[k]` up to `r[k + 1]`.
pub proof fn law_report_lists_every_result(query: Seq<char>, page: Seq<char>) -> (r: Seq<int>)
    requires
        results_of(page).len() > 0,
    ensures
        ({
            let found = results_of(page);
            let report = search_report(query, Ok(page));
            let text = report->stdout;
            &&& report is Completed
            &&& report->stderr.len() == 0
            &&& report->exit_code == 0
            &&& r.len() == found.len() + 1
            &&& 0 <= r[0] <= text.len()
            &&& text.take(r[0]) == "Web search results for '"@ + query + "':\n\n"@
            &&& r.last() == text.len()
            &&& forall|k: int|
                0 <= k < found.len() ==> {
                    &&& 0 <= r[k] <= r[k + 1] <= text.len()
                    &&& text.subrange(#[trigger] r[k], r[k + 1]) == decimal((k + 1) as nat)
                        + ". **"@ + found[k].title + "**\n   "@ + found[k].snippet + "\n   URL: "@
                        + found[k].url + "\n\n"@
                }
        }),
{
    let found = results_of(page);
    let n = found.len();
    let head = "Web search results for '"@ + query + "':\n\n"@;
    let text = head + result_entries(found, n);
    let r = Seq::new(n + 1, |k: int| head.len() + result_entries(found, k as nat).len() as int);
    assert(text.take(head.len() as int) =~= head);
    assert(result_entries(found, 0).len() == 0);
    assert forall|k: int| 0 <= k < n implies {
        &&& 0 <= r[k] <= r[k + 1] <= text.len()
        &&& text.subrange(#[trigger] r[k], r[k + 1]) == result_entry((k + 1) as nat, found[k])
    } by {
        let front = result_entries(found, k as nat);
        let upto = result_entries(found, (k + 1) as nat);
        assert(upto == front + result_entry((k + 1) as nat, found[k]));
        lemma_entries_grow(found, (k + 1) as nat, n);
        let all = result_entries(found, n);
        assert(text.subrange(r[k], r[k + 1]) =~= all.subrange(
            front.len() as int,
            upto.len() as int,
        ));
        assert(all.subrange(front.len() as int, upto.len() as int) =~= upto.skip(
            front.len() as int,
        ));
        assert(upto.skip(front.len() as int) =~= result_entry((k + 1) as nat, found[k]));
    }
    r
}

proof fn lemma_entries_grow(found: Seq<Found>, k: nat, n: nat)
    requires
        k <= n,
    ensures
        result_entries(found, k).is_prefix_of(result_entries(found, n)),
    decreases n - k,
{
    if k < n {
        lemma_entries_grow(found, k, (n - 1) as nat);
    }
}

/// A page without a result, and a page that could not be had, are reported as such.
pub proof fn law_empty_reports(query: Seq<char>, page: Seq<char>, e: Seq<char>)
    ensures
        results_of(page).len() == 0 ==> search_report(query, Ok(page))
            == (ExecutionStatusView::Completed {
            stdout: "Web search for '"@ + query + "': No results found."@,
            stderr: Seq::empty(),
            exit_code: 0,
        }),
        search_report(query, Err(e)) == ExecutionStatusView::Failed("Web search failed: "@ + e),
{
}

/// Whether `i` is the first place at or behind `from` where `p` stands in `s`.
pub open spec fn first_at(s: Seq<char>, p: Seq<char>, from: int, i: int) -> bool {
    &&& from <= i
    &&& occurs_at(s, p, i)
    &&& forall|j: int| from <= j < i ==> !occurs_at(s, p, j)
}

/// Whether `i` is the last place where `p` stands in `s` in front of `limit`.
pub open spec fn last_at(s: Seq<char>, p: Seq<char>, limit: int, i: int) -> bool {
    &&& i + p.len() <= limit
    &&& occurs_at(s, p, i)
    &&& forall|j: int| i < j && j + p.len() <= limit ==> !occurs_at(s, p, j)
}

/// The first place is where it is found.
pub proof fn lemma_first_at(s: Seq<char>, p: Seq<char>, from: nat, i: int)
    requires
        first_at(s, p, from as int, i),
    ensures
        find_from(s, p, from) == Some(i as nat),
{
    lemma_find_from(s, p, from);
    match find_from(s, p, from) {
        Some(k) => {
            if k < i {
                assert(!occurs_at(s, p, k as int));
            }
            if i < k {
                assert(!occurs_at(s, p, i));
            }
        },
        None => {
            assert(!occurs_at(s, p, i));
        },
    }
}

proof fn lemma_last_at(s: Seq<char>, p: Seq<char>, limit: nat, i: int)
    requires
        last_at(s, p, limit as int, i),
    ensures
        find_last_before(s, p, limit) == Some(i as nat),
{
    law_find_last_before(s, p, limit);
    match find_last_before(s, p, limit) {
        Some(k) => {
            if k < i {
                assert(!occurs_at(s, p, i));
            }
            if i < k {
                assert(!occurs_at(s, p, k as int));
            }
        },
        None => {
            assert(!occurs_at(s, p, i));
        },
    }
}

/// How the next result is read. Its mark stands at `m`, the last address in front of the mark from
/// `h` on up to the quote at `q`, and the text of its link between the bracket at `t` and the end of
/// the link at `e`. A link without a title is passed over. Reading goes on behind the title.
pub proof fn law_next_result(
    html: Seq<char>,
    pos: nat,
    room: nat,
    m: int,
    h: int,
    q: int,
    t: int,
    e: int,
)
    requires
        room > 0,
        first_at(html, "class=\"result__a\""@, pos as int, m),
        last_at(html, "href=\""@, m, h),
        first_at(html, "\""@, h + 6, q),
        first_at(html, ">"@, m, t),
        first_at(html, "</a>"@, t + 1, e),
    ensures
        ({
            let title = trim(untagged(html.subrange(t + 1, e)));
            results_from(html, pos, room) == if title.len() == 0 {
                results_from(html, e as nat, room)
            } else {
                seq![
                    Found {
                        title,
                        snippet: snippet_after(html, e as nat),
                        url: target_of(html.subrange(h + 6, q)),
                    },
                ] + results_from(html, e as nat, (room - 1) as nat)
            }
        }),
{
    lemma_first_at(html, "class=\"result__a\""@, pos, m);
    lemma_last_at(html, "href=\""@, m as nat, h);
    lemma_first_at(html, "\""@, (h + 6) as nat, q);
    lemma_first_at(html, ">"@, m as nat, t);
    lemma_first_at(html, "</a>"@, (t + 1) as nat, e);
}

/// Without a mark there are no more results, and a mark without a complete link is passed over.
pub proof fn law_no_result(html: Seq<char>, pos: nat, room: nat, m: int)
    ensures
        (forall|j: int| pos <= j ==> !occurs_at(html, "class=\"result__a\""@, j)) ==> results_from(
            html,
            pos,
            room,
        ) == Seq::<Found>::empty(),
        first_at(html, "class=\"result__a\""@, pos as int, m) && ((forall|j: int|
            j + 6 <= m ==> !occurs_at(html, "href=\""@, j)) || (forall|j: int|
            m <= j ==> !occurs_at(html, ">"@, j)) || (forall|j: int|
            m <= j ==> !occurs_at(html, "</a>"@, j))) ==> results_from(html, pos, room)
            == results_from(html, (m + 17) as nat, room),
{
    reveal_strlit("href=\"");
    lemma_find_from(html, "class=\"result__a\""@, pos);
    if first_at(html, "class=\"result__a\""@, pos as int, m) {
        lemma_first_at(html, "class=\"result__a\""@, pos, m);
        lemma_link_marker();
        law_find_last_before(html, "href=\""@, m as nat);
        lemma_find_from(html, ">"@, m as nat);
        match find_from(html, ">"@, m as nat) {
            Some(t) => {
                lemma_find_from(html, "</a>"@, t + 1);
            },
            None => {},
        }
    }
}

proof fn lemma_room(html: Seq<char>, pos: nat, room: nat, more: nat)
    requires
        room <= more,
    ensures
        ({
            let all = results_from(html, pos, more);
            let some = results_from(html, pos, room);
            if all.len() <= room {
                some == all
            } else {
                some == all.take(room as int)
            }
        }),
    decreases html.len() + 1 - pos,
{
    let all = results_from(html, pos, more);
    let some = results_from(html, pos, room);
    if room == 0 {
        assert(some =~= all.take(0));
        if all.len() == 0 {
            assert(some =~= all);
        }
    } else {
        lemma_find_from(html, link_marker(), pos);
        lemma_link_marker();
        match find_from(html, link_marker(), pos) {
            None => {},
            Some(k) => {
                lemma_title_after_marker(html, k);
                match (href_at(html, k), title_span(html, k)) {
                    (Some(raw), Some((a, b))) => {
                        let title = trim(untagged(html.subrange(a as int, b as int)));
                        if title.len() == 0 {
                            lemma_room(html, b, room, more);
                        } else {
                            lemma_room(html, b, (room - 1) as nat, (more - 1) as nat);
                            let x = seq![
                                Found { title, snippet: snippet_after(html, b), url: target_of(raw) },
                            ];
                            let rest = results_from(html, b, (more - 1) as nat);
                            assert(all == x + rest);
                            if rest.len() > room - 1 {
                                assert(x + rest.take(room - 1) =~= all.take(room as int));
                            }
                        }
                    },
                    _ => {
                        lemma_room(html, k + link_marker().len(), room, more);
                    },
                }
            },
        }
    }
}

/// The results of a page are the first five of all that can be read from it.
pub proof fn law_first_five(html: Seq<char>, room: nat)
    requires
        room >= 5,
    ensures
        ({
            let all = results_from(html, 0, room);
            results_of(html) == if all.len() <= 5 {
                all
            } else {
                all.take(5)
            }
        }),
{
    lemma_room(html, 0, 5, room);
}

/// The snippet of a result stands behind the first mark of one, between a bracket and the next closing
/// tag; without all of these there is none.
pub proof fn law_snippet(html: Seq<char>, from: nat, a: int, b: int, c: int)
    ensures
        first_at(html, "class=\"result__snippet\""@, from as int, a) && first_at(html, ">"@, a, b)
            && first_at(html, "</"@, b + 1, c) ==> snippet_after(html, from) == trim(
            untagged(html.subrange(b + 1, c)),
        ),
        (forall|j: int| from <= j ==> !occurs_at(html, "class=\"result__snippet\""@, j))
            ==> snippet_after(html, from) == Seq::<char>::empty(),
{
    lemma_find_from(html, "class=\"result__snippet\""@, from);
    if first_at(html, "class=\"result__snippet\""@, from as int, a) && first_at(html, ">"@, a, b)
        && first_at(html, "</"@, b + 1, c) {
        lemma_first_at(html, "class=\"result__snippet\""@, from, a);
        lemma_first_at(html, ">"@, a as nat, b);
        lemma_first_at(html, "</"@, (b + 1) as nat, c);
    }
}

/// A link leads where it says, or, where it forwards, to what the text between the forwarding
/// parameter and the next parameter stands for.
pub proof fn law_target(front: Seq<char>, address: Seq<char>, rest: Seq<char>)
    requires
        !address.contains('&'),
        rest.len() == 0 || rest[0] == '&',
    ensures
        !contains(front, "uddg="@) ==> target_of(front) == front,
        first_at(front + "uddg="@ + address + rest, "uddg="@, 0, front.len() as int) ==> target_of(
            front + "uddg="@ + address + rest,
        ) == url_decoded(address),
{
    reveal_strlit("uddg=");
    lemma_find_from(front, "uddg="@, 0);
    let raw = front + "uddg="@ + address + rest;
    if !contains(front, "uddg="@) {
        match find_from(front, "uddg="@, 0) {
            Some(i) => {
                assert(occurs_at(front, "uddg="@, i as int));
            },
            None => {},
        }
    }
    if first_at(raw, "uddg="@, 0, front.len() as int) {
        lemma_first_at(raw, "uddg="@, 0, front.len() as int);
        let tail = raw.skip(front.len() as int + 5);
        assert(tail =~= address + rest);
        assert forall|k: int| 0 <= k < address.len() implies tail[k] != '&' by {
            assert(address.contains(address[k]));
        }
        lemma_index_of_is(tail, '&', address.len() as int);
        assert(tail.take(address.len() as int) =~= address);
    }
}

proof fn lemma_untagged_add(x: Seq<char>, z: Seq<char>)
    requires
        !tag_open(x),
    ensures
        untagged(x + z) == untagged(x) + untagged(z),
        tag_open(x + z) == tag_open(z),
    decreases z.len(),
{
    if z.len() == 0 {
        assert(x + z =~= x);
        assert(untagged(x) + untagged(z) =~= untagged(x));
    } else {
        assert((x + z).drop_last() =~= x + z.drop_last());
        assert((x + z).last() == z.last());
        lemma_untagged_add(x, z.drop_last());
        assert(untagged(x + z) =~= untagged(x) + untagged(z));
    }
}

proof fn lemma_inside_tag(y: Seq<char>)
    requires
        !y.contains('>'),
    ensures
        untagged(seq!['<'] + y) == Seq::<char>::empty(),
        tag_open(seq!['<'] + y),
    decreases y.len(),
{
    let s = seq!['<'] + y;
    if y.len() == 0 {
        reveal_with_fuel(untagged, 2);
        assert(s.last() == '<');
        assert(s.drop_last() =~= Seq::<char>::empty());
    } else {
        let t = y.drop_last();
        assert forall|k: int| 0 <= k < t.len() implies t[k] != '>' by {
            assert(y.contains(y[k]));
        }
        assert(y.contains(y.last()));
        lemma_inside_tag(t);
        assert(s.drop_last() =~= seq!['<'] + t);
        assert(s.last() == y.last());
    }
}

/// A tag leaves nothing behind, and what stands in front of it and behind it stays.
pub proof fn law_tags_vanish(x: Seq<char>, y: Seq<char>, z: Seq<char>)
    requires
        !x.contains('<'),
        !x.contains('>'),
        !y.contains('>'),
    ensures
        untagged(x + seq!['<'] + y + seq!['>'] + z) == x + untagged(z),
{
    law_plain_text_untouched(x);
    lemma_inside_tag(y);
    let tag = seq!['<'] + y + seq!['>'];
    assert(tag.drop_last() =~= seq!['<'] + y);
    assert(tag.last() == '>');
    assert(untagged(tag) =~= Seq::<char>::empty());
    assert(!tag_open(tag));
    lemma_untagged_add(tag, z);
    lemma_untagged_add(x, tag + z);
    assert(x + seq!['<'] + y + seq!['>'] + z =~= x + (tag + z));
    assert(untagged(tag) + untagged(z) =~= untagged(z));
}

/// How escapes are resolved: two hexadecimal digits behind a percent sign are the character with that
/// number, other two characters behind one are dropped with it, a plus sign is a space, and every
/// other character stands for itself.
pub proof fn law_escapes(a: int, b: int, x: char, y: char, c: char, rest: Seq<char>)
    requires
        0 <= a < 16,
        0 <= b < 16,
        x == "0123456789abcdef"@[a] || x == "0123456789ABCDEF"@[a],
        y == "0123456789abcdef"@[b] || y == "0123456789ABCDEF"@[b],
        c != '%',
        c != '+',
    ensures
        url_decoded(seq!['%', x, y] + rest) == seq![(16 * a + b) as char] + url_decoded(rest),
        url_decoded(seq!['+'] + rest) == seq![' '] + url_decoded(rest),
        url_decoded(seq![c] + rest) == seq![c] + url_decoded(rest),
        url_decoded(Seq::empty()) == Seq::<char>::empty(),
{
    reveal_strlit("0123456789abcdef");
    reveal_strlit("0123456789ABCDEF");
    let s = seq!['%', x, y] + rest;
    assert(s.skip(3) =~= rest);
    assert(s.subrange(1, 3) =~= seq![x, y]);
    assert(hex_digit(x) == Some(a as nat));
    assert(hex_digit(y) == Some(b as nat));
    assert((seq!['+'] + rest).skip(1) =~= rest);
    assert((seq![c] + rest).skip(1) =~= rest);
}

/// An escape whose first character is no hexadecimal digit leaves nothing, and one that the end of the
/// text cuts off is read as far as it goes.
pub proof fn law_other_escapes(a: int, x: char, y: char, rest: Seq<char>)
    requires
        0 <= a < 16,
    ensures
        !"0123456789abcdefABCDEF"@.contains(x) && x != '+' ==> url_decoded(
            seq!['%', x, y] + rest,
        ) == url_decoded(rest),
        url_decoded(seq!['%']) == Seq::<char>::empty(),
        url_decoded(seq!['%', "0123456789abcdef"@[a]]) == seq![a as char],
{
    reveal_strlit("0123456789abcdefABCDEF");
    reveal_strlit("0123456789abcdef");
    let d = "0123456789abcdefABCDEF"@;
    let s = seq!['%', x, y] + rest;
    assert(s.skip(3) =~= rest);
    assert(s.subrange(1, 3) =~= seq![x, y]);
    if !d.contains(x) {
        lemma_no_hex_digit(x);
    }
    assert(seq!['%'].skip(1) =~= Seq::<char>::empty());
    assert(seq!['%'].subrange(1, 1) =~= Seq::<char>::empty());
    assert(url_decoded(Seq::<char>::empty()) =~= Seq::<char>::empty());
    let c = "0123456789abcdef"@[a];
    let t = seq!['%', c];
    assert(t.skip(2) =~= Seq::<char>::empty());
    assert(t.subrange(1, 2) =~= seq![c]);
    assert(hex_digit(c) == Some(a as nat));
    assert(seq![a as char] + Seq::<char>::empty() =~= seq![a as char]);
}

proof fn lemma_no_hex_digit(x: char)
    requires
        !"0123456789abcdefABCDEF"@.contains(x),
    ensures
        hex_digit(x) is None,
{
    reveal_strlit("0123456789abcdefABCDEF");
    let d = "0123456789abcdefABCDEF"@;
    assert(d[0] == '0' && d[1] == '1' && d[2] == '2' && d[3] == '3' && d[4] == '4' && d[5] == '5'
        && d[6] == '6' && d[7] == '7' && d[8] == '8' && d[9] == '9' && d[10] == 'a' && d[11] == 'b'
        && d[12] == 'c' && d[13] == 'd' && d[14] == 'e' && d[15] == 'f' && d[16] == 'A' && d[17]
        == 'B' && d[18] == 'C' && d[19] == 'D' && d[20] == 'E' && d[21] == 'F');
}

} // verus!
