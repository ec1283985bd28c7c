//! The lines of the windows.
use crate::agent::workspace::{
    file_views, GitStatus, GitStatusView, WorkspaceFile, WorkspaceFileView,
};
use crate::bytes::{byte_len, byte_length, char_index, index_at_byte, lemma_index_at_byte};
use crate::config::{Config, ConfigView};
use crate::text::{
    begins, chars_of, decimal, decimal_of, lemma_views_push, lines, lines_of, option_view,
    starts_with, string_between, trim, trimmed, views,
};
use crate::tui::layout::{push_row, repeat, repeated, row, row_views, Row, RowView, Tone};
use crate::tui::modal::pair_views;
use vstd::prelude::*;
use vstd::string::*;

verus! {

/// The mark in front of a line of a list: an arrow at the one that is chosen.
pub open spec fn marker(active: bool) -> Seq<char> {
    if active {
        "❯ "@
    } else {
        "  "@
    }
}

/// The tone of a line of a list.
pub open spec fn tone(active: bool) -> Tone {
    if active {
        Tone::Active
    } else {
        Tone::Idle
    }
}

/// A list with a choice: each line with its mark.
pub open spec fn listed(items: Seq<Seq<char>>, selected: usize) -> Seq<RowView> {
    Seq::new(items.len(), |i: int| row(marker(selected == i) + items[i], tone(selected == i)))
}

fn marked(active: bool, text: &str) -> (r: String)
    ensures
        r@ == marker(active) + text@,
{
    let mut s = String::from_str(
        if active {
            "❯ "
        } else {
            "  "
        },
    );
    s.append(text);
    s
}

/// A list with a choice.
pub fn choice_rows(items: &Vec<String>, selected: usize) -> (r: Vec<Row>)
    ensures
        row_views(r@) == listed(views(items@), selected),
{
    let ghost all = listed(views(items@), selected);
    let mut rows: Vec<Row> = Vec::new();
    let mut i: usize = 0;
    assert(row_views(rows@) =~= all.take(0));
    while i < items.len()
        invariant
            all == listed(views(items@), selected),
            i <= items@.len(),
            row_views(rows@) == all.take(i as int),
        decreases items@.len() - i,
    {
        let active = selected == i;
        let text = marked(active, items[i].as_str());
        push_row(
            &mut rows,
            text,
            if active {
                Tone::Active
            } else {
                Tone::Idle
            },
        );
        assert(all.take(i + 1) =~= all.take(i as int).push(all[i as int]));
        i += 1;
    }
    assert(all.take(items@.len() as int) =~= all);
    rows
}

// ---------------------------------------------------------------------------------------------
// Models
// ---------------------------------------------------------------------------------------------

/// A text with blanks behind it, up to a width.
pub open spec fn padded(s: Seq<char>, width: nat) -> Seq<char> {
    if s.len() < width {
        s + repeated(" "@, (width - s.len()) as nat)
    } else {
        s
    }
}

/// A model in a list: its provider in brackets, padded, and its name.
pub open spec fn model_line(provider: Seq<char>, model: Seq<char>) -> Seq<char> {
    padded("["@ + provider + "]"@, 15) + " "@ + model
}

fn model_text(provider: &str, model: &str) -> (r: String)
    ensures
        r@ == model_line(provider@, model@),
{
    let mut s = String::from_str("[");
    s.append(provider);
    s.append("]");
    let n = chars_of(s.as_str()).len();
    if n < 15 {
        let blanks = repeat(" ", 15 - n);
        s.append(blanks.as_str());
    }
    s.append(" ");
    s.append(model);
    s
}

/// The models that can be chosen.
pub fn model_rows(models: &Vec<(String, String)>, selected: usize) -> (r: Vec<Row>)
    ensures
        row_views(r@) == listed(
            pair_views(models@).map_values(|m: (Seq<char>, Seq<char>)| model_line(m.0, m.1)),
            selected,
        ),
{
    let ghost all = pair_views(models@).map_values(
        |m: (Seq<char>, Seq<char>)| model_line(m.0, m.1),
    );
    let mut texts: Vec<String> = Vec::new();
    let mut i: usize = 0;
    assert(views(texts@) =~= all.take(0));
    while i < models.len()
        invariant
            all == pair_views(models@).map_values(
                |m: (Seq<char>, Seq<char>)| model_line(m.0, m.1),
            ),
            i <= models@.len(),
            views(texts@) == all.take(i as int),
        decreases models@.len() - i,
    {
        let text = model_text(models[i].0.as_str(), models[i].1.as_str());
        proof {
            lemma_views_push(texts@, text);
        }
        texts.push(text);
        assert(all[i as int] == text@);
        assert(all.take(i + 1) =~= all.take(i as int).push(all[i as int]));
        i += 1;
    }
    assert(all.take(models@.len() as int) =~= all);
    choice_rows(&texts, selected)
}

// ---------------------------------------------------------------------------------------------
// Consent
// ---------------------------------------------------------------------------------------------

/// What the window says that asks for consent to a tool call, which is given in JSON.
pub fn tool_request_text(call: &str, pending: usize) -> (r: String)
    ensures
        r@ == "An automated agent component is requesting tool authorization:\n\n"@ + call@
            + "\n\nQueued operations pending: "@ + decimal(pending as nat),
{
    let mut s = String::from_str(
        "An automated agent component is requesting tool authorization:\n\n",
    );
    s.append(call);
    s.append("\n\nQueued operations pending: ");
    let n = decimal_of(pending as u64);
    s.append(n.as_str());
    s
}

/// What the window says that asks for consent to run code.
pub fn code_request_text(language: &str, code: &str, pending: usize) -> (r: String)
    ensures
        r@ == "AI runtime environment requested local shell execution ("@ + language@
            + ") :\n\n"@ + code@ + "\n\nPending actions: "@ + decimal(pending as nat),
{
    let mut s = String::from_str("AI runtime environment requested local shell execution (");
    s.append(language);
    s.append(") :\n\n");
    s.append(code);
    s.append("\n\nPending actions: ");
    let n = decimal_of(pending as u64);
    s.append(n.as_str());
    s
}

// ---------------------------------------------------------------------------------------------
// Settings
// ---------------------------------------------------------------------------------------------

/// Whether a key can be masked: it is short, or its fourth byte and its fourth last one lie
/// between characters.
pub open spec fn maskable(key: Seq<char>) -> bool {
    byte_len(key) > 8 ==> index_at_byte(key, 4) is Some && index_at_byte(
        key,
        (byte_len(key) - 4) as nat,
    ) is Some
}

/// What is shown of a key: its first and its last four bytes, and of a short one nothing.
pub open spec fn masked(key: Seq<char>) -> Seq<char> {
    if byte_len(key) > 8 {
        key.take(index_at_byte(key, 4)->0 as int) + "..."@ + key.skip(
            index_at_byte(key, (byte_len(key) - 4) as nat)->0 as int,
        )
    } else {
        "***"@
    }
}

/// Decides `maskable`.
pub fn is_maskable(key: &str) -> (r: bool)
    ensures
        r == maskable(key@),
{
    let n = byte_length(key);
    if n > 8 {
        let s = chars_of(key);
        char_index(s.as_slice(), 4).is_some() && char_index(s.as_slice(), n - 4).is_some()
    } else {
        true
    }
}

/// What is shown of a key.
pub fn mask_key(key: &str) -> (r: String)
    requires
        maskable(key@),
    ensures
        r@ == masked(key@),
{
    let n = byte_length(key);
    if n > 8 {
        let s = chars_of(key);
        if let (Some(a), Some(b)) = (
            char_index(s.as_slice(), 4),
            char_index(s.as_slice(), n - 4),
        ) {
            let mut out = string_between(s.as_slice(), 0, a);
            assert(out@ =~= key@.take(a as int));
            out.append("...");
            let tail = string_between(s.as_slice(), b, s.len());
            assert(tail@ =~= key@.skip(b as int));
            out.append(tail.as_str());
            return out;
        }
    }
    String::from_str("***")
}

/// A long key is never shown in full: its first four bytes, its last four, and dots between them.
pub proof fn law_keys_are_masked(key: Seq<char>)
    requires
        maskable(key),
        byte_len(key) > 8,
    ensures
        exists|head: Seq<char>, tail: Seq<char>|
            #![auto]
            masked(key) == head + "..."@ + tail && byte_len(head) == 4 && byte_len(tail) == 4
                && head.is_prefix_of(key) && tail.is_suffix_of(key),
{
    let a = index_at_byte(key, 4)->0;
    let b = index_at_byte(key, (byte_len(key) - 4) as nat)->0;
    lemma_index_at_byte(key, 4);
    lemma_index_at_byte(key, (byte_len(key) - 4) as nat);
    let head = key.take(a as int);
    let tail = key.skip(b as int);
    lemma_byte_len_split(key, b as int);
    assert(masked(key) == head + "..."@ + tail);
}

proof fn lemma_byte_len_split(s: Seq<char>, k: int)
    requires
        0 <= k <= s.len(),
    ensures
        byte_len(s) == byte_len(s.take(k)) + byte_len(s.skip(k)),
    decreases k,
{
    if k == 0 {
        assert(s.take(0) =~= Seq::<char>::empty());
        assert(s.skip(0) =~= s);
    } else {
        let t = s.skip(1);
        lemma_byte_len_split(t, k - 1);
        assert(s.take(k).skip(1) =~= t.take(k - 1));
        assert(s.take(k)[0] == s[0]);
        assert(t.skip(k - 1) =~= s.skip(k));
    }
}

/// A setting that may be missing.
pub open spec fn set_or(v: Option<Seq<char>>, missing: Seq<char>) -> Seq<char> {
    match v {
        Some(s) => s,
        None => missing,
    }
}

/// The settings, a line each.
pub open spec fn setting_lines(c: ConfigView) -> Seq<Seq<char>> {
    seq![
        "Model Path"@ + " : "@ + c.model_path,
        "Vault Path"@ + " : "@ + c.vault_path,
        "Llama Server"@ + " : "@ + set_or(c.llama_server_path, "(bundled)"@),
        "GPU Layers"@ + " : "@ + decimal(c.gpu_layers as nat),
        "Ctx Size"@ + " : "@ + decimal(c.ctx_size as nat),
        "Port"@ + " : "@ + decimal(c.port as nat),
        "Summarize on Exit"@ + " : "@ + if c.summarize_on_exit {
            "true"@
        } else {
            "false"@
        },
        "API Provider"@ + " : "@ + c.api_provider,
        "API Key"@ + " : "@ + match c.api_key {
            Some(k) => masked(k),
            None => "(env var)"@,
        },
        "API Model"@ + " : "@ + set_or(c.api_model, "(default)"@),
    ]
}

fn setting(name: &str, value: &str) -> (r: String)
    ensures
        r@ == name@ + " : "@ + value@,
{
    let mut s = String::from_str(name);
    s.append(" : ");
    s.append(value);
    s
}

fn str_or<'a>(v: &'a Option<String>, missing: &'a str) -> (r: &'a str)
    ensures
        r@ == set_or(option_view(*v), missing@),
{
    match v {
        Some(s) => s.as_str(),
        None => missing,
    }
}

/// The lines of the window of the settings.
pub fn config_rows(cfg: &Config, active_field: usize) -> (r: Vec<Row>)
    requires
        cfg@.api_key matches Some(k) ==> maskable(k),
    ensures
        row_views(r@) == listed(setting_lines(cfg@), active_field),
{
    let mut texts: Vec<String> = Vec::new();
    texts.push(setting("Model Path", cfg.model_path.as_str()));
    texts.push(setting("Vault Path", cfg.vault_path.as_str()));
    texts.push(setting("Llama Server", str_or(&cfg.llama_server_path, "(bundled)")));
    let layers = decimal_of(cfg.gpu_layers as u64);
    texts.push(setting("GPU Layers", layers.as_str()));
    let ctx = decimal_of(cfg.ctx_size as u64);
    texts.push(setting("Ctx Size", ctx.as_str()));
    let port = decimal_of(cfg.port as u64);
    texts.push(setting("Port", port.as_str()));
    texts.push(
        setting(
            "Summarize on Exit",
            if cfg.summarize_on_exit {
                "true"
            } else {
                "false"
            },
        ),
    );
    texts.push(setting("API Provider", cfg.api_provider.as_str()));
    let key = match &cfg.api_key {
        Some(k) => mask_key(k.as_str()),
        None => String::from_str("(env var)"),
    };
    texts.push(setting("API Key", key.as_str()));
    texts.push(setting("API Model", str_or(&cfg.api_model, "(default)")));
    assert(views(texts@) =~= setting_lines(cfg@));
    choice_rows(&texts, active_field)
}

// ---------------------------------------------------------------------------------------------
// Code blocks
// ---------------------------------------------------------------------------------------------

/// The first line of code, without white space at either end.
pub open spec fn first_line(code: Seq<char>) -> Seq<char> {
    if lines(code).len() == 0 {
        Seq::empty()
    } else {
        trim(lines(code)[0])
    }
}

/// Whether the first line can be shortened: its twelfth byte ends a character, or it is short.
pub open spec fn shortenable(line: Seq<char>) -> bool {
    byte_len(line) > 14 ==> index_at_byte(line, 12) is Some
}

/// The first line, or its first twelve bytes and dots.
pub open spec fn shortened(line: Seq<char>) -> Seq<char> {
    if byte_len(line) > 14 {
        line.take(index_at_byte(line, 12)->0 as int) + "..."@
    } else {
        line
    }
}

/// Whether the lines of the window of the code blocks can be made.
pub open spec fn previewable(blocks: Seq<(Seq<char>, Seq<char>)>) -> bool {
    forall|i: int| 0 <= i < blocks.len() ==> shortenable(first_line((#[trigger] blocks[i]).1))
}

/// A code block in a list: its language, and the beginning of its code.
pub open spec fn block_line(block: (Seq<char>, Seq<char>)) -> Seq<char> {
    block.0 + " "@ + shortened(first_line(block.1))
}

fn first_line_of(code: &str) -> (r: String)
    ensures
        r@ == first_line(code@),
{
    let l = lines_of(code);
    assert(views(l@).len() == l@.len());
    if l.len() == 0 {
        String::new()
    } else {
        assert(views(l@)[0] == l@[0]@);
        trimmed(l[0].as_str())
    }
}

/// Decides `shortenable`.
pub fn is_shortenable(line: &str) -> (r: bool)
    ensures
        r == shortenable(line@),
{
    if byte_length(line) > 14 {
        let s = chars_of(line);
        char_index(s.as_slice(), 12).is_some()
    } else {
        true
    }
}

/// Decides `previewable`.
pub fn is_previewable(blocks: &Vec<(String, String)>) -> (r: bool)
    ensures
        r == previewable(pair_views(blocks@)),
{
    let ghost b = pair_views(blocks@);
    let mut i: usize = 0;
    while i < blocks.len()
        invariant
            b == pair_views(blocks@),
            i <= blocks@.len(),
            forall|k: int| 0 <= k < i ==> shortenable(first_line((#[trigger] b[k]).1)),
        decreases blocks@.len() - i,
    {
        assert(b[i as int] == (blocks@[i as int].0@, blocks@[i as int].1@));
        let line = first_line_of(blocks[i].1.as_str());
        if !is_shortenable(line.as_str()) {
            return false;
        }
        i += 1;
    }
    true
}

fn shorten(line: &str) -> (r: String)
    requires
        shortenable(line@),
    ensures
        r@ == shortened(line@),
{
    if byte_length(line) > 14 {
        let s = chars_of(line);
        if let Some(a) = char_index(s.as_slice(), 12) {
            let mut out = string_between(s.as_slice(), 0, a);
            assert(out@ =~= line@.take(a as int));
            out.append("...");
            return out;
        }
    }
    String::from_str(line)
}

/// The list in the window of the code blocks.
pub fn block_rows(blocks: &Vec<(String, String)>, selected: usize) -> (r: Vec<Row>)
    requires
        previewable(pair_views(blocks@)),
    ensures
        row_views(r@) == listed(
            pair_views(blocks@).map_values(|b: (Seq<char>, Seq<char>)| block_line(b)),
            selected,
        ),
{
    let ghost b = pair_views(blocks@);
    let ghost all = b.map_values(|b: (Seq<char>, Seq<char>)| block_line(b));
    let mut texts: Vec<String> = Vec::new();
    let mut i: usize = 0;
    assert(views(texts@) =~= all.take(0));
    while i < blocks.len()
        invariant
            b == pair_views(blocks@),
            all == b.map_values(|b: (Seq<char>, Seq<char>)| block_line(b)),
            previewable(b),
            i <= blocks@.len(),
            views(texts@) == all.take(i as int),
        decreases blocks@.len() - i,
    {
        assert(b[i as int] == (blocks@[i as int].0@, blocks@[i as int].1@));
        let line = first_line_of(blocks[i].1.as_str());
        let short = shorten(line.as_str());
        let mut text = blocks[i].0.clone();
        text.append(" ");
        text.append(short.as_str());
        proof {
            lemma_views_push(texts@, text);
        }
        texts.push(text);
        assert(all[i as int] == text@);
        assert(all.take(i + 1) =~= all.take(i as int).push(all[i as int]));
        i += 1;
    }
    assert(all.take(blocks@.len() as int) =~= all);
    choice_rows(&texts, selected)
}

// ---------------------------------------------------------------------------------------------
// Workspace
// ---------------------------------------------------------------------------------------------

/// How often a character occurs.
pub open spec fn occurrences(s: Seq<char>, c: char) -> nat
    decreases s.len(),
{
    if s.len() == 0 {
        0
    } else if s.last() == c {
        occurrences(s.drop_last(), c) + 1
    } else {
        occurrences(s.drop_last(), c)
    }
}

/// What follows the last occurrence of a character; all of it where there is none.
pub open spec fn after_last(s: Seq<char>, c: char) -> Seq<char>
    decreases s.len(),
{
    if s.len() == 0 || s.last() == c {
        Seq::empty()
    } else {
        after_last(s.drop_last(), c).push(s.last())
    }
}

/// A file in a list: indented by its depth, with an icon, its name, and its size.
pub open spec fn file_line(f: WorkspaceFileView) -> Seq<char> {
    repeated("  "@, occurrences(f.relative_path, '/')) + (if f.is_dir {
        "📁"@
    } else {
        "📄"@
    }) + " "@ + after_last(f.relative_path, '/') + if f.is_dir {
        Seq::empty()
    } else {
        " ("@ + decimal(f.size as nat) + "B)"@
    }
}

fn depth_and_name(path: &str) -> (r: (usize, String))
    ensures
        r.0 == occurrences(path@, '/'),
        r.1@ == after_last(path@, '/'),
{
    let s = chars_of(path);
    let mut depth: usize = 0;
    let mut name = String::new();
    let mut i: usize = 0;
    assert(s@.take(0) =~= Seq::empty());
    while i < s.len()
        invariant
            i <= s.len(),
            depth <= i,
            depth == occurrences(s@.take(i as int), '/'),
            name@ == after_last(s@.take(i as int), '/'),
        decreases s.len() - i,
    {
        assert(s@.take(i + 1).drop_last() =~= s@.take(i as int));
        assert(s@.take(i + 1).last() == s@[i as int]);
        if s[i] == '/' {
            depth += 1;
            name = String::new();
        } else {
            name.push(s[i]);
        }
        i += 1;
    }
    assert(s@.take(s@.len() as int) =~= s@);
    (depth, name)
}

fn file_text(f: &WorkspaceFile) -> (r: String)
    ensures
        r@ == file_line(f@),
{
    let (depth, name) = depth_and_name(f.relative_path.as_str());
    let mut s = repeat("  ", depth);
    s.append(
        if f.is_dir {
            "📁"
        } else {
            "📄"
        },
    );
    s.append(" ");
    s.append(name.as_str());
    if !f.is_dir {
        let ghost before = s@;
        s.append(" (");
        let size = decimal_of(f.size);
        s.append(size.as_str());
        s.append("B)");
        assert(s@ =~= before + (" ("@ + decimal(f.size as nat) + "B)"@));
    } else {
        assert(s@ + Seq::<char>::empty() =~= s@);
    }
    s
}

/// The lines of the window of the workspace.
pub fn workspace_rows(files: &Vec<WorkspaceFile>, selected: usize) -> (r: Vec<Row>)
    ensures
        row_views(r@) == listed(
            file_views(files@).map_values(|f: WorkspaceFileView| file_line(f)),
            selected,
        ),
{
    let ghost all = file_views(files@).map_values(|f: WorkspaceFileView| file_line(f));
    let mut texts: Vec<String> = Vec::new();
    let mut i: usize = 0;
    assert(views(texts@) =~= all.take(0));
    while i < files.len()
        invariant
            all == file_views(files@).map_values(|f: WorkspaceFileView| file_line(f)),
            i <= files@.len(),
            views(texts@) == all.take(i as int),
        decreases files@.len() - i,
    {
        let text = file_text(&files[i]);
        proof {
            lemma_views_push(texts@, text);
        }
        texts.push(text);
        assert(all[i as int] == text@);
        assert(all.take(i + 1) =~= all.take(i as int).push(all[i as int]));
        i += 1;
    }
    assert(all.take(files@.len() as int) =~= all);
    choice_rows(&texts, selected)
}

// ---------------------------------------------------------------------------------------------
// Repository
// ---------------------------------------------------------------------------------------------

/// The lines of files, which are numbered from `first` on: each with a mark, an icon and its name.
pub open spec fn changed_rows(
    files: Seq<Seq<char>>,
    first: int,
    selected: usize,
    icon: Seq<char>,
    active: Tone,
) -> Seq<RowView> {
    Seq::new(
        files.len(),
        |i: int|
            row(
                marker(selected == first + i) + icon + files[i],
                if selected == first + i {
                    active
                } else {
                    Tone::Idle
                },
            ),
    )
}

/// The number of the first untracked file.
pub open spec fn untracked_first(s: GitStatusView) -> int {
    s.modified_files.len() + 2 + if s.modified_files.len() == 0 {
        0int
    } else {
        1int
    }
}

/// The lines of the window of the repository.
pub open spec fn git_lines(s: GitStatusView, selected: usize) -> Seq<RowView> {
    let head = seq![row("🌿 Branch: "@ + s.branch, Tone::Branch), row(Seq::empty(), Tone::Plain)];
    let modified = if s.modified_files.len() == 0 {
        Seq::empty()
    } else {
        seq![row("Modified:"@, Tone::ModifiedHeading)] + changed_rows(
            s.modified_files,
            2,
            selected,
            "📝 "@,
            Tone::ActiveModified,
        )
    };
    let untracked = if s.untracked_files.len() == 0 {
        Seq::empty()
    } else {
        seq![row(Seq::empty(), Tone::Plain), row("Untracked:"@, Tone::UntrackedHeading)]
            + changed_rows(
            s.untracked_files,
            untracked_first(s),
            selected,
            "❓ "@,
            Tone::ActiveUntracked,
        )
    };
    let clean = if s.changes() == 0 {
        seq![row(Seq::empty(), Tone::Plain), row("Working tree clean"@, Tone::Clean)]
    } else {
        Seq::empty()
    };
    head + modified + untracked + clean
}

fn push_changed(
    rows: &mut Vec<Row>,
    files: &Vec<String>,
    first: u128,
    selected: usize,
    icon: &str,
    active: Tone,
)
    requires
        first + files@.len() <= u128::MAX,
    ensures
        row_views(final(rows)@) == row_views(old(rows)@) + changed_rows(
            views(files@),
            first as int,
            selected,
            icon@,
            active,
        ),
{
    let ghost all = changed_rows(views(files@), first as int, selected, icon@, active);
    let ghost start = row_views(rows@);
    let mut i: usize = 0;
    assert(start + all.take(0) =~= start);
    while i < files.len()
        invariant
            all == changed_rows(views(files@), first as int, selected, icon@, active),
            first + files@.len() <= u128::MAX,
            i <= files@.len(),
            row_views(rows@) == start + all.take(i as int),
        decreases files@.len() - i,
    {
        let chosen = selected as u128 == first + i as u128;
        let mut text = marked(chosen, icon);
        text.append(files[i].as_str());
        push_row(
            rows,
            text,
            if chosen {
                active
            } else {
                Tone::Idle
            },
        );
        assert(all[i as int].text =~= text@);
        assert(all.take(i + 1) =~= all.take(i as int).push(all[i as int]));
        i += 1;
        assert(row_views(rows@) =~= start + all.take(i as int));
    }
    assert(all.take(files@.len() as int) =~= all);
}

/// The lines of the window of the repository.
pub fn git_rows(status: &GitStatus, selected: usize) -> (r: Vec<Row>)
    ensures
        row_views(r@) == git_lines(status@, selected),
{
    let ghost s = status@;
    assert(s.modified_files.len() == status.modified_files@.len());
    assert(s.untracked_files.len() == status.untracked_files@.len());
    let mut rows: Vec<Row> = Vec::new();
    let mut branch = String::from_str("🌿 Branch: ");
    branch.append(status.branch.as_str());
    push_row(&mut rows, branch, Tone::Branch);
    push_row(&mut rows, String::new(), Tone::Plain);
    if status.modified_files.len() > 0 {
        push_row(&mut rows, String::from_str("Modified:"), Tone::ModifiedHeading);
        push_changed(
            &mut rows,
            &status.modified_files,
            2,
            selected,
            "📝 ",
            Tone::ActiveModified,
        );
    }
    if status.untracked_files.len() > 0 {
        push_row(&mut rows, String::new(), Tone::Plain);
        push_row(&mut rows, String::from_str("Untracked:"), Tone::UntrackedHeading);
        let first: u128 = status.modified_files.len() as u128 + 2 + if status.modified_files.len()
            == 0 {
            0
        } else {
            1
        };
        push_changed(
            &mut rows,
            &status.untracked_files,
            first,
            selected,
            "❓ ",
            Tone::ActiveUntracked,
        );
    }
    if status.modified_files.len() == 0 && status.untracked_files.len() == 0 {
        push_row(&mut rows, String::new(), Tone::Plain);
        push_row(&mut rows, String::from_str("Working tree clean"), Tone::Clean);
    }
    assert(row_views(rows@) =~= git_lines(s, selected));
    rows
}

// ---------------------------------------------------------------------------------------------
// Changes
// ---------------------------------------------------------------------------------------------

/// The tone of a line of a change: added, removed, or the mark of a section.
pub open spec fn diff_tone(line: Seq<char>) -> Tone {
    if begins(line, "+"@) && !begins(line, "+++"@) {
        Tone::Added
    } else if begins(line, "-"@) && !begins(line, "---"@) {
        Tone::Removed
    } else if begins(line, "@"@) {
        Tone::Hunk
    } else {
        Tone::Plain
    }
}

/// The lines of a change.
pub open spec fn diff_lines(diff: Seq<char>) -> Seq<RowView> {
    lines(diff).map_values(|l: Seq<char>| row(l, diff_tone(l)))
}

/// The lines of a change.
pub fn diff_rows(diff: &str) -> (r: Vec<Row>)
    ensures
        row_views(r@) == diff_lines(diff@),
{
    let l = lines_of(diff);
    let ghost all = diff_lines(diff@);
    let mut rows: Vec<Row> = Vec::new();
    let mut i: usize = 0;
    assert(row_views(rows@) =~= all.take(0));
    while i < l.len()
        invariant
            views(l@) == lines(diff@),
            all == diff_lines(diff@),
            i <= l@.len(),
            row_views(rows@) == all.take(i as int),
        decreases l@.len() - i,
    {
        assert(views(l@)[i as int] == l@[i as int]@);
        let line = l[i].as_str();
        let tone = if starts_with(line, "+") && !starts_with(line, "+++") {
            Tone::Added
        } else if starts_with(line, "-") && !starts_with(line, "---") {
            Tone::Removed
        } else if starts_with(line, "@") {
            Tone::Hunk
        } else {
            Tone::Plain
        };
        push_row(&mut rows, l[i].clone(), tone);
        assert(all.take(i + 1) =~= all.take(i as int).push(all[i as int]));
        i += 1;
    }
    assert(views(l@).len() == l@.len());
    assert(all.take(l@.len() as int) =~= all);
    rows
}

/// Exactly one line of a list is marked: the one that is chosen.
pub proof fn law_one_choice(items: Seq<Seq<char>>, selected: usize, i: int)
    requires
        0 <= i < items.len(),
    ensures
        listed(items, selected).len() == items.len(),
        listed(items, selected)[i].tone == Tone::Active <==> i == selected,
        listed(items, selected)[i].text == marker(i == selected) + items[i],
{
}

} // verus!
