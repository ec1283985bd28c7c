//! What stands on the screen, whatever is shown: nothing is left out, and nothing is made up.
use crate::agent::workspace::{GitStatusView, WorkspaceFileView};
use crate::backend::protocol::ChatMessageView;
use crate::bytes::{byte_len, index_at_byte, lemma_index_at_byte};
use crate::config::ConfigView;
use crate::outside::wrapped;
use crate::text::{begins, decimal, lines, trim};
use crate::tui::layout::{
    all_broken, all_message_rows, broken, chat, chat_position, page_position, repeated, wrap_width,
    RowView, Tone,
};
use crate::tui::windows::{
    after_last, block_line, diff_lines, diff_tone, file_line, first_line, git_lines, listed, masked,
    model_line, occurrences, padded, setting_lines, shortenable, shortened,
};
use vstd::prelude::*;
use vstd::string::*;

verus! {

/// A line of text.
pub open spec fn line(text: Seq<char>, tone: Tone) -> RowView {
    RowView { text, tone }
}

// ---------------------------------------------------------------------------------------------
// The chat
// ---------------------------------------------------------------------------------------------

/// Every message that is no instruction is shown whole, below those before it: a heading that says who
/// speaks, all its lines, and an empty line.
pub proof fn law_every_message_is_shown(m: Seq<ChatMessageView>, x: ChatMessageView, width: u16)
    ensures
        ({
            let w: nat = if width >= 12 {
                (width - 2) as nat
            } else {
                10
            };
            let none = Seq::<char>::empty();
            &&& x.role == "system"@ ==> chat(m.push(x), none, width) == chat(m, none, width)
            &&& x.role != "system"@ ==> chat(m.push(x), none, width) == chat(m, none, width) + seq![
                if x.role == "user"@ {
                    line("❯ You"@, Tone::User)
                } else if x.role == "assistant"@ {
                    line("❯ AI Assistant"@, Tone::Assistant)
                } else {
                    line("❯ System"@, Tone::Other)
                },
            ] + all_broken(lines(x.content), w) + seq![line(Seq::empty(), Tone::Plain)]
            &&& chat(Seq::empty(), none, width) == Seq::<RowView>::empty()
        }),
{
    let w = wrap_width(width);
    assert(m.push(x).drop_last() =~= m);
    let before = all_message_rows(m, w);
    if x.role == "system"@ {
        assert(before + Seq::<RowView>::empty() =~= before);
    } else {
        assert(chat(m.push(x), Seq::empty(), width) =~= chat(m, Seq::empty(), width) + seq![
            if x.role == "user"@ {
                line("❯ You"@, Tone::User)
            } else if x.role == "assistant"@ {
                line("❯ AI Assistant"@, Tone::Assistant)
            } else {
                line("❯ System"@, Tone::Other)
            },
        ] + all_broken(lines(x.content), w) + seq![line(Seq::empty(), Tone::Plain)]);
    }
}

/// The answer so far is shown whole below the messages.
pub proof fn law_the_answer_is_shown(m: Seq<ChatMessageView>, response: Seq<char>, width: u16)
    requires
        response.len() > 0,
    ensures
        chat(m, response, width) == chat(m, Seq::empty(), width) + seq![
            line("❯ AI Assistant "@, Tone::Streaming),
        ] + all_broken(
            lines(response),
            if width >= 12 {
                (width - 2) as nat
            } else {
                10
            },
        ),
{
    let w = wrap_width(width);
    assert(chat(m, response, width) =~= chat(m, Seq::empty(), width) + seq![
        line("❯ AI Assistant "@, Tone::Streaming),
    ] + all_broken(lines(response), w));
}

/// Each line of a text is broken by itself, and all that it is broken into is shown, in order. A line
/// that leaves nothing is shown as an empty one.
pub proof fn law_lines_are_broken(x: Seq<Seq<char>>, y: Seq<Seq<char>>, one: Seq<char>, width: nat)
    ensures
        all_broken(x + y, width) == all_broken(x, width) + all_broken(y, width),
        all_broken(Seq::empty(), width) == Seq::<RowView>::empty(),
        all_broken(seq![one], width) == broken(one, width),
        wrapped(one, width).len() == 0 ==> broken(one, width) == seq![
            line(Seq::empty(), Tone::Plain),
        ],
        wrapped(one, width).len() > 0 ==> {
            &&& broken(one, width).len() == wrapped(one, width).len()
            &&& forall|k: int|
                0 <= k < wrapped(one, width).len() ==> #[trigger] broken(one, width)[k] == line(
                    wrapped(one, width)[k],
                    Tone::Plain,
                )
        },
    decreases y.len(),
{
    reveal_with_fuel(all_broken, 2);
    assert(seq![one].drop_last() =~= Seq::<Seq<char>>::empty());
    assert(all_broken(seq![one], width) =~= broken(one, width));
    if y.len() == 0 {
        assert(x + y =~= x);
        assert(all_broken(x, width) + all_broken(y, width) =~= all_broken(x, width));
    } else {
        law_lines_are_broken(x, y.drop_last(), one, width);
        assert((x + y).drop_last() =~= x + y.drop_last());
        assert((x + y).last() == y.last());
        assert(all_broken(x + y, width) =~= all_broken(x, width) + all_broken(y, width));
    }
}

/// The chat is shown at its last line, or as many above it as it is scrolled, and a text is scrolled as
/// far as it can be and no further.
pub proof fn law_positions(total: usize, scroll: usize, height: usize)
    ensures
        total > 0 && scroll < total ==> chat_position(total, scroll) + scroll == total - 1,
        scroll >= total ==> chat_position(total, scroll) == 0,
        total <= height ==> page_position(scroll, total, height) == 0,
        total > height && scroll + height <= total ==> page_position(scroll, total, height)
            == scroll,
        total > height && scroll + height > total ==> page_position(scroll, total, height) + height
            == total,
{
}

// ---------------------------------------------------------------------------------------------
// Lists
// ---------------------------------------------------------------------------------------------

/// A list shows all its entries in order, and an arrow in front of the one that is chosen.
pub proof fn law_lists(items: Seq<Seq<char>>, selected: usize, k: int)
    requires
        0 <= k < items.len(),
    ensures
        listed(items, selected).len() == items.len(),
        k == selected ==> listed(items, selected)[k] == line("❯ "@ + items[k], Tone::Active),
        k != selected ==> listed(items, selected)[k] == line("  "@ + items[k], Tone::Idle),
{
}

/// Repeating a text as often as two numbers say together is repeating it as often as one says and then
/// the other.
pub proof fn law_repeated(s: Seq<char>, m: nat, n: nat)
    ensures
        repeated(s, 0) == Seq::<char>::empty(),
        repeated(s, 1) == s,
        repeated(s, m + n) == repeated(s, m) + repeated(s, n),
    decreases n,
{
    reveal_with_fuel(repeated, 2);
    assert(Seq::<char>::empty() + s =~= s);
    if n == 0 {
        assert(repeated(s, m) + repeated(s, 0) =~= repeated(s, m));
    } else {
        law_repeated(s, m, (n - 1) as nat);
        assert(repeated(s, m + n) =~= repeated(s, m) + repeated(s, n));
    }
}

/// A text is padded with blanks up to its width, and never cut.
pub proof fn law_padded(s: Seq<char>, width: nat)
    ensures
        s.is_prefix_of(padded(s, width)),
        padded(s, width).len() == (if s.len() >= width {
            s.len()
        } else {
            width
        }),
        forall|k: int| s.len() <= k < padded(s, width).len() ==> #[trigger] padded(s, width)[k] == ' ',
{
    if s.len() < width {
        lemma_blanks((width - s.len()) as nat);
        let b = repeated(" "@, (width - s.len()) as nat);
        assert forall|k: int| s.len() <= k < padded(s, width).len() implies #[trigger] padded(
            s,
            width,
        )[k] == ' ' by {
            assert(padded(s, width)[k] == b[k - s.len()]);
        }
    }
}

proof fn lemma_blanks(n: nat)
    ensures
        repeated(" "@, n).len() == n,
        forall|k: int| 0 <= k < n ==> #[trigger] repeated(" "@, n)[k] == ' ',
    decreases n,
{
    reveal_strlit(" ");
    if n > 0 {
        lemma_blanks((n - 1) as nat);
        let r = repeated(" "@, (n - 1) as nat);
        assert forall|k: int| 0 <= k < n implies #[trigger] repeated(" "@, n)[k] == ' ' by {
            if k < n - 1 {
                assert(repeated(" "@, n)[k] == r[k]);
            }
        }
    }
}

/// A model is listed with its provider in brackets, in a column of fifteen, and then its name.
pub proof fn law_models(provider: Seq<char>, model: Seq<char>)
    ensures
        ({
            let text = model_line(provider, model);
            let column = "["@ + provider + "]"@;
            &&& column.is_prefix_of(text)
            &&& text.len() == 1 + model.len() + if column.len() >= 15 {
                column.len()
            } else {
                15
            }
            &&& text.skip(text.len() - model.len()) == model
            &&& text[text.len() - model.len() - 1] == ' '
        }),
{
    let column = "["@ + provider + "]"@;
    law_padded(column, 15);
    reveal_strlit(" ");
    let p = padded(column, 15);
    let text = model_line(provider, model);
    assert(text == p + " "@ + model);
    assert(text.skip(text.len() - model.len()) =~= model);
    assert forall|k: int| 0 <= k < column.len() implies column[k] == text[k] by {
        assert(p[k] == column[k]);
    }
}

/// The window of the settings shows each of the ten settings under its name. A key is shown masked, and
/// what is not set is said to be so.
pub proof fn law_settings_are_shown(c: ConfigView)
    ensures
        ({
            let l = setting_lines(c);
            &&& l.len() == 10
            &&& l[0] == "Model Path"@ + " : "@ + c.model_path
            &&& l[1] == "Vault Path"@ + " : "@ + c.vault_path
            &&& c.llama_server_path matches Some(p) ==> l[2] == "Llama Server"@ + " : "@ + p
            &&& c.llama_server_path is None ==> l[2] == "Llama Server"@ + " : "@ + "(bundled)"@
            &&& l[3] == "GPU Layers"@ + " : "@ + decimal(c.gpu_layers as nat)
            &&& l[4] == "Ctx Size"@ + " : "@ + decimal(c.ctx_size as nat)
            &&& l[5] == "Port"@ + " : "@ + decimal(c.port as nat)
            &&& c.summarize_on_exit ==> l[6] == "Summarize on Exit"@ + " : "@ + "true"@
            &&& !c.summarize_on_exit ==> l[6] == "Summarize on Exit"@ + " : "@ + "false"@
            &&& l[7] == "API Provider"@ + " : "@ + c.api_provider
            &&& c.api_key matches Some(k) ==> l[8] == "API Key"@ + " : "@ + masked(k)
            &&& c.api_key is None ==> l[8] == "API Key"@ + " : "@ + "(env var)"@
            &&& c.api_model matches Some(m) ==> l[9] == "API Model"@ + " : "@ + m
            &&& c.api_model is None ==> l[9] == "API Model"@ + " : "@ + "(default)"@
        }),
{
}

/// A short key is not shown at all.
pub proof fn law_short_keys_are_hidden(key: Seq<char>)
    requires
        byte_len(key) <= 8,
    ensures
        masked(key) == "***"@,
{
}

/// A code block is listed with its language and the beginning of its first line: all of it, or its first
/// twelve bytes and dots.
pub proof fn law_block_lines(language: Seq<char>, code: Seq<char>)
    requires
        shortenable(first_line(code)),
    ensures
        block_line((language, code)) == language + " "@ + shortened(first_line(code)),
        lines(code).len() > 0 ==> first_line(code) == trim(lines(code)[0]),
        lines(code).len() == 0 ==> first_line(code).len() == 0,
        byte_len(first_line(code)) <= 14 ==> shortened(first_line(code)) == first_line(code),
        byte_len(first_line(code)) > 14 ==> exists|head: Seq<char>|
            head.is_prefix_of(first_line(code)) && byte_len(head) == 12 && shortened(
                first_line(code),
            ) == #[trigger] (head + "..."@),
{
    let l = first_line(code);
    if byte_len(l) > 14 {
        lemma_index_at_byte(l, 12);
        let head = l.take(index_at_byte(l, 12)->0 as int);
        assert(head.is_prefix_of(l));
        assert(shortened(l) == head + "..."@);
    }
}

// ---------------------------------------------------------------------------------------------
// The workspace and the repository
// ---------------------------------------------------------------------------------------------

/// What follows the last slash of a path is its name, and each slash counts for its depth.
pub proof fn law_paths(dir: Seq<char>, name: Seq<char>)
    requires
        !name.contains('/'),
    ensures
        after_last(dir.push('/') + name, '/') == name,
        after_last(name, '/') == name,
        occurrences(dir.push('/') + name, '/') == occurrences(dir, '/') + 1,
        occurrences(name, '/') == 0,
    decreases name.len(),
{
    if name.len() == 0 {
        assert(dir.push('/') + name =~= dir.push('/'));
        assert(dir.push('/').drop_last() =~= dir);
        assert(after_last(name, '/') =~= name);
        assert(after_last(dir.push('/') + name, '/') =~= name);
    } else {
        let rest = name.drop_last();
        assert forall|k: int| 0 <= k < rest.len() implies rest[k] != '/' by {
            assert(name.contains(name[k]));
        }
        assert(name.contains(name.last()));
        law_paths(dir, rest);
        let s = dir.push('/') + name;
        assert(s.drop_last() =~= dir.push('/') + rest);
        assert(s.last() == name.last());
        assert(rest.push(name.last()) =~= name);
    }
}

/// A file is listed under its name, indented by two blanks for each directory that it lies in, with its
/// size. A directory has no size.
pub proof fn law_files_are_listed(f: WorkspaceFileView)
    ensures
        f.is_dir ==> file_line(f) == repeated("  "@, occurrences(f.relative_path, '/')) + "📁"@ + " "@
            + after_last(f.relative_path, '/'),
        !f.is_dir ==> file_line(f) == repeated("  "@, occurrences(f.relative_path, '/')) + "📄"@
            + " "@ + after_last(f.relative_path, '/') + " ("@ + decimal(f.size as nat) + "B)"@,
{
    let front = repeated("  "@, occurrences(f.relative_path, '/'));
    let name = after_last(f.relative_path, '/');
    assert(f.is_dir ==> file_line(f) =~= front + "📁"@ + " "@ + name);
    assert(!f.is_dir ==> file_line(f) =~= front + "📄"@ + " "@ + name + " ("@ + decimal(
        f.size as nat,
    ) + "B)"@);
}

/// The window of the repository shows the branch and then every file that differs, in order: the
/// modified ones below their heading, and the untracked ones below theirs. Where none differs it says
/// so.
pub proof fn law_repository_is_shown(s: GitStatusView, selected: usize)
    ensures
        ({
            let l = git_lines(s, selected);
            let m = s.modified_files.len();
            let u = s.untracked_files.len();
            let front: int = if m == 0 {
                2
            } else {
                (3 + m) as int
            };
            &&& l[0] == line("🌿 Branch: "@ + s.branch, Tone::Branch)
            &&& l[1] == line(Seq::empty(), Tone::Plain)
            &&& m > 0 ==> l[2] == line("Modified:"@, Tone::ModifiedHeading)
            &&& forall|k: int|
                0 <= k < m ==> (#[trigger] l[3 + k]).text == (if selected == 2 + k {
                    "❯ "@
                } else {
                    "  "@
                }) + "📝 "@ + s.modified_files[k] && l[3 + k].tone == (if selected == 2 + k {
                    Tone::ActiveModified
                } else {
                    Tone::Idle
                })
            &&& u > 0 ==> l[front] == line(Seq::empty(), Tone::Plain) && l[front + 1] == line(
                "Untracked:"@,
                Tone::UntrackedHeading,
            )
            &&& forall|k: int|
                0 <= k < u ==> (#[trigger] l[front + 2 + k]).text == (if selected == front + k {
                    "❯ "@
                } else {
                    "  "@
                }) + "❓ "@ + s.untracked_files[k] && l[front + 2 + k].tone == (if selected == front
                    + k {
                    Tone::ActiveUntracked
                } else {
                    Tone::Idle
                })
            &&& u > 0 ==> l.len() == front + 2 + u
            &&& u == 0 && m > 0 ==> l.len() == front
            &&& u == 0 && m == 0 ==> l.len() == 4 && l[3] == line(
                "Working tree clean"@,
                Tone::Clean,
            )
        }),
{
}

// ---------------------------------------------------------------------------------------------
// Changes
// ---------------------------------------------------------------------------------------------

/// Every line of a preview is shown as it is. What is added and what is removed is coloured so, but not
/// the two lines that name the file.
pub proof fn law_changes_are_coloured(diff: Seq<char>, k: int)
    requires
        0 <= k < lines(diff).len(),
    ensures
        diff_lines(diff).len() == lines(diff).len(),
        diff_lines(diff)[k].text == lines(diff)[k],
        diff_lines(diff)[k].tone == diff_tone(lines(diff)[k]),
        ({
            let l = lines(diff)[k];
            &&& diff_tone(l) == Tone::Added <==> begins(l, "+"@) && !begins(l, "+++"@)
            &&& diff_tone(l) == Tone::Removed <==> begins(l, "-"@) && !begins(l, "---"@)
            &&& diff_tone(l) == Tone::Hunk <==> begins(l, "@"@)
        }),
{
    let l = lines(diff)[k];
    reveal_strlit("+");
    reveal_strlit("-");
    reveal_strlit("@");
    if begins(l, "+"@) {
        assert(l.subrange(0, 1)[0] == l[0]);
    }
    if begins(l, "-"@) {
        assert(l.subrange(0, 1)[0] == l[0]);
    }
    if begins(l, "@"@) {
        assert(l.subrange(0, 1)[0] == l[0]);
    }
}

} // verus!
