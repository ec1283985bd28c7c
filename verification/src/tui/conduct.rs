//! What the program does, step by step: what a prompt, an answer, a tool or a key changes, and that
//! everything else stays as it is.
use crate::agent::blocks::{fenced, FencedView};
use crate::agent::diff::preview;
use crate::agent::executor::{executable_requests, ExecutionStatusView, FileRead};
use crate::agent::tools::ToolCallView;
use crate::backend::protocol::ChatMessageView;
use crate::config::ConfigView;
use crate::memory::{MemoryNodeView, NodeKind};
use crate::outside::tokens_in;
use crate::text::{begins, joined, terminated, trim};
use crate::tui::action::{ActionView, Key, KeyCode};
use crate::tui::app::{
    context, context_lines, first_system, last_answer, offered, pinned_messages, start, system_from,
    without_recalled, AppView,
};
use crate::tui::flow::{read_view, tool_gate, TickEventView};
use crate::tui::keys::{
    can_raise, field_text, lowered, on_key, raised, toggled, unpinned, with_field_text,
};
use crate::tui::modal::ModalView;
use crate::tui::mode::{AgentRole, AppMode, Focus};
use crate::tui::run::on_press;
use crate::tui::transcript::turns;
use vstd::prelude::*;
use vstd::string::*;

verus! {

/// A message without images.
pub open spec fn says(role: Seq<char>, content: Seq<char>) -> ChatMessageView {
    ChatMessageView { role, content, images: None }
}

// ---------------------------------------------------------------------------------------------
// The conversation
// ---------------------------------------------------------------------------------------------

/// The notes of earlier conversations are told whole, each with its label and all that it links to, in
/// order. What is given back says where: note `k` stands from `r[k]` up to `r[k + 1]`.
pub proof fn law_notes_are_told_whole(n: Seq<MemoryNodeView>) -> (r: Seq<int>)
    ensures
        n.len() == 0 ==> context(n) == Seq::<char>::empty(),
        n.len() > 0 ==> {
            let text = context(n);
            &&& r.len() == n.len() + 1
            &&& 0 <= r[0] <= r.last() <= text.len()
            &&& text.take(r[0]) == "You have the following memory from previous conversations:\n\n"@
            &&& text.skip(r.last()) == "\nUse this context where relevant."@
            &&& forall|k: int|
                0 <= k < n.len() ==> {
                    &&& 0 <= r[k] <= r[k + 1] <= text.len()
                    &&& text.subrange(#[trigger] r[k], r[k + 1]) == "- ["@ + n[k].label
                        + "] connected to: "@ + joined(n[k].connections, ", "@) + "\n"@
                }
        },
{
    let head = "You have the following memory from previous conversations:\n\n"@;
    let tail = "\nUse this context where relevant."@;
    let all = context_lines(n);
    let text = head + all + tail;
    let r = Seq::new(
        n.len() + 1,
        |k: int| head.len() + context_lines(n.take(k)).len() as int,
    );
    assert(n.take(0) =~= Seq::<MemoryNodeView>::empty());
    assert(n.take(n.len() as int) =~= n);
    assert(text.take(head.len() as int) =~= head);
    assert(text.skip(head.len() + all.len() as int) =~= tail);
    assert forall|k: int| 0 <= k < n.len() implies {
        &&& 0 <= r[k] <= r[k + 1] <= text.len()
        &&& text.subrange(#[trigger] r[k], r[k + 1]) == "- ["@ + n[k].label + "] connected to: "@
            + joined(n[k].connections, ", "@) + "\n"@
    } by {
        let own = "- ["@ + n[k].label + "] connected to: "@ + joined(n[k].connections, ", "@)
            + "\n"@;
        let front = context_lines(n.take(k));
        let upto = context_lines(n.take(k + 1));
        assert(n.take(k + 1).drop_last() =~= n.take(k));
        assert(n.take(k + 1).last() == n[k]);
        assert(upto == front + own);
        lemma_notes_grow(n, k + 1);
        assert(text.subrange(r[k], r[k + 1]) =~= all.subrange(
            front.len() as int,
            upto.len() as int,
        ));
        assert(all.subrange(front.len() as int, upto.len() as int) =~= upto.skip(
            front.len() as int,
        ));
        assert(upto.skip(front.len() as int) =~= own);
    }
    r
}

proof fn lemma_notes_grow(n: Seq<MemoryNodeView>, k: int)
    requires
        0 <= k <= n.len(),
    ensures
        context_lines(n.take(k)).is_prefix_of(context_lines(n)),
    decreases n.len() - k,
{
    if k == n.len() {
        assert(n.take(k) =~= n);
    } else {
        let d = n.drop_last();
        assert(d.take(k) =~= n.take(k));
        lemma_notes_grow(d, k);
    }
}

/// At the start the model has its instructions, and then what the notes say, if anything. Nothing has
/// been said, nothing is awaited, and no window is open.
pub proof fn law_start(cfg: ConfigView, prompt: Seq<char>, nodes: Seq<MemoryNodeView>)
    ensures
        ({
            let a = start(cfg, prompt, nodes);
            &&& a.cfg == cfg
            &&& a.messages.len() >= 1
            &&& a.messages[0] == says("system"@, prompt)
            &&& context(nodes).len() == 0 ==> a.messages.len() == 1
            &&& context(nodes).len() > 0 ==> a.messages.len() == 2 && a.messages[1] == says(
                "system"@,
                context(nodes),
            )
            &&& !a.is_generating && !a.listening && !a.should_quit
            &&& a.active_modal is None
            &&& a.current_response.len() == 0
            &&& a.focus == Focus::Chat && a.mode == AppMode::High && a.role == AgentRole::Chat
            &&& a.scroll == 0 && a.graph_scroll == 0 && a.selected_node_index == 0
            &&& a.rate_rpm == 0 && a.rate_remaining == 40 && a.rate_max == 40
            &&& a.agent_iteration_count == 0 && a.token_count == 0
            &&& a.pinned_files.len() == 0
            &&& a.status == "Ready"@
        }),
{
}

/// A prompt is put at the end of the conversation as the user wrote it, with its images. What the notes
/// say of it stands in front of it, in place of what they said of earlier prompts. Nothing else that was
/// said is lost, and the agent has all its rounds again.
pub proof fn law_prompts_are_added(
    a: AppView,
    content: Seq<char>,
    recalled: Seq<char>,
    images: Seq<Seq<char>>,
)
    ensures
        ({
            let b = a.submitted(content, recalled, images);
            let kept = a.messages.filter(
                |m: ChatMessageView|
                    !(m.role == "system"@ && begins(
                        m.content,
                        "Relevant knowledge from your vault:"@,
                    )),
            );
            let prompt = ChatMessageView {
                role: "user"@,
                content,
                images: if images.len() == 0 {
                    None
                } else {
                    Some(images)
                },
            };
            &&& recalled.len() == 0 ==> b.messages == a.messages.push(prompt)
            &&& recalled.len() > 0 ==> b.messages == kept.push(says("system"@, recalled)).push(
                prompt,
            )
            &&& b.agent_iteration_count == 0
            &&& b == AppView {
                messages: b.messages,
                agent_iteration_count: 0,
                token_count: b.token_count,
                ..a
            }
            &&& match tokens_in(
                terminated(b.messages.map_values(|m: ChatMessageView| m.content))
                    + a.current_response,
            ) {
                Some(n) => b.token_count == n as usize,
                None => b.token_count == a.token_count,
            }
        }),
{
    lemma_kept(a.messages);
}

proof fn lemma_kept(m: Seq<ChatMessageView>)
    ensures
        without_recalled(m) == m.filter(
            |x: ChatMessageView|
                !(x.role == "system"@ && begins(
                    x.content,
                    "Relevant knowledge from your vault:"@,
                )),
        ),
    decreases m.len(),
{
    reveal(Seq::filter);
    if m.len() > 0 {
        lemma_kept(m.drop_last());
    }
    assert(without_recalled(m) =~= m.filter(
        |x: ChatMessageView|
            !(x.role == "system"@ && begins(x.content, "Relevant knowledge from your vault:"@)),
    ));
}

/// The tokens of everything that was said are counted: the text of each message, and the answer so far.
pub proof fn law_tokens_are_counted(a: AppView)
    ensures
        ({
            let text = terminated(a.messages.map_values(|m: ChatMessageView| m.content))
                + a.current_response;
            match tokens_in(text) {
                Some(n) => a.counted() == (AppView { token_count: n as usize, ..a }),
                None => a.counted() == a,
            }
        }),
{
}

/// A session is taken up again with all that was said in it, behind the first instruction. A note
/// without a conversation changes nothing but the status.
pub proof fn law_sessions_are_resumed(a: AppView, id: Seq<char>, content: Seq<char>, k: int)
    ensures
        turns(content).len() > 0 ==> {
            let b = a.resumed(id, content);
            &&& b == AppView {
                messages: b.messages,
                focus: Focus::Chat,
                scroll: 0,
                status: "Resumed session "@ + id,
                ..a
            }
            &&& 0 <= k < a.messages.len() && a.messages[k].role == "system"@ && (forall|j: int|
                0 <= j < k ==> (#[trigger] a.messages[j]).role != "system"@) ==> b.messages == seq![
                a.messages[k],
            ] + turns(content)
            &&& (forall|j: int|
                0 <= j < a.messages.len() ==> (#[trigger] a.messages[j]).role != "system"@)
                ==> b.messages == turns(content)
        },
        turns(content).len() == 0 ==> a.resumed(id, content) == (AppView {
            status: "Failed to parse transcript messages"@,
            ..a
        }),
{
    let none = Seq::<ChatMessageView>::empty();
    assert(none + turns(content) =~= turns(content));
    lemma_first_system(a.messages, 0);
}

proof fn lemma_first_system(m: Seq<ChatMessageView>, from: nat)
    ensures
        (forall|j: int| from <= j < m.len() ==> (#[trigger] m[j]).role != "system"@) ==> system_from(
            m,
            from,
        ) == m.len(),
        forall|k: int|
            from <= k < m.len() && (#[trigger] m[k]).role == "system"@ && (forall|j: int|
                from <= j < k ==> (#[trigger] m[j]).role != "system"@) ==> system_from(m, from)
                == k,
    decreases m.len() - from,
{
    if from < m.len() && m[from as int].role != "system"@ {
        lemma_first_system(m, from + 1);
        assert forall|k: int|
            from <= k < m.len() && (#[trigger] m[k]).role == "system"@ && (forall|j: int|
                from <= j < k ==> (#[trigger] m[j]).role != "system"@) implies system_from(m, from)
            == k by {
            assert(k >= from + 1);
        }
    } else if from < m.len() {
        assert forall|k: int|
            from <= k < m.len() && (#[trigger] m[k]).role == "system"@ && (forall|j: int|
                from <= j < k ==> (#[trigger] m[j]).role != "system"@) implies system_from(m, from)
            == k by {
            if k > from {
                assert(m[from as int].role != "system"@);
            }
        }
    }
}

/// The first instruction is what counts as one: nothing, where there is none.
pub proof fn law_first_instruction(m: Seq<ChatMessageView>, k: int)
    ensures
        0 <= k < m.len() && m[k].role == "system"@ && (forall|j: int|
            0 <= j < k ==> (#[trigger] m[j]).role != "system"@) ==> first_system(m) == seq![m[k]]
            && system_from(m, 0) == k,
        (forall|j: int| 0 <= j < m.len() ==> (#[trigger] m[j]).role != "system"@) ==> first_system(
            m,
        ).len() == 0 && system_from(m, 0) == m.len(),
{
    lemma_first_system(m, 0);
}

/// What the pinned files hold goes with every request, the file that was pinned last first. A file
/// that cannot be read is left out.
pub proof fn law_pinned_files_go_along(
    paths: Seq<Seq<char>>,
    contents: Seq<Option<Seq<char>>>,
    path: Seq<char>,
    content: Seq<char>,
)
    requires
        paths.len() == contents.len(),
    ensures
        pinned_messages(paths.push(path), contents.push(Some(content))) == seq![
            says("system"@, "[PINNED FILE: "@ + path + "]\n\n"@ + content),
        ] + pinned_messages(paths, contents),
        pinned_messages(paths.push(path), contents.push(None)) == pinned_messages(paths, contents),
        pinned_messages(Seq::empty(), Seq::empty()) == Seq::<ChatMessageView>::empty(),
{
    assert(contents.push(Some(content)).drop_last() =~= contents);
    assert(contents.push(None).drop_last() =~= contents);
    lemma_later_pins(paths, contents, path);
}

proof fn lemma_later_pins(
    paths: Seq<Seq<char>>,
    contents: Seq<Option<Seq<char>>>,
    path: Seq<char>,
)
    requires
        contents.len() <= paths.len(),
    ensures
        pinned_messages(paths.push(path), contents) == pinned_messages(paths, contents),
    decreases contents.len(),
{
    if contents.len() > 0 {
        lemma_later_pins(paths, contents.drop_last(), path);
    }
}

/// What was pinned is the pins in order without the one that was taken off, and a new one is added at
/// the end.
pub proof fn law_pins_keep_their_order(pins: Seq<Seq<char>>, path: Seq<char>)
    ensures
        !pins.contains(path) ==> toggled(pins, path) == pins.push(path),
        pins.contains(path) ==> toggled(pins, path) == pins.filter(|p: Seq<char>| p != path),
{
    lemma_unpinned_filter(pins, path);
}

proof fn lemma_unpinned_filter(pins: Seq<Seq<char>>, path: Seq<char>)
    ensures
        unpinned(pins, path) == pins.filter(|p: Seq<char>| p != path),
    decreases pins.len(),
{
    reveal(Seq::filter);
    if pins.len() > 0 {
        lemma_unpinned_filter(pins.drop_last(), path);
    }
    assert(unpinned(pins, path) =~= pins.filter(|p: Seq<char>| p != path));
}

/// The last answer is the last message of the assistant.
pub proof fn law_last_answer(m: Seq<ChatMessageView>, k: int)
    ensures
        0 <= k < m.len() && m[k].role == "assistant"@ && (forall|j: int|
            k < j < m.len() ==> (#[trigger] m[j]).role != "assistant"@) ==> last_answer(m, m.len())
            == Some(m[k]),
        (forall|j: int| 0 <= j < m.len() ==> (#[trigger] m[j]).role != "assistant"@) ==> last_answer(
            m,
            m.len(),
        ) is None,
{
    lemma_last_answer(m, m.len(), k);
}

proof fn lemma_last_answer(m: Seq<ChatMessageView>, n: nat, k: int)
    requires
        n <= m.len(),
    ensures
        0 <= k < n && m[k].role == "assistant"@ && (forall|j: int|
            k < j < n ==> (#[trigger] m[j]).role != "assistant"@) ==> last_answer(m, n) == Some(
            m[k],
        ),
        (forall|j: int| 0 <= j < n ==> (#[trigger] m[j]).role != "assistant"@) ==> last_answer(m, n)
            is None,
    decreases n,
{
    if n > 0 {
        lemma_last_answer(m, (n - 1) as nat, k);
        if m[n - 1].role == "assistant"@ {
            assert(k == n - 1 || !(0 <= k < n && forall|j: int|
                k < j < n ==> (#[trigger] m[j]).role != "assistant"@));
        }
    }
}

/// All blocks of code are offered to be copied, each whole and with its language, or as text.
pub proof fn law_blocks_are_offered_whole(b: Seq<FencedView>)
    ensures
        offered(b).len() == b.len(),
        forall|k: int|
            0 <= k < b.len() ==> {
                &&& (#[trigger] offered(b)[k]).1 == b[k].code
                &&& b[k].info.len() > 0 ==> offered(b)[k].0 == b[k].info
                &&& b[k].info.len() == 0 ==> offered(b)[k].0 == "Text"@
            },
{
}

// ---------------------------------------------------------------------------------------------
// Answers and tools
// ---------------------------------------------------------------------------------------------

/// What the model sends while it answers: a token goes behind the answer so far, an error becomes a
/// message and ends the answer, and so does the end of the stream, without a message.
pub proof fn law_what_the_model_sends(a: AppView, text: Seq<char>, event: TickEventView)
    ensures
        !a.listening ==> a.ticked(event) == (a, ActionView::Nothing),
        a.listening ==> {
            &&& a.ticked(TickEventView::Token { content: text }) == (
                AppView { current_response: a.current_response + text, ..a },
                ActionView::Nothing,
            )
            &&& a.ticked(TickEventView::Error { message: text }) == (
                AppView {
                    messages: a.messages.push(
                        says("assistant"@, "⚠️ **API Error**:\n\n"@ + text),
                    ),
                    status: "Ready"@,
                    listening: false,
                    ..a
                },
                ActionView::Nothing,
            )
            &&& a.ticked(TickEventView::Closed) == (
                AppView { is_generating: false, listening: false, ..a },
                ActionView::Nothing,
            )
        },
{
}

/// A finished answer is kept whole, and asks for what it asks for: the first of its calls is asked about
/// and the others wait, or it runs at once where the model is trusted and it changes nothing. Without
/// calls the first block of code that can be run is asked about, and the others wait.
pub proof fn law_finished_answers(a: AppView, calls: Seq<ToolCallView>)
    requires
        a.listening,
    ensures
        ({
            let (b, action) = a.ticked(TickEventView::Done { calls });
            let code = executable_requests(fenced(a.current_response));
            let runs = calls.len() > 0 && a.cfg.trust_level == "auto"@ && !(calls[0] is RunCommand)
                && !(calls[0] is WriteFile);
            &&& b.messages == a.messages.push(says("assistant"@, a.current_response))
            &&& runs ==> {
                &&& action == (ActionView::RunAuto { call: calls[0], pending: calls.skip(1) })
                &&& b == AppView {
                    messages: b.messages,
                    status: "Auto-executing tool..."@,
                    ..a
                }
            }
            &&& !runs ==> {
                &&& action == ActionView::Nothing
                &&& b == AppView {
                    messages: b.messages,
                    current_response: Seq::empty(),
                    is_generating: false,
                    status: "Ready"@,
                    listening: false,
                    active_modal: if calls.len() > 0 {
                        Some(
                            ModalView::ToolGatekeeper {
                                call: calls[0],
                                pending_others: calls.skip(1),
                            },
                        )
                    } else if code.len() > 0 {
                        Some(
                            ModalView::CodeGatekeeper {
                                request: code[0],
                                pending_others: code.skip(1),
                            },
                        )
                    } else {
                        a.active_modal
                    },
                    ..a
                }
            }
        }),
{
}

/// What came of a tool that ran by itself is told to the model whole. The model goes on where nothing
/// waits and it has rounds left. Else the next call is asked about, or it is said that the rounds are
/// used up.
pub proof fn law_tools_that_ran(a: AppView, text: Seq<char>, pending: Seq<ToolCallView>)
    requires
        a.agent_iteration_count < usize::MAX,
    ensures
        ({
            let (b, action) = a.auto_finished(text, pending);
            let n = a.agent_iteration_count + 1;
            let told = a.messages.push(says("user"@, text));
            &&& n > a.cfg.max_agent_iterations ==> {
                &&& action == ActionView::Nothing
                &&& b.messages == told.push(
                    says(
                        "user"@,
                        "System: Maximum autonomous agent iterations reached. Awaiting user guidance."@,
                    ),
                )
                &&& b.active_modal == a.active_modal
            }
            &&& n <= a.cfg.max_agent_iterations && pending.len() > 0 ==> {
                &&& action == ActionView::Nothing
                &&& b.messages == told
                &&& b.active_modal == Some(
                    ModalView::ToolGatekeeper {
                        call: pending[0],
                        pending_others: pending.skip(1),
                    },
                )
            }
            &&& n <= a.cfg.max_agent_iterations && pending.len() == 0 ==> {
                &&& action == ActionView::Generate
                &&& b == AppView {
                    messages: told,
                    agent_iteration_count: n as usize,
                    ..a
                }
            }
            &&& action == ActionView::Nothing ==> b == AppView {
                messages: b.messages,
                active_modal: b.active_modal,
                agent_iteration_count: n as usize,
                current_response: Seq::empty(),
                is_generating: false,
                status: "Ready"@,
                listening: false,
                ..a
            }
        }),
{
}

/// What came of a call that was asked about is told to the model whole, and then the next one has its
/// turn.
pub proof fn law_reports(a: AppView, text: Seq<char>)
    ensures
        a.reported(text).0 == (AppView {
            messages: a.messages.push(says("user"@, text)),
            active_modal: a.reported(text).0.active_modal,
            ..a
        }),
        match a.active_modal {
            Some(ModalView::ToolGatekeeper { pending_others, .. }) => {
                &&& pending_others.len() == 0 ==> a.reported(text).0.active_modal is None
                    && a.reported(text).1 == ActionView::Generate
                &&& pending_others.len() > 0 ==> a.reported(text).0.active_modal == Some(
                    ModalView::ToolGatekeeper {
                        call: pending_others[0],
                        pending_others: pending_others.skip(1),
                    },
                ) && a.reported(text).1 == ActionView::Nothing
            },
            Some(ModalView::DiffReview { .. }) => a.reported(text).0.active_modal is None
                && a.reported(text).1 == ActionView::Generate,
            _ => a.reported(text).0.active_modal == a.active_modal && a.reported(text).1
                == ActionView::Nothing,
        },
{
}

/// A call that writes a file shows the change from what the file holds to what is proposed, and what is
/// proposed is what will be written.
pub proof fn law_writes_are_previewed(
    a: AppView,
    path: Seq<char>,
    content: Seq<char>,
    others: Seq<ToolCallView>,
    original: Option<Seq<char>>,
)
    requires
        a.active_modal == Some(
            ModalView::ToolGatekeeper {
                call: ToolCallView::WriteFile { path, content },
                pending_others: others,
            },
        ),
    ensures
        a.compared(Ok(original)) == (
            AppView {
                active_modal: Some(
                    ModalView::DiffReview {
                        path,
                        diff: preview(path, original, content),
                        proposed_content: content,
                    },
                ),
                ..a
            },
            ActionView::Nothing,
        ),
{
}

/// What code printed is told to the model whole, and the model goes on. Code that could not be run only
/// closes the window.
pub proof fn law_code_results(a: AppView, stdout: Seq<char>, stderr: Seq<char>, code: i32, e: Seq<char>)
    ensures
        a.code_finished(
            Ok(ExecutionStatusView::Completed { stdout, stderr, exit_code: code }),
        ) == (
            AppView {
                messages: a.messages.push(
                    says(
                        "user"@,
                        "Execution result:\nSTDOUT:\n"@ + stdout + "\nSTDERR:\n"@ + stderr,
                    ),
                ),
                active_modal: None,
                ..a
            },
            ActionView::Generate,
        ),
        a.code_finished(Ok(ExecutionStatusView::Failed(e))) == (
            AppView { active_modal: None, ..a },
            ActionView::Nothing,
        ),
        a.code_finished(Err(e)) == (AppView { active_modal: None, ..a }, ActionView::Nothing),
{
}

/// Settings that were stored take effect and close their window, and those that could not be stored stay
/// in it. It is said which.
pub proof fn law_stored_settings(a: AppView, field: usize, editing: bool, draft: ConfigView)
    requires
        a.active_modal == Some(
            ModalView::ConfigEditor { active_field: field, is_editing: editing, cfg_draft: draft },
        ),
    ensures
        a.config_saved(true) == (AppView {
            cfg: draft,
            status: "Configuration saved successfully."@,
            active_modal: None,
            ..a
        }),
        a.config_saved(false) == (AppView { status: "Failed to save configuration."@, ..a }),
{
}

/// What a change is compared with: what the file holds, or nothing where it is missing.
pub proof fn law_compared_with(content: String, e: String)
    ensures
        read_view(FileRead::Missing) == Ok::<Option<Seq<char>>, Seq<char>>(None),
        read_view(FileRead::Content(content)) == Ok::<Option<Seq<char>>, Seq<char>>(
            Some(content@),
        ),
        read_view(FileRead::Unreadable(e)) == Err::<Option<Seq<char>>, Seq<char>>(e@),
{
}

/// While an answer is awaited what was said stays, and the last answer does not show. Once it is
/// complete nothing is awaited.
pub proof fn law_waiting(a: AppView)
    ensures
        a.generating() == (AppView {
            is_generating: true,
            current_response: Seq::empty(),
            status: "Generating..."@,
            listening: true,
            ..a
        }),
        a.answered() == (AppView {
            is_generating: false,
            current_response: Seq::empty(),
            status: "Ready"@,
            listening: false,
            ..a
        }),
        tool_gate(Seq::empty()) is None,
{
}

// ---------------------------------------------------------------------------------------------
// Keys everywhere
// ---------------------------------------------------------------------------------------------

/// The keys that hold wherever no window is open and no answer is broken off. Control with a letter:
/// `q` and `c` leave, `m` changes the mode, `r` the role, `t` the focus, `e` opens the settings, `w` the
/// workspace and `g` the repository. Tab changes the focus too, and `q` and `m` need no Control in the
/// memory panel.
pub proof fn law_shortcuts(
    a: AppView,
    key: Key,
    input: Seq<Seq<char>>,
    nodes: Seq<MemoryNodeView>,
)
    requires
        a.active_modal is None,
        !(a.is_generating && key.code == KeyCode::Esc),
    ensures
        ({
            let control = key.ctrl && !key.shift && !key.other;
            let alone = !key.ctrl && !key.shift && !key.other;
            let (b, action) = on_press(a, key, input, nodes);
            &&& control && key.code == KeyCode::Char('q') ==> (b, action) == (a, ActionView::Quit)
            &&& control && key.code == KeyCode::Char('c') ==> (b, action) == (a, ActionView::Quit)
            &&& control && key.code == KeyCode::Char('m') ==> (b, action) == (
                AppView { mode: a.mode.next(), ..a },
                ActionView::Nothing,
            )
            &&& control && key.code == KeyCode::Char('r') ==> (b, action) == (
                a,
                ActionView::SwitchRole(a.role.next()),
            )
            &&& control && key.code == KeyCode::Char('t') ==> (b, action) == (
                AppView { focus: a.focus.other(), ..a },
                ActionView::Nothing,
            )
            &&& alone && key.code == KeyCode::Tab ==> (b, action) == (
                AppView { focus: a.focus.other(), ..a },
                ActionView::Nothing,
            )
            &&& control && key.code == KeyCode::Char('e') ==> (b, action) == (
                AppView {
                    active_modal: Some(
                        ModalView::ConfigEditor {
                            active_field: 0,
                            is_editing: false,
                            cfg_draft: a.cfg,
                        },
                    ),
                    ..a
                },
                ActionView::Nothing,
            )
            &&& control && key.code == KeyCode::Char('w') ==> (b, action) == (
                a,
                ActionView::ScanWorkspace,
            )
            &&& control && key.code == KeyCode::Char('g') ==> (b, action) == (
                a,
                ActionView::AskGitStatus,
            )
            &&& alone && a.focus == Focus::Graph && key.code == KeyCode::Char('q') ==> (b, action)
                == (a, ActionView::Quit)
            &&& alone && a.focus == Focus::Graph && key.code == KeyCode::Char('m') ==> (b, action)
                == (AppView { mode: a.mode.next(), ..a }, ActionView::Nothing)
            &&& action == ActionView::Quit ==> key.code == KeyCode::Char('q') || key.code
                == KeyCode::Char('c')
            &&& !control && !alone ==> (b, action) == on_key(a, key, input, nodes)
            &&& alone && a.focus == Focus::Chat && key.code != KeyCode::Tab ==> (b, action)
                == on_key(a, key, input, nodes)
            &&& !(key.code is Char) && key.code != KeyCode::Tab ==> (b, action) == on_key(
                a,
                key,
                input,
                nodes,
            )
        }),
{
}

/// Esc breaks off an answer wherever it is pressed, and an open window has all other keys.
pub proof fn law_windows_have_the_keys(
    a: AppView,
    key: Key,
    input: Seq<Seq<char>>,
    nodes: Seq<MemoryNodeView>,
)
    ensures
        a.is_generating && key.code == KeyCode::Esc ==> on_press(a, key, input, nodes) == (
            AppView { is_generating: false, status: "Cancelled"@, listening: false, ..a },
            ActionView::Abort,
        ),
        a.active_modal is Some && !(a.is_generating && key.code == KeyCode::Esc) ==> on_press(
            a,
            key,
            input,
            nodes,
        ) == on_key(a, key, input, nodes),
{
}

/// The keys of the chat. Enter sends what was typed, without white space at its ends, unless there is
/// nothing to send or an answer is awaited. With Shift it breaks the line. Control with `v` takes what is
/// in the clipboard. The arrows scroll. What is not meant for the chat goes to the input box.
pub proof fn law_chat_keys(
    a: AppView,
    key: Key,
    input: Seq<Seq<char>>,
    nodes: Seq<MemoryNodeView>,
)
    requires
        a.active_modal is None,
        a.focus == Focus::Chat,
    ensures
        ({
            let alone = !key.ctrl && !key.shift && !key.other;
            let (b, action) = on_key(a, key, input, nodes);
            let prompt = trim(joined(input, "\n"@));
            &&& key.code == KeyCode::Enter && alone && prompt.len() > 0 && !a.is_generating ==> (
                b,
                action,
            ) == (a, ActionView::Submit(prompt))
            &&& key.code == KeyCode::Enter && alone && (prompt.len() == 0 || a.is_generating) ==> (
                b,
                action,
            ) == (a, ActionView::Nothing)
            &&& key.code == KeyCode::Enter && key.shift ==> (b, action) == (a, ActionView::NewLine)
            &&& key.ctrl && (key.code == KeyCode::Char('v') || key.code == KeyCode::Char('V')) ==> (
                b,
                action,
            ) == (a, ActionView::Paste)
            &&& key.code == KeyCode::Up && (key.ctrl || alone) && a.scroll < usize::MAX ==> action
                == ActionView::Nothing && b == AppView { scroll: (a.scroll + 1) as usize, ..a }
            &&& key.code == KeyCode::Down && (key.ctrl || alone) ==> action == ActionView::Nothing
                && b == AppView {
                scroll: if a.scroll > 0 {
                    (a.scroll - 1) as usize
                } else {
                    0
                },
                ..a
            }
            &&& (key.code matches KeyCode::Char(c) && !key.ctrl) ==> (b, action) == (
                a,
                ActionView::Edit(key),
            )
            &&& (key.code matches KeyCode::Char(c) && c != 'v' && c != 'V' && c != 'y' && c != 'Y')
                ==> (b, action) == (a, ActionView::Edit(key))
            &&& !(key.code is Char) && key.code != KeyCode::Enter && key.code != KeyCode::Up
                && key.code != KeyCode::Down ==> (b, action) == (a, ActionView::Edit(key))
        }),
{
}

/// Control with `y` offers all code blocks of the last answer, the first one chosen.
pub proof fn law_yanking(a: AppView, key: Key, input: Seq<Seq<char>>, nodes: Seq<MemoryNodeView>)
    requires
        a.active_modal is None,
        a.focus == Focus::Chat,
        key.ctrl,
        key.code == KeyCode::Char('y') || key.code == KeyCode::Char('Y'),
    ensures
        ({
            let (b, action) = on_key(a, key, input, nodes);
            let blocks = match last_answer(a.messages, a.messages.len()) {
                Some(m) => offered(fenced(m.content)),
                None => Seq::empty(),
            };
            &&& action == ActionView::Nothing
            &&& blocks.len() > 0 ==> b == AppView {
                active_modal: Some(
                    ModalView::CodeBlockYanker { blocks, selected_index: 0, preview_scroll: 0 },
                ),
                status: "Select a code block to copy"@,
                ..a
            }
            &&& blocks.len() == 0 ==> b == AppView {
                status: "No code blocks found in the last assistant response"@,
                ..a
            }
        }),
{
}

/// The keys of the memory panel: the arrows choose a note, within the list, and Enter opens it.
pub proof fn law_memory_keys(
    a: AppView,
    key: Key,
    input: Seq<Seq<char>>,
    nodes: Seq<MemoryNodeView>,
)
    requires
        a.active_modal is None,
        a.focus == Focus::Graph,
        nodes.len() <= usize::MAX,
    ensures
        ({
            let (b, action) = on_key(a, key, input, nodes);
            let i = a.selected_node_index;
            &&& b == AppView { selected_node_index: b.selected_node_index, ..a }
            &&& key.code == KeyCode::Up && i > 0 ==> b.selected_node_index == i - 1
            &&& key.code == KeyCode::Up && i == 0 ==> b.selected_node_index == 0
            &&& key.code == KeyCode::Down && i + 1 < nodes.len() ==> b.selected_node_index == i + 1
            &&& key.code == KeyCode::Down && i + 1 == nodes.len() ==> b.selected_node_index == i
            &&& key.code != KeyCode::Up && key.code != KeyCode::Down ==> b == a
            &&& key.code == KeyCode::Enter && i < nodes.len() ==> action == (ActionView::OpenNode {
                folder: if nodes[i as int].kind == NodeKind::Session {
                    "sessions"@
                } else {
                    "concepts"@
                },
                node_id: nodes[i as int].id,
                label: nodes[i as int].label,
                is_session: nodes[i as int].kind == NodeKind::Session,
            })
            &&& key.code != KeyCode::Enter || i >= nodes.len() ==> action == ActionView::Nothing
        }),
{
}

// ---------------------------------------------------------------------------------------------
// Keys in windows
// ---------------------------------------------------------------------------------------------

/// The keys of a window that asks for consent to a call: no is told to the model, and yes runs the call
/// that is asked about, a write after its change was shown. No other key does anything.
pub proof fn law_consent_keys(
    a: AppView,
    key: Key,
    input: Seq<Seq<char>>,
    nodes: Seq<MemoryNodeView>,
    call: ToolCallView,
    others: Seq<ToolCallView>,
)
    requires
        a.active_modal == Some(ModalView::ToolGatekeeper { call, pending_others: others }),
    ensures
        ({
            let (b, action) = on_key(a, key, input, nodes);
            let no = key.code == KeyCode::Esc || key.code == KeyCode::Char('n');
            let yes = key.code == KeyCode::Enter || key.code == KeyCode::Char('y');
            &&& no ==> b == a && action == (ActionView::Report {
                call,
                output: "Execution denied by user."@,
                success: false,
            })
            &&& yes ==> b == AppView {
                status: match call {
                    ToolCallView::SearchFiles { query, .. } => "Searching for: "@ + query + "..."@,
                    ToolCallView::WebSearch { query } => "Searching the web: "@ + query + "..."@,
                    ToolCallView::ScrapeUrl { url } => "Scraping URL: "@ + url + "..."@,
                    _ => "Executing tool..."@,
                },
                ..a
            } && match call {
                ToolCallView::WriteFile { path, content } => action == (ActionView::PrepareWrite {
                    path,
                    content,
                }),
                _ => action == (ActionView::RunTool { call, told: call }),
            }
            &&& !no && !yes ==> (b, action) == (a, ActionView::Nothing)
        }),
{
}

/// The keys of a window that asks for consent to run code.
pub proof fn law_code_consent_keys(
    a: AppView,
    key: Key,
    input: Seq<Seq<char>>,
    nodes: Seq<MemoryNodeView>,
)
    requires
        a.active_modal matches Some(m) && m is CodeGatekeeper,
    ensures
        ({
            let (b, action) = on_key(a, key, input, nodes);
            let no = key.code == KeyCode::Esc || key.code == KeyCode::Char('n');
            let yes = key.code == KeyCode::Enter || key.code == KeyCode::Char('y');
            &&& no ==> (b, action) == (
                AppView { active_modal: None, status: "Ready"@, ..a },
                ActionView::Nothing,
            )
            &&& yes ==> (b, action) == (
                a,
                ActionView::RunCode(a.active_modal->0->CodeGatekeeper_request),
            )
            &&& !no && !yes ==> (b, action) == (a, ActionView::Nothing)
        }),
{
}

/// The keys of a window that shows a change: no is told to the model, and yes writes exactly what was
/// shown.
pub proof fn law_change_keys(
    a: AppView,
    key: Key,
    input: Seq<Seq<char>>,
    nodes: Seq<MemoryNodeView>,
    path: Seq<char>,
    diff: Seq<char>,
    content: Seq<char>,
)
    requires
        a.active_modal == Some(ModalView::DiffReview { path, diff, proposed_content: content }),
    ensures
        ({
            let (b, action) = on_key(a, key, input, nodes);
            let no = key.code == KeyCode::Esc || key.code == KeyCode::Char('n');
            let yes = key.code == KeyCode::Enter || key.code == KeyCode::Char('y');
            &&& no ==> b == a && action == (ActionView::Report {
                call: ToolCallView::WriteFile { path, content },
                output: "Write denied by user."@,
                success: false,
            })
            &&& yes ==> b == AppView { status: "Writing: "@ + path + "..."@, ..a } && action == (
            ActionView::RunTool {
                call: ToolCallView::WriteFile { path, content },
                told: ToolCallView::WriteFile { path, content: Seq::empty() },
            })
            &&& !no && !yes ==> (b, action) == (a, ActionView::Nothing)
        }),
{
}

/// The keys of a window that shows a note: the arrows scroll by a line, Esc and `q` close it, and `r`
/// takes up the session that it shows. Nothing else changes.
pub proof fn law_note_keys(
    a: AppView,
    key: Key,
    input: Seq<Seq<char>>,
    nodes: Seq<MemoryNodeView>,
    title: Seq<char>,
    content: Seq<char>,
    scroll: usize,
    node_id: Seq<char>,
    is_session: bool,
)
    requires
        a.active_modal == Some(
            ModalView::SessionViewer { title, content, scroll, node_id, is_session },
        ),
        scroll < usize::MAX,
    ensures
        ({
            let (b, action) = on_key(a, key, input, nodes);
            let shut = AppView { active_modal: None, ..a };
            let at = |n: int|
                AppView {
                    active_modal: Some(
                        ModalView::SessionViewer {
                            title,
                            content,
                            scroll: n as usize,
                            node_id,
                            is_session,
                        },
                    ),
                    ..a
                };
            &&& action == ActionView::Nothing
            &&& key.code == KeyCode::Esc || key.code == KeyCode::Char('q') ==> b == AppView {
                status: "Ready"@,
                ..shut
            }
            &&& key.code == KeyCode::Up ==> b == at(
                if scroll > 0 {
                    scroll - 1
                } else {
                    0
                },
            )
            &&& key.code == KeyCode::Down ==> b == at(scroll + 1)
            &&& key.code == KeyCode::Char('r') && is_session ==> b == shut.resumed(node_id, content)
            &&& key.code == KeyCode::Char('r') && !is_session ==> b == a
            &&& key.code != KeyCode::Esc && key.code != KeyCode::Char('q') && key.code
                != KeyCode::Up && key.code != KeyCode::Down && key.code != KeyCode::Char('r') ==> b
                == a
        }),
{
}

/// The keys of the window of code blocks: the arrows choose a block within the list, the page keys
/// scroll by five lines, Esc closes, and Control with Shift and `c` copies the chosen block whole.
pub proof fn law_yanker_keys(
    a: AppView,
    key: Key,
    input: Seq<Seq<char>>,
    nodes: Seq<MemoryNodeView>,
    blocks: Seq<(Seq<char>, Seq<char>)>,
    i: usize,
    scroll: usize,
)
    requires
        a.active_modal == Some(
            ModalView::CodeBlockYanker { blocks, selected_index: i, preview_scroll: scroll },
        ),
        i < blocks.len(),
        scroll <= usize::MAX - 5,
    ensures
        ({
            let (b, action) = on_key(a, key, input, nodes);
            let at = |n: int, s: int|
                AppView {
                    active_modal: Some(
                        ModalView::CodeBlockYanker {
                            blocks,
                            selected_index: n as usize,
                            preview_scroll: s as usize,
                        },
                    ),
                    ..a
                };
            &&& key.code == KeyCode::Esc ==> (b, action) == (
                AppView { active_modal: None, status: "Ready"@, ..a },
                ActionView::Nothing,
            )
            &&& key.code == KeyCode::Up ==> action == ActionView::Nothing && b == at(
                if i > 0 {
                    i - 1
                } else {
                    0
                },
                0,
            )
            &&& key.code == KeyCode::Down && i + 1 < blocks.len() ==> action == ActionView::Nothing
                && b == at(i + 1, 0)
            &&& key.code == KeyCode::Down && i + 1 == blocks.len() ==> action == ActionView::Nothing
                && b == at(i as int, 0)
            &&& key.code == KeyCode::PageUp ==> action == ActionView::Nothing && b == at(
                i as int,
                if scroll >= 5 {
                    scroll - 5
                } else {
                    0
                },
            )
            &&& key.code == KeyCode::PageDown ==> action == ActionView::Nothing && b == at(
                i as int,
                scroll + 5,
            )
            &&& key.ctrl && (key.code == KeyCode::Char('C') || (key.code == KeyCode::Char('c')
                && key.shift)) ==> (b, action) == (
                AppView { active_modal: None, ..a },
                ActionView::Copy { lang: blocks[i as int].0, code: blocks[i as int].1 },
            )
            &&& key.code is Char && !key.ctrl ==> (b, action) == (a, ActionView::Nothing)
        }),
{
}

/// The keys of the window of the workspace: the arrows choose an entry within the list, `r` reads the
/// list again, `p` sets or takes off the pin of the chosen file, and Enter opens it: a note is shown, and
/// any other file is read by a tool that is asked about. Directories are neither pinned nor opened.
pub proof fn law_workspace_keys(
    a: AppView,
    key: Key,
    input: Seq<Seq<char>>,
    nodes: Seq<MemoryNodeView>,
)
    requires
        a.active_modal matches Some(ModalView::WorkspacePanel { files, selected_index, .. })
            && selected_index < files.len(),
    ensures
        ({
            let (b, action) = on_key(a, key, input, nodes);
            let files = a.active_modal->0->files;
            let i = a.active_modal->0->WorkspacePanel_selected_index;
            let scroll = a.active_modal->0->WorkspacePanel_scroll;
            let path = files[i as int].relative_path;
            let is_dir = files[i as int].is_dir;
            let at = |n: int|
                AppView {
                    active_modal: Some(
                        ModalView::WorkspacePanel { files, selected_index: n as usize, scroll },
                    ),
                    ..a
                };
            &&& key.code == KeyCode::Esc || key.code == KeyCode::Char('q') ==> (b, action) == (
                AppView { active_modal: None, status: "Ready"@, ..a },
                ActionView::Nothing,
            )
            &&& key.code == KeyCode::Up ==> action == ActionView::Nothing && b == at(
                if i > 0 {
                    i - 1
                } else {
                    0
                },
            )
            &&& key.code == KeyCode::Down && i + 1 < files.len() ==> action == ActionView::Nothing
                && b == at(i + 1)
            &&& key.code == KeyCode::Down && i + 1 == files.len() ==> action == ActionView::Nothing
                && b == at(i as int)
            &&& key.code == KeyCode::Char('r') ==> (b, action) == (a, ActionView::RescanWorkspace)
            &&& key.code == KeyCode::Char('p') && !is_dir && !a.pinned_files.contains(path) ==> (
                b,
                action,
            ) == (
                AppView {
                    pinned_files: a.pinned_files.push(path),
                    status: "Pinned "@ + path,
                    ..a
                },
                ActionView::Nothing,
            )
            &&& key.code == KeyCode::Char('p') && !is_dir && a.pinned_files.contains(path) ==> (
                b,
                action,
            ) == (
                AppView {
                    pinned_files: a.pinned_files.filter(|p: Seq<char>| p != path),
                    status: "Unpinned "@ + path,
                    ..a
                },
                ActionView::Nothing,
            )
            &&& (key.code == KeyCode::Char('p') || key.code == KeyCode::Enter) && is_dir ==> (
                b,
                action,
            ) == (a, ActionView::Nothing)
            &&& key.code == KeyCode::Enter && !is_dir && (begins(path, "sessions"@) || begins(
                path,
                "concepts"@,
            )) ==> (b, action) == (
                a,
                ActionView::OpenFile { path, is_session: begins(path, "sessions"@) },
            )
            &&& key.code == KeyCode::Enter && !is_dir && !begins(path, "sessions"@) && !begins(
                path,
                "concepts"@,
            ) ==> (b, action) == (
                AppView {
                    active_modal: Some(
                        ModalView::ToolGatekeeper {
                            call: ToolCallView::ReadFile { path },
                            pending_others: Seq::empty(),
                        },
                    ),
                    ..a
                },
                ActionView::Nothing,
            )
        }),
{
    let files = a.active_modal->0->files;
    let i = a.active_modal->0->WorkspacePanel_selected_index;
    lemma_unpinned_filter(a.pinned_files, files[i as int].relative_path);
}

/// The keys of the window of the repository: the arrows move by one within its list, and Esc and `q`
/// close it.
pub proof fn law_repository_keys(
    a: AppView,
    key: Key,
    input: Seq<Seq<char>>,
    nodes: Seq<MemoryNodeView>,
)
    requires
        a.active_modal matches Some(ModalView::GitStatusModal { status, selected_index, .. })
            && selected_index <= status.modified_files.len() + status.untracked_files.len()
            <= usize::MAX,
    ensures
        ({
            let (b, action) = on_key(a, key, input, nodes);
            let status = a.active_modal->0->status;
            let i = a.active_modal->0->GitStatusModal_selected_index;
            let scroll = a.active_modal->0->GitStatusModal_scroll;
            let n = status.modified_files.len() + status.untracked_files.len();
            let at = |k: int|
                AppView {
                    active_modal: Some(
                        ModalView::GitStatusModal { status, selected_index: k as usize, scroll },
                    ),
                    ..a
                };
            &&& action == ActionView::Nothing
            &&& key.code == KeyCode::Esc || key.code == KeyCode::Char('q') ==> b == (AppView {
                active_modal: None,
                status: "Ready"@,
                ..a
            })
            &&& key.code is Char && key.code != KeyCode::Char('q') || key.code == KeyCode::Enter ==> b
                == a
            &&& key.code == KeyCode::Up ==> b == at(
                if i > 0 {
                    i - 1
                } else {
                    0
                },
            )
            &&& key.code == KeyCode::Down && i < n ==> b == at(i + 1)
            &&& key.code == KeyCode::Down && i == n ==> b == at(i as int)
        }),
{
}

/// The keys of the window of the settings, while none is typed in: the arrows choose a setting among
/// ten, or lower and raise it, Enter lets it be typed in where it is a text, and Esc and `q` close.
pub proof fn law_settings_keys(
    a: AppView,
    key: Key,
    input: Seq<Seq<char>>,
    nodes: Seq<MemoryNodeView>,
    field: usize,
    draft: ConfigView,
)
    requires
        a.active_modal == Some(
            ModalView::ConfigEditor { active_field: field, is_editing: false, cfg_draft: draft },
        ),
        field <= 9,
    ensures
        ({
            let (b, action) = on_key(a, key, input, nodes);
            let to = |n: int, editing: bool, c: ConfigView|
                AppView {
                    active_modal: Some(
                        ModalView::ConfigEditor {
                            active_field: n as usize,
                            is_editing: editing,
                            cfg_draft: c,
                        },
                    ),
                    ..a
                };
            let typed = field <= 2 || field >= 7;
            &&& key.code == KeyCode::Esc || key.code == KeyCode::Char('q') ==> (b, action) == (
                AppView { active_modal: None, ..a },
                ActionView::Nothing,
            )
            &&& key.code == KeyCode::Up ==> action == ActionView::Nothing && b == to(
                if field > 0 {
                    field - 1
                } else {
                    0
                },
                false,
                draft,
            )
            &&& key.code == KeyCode::Down ==> action == ActionView::Nothing && b == to(
                if field < 9 {
                    field + 1
                } else {
                    9
                },
                false,
                draft,
            )
            &&& key.code == KeyCode::Left ==> action == ActionView::Nothing && b == to(
                field as int,
                false,
                lowered(draft, field as int),
            )
            &&& key.code == KeyCode::Right ==> action == ActionView::Nothing && b == to(
                field as int,
                false,
                raised(draft, field as int),
            )
            &&& key.code == KeyCode::Enter && typed ==> (b, action) == (
                to(field as int, true, draft),
                ActionView::SetInput(field_text(draft, field as int)),
            )
            &&& key.code == KeyCode::Enter && !typed ==> (b, action) == (a, ActionView::Nothing)
        }),
{
}

/// While a setting is typed in, Enter takes over what stands in the input box, all its lines in one, Esc
/// leaves the setting as it was, and every other key goes to the input box.
pub proof fn law_typing_keys(
    a: AppView,
    key: Key,
    input: Seq<Seq<char>>,
    nodes: Seq<MemoryNodeView>,
    field: usize,
    draft: ConfigView,
)
    requires
        a.active_modal == Some(
            ModalView::ConfigEditor { active_field: field, is_editing: true, cfg_draft: draft },
        ),
    ensures
        ({
            let (b, action) = on_key(a, key, input, nodes);
            let back = |c: ConfigView|
                AppView {
                    active_modal: Some(
                        ModalView::ConfigEditor {
                            active_field: field,
                            is_editing: false,
                            cfg_draft: c,
                        },
                    ),
                    ..a
                };
            &&& key.code == KeyCode::Esc ==> (b, action) == (back(draft), ActionView::Nothing)
            &&& key.code == KeyCode::Enter ==> (b, action) == (
                back(with_field_text(draft, field as int, joined(input, ""@))),
                ActionView::SetInput(Seq::empty()),
            )
            &&& key.code != KeyCode::Esc && key.code != KeyCode::Enter ==> (b, action) == (
                a,
                ActionView::Edit(key),
            )
        }),
{
}

/// What is typed in for a setting is what is shown of it when it is typed in again, and changes no other
/// setting. A setting that is typed in as it was stays the same.
pub proof fn law_typed_settings(c: ConfigView, field: int, other: int, text: Seq<char>)
    requires
        field == 0 || field == 1 || field == 2 || field == 7 || field == 8 || field == 9,
    ensures
        field_text(with_field_text(c, field, text), field) == text,
        other != field ==> field_text(with_field_text(c, field, text), other) == field_text(c, other),
        ({
            let d = with_field_text(c, field, text);
            &&& d.gpu_layers == c.gpu_layers
            &&& d.ctx_size == c.ctx_size
            &&& d.port == c.port
            &&& d.summarize_on_exit == c.summarize_on_exit
            &&& d.max_context_nodes == c.max_context_nodes
            &&& d.trust_level == c.trust_level
            &&& d.max_agent_iterations == c.max_agent_iterations
        }),
        field_text(c, 0) == c.model_path,
        field_text(c, 1) == c.vault_path,
        field_text(c, 7) == c.api_provider,
        c.llama_server_path matches Some(p) ==> field_text(c, 2) == p,
        c.api_key matches Some(k) ==> field_text(c, 8) == k,
        c.api_model matches Some(m) ==> field_text(c, 9) == m,
        text.len() == 0 ==> with_field_text(c, 2, text).llama_server_path is None
            && with_field_text(c, 8, text).api_key is None && with_field_text(c, 9, text).api_model
            is None,
        field <= 1 || field == 7 ==> with_field_text(c, field, field_text(c, field)) == c,
{
    if text.len() == 0 {
        assert(text =~= Seq::<char>::empty());
    }
    assert(field <= 1 || field == 7 ==> with_field_text(c, field, field_text(c, field)) =~= c);
}

/// What raises a setting is undone by what lowers it: layers and the port go by one, the context by 512,
/// and the summary is switched. Nothing goes below zero, and no other setting changes.
pub proof fn law_raised_and_lowered(c: ConfigView, field: int)
    requires
        can_raise(c, field),
    ensures
        lowered(raised(c, field), field) == c,
        raised(c, 3) == (ConfigView { gpu_layers: raised(c, 3).gpu_layers, ..c }),
        raised(c, 4) == (ConfigView { ctx_size: raised(c, 4).ctx_size, ..c }),
        raised(c, 5) == (ConfigView { port: raised(c, 5).port, ..c }),
        raised(c, 6) == (ConfigView { summarize_on_exit: !c.summarize_on_exit, ..c }),
        field == 3 ==> raised(c, 3).gpu_layers == c.gpu_layers + 1,
        field == 4 ==> raised(c, 4).ctx_size == c.ctx_size + 512,
        field == 5 ==> raised(c, 5).port == c.port + 1,
        field < 3 || field > 6 ==> raised(c, field) == c && lowered(c, field) == c,
        c.gpu_layers == 0 ==> lowered(c, 3) == c,
        c.ctx_size < 512 ==> lowered(c, 4) == (ConfigView { ctx_size: 0, ..c }),
        c.port == 0 ==> lowered(c, 5) == c,
{
}

} // verus!
