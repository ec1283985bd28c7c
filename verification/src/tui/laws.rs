//! What holds of the program whatever happens.
use crate::agent::executor::ExecutionStatusView;
use crate::agent::tools::ToolCallView;
use crate::backend::protocol::{message, spoken, ChatMessageView};
use crate::config::ConfigView;
use crate::memory::MemoryNodeView;
use crate::tui::action::{ActionView, Key, KeyCode};
use crate::tui::app::{is_recalled, without_recalled, AppView};
use crate::tui::flow::{tool_gate, TickEventView};
use crate::tui::keys::{on_key, toggled, unpinned};
use crate::tui::modal::ModalView;
use crate::tui::run::on_press;
use vstd::prelude::*;

verus! {

// ---------------------------------------------------------------------------------------------
// Consent
// ---------------------------------------------------------------------------------------------

/// What runs without a question changes nothing: no answer of a model leads to a command or to a
/// written file by itself.
pub proof fn law_no_risk_without_consent(a: AppView, event: TickEventView)
    ensures
        match a.ticked(event).1 {
            ActionView::RunAuto { call, .. } => !call.is_risky() && a.cfg.trust_level == "auto"@,
            ActionView::Nothing => true,
            _ => false,
        },
{
}

/// A key runs a tool only if it means yes, and the tool is the one that was asked about. A file is
/// written only after its change was shown.
pub proof fn law_tools_run_on_consent(
    a: AppView,
    key: Key,
    input: Seq<Seq<char>>,
    nodes: Seq<MemoryNodeView>,
)
    ensures
        match on_press(a, key, input, nodes).1 {
            ActionView::RunTool { call, .. } => key.confirms() && match a.active_modal {
                Some(ModalView::ToolGatekeeper { call: asked, .. }) => call == asked
                    && !(call is WriteFile),
                Some(ModalView::DiffReview { path, proposed_content, .. }) => call
                    == (ToolCallView::WriteFile { path, content: proposed_content }),
                _ => false,
            },
            ActionView::PrepareWrite { path, content } => key.confirms() && match a.active_modal {
                Some(ModalView::ToolGatekeeper { call: asked, .. }) => asked
                    == (ToolCallView::WriteFile { path, content }),
                _ => false,
            },
            ActionView::RunAuto { .. } => false,
            _ => true,
        },
{
}

/// A file that cannot be compared with is written only if its writing was asked about.
pub proof fn law_uncompared_writes_were_asked_about(
    a: AppView,
    original: Result<Option<Seq<char>>, Seq<char>>,
)
    ensures
        match a.compared(original).1 {
            ActionView::RunTool { call, .. } => original is Err && match a.active_modal {
                Some(ModalView::ToolGatekeeper { call: asked, .. }) => call == asked
                    && call is WriteFile,
                _ => false,
            },
            ActionView::Nothing => true,
            _ => false,
        },
{
}

/// A key runs code only if it means yes, and the code is what was asked about.
pub proof fn law_code_runs_on_consent(
    a: AppView,
    key: Key,
    input: Seq<Seq<char>>,
    nodes: Seq<MemoryNodeView>,
)
    ensures
        match on_press(a, key, input, nodes).1 {
            ActionView::RunCode(code) => key.confirms() && match a.active_modal {
                Some(ModalView::CodeGatekeeper { request, .. }) => code == request,
                _ => false,
            },
            _ => true,
        },
{
}

/// The calls that wait for consent have their turns in order: when the model has been told of the
/// first, the second is asked about, and after the last one the model goes on.
pub proof fn law_calls_take_turns(a: AppView, calls: Seq<ToolCallView>, text: Seq<char>)
    requires
        calls.len() > 0,
        a.active_modal == tool_gate(calls),
    ensures
        a.reported(text).0.active_modal == tool_gate(calls.skip(1)),
        a.reported(text).0.messages == a.messages.push(message("user"@, text)),
        a.reported(text).1 == if calls.len() == 1 {
            ActionView::Generate
        } else {
            ActionView::Nothing
        },
{
}

/// A denied call changes nothing but what the model is told: the settings, the notes that are
/// shown and the mode stay, and the call is not run.
pub proof fn law_denied_calls_do_not_run(
    a: AppView,
    key: Key,
    input: Seq<Seq<char>>,
    nodes: Seq<MemoryNodeView>,
)
    requires
        key.denies(),
        !a.is_generating || key.code != KeyCode::Esc,
        a.active_modal matches Some(m) && (m is ToolGatekeeper || m is DiffReview),
    ensures
        on_press(a, key, input, nodes).0 == a,
        on_press(a, key, input, nodes).1 matches ActionView::Report { success, .. } && !success,
{
}

// ---------------------------------------------------------------------------------------------
// Answers
// ---------------------------------------------------------------------------------------------

/// The model goes on by itself only so many times: each round counts, and none follows once the
/// limit is reached.
pub proof fn law_agent_stops(a: AppView, text: Seq<char>, pending: Seq<ToolCallView>)
    requires
        a.agent_iteration_count < usize::MAX,
    ensures
        ({
            let (b, action) = a.auto_finished(text, pending);
            &&& b.agent_iteration_count == a.agent_iteration_count + 1
            &&& action == ActionView::Generate ==> b.agent_iteration_count
                <= a.cfg.max_agent_iterations
            &&& action != ActionView::Generate ==> action == ActionView::Nothing
                && !b.is_generating && !b.listening
            &&& a.agent_iteration_count >= a.cfg.max_agent_iterations ==> action
                == ActionView::Nothing
        }),
{
}

/// An answer is made of its tokens: two that come one after the other are the same as one.
pub proof fn law_tokens_add_up(a: AppView, x: Seq<char>, y: Seq<char>)
    requires
        a.listening,
    ensures
        ({
            let b = a.ticked(TickEventView::Token { content: x }).0;
            b.ticked(TickEventView::Token { content: y }) == a.ticked(
                TickEventView::Token { content: x + y },
            )
        }),
{
    assert((a.current_response + x) + y =~= a.current_response + (x + y));
}

/// What the model sends only adds to the conversation.
pub proof fn law_answers_only_add(a: AppView, event: TickEventView)
    ensures
        a.messages.is_prefix_of(a.ticked(event).0.messages),
        a.ticked(event).0.messages.len() <= a.messages.len() + 1,
{
}

/// An answer that was broken off is over: whatever the model still sends has no effect.
pub proof fn law_broken_off_answers_end(
    a: AppView,
    key: Key,
    input: Seq<Seq<char>>,
    nodes: Seq<MemoryNodeView>,
    event: TickEventView,
)
    requires
        a.is_generating,
        key.code == KeyCode::Esc,
    ensures
        ({
            let (b, action) = on_press(a, key, input, nodes);
            &&& action == ActionView::Abort
            &&& !b.is_generating
            &&& b.messages == a.messages
            &&& b.ticked(event) == (b, ActionView::Nothing)
        }),
{
}

/// The conversation holds no instruction, and nothing else is left out of it.
pub proof fn law_conversation(m: Seq<ChatMessageView>)
    ensures
        forall|i: int|
            0 <= i < spoken(m).len() ==> !(#[trigger] spoken(m)[i]).is_system() && m.contains(
                spoken(m)[i],
            ),
        forall|j: int|
            0 <= j < m.len() && !(#[trigger] m[j]).is_system() ==> spoken(m).contains(m[j]),
    decreases m.len(),
{
    if m.len() > 0 {
        let rest = m.drop_last();
        law_conversation(rest);
        assert forall|i: int| 0 <= i < spoken(m).len() implies !(#[trigger] spoken(
            m,
        )[i]).is_system() && m.contains(spoken(m)[i]) by {
            if i < spoken(rest).len() {
                assert(spoken(m)[i] == spoken(rest)[i]);
                let k = choose|k: int| 0 <= k < rest.len() && rest[k] == spoken(rest)[i];
                assert(m[k] == spoken(m)[i]);
            } else {
                assert(m[m.len() - 1] == spoken(m)[i]);
            }
        }
        assert forall|j: int| 0 <= j < m.len() && !(#[trigger] m[j]).is_system() implies spoken(
            m,
        ).contains(m[j]) by {
            if j < rest.len() {
                assert(rest[j] == m[j]);
                let k = choose|k: int|
                    0 <= k < spoken(rest).len() && spoken(rest)[k] == rest[j];
                assert(spoken(m)[k] == m[j]);
            } else {
                assert(spoken(m)[spoken(m).len() - 1] == m[j]);
            }
        }
    }
}

/// No recalled note is left after the old ones are dropped, and the conversation is kept.
pub proof fn law_recalled_notes_are_dropped(m: Seq<ChatMessageView>)
    ensures
        forall|i: int|
            0 <= i < without_recalled(m).len() ==> !is_recalled(
                #[trigger] without_recalled(m)[i],
            ),
        spoken(without_recalled(m)) == spoken(m),
    decreases m.len(),
{
    if m.len() > 0 {
        let rest = m.drop_last();
        law_recalled_notes_are_dropped(rest);
        if !is_recalled(m.last()) {
            assert(without_recalled(m).drop_last() =~= without_recalled(rest));
        }
    }
}

/// After a prompt has been sent with what the notes say of it, no other such note is left: they do
/// not pile up. The conversation is the one before, and the prompt.
pub proof fn law_one_recalled_note(
    a: AppView,
    content: Seq<char>,
    recalled: Seq<char>,
    images: Seq<Seq<char>>,
    i: int,
    j: int,
)
    requires
        recalled.len() > 0,
        0 <= i < j < a.submitted(content, recalled, images).messages.len(),
    ensures
        ({
            let m = a.submitted(content, recalled, images).messages;
            &&& !is_recalled(m[i]) || !is_recalled(m[j])
            &&& m.last().role == "user"@
            &&& m.last().content == content
            &&& spoken(m) == spoken(a.messages).push(m.last())
        }),
{
    let m = a.submitted(content, recalled, images).messages;
    let kept = without_recalled(a.messages);
    law_recalled_notes_are_dropped(a.messages);
    reveal_strlit("user");
    reveal_strlit("system");
    assert("user"@[0] != "system"@[0]);
    assert(m.drop_last() =~= kept.push(message("system"@, recalled)));
    assert(m.drop_last().drop_last() =~= kept);
    assert(spoken(m.drop_last()) == spoken(kept));
    assert(!is_recalled(m.last()));
    if i < kept.len() {
        assert(m[i] == kept[i]);
    }
}

// ---------------------------------------------------------------------------------------------
// Windows and settings
// ---------------------------------------------------------------------------------------------

/// No key changes the settings: only what is stored takes effect.
pub proof fn law_keys_keep_settings(
    a: AppView,
    key: Key,
    input: Seq<Seq<char>>,
    nodes: Seq<MemoryNodeView>,
)
    ensures
        on_press(a, key, input, nodes).0.cfg == a.cfg,
{
}

/// The state after a key, and after the attempt to store the settings where the key asks for it;
/// `saved` says whether that succeeds.
pub open spec fn settled(
    a: AppView,
    key: Key,
    input: Seq<Seq<char>>,
    nodes: Seq<MemoryNodeView>,
    saved: bool,
) -> AppView {
    let (next, action) = on_key(a, key, input, nodes);
    match action {
        ActionView::SaveConfig(_) => next.config_saved(saved),
        _ => next,
    }
}

/// In the window of the settings, Control and `s` stores the draft unless a setting is being typed
/// in. Where that succeeds the draft takes effect and the window closes. In every other case the
/// settings stay as they are, and while the window is open the selection stays on the list.
pub proof fn law_settings_take_effect_when_stored(
    a: AppView,
    key: Key,
    input: Seq<Seq<char>>,
    nodes: Seq<MemoryNodeView>,
    saved: bool,
    active_field: usize,
    is_editing: bool,
    cfg_draft: ConfigView,
)
    requires
        a.active_modal == Some(ModalView::ConfigEditor { active_field, is_editing, cfg_draft }),
        active_field <= 9,
    ensures
        ({
            let stores = !is_editing && key.hits('s') && key.ctrl;
            let b = settled(a, key, input, nodes, saved);
            &&& on_key(a, key, input, nodes).1 is SaveConfig <==> stores
            &&& stores ==> on_key(a, key, input, nodes).1 == ActionView::SaveConfig(cfg_draft)
            &&& stores && saved ==> b.cfg == cfg_draft && b.active_modal is None
            &&& !(stores && saved) ==> b.cfg == a.cfg
            &&& b.active_modal matches Some(m) ==> m is ConfigEditor && m.well_formed()
        }),
{
}

/// No key changes the conversation, but for the one that takes up an old session.
pub proof fn law_keys_keep_the_conversation(
    a: AppView,
    key: Key,
    input: Seq<Seq<char>>,
    nodes: Seq<MemoryNodeView>,
)
    ensures
        on_press(a, key, input, nodes).0.messages == a.messages || (key.hits('r')
            && match a.active_modal {
            Some(ModalView::SessionViewer { is_session, .. }) => is_session,
            _ => false,
        }),
{
}

/// Settings that could not be stored do not take effect, and stay open.
pub proof fn law_unsaved_settings(a: AppView)
    ensures
        a.config_saved(false).cfg == a.cfg,
        a.config_saved(false).active_modal == a.active_modal,
{
}

/// The state of the program is consistent: its window is, and no file is pinned twice.
pub open spec fn consistent(a: AppView) -> bool {
    &&& a.active_modal matches Some(m) ==> m.well_formed()
    &&& a.pinned_files.no_duplicates()
}

proof fn lemma_unpinned(pins: Seq<Seq<char>>, path: Seq<char>)
    ensures
        forall|x: Seq<char>|
            unpinned(pins, path).contains(x) <==> pins.contains(x) && x != path,
        pins.no_duplicates() ==> unpinned(pins, path).no_duplicates(),
    decreases pins.len(),
{
    if pins.len() > 0 {
        let rest = pins.drop_last();
        lemma_unpinned(rest, path);
        let u = unpinned(rest, path);
        assert forall|x: Seq<char>| unpinned(pins, path).contains(x) <==> pins.contains(x) && x
            != path by {
            assert(pins.contains(x) <==> rest.contains(x) || x == pins.last()) by {
                if pins.contains(x) {
                    let k = choose|k: int| 0 <= k < pins.len() && pins[k] == x;
                    if k < rest.len() {
                        assert(rest[k] == x);
                    }
                }
                if rest.contains(x) {
                    let k = choose|k: int| 0 <= k < rest.len() && rest[k] == x;
                    assert(pins[k] == x);
                }
                if x == pins.last() {
                    assert(pins[pins.len() - 1] == x);
                }
            }
            let w = u.push(pins.last());
            assert(w.contains(x) <==> u.contains(x) || x == pins.last()) by {
                if u.contains(x) {
                    let k = choose|k: int| 0 <= k < u.len() && u[k] == x;
                    assert(w[k] == x);
                }
                if x == pins.last() {
                    assert(w[u.len() as int] == x);
                }
            }
        }
        if pins.no_duplicates() {
            assert(rest.no_duplicates());
            assert(!rest.contains(pins.last())) by {
                if rest.contains(pins.last()) {
                    let k = choose|k: int| 0 <= k < rest.len() && rest[k] == pins.last();
                    assert(pins[k] == pins[pins.len() - 1]);
                }
            }
            assert(!u.contains(pins.last()));
            let w = unpinned(pins, path);
            assert forall|i: int, j: int| 0 <= i < j < w.len() implies w[i] != w[j] by {
                if pins.last() != path && j == u.len() {
                    assert(u[i] == w[i]);
                    assert(u.contains(u[i]));
                } else {
                    assert(u[i] == w[i] && u[j] == w[j]);
                }
            }
        }
    }
}

/// A pin that is toggled changes for that file alone, and no file is pinned twice.
pub proof fn law_pins(pins: Seq<Seq<char>>, path: Seq<char>)
    requires
        pins.no_duplicates(),
    ensures
        toggled(pins, path).no_duplicates(),
        forall|x: Seq<char>|
            x != path ==> (toggled(pins, path).contains(x) <==> pins.contains(x)),
        toggled(pins, path).contains(path) <==> !pins.contains(path),
{
    lemma_unpinned(pins, path);
    let t = toggled(pins, path);
    if !pins.contains(path) {
        assert(t[t.len() - 1] == path);
        assert forall|x: Seq<char>| x != path implies (t.contains(x) <==> pins.contains(x)) by {
            if pins.contains(x) {
                let k = choose|k: int| 0 <= k < pins.len() && pins[k] == x;
                assert(t[k] == x);
            }
        }
        assert forall|i: int, j: int| 0 <= i < j < t.len() implies t[i] != t[j] by {
            assert(pins[i] == t[i]);
            if j < pins.len() {
                assert(pins[j] == t[j]);
            } else {
                assert(pins.contains(pins[i]));
            }
        }
    }
}

/// Toggling a pin twice pins the same files as before.
pub proof fn law_pin_twice(pins: Seq<Seq<char>>, path: Seq<char>, x: Seq<char>)
    requires
        pins.no_duplicates(),
    ensures
        toggled(toggled(pins, path), path).contains(x) <==> pins.contains(x),
{
    law_pins(pins, path);
    law_pins(toggled(pins, path), path);
}

/// Every key keeps the state consistent: selections stay on the lists, and pins stay unique.
pub proof fn law_keys_keep_consistency(
    a: AppView,
    key: Key,
    input: Seq<Seq<char>>,
    nodes: Seq<MemoryNodeView>,
)
    requires
        consistent(a),
    ensures
        consistent(on_press(a, key, input, nodes).0),
{
    match a.active_modal {
        Some(ModalView::WorkspacePanel { files, selected_index, .. }) => {
            if selected_index < files.len() {
                law_pins(a.pinned_files, files[selected_index as int].relative_path);
            }
        },
        _ => {},
    }
    assert(consistent(on_key(a, key, input, nodes).0));
}

/// Whatever comes back from outside keeps the state consistent.
pub proof fn law_events_keep_consistency(
    a: AppView,
    event: TickEventView,
    text: Seq<char>,
    pending: Seq<ToolCallView>,
    original: Result<Option<Seq<char>>, Seq<char>>,
    result: Result<ExecutionStatusView, Seq<char>>,
    saved: bool,
)
    requires
        consistent(a),
    ensures
        consistent(a.ticked(event).0),
        consistent(a.code_finished(result).0),
        consistent(a.auto_finished(text, pending).0),
        consistent(a.reported(text).0),
        consistent(a.compared(original).0),
        consistent(a.config_saved(saved)),
{
}

} // verus!
