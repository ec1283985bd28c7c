//! The main loop: which key does what at the top level, and when the screen is drawn.
use crate::memory::{node_views, MemoryNode, MemoryNodeView};
use crate::text::views;
use crate::tui::action::{Action, ActionView, Key, KeyCode};
use crate::tui::app::{App, AppView};
use crate::tui::keys::{in_range, on_key};
use crate::tui::modal::{ModalState, ModalView};
use crate::tui::mode::Focus;
use vstd::prelude::*;
use vstd::string::*;

verus! {

/// The window of the settings, as it opens.
pub open spec fn config_opened(a: AppView) -> AppView {
    a.with_modal(
        Some(
            ModalView::ConfigEditor { active_field: 0, is_editing: false, cfg_draft: a.cfg },
        ),
    )
}

/// The key leaves the program: Control with `q` or `c`, and `q` alone where nothing is typed.
pub open spec fn leaves(a: AppView, key: Key) -> bool {
    ||| key.control_only() && (key.hits('q') || key.hits('c'))
    ||| a.focus == Focus::Graph && key.plain() && key.hits('q')
}

/// The key changes the mode: Control with `m`, and `m` alone where nothing is typed.
pub open spec fn changes_mode(a: AppView, key: Key) -> bool {
    key.hits('m') && (key.control_only() || (a.focus == Focus::Graph && key.plain()))
}

/// The key changes the focus: Control with `t`, and Tab.
pub open spec fn changes_focus(key: Key) -> bool {
    (key.control_only() && key.hits('t')) || (key.plain() && key.code == KeyCode::Tab)
}

/// What a key does at the top level. Esc breaks off an answer; else an open window has the keys;
/// else those that hold everywhere come first.
pub open spec fn on_press(
    a: AppView,
    key: Key,
    input: Seq<Seq<char>>,
    nodes: Seq<MemoryNodeView>,
) -> (AppView, ActionView) {
    if a.is_generating && key.code == KeyCode::Esc {
        (
            AppView { is_generating: false, status: "Cancelled"@, listening: false, ..a },
            ActionView::Abort,
        )
    } else if a.active_modal is Some {
        on_key(a, key, input, nodes)
    } else if leaves(a, key) {
        (a, ActionView::Quit)
    } else if changes_mode(a, key) {
        (AppView { mode: a.mode.next(), ..a }, ActionView::Nothing)
    } else if changes_focus(key) {
        (AppView { focus: a.focus.other(), ..a }, ActionView::Nothing)
    } else if key.control_only() && key.hits('r') {
        (a, ActionView::SwitchRole(a.role.next()))
    } else if key.control_only() && key.hits('e') {
        (config_opened(a), ActionView::Nothing)
    } else if key.control_only() && key.hits('w') {
        (a, ActionView::ScanWorkspace)
    } else if key.control_only() && key.hits('g') {
        (a, ActionView::AskGitStatus)
    } else {
        on_key(a, key, input, nodes)
    }
}

impl App {
    /// Opens the window of the settings.
    pub fn open_config_editor(&mut self)
        ensures
            final(self)@ == config_opened(old(self)@),
    {
        self.active_modal = Some(
            ModalState::ConfigEditor {
                active_field: 0,
                is_editing: false,
                cfg_draft: self.cfg.clone(),
            },
        );
    }

    /// Takes a key at the top level.
    pub fn press(&mut self, key: Key, input: &Vec<String>, nodes: &Vec<MemoryNode>) -> (r: Action)
        requires
            in_range(old(self)@, key),
        ensures
            (final(self)@, r@) == on_press(old(self)@, key, views(input@), node_views(nodes@)),
    {
        if self.is_generating && matches!(key.code, KeyCode::Esc) {
            self.is_generating = false;
            self.status = String::from_str("Cancelled");
            self.listening = false;
            return Action::Abort;
        }
        if self.active_modal.is_some() {
            return self.handle_key(key, input, nodes);
        }
        let control = key.ctrl && !key.shift && !key.other;
        let bare = key.is_plain() && matches!(self.focus, Focus::Graph);
        if (control && (key.is_char('q') || key.is_char('c'))) || (bare && key.is_char('q')) {
            Action::Quit
        } else if key.is_char('m') && (control || bare) {
            self.cycle_mode();
            Action::Nothing
        } else if (control && key.is_char('t')) || (key.is_plain() && matches!(
            key.code,
            KeyCode::Tab
        )) {
            self.toggle_focus();
            Action::Nothing
        } else if control && key.is_char('r') {
            Action::SwitchRole(self.role.cycle())
        } else if control && key.is_char('e') {
            self.open_config_editor();
            Action::Nothing
        } else if control && key.is_char('w') {
            Action::ScanWorkspace
        } else if control && key.is_char('g') {
            Action::AskGitStatus
        } else {
            self.handle_key(key, input, nodes)
        }
    }
}

// ---------------------------------------------------------------------------------------------
// Drawing
// ---------------------------------------------------------------------------------------------

/// The least time between two drawings, in nanoseconds.
pub const FRAME_BUDGET: u128 = 16_000_000;

/// The time between two questions to the rate limiter, in nanoseconds.
pub const RATE_BUDGET: u128 = 2_000_000_000;

/// When the screen was drawn, and whether it has to be drawn again. Times are in nanoseconds.
pub struct Frames {
    pub last_length: u128,
    pub last_draw: u128,
    pub last_rate: u128,
    pub needs_redraw: bool,
}

impl Frames {
    /// At the start the screen has to be drawn.
    pub fn new(now: u128) -> (r: Frames)
        ensures
            r == (Frames { last_length: 0, last_draw: now, last_rate: now, needs_redraw: true }),
    {
        Frames { last_length: 0, last_draw: now, last_rate: now, needs_redraw: true }
    }

    /// Whether the rate limiter is asked again.
    pub fn rate_due(&self, now: u128) -> (r: bool)
        ensures
            r == (now - self.last_rate >= RATE_BUDGET),
    {
        now >= self.last_rate && now - self.last_rate >= RATE_BUDGET
    }

    /// Takes note that the rate limiter has answered at `now`, which leads to a drawing.
    pub fn rate_updated(&mut self, now: u128)
        ensures
            *final(self) == (Frames { last_rate: now, needs_redraw: true, ..*old(self) }),
    {
        self.last_rate = now;
        self.needs_redraw = true;
    }

    /// Takes note of how much there is to show: the bytes of the answer so far, and the messages.
    pub fn observe(&mut self, response: usize, messages: usize)
        ensures
            *final(self) == if response + messages != old(self).last_length {
                Frames {
                    last_length: (response + messages) as u128,
                    needs_redraw: true,
                    ..*old(self)
                }
            } else {
                *old(self)
            },
    {
        let length: u128 = response as u128 + messages as u128;
        if length != self.last_length {
            self.needs_redraw = true;
            self.last_length = length;
        }
    }

    /// Takes note of an event that changed something.
    pub fn touch(&mut self)
        ensures
            *final(self) == (Frames { needs_redraw: true, ..*old(self) }),
    {
        self.needs_redraw = true;
    }

    /// Whether the screen is drawn now: something has changed, and the last drawing is not too
    /// recent.
    pub fn draw_due(&self, now: u128) -> (r: bool)
        ensures
            r == (self.needs_redraw && now - self.last_draw >= FRAME_BUDGET),
    {
        self.needs_redraw && now >= self.last_draw && now - self.last_draw >= FRAME_BUDGET
    }

    /// Takes note that a drawing has ended at `now`.
    pub fn drawn(&mut self, now: u128)
        ensures
            *final(self) == (Frames { last_draw: now, needs_redraw: false, ..*old(self) }),
    {
        self.last_draw = now;
        self.needs_redraw = false;
    }
}

} // verus!
