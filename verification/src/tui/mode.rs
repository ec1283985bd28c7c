//! What the program is set to: its mode, the role of the agent, and the panel in focus.
use vstd::prelude::*;

verus! {

/// The panel that takes the keys.
#[derive(Clone, Copy, Debug, PartialEq, Eq, Structural)]
pub enum Focus {
    Chat,
    Graph,
}

impl Focus {
    /// The other panel.
    pub open spec fn other(self) -> Focus {
        match self {
            Focus::Chat => Focus::Graph,
            Focus::Graph => Focus::Chat,
        }
    }
}

/// How much effort the model spends.
#[derive(Clone, Copy, Debug, PartialEq, Eq, Structural)]
pub enum AppMode {
    Low,
    High,
    Ultra,
}

impl AppMode {
    /// The mode after this one, in a cycle of three.
    pub open spec fn next(self) -> AppMode {
        match self {
            AppMode::Low => AppMode::High,
            AppMode::High => AppMode::Ultra,
            AppMode::Ultra => AppMode::Low,
        }
    }

    /// The mode after this one.
    pub fn cycle(self) -> (r: Self)
        ensures
            r == self.next(),
    {
        match self {
            AppMode::Low => AppMode::High,
            AppMode::High => AppMode::Ultra,
            AppMode::Ultra => AppMode::Low,
        }
    }

    /// The name of the mode.
    pub open spec fn name(self) -> Seq<char> {
        match self {
            AppMode::Low => " LOW "@,
            AppMode::High => " HIGH "@,
            AppMode::Ultra => " ULTRA "@,
        }
    }

    /// The name of the mode, as it stands in the status bar.
    pub fn label(self) -> (r: &'static str)
        ensures
            r@ == self.name(),
    {
        match self {
            AppMode::Low => " LOW ",
            AppMode::High => " HIGH ",
            AppMode::Ultra => " ULTRA ",
        }
    }

    /// The temperature of the mode, in tenths.
    pub open spec fn tenths(self) -> u8 {
        match self {
            AppMode::Low => 3,
            AppMode::High => 6,
            AppMode::Ultra => 8,
        }
    }

    /// The temperature at which the model answers, in tenths.
    pub fn temperature(self) -> (r: u8)
        ensures
            r == self.tenths(),
    {
        match self {
            AppMode::Low => 3,
            AppMode::High => 6,
            AppMode::Ultra => 8,
        }
    }

    /// Whether the model reasons before it answers in this mode.
    pub open spec fn thinks(self) -> bool {
        self == AppMode::Ultra
    }

    /// Whether the model reasons before it answers: in the strongest mode only.
    pub fn thinking_enabled(self) -> (r: bool)
        ensures
            r == self.thinks(),
    {
        matches!(self, AppMode::Ultra)
    }
}

/// What the agent is asked to do.
#[derive(Clone, Copy, Debug, PartialEq, Eq, Structural)]
pub enum AgentRole {
    Chat,
    Plan,
    Build,
}

impl AgentRole {
    /// The role after this one, in a cycle of three.
    pub open spec fn next(self) -> AgentRole {
        match self {
            AgentRole::Chat => AgentRole::Plan,
            AgentRole::Plan => AgentRole::Build,
            AgentRole::Build => AgentRole::Chat,
        }
    }

    /// The role after this one.
    pub fn cycle(self) -> (r: Self)
        ensures
            r == self.next(),
    {
        match self {
            AgentRole::Chat => AgentRole::Plan,
            AgentRole::Plan => AgentRole::Build,
            AgentRole::Build => AgentRole::Chat,
        }
    }

    /// The name of the role.
    pub open spec fn name(self) -> Seq<char> {
        match self {
            AgentRole::Chat => " CHAT "@,
            AgentRole::Plan => " PLAN "@,
            AgentRole::Build => " BUILD "@,
        }
    }

    /// The name of the role, as it stands in the status bar.
    pub fn label(self) -> (r: &'static str)
        ensures
            r@ == self.name(),
    {
        match self {
            AgentRole::Chat => " CHAT ",
            AgentRole::Plan => " PLAN ",
            AgentRole::Build => " BUILD ",
        }
    }
}

/// Every mode is reached from every other, and three steps lead back.
pub proof fn law_modes_cycle(m: AppMode)
    ensures
        m.next() != m,
        m.next().next() != m,
        m.next().next().next() == m,
{
}

/// From one mode to the next the model spends more, up to the strongest, which the weakest follows. The
/// temperature rises with it, and each mode is shown under its own name.
pub proof fn law_modes_grow(m: AppMode)
    ensures
        AppMode::Low.next() == AppMode::High,
        AppMode::High.next() == AppMode::Ultra,
        m.tenths() < m.next().tenths() <==> m != AppMode::Ultra,
        m.tenths() == (if m == AppMode::Low {
            3int
        } else if m == AppMode::High {
            6int
        } else {
            8int
        }),
        m.thinks() <==> m == AppMode::Ultra,
        m.name() == seq![' '] + (if m == AppMode::Low {
            "LOW"@
        } else if m == AppMode::High {
            "HIGH"@
        } else {
            "ULTRA"@
        }) + seq![' '],
{
    reveal_strlit(" LOW ");
    reveal_strlit("LOW");
    reveal_strlit(" HIGH ");
    reveal_strlit("HIGH");
    reveal_strlit(" ULTRA ");
    reveal_strlit("ULTRA");
}

/// The agent first talks, next plans, next builds, and each role is shown under its own name.
pub proof fn law_roles_follow(r: AgentRole)
    ensures
        AgentRole::Chat.next() == AgentRole::Plan,
        AgentRole::Plan.next() == AgentRole::Build,
        r.name() == seq![' '] + (if r == AgentRole::Chat {
            "CHAT"@
        } else if r == AgentRole::Plan {
            "PLAN"@
        } else {
            "BUILD"@
        }) + seq![' '],
{
    reveal_strlit(" CHAT ");
    reveal_strlit("CHAT");
    reveal_strlit(" PLAN ");
    reveal_strlit("PLAN");
    reveal_strlit(" BUILD ");
    reveal_strlit("BUILD");
}

/// Of three modes in a row exactly one lets the model reason: the one with the highest temperature.
pub proof fn law_one_mode_thinks(m: AppMode)
    ensures
        m.thinks() <==> m.tenths() > m.next().tenths() && m.tenths() > m.next().next().tenths(),
        m.thinks() || m.next().thinks() || m.next().next().thinks(),
        !(m.thinks() && m.next().thinks()),
        !(m.next().thinks() && m.next().next().thinks()),
        !(m.thinks() && m.next().next().thinks()),
{
}

/// Every role is reached from every other, and three steps lead back.
pub proof fn law_roles_cycle(r: AgentRole)
    ensures
        r.next() != r,
        r.next().next() != r,
        r.next().next().next() == r,
{
}

/// Switching the focus twice restores it, and once changes it.
pub proof fn law_focus_toggles(f: Focus)
    ensures
        f.other() != f,
        f.other().other() == f,
{
}

} // verus!
