//! The overlay that asks for the slug of a new task and lets the user pick
//! its agent.
use vstd::prelude::*;
use crate::config::{clone_opt_string, AgencyConfig, AgentEntry};
use crate::keys::{KeyCode, KeyInput};
use crate::task::{normalize_and_validate_slug, normalized_slug};
use crate::text::{chars_le, is_ascii_alpha, push_str_chars, str_le, string_from_chars};
use crate::tui::text_input::{edited, TextInputConfig, TextInputOutcome, TextInputState};

verus! {

/// What a key press in the overlay asks for.
pub enum Action {
    /// Nothing to do.
    Noop,
    Cancel,
    /// Open the menu that picks the agent.
    OpenAgentMenu,
    /// Create the task.
    Submit { slug: String, agent: Option<String>, start_and_attach: bool },
}

/// The position of the least of the first `n` names (the first such when
/// names repeat), in the order of `str`'s `Ord`.
pub open spec fn least_index(names: Seq<Seq<char>>, n: int) -> int
    decreases n,
{
    if n <= 1 {
        0
    } else {
        let k = least_index(names, n - 1);
        if !chars_le(names[k], names[n - 1]) {
            n - 1
        } else {
            k
        }
    }
}

/// The agent a new task gets by default: the configured default, else the
/// least defined agent name (the first the agent menu lists), else none.
pub open spec fn default_agent_spec(cfg: AgencyConfig) -> Option<String> {
    match cfg.agent {
        Some(a) => Some(a),
        None => if cfg.agents@.len() > 0 {
            Some(cfg.agents@[least_index(cfg.agents@.map_values(|e: AgentEntry| e.name@), cfg.agents@.len() as int)].name)
        } else {
            None
        },
    }
}

/// The agent a new task gets by default.
pub fn default_agent(cfg: &AgencyConfig) -> (r: Option<String>)
    ensures
        r == default_agent_spec(*cfg),
{
    match &cfg.agent {
        Some(a) => Some(a.clone()),
        None => {
            if cfg.agents.len() == 0 {
                return None;
            }
            let ghost names = cfg.agents@.map_values(|e: AgentEntry| e.name@);
            let mut best: usize = 0;
            let mut i: usize = 1;
            while i < cfg.agents.len()
                invariant
                    1 <= i <= cfg.agents.len(),
                    names == cfg.agents@.map_values(|e: AgentEntry| e.name@),
                    best == least_index(names, i as int),
                    best < i,
                decreases cfg.agents.len() - i,
            {
                assert(names[best as int] == cfg.agents@[best as int].name@);
                assert(names[i as int] == cfg.agents@[i as int].name@);
                if !str_le(cfg.agents[best].name.as_str(), cfg.agents[i].name.as_str()) {
                    best = i;
                }
                i += 1;
            }
            Some(cfg.agents[best].name.clone())
        },
    }
}

/// The right-hand title: the selected agent (or `-`) and the key that
/// switches it.
pub open spec fn agent_title(agent: Option<String>) -> Seq<char> {
    (match agent {
        Some(a) => a@,
        None => seq!['-'],
    }) + seq![' ', '(', 'C', '-', 'a', ' ', 't', 'o', ' ', 's', 'w', 'i', 't', 'c', 'h', ')', ' ']
}

fn agent_title_exec(agent: &Option<String>) -> (r: String)
    ensures
        r@ == agent_title(*agent),
{
    let mut out: Vec<char> = Vec::new();
    match agent {
        Some(a) => push_str_chars(&mut out, a.as_str()),
        None => out.push('-'),
    }
    let ghost head = out@;
    push_str_chars(&mut out, " (C-a to switch) ");
    proof {
        reveal_strlit(" (C-a to switch) ");
    }
    assert(out@ =~= agent_title(*agent));
    string_from_chars(out.as_slice())
}

/// State of the new-task overlay.
pub struct InputOverlayState {
    pub text_input: TextInputState,
    pub selected_agent: Option<String>,
    pub start_and_attach: bool,
}

/// The slug a submitted text becomes, when it is a valid one.
pub open spec fn submitted_slug(input: Seq<char>) -> Option<Seq<char>> {
    let s = normalized_slug(input);
    if s.len() > 0 && is_ascii_alpha(s[0]) { Some(s) } else { None }
}

/// `n` and `r` are the overlay and the action after `key` in overlay `o`.
pub open spec fn overlay_keyed(o: InputOverlayState, n: InputOverlayState, key: KeyInput, r: Action) -> bool {
    &&& n.selected_agent == o.selected_agent
    &&& n.start_and_attach == o.start_and_attach
    &&& (key.code == KeyCode::Char('a') && key.ctrl) ==> r is OpenAgentMenu && n.text_input.input@ == o.text_input.input@
    &&& !(key.code == KeyCode::Char('a') && key.ctrl) ==> {
        if key.repeat {
            r is Noop && n.text_input.input@ == o.text_input.input@
        } else {
            match key.code {
                KeyCode::Esc => r is Cancel && n.text_input.input@ == o.text_input.input@,
                KeyCode::Enter => n.text_input.input@ == o.text_input.input@
                    && match submitted_slug(o.text_input.input@) {
                        Some(s) => r matches Action::Submit { slug, agent, start_and_attach }
                            && slug@ == s && agent == o.selected_agent && start_and_attach == o.start_and_attach,
                        None => r is Noop,
                    },
                _ => r is Noop && n.text_input.input@ == edited(o.text_input.input@, key),
            }
        }
    }
}

impl InputOverlayState {
    /// An empty overlay with the default agent selected.
    pub fn new(start_and_attach: bool, cfg: &AgencyConfig) -> (s: Self)
        ensures
            s.text_input.input@.len() == 0,
            s.text_input.config.title@ == "Task Slug"@,
            s.text_input.config.placeholder@ == "my-task"@,
            s.text_input.config.right_title matches Some(t) && t@ == agent_title(default_agent_spec(*cfg)),
            s.selected_agent == default_agent_spec(*cfg),
            s.start_and_attach == start_and_attach,
    {
        let agent = default_agent(cfg);
        let title = agent_title_exec(&agent);
        let config = TextInputConfig::new("Task Slug", "my-task");
        let mut text_input = TextInputState::new(config);
        text_input.set_right_title(title.as_str());
        InputOverlayState { text_input, selected_agent: agent, start_and_attach }
    }

    /// Handles a key press: Control-a opens the agent menu; otherwise the
    /// text input handles it, and a submitted text becomes a new task when
    /// it is a valid slug.
    pub fn handle_key(&mut self, key: KeyInput) -> (r: Action)
        ensures
        overlay_keyed(*old(self), *final(self), key, r),
    {
        if key.code == KeyCode::Char('a') && key.ctrl {
            return Action::OpenAgentMenu;
        }
        match self.text_input.handle_key(key) {
            TextInputOutcome::Continue => Action::Noop,
            TextInputOutcome::Canceled => Action::Cancel,
            TextInputOutcome::Submit(input) => match normalize_and_validate_slug(input.as_str()) {
                Ok(slug) => Action::Submit {
                    slug,
                    agent: clone_opt_string(&self.selected_agent),
                    start_and_attach: self.start_and_attach,
                },
                Err(_) => Action::Noop,
            },
        }
    }

    /// Selects an agent (after a pick in the agent menu).
    pub fn set_agent(&mut self, agent: String)
        ensures
            final(self).selected_agent == Some(agent),
            final(self).text_input.config.right_title matches Some(t) && t@ == agent_title(Some(agent)),
            final(self).text_input.input == old(self).text_input.input,
            final(self).start_and_attach == old(self).start_and_attach,
    {
        self.selected_agent = Some(agent);
        let title = agent_title_exec(&self.selected_agent);
        self.text_input.set_right_title(title.as_str());
    }
}

} // verus!
