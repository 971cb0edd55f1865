//! The project layout and the configuration values that the library reads.
use vstd::prelude::*;
use crate::text::{join_path, path_join};
use crate::wizard::{shell_split, split_shell_words, word_views};

verus! {

/// Locations of the agency state of a project.
pub struct AgencyPaths {
    /// The project root (the main repository's working directory).
    pub root: String,
    /// The directory the command runs in.
    pub cwd: String,
}

/// `<root>/.agency/<leaf>`.
pub open spec fn agency_subdir(root: Seq<char>, leaf: Seq<char>) -> Seq<char> {
    path_join(path_join(root, seq!['.', 'a', 'g', 'e', 'n', 'c', 'y']), leaf)
}

impl AgencyPaths {
    /// Paths for a project rooted at `root`, used from `cwd`.
    pub fn new(root: &str, cwd: &str) -> (p: AgencyPaths)
        ensures
            p.root@ == root@,
            p.cwd@ == cwd@,
    {
        AgencyPaths { root: root.to_string(), cwd: cwd.to_string() }
    }

    /// The directory that holds the task files: `<root>/.agency/tasks`.
    pub fn tasks_dir(&self) -> (d: String)
        ensures
            d@ == agency_subdir(self.root@, seq!['t', 'a', 's', 'k', 's']),
    {
        let a = join_path(self.root.as_str(), ".agency");
        proof {
            reveal_strlit(".agency");
            reveal_strlit("tasks");
        }
        join_path(a.as_str(), "tasks")
    }

    /// The directory that holds the task worktrees: `<root>/.agency/worktrees`.
    pub fn worktrees_dir(&self) -> (d: String)
        ensures
            d@ == agency_subdir(self.root@, seq!['w', 'o', 'r', 'k', 't', 'r', 'e', 'e', 's']),
    {
        let a = join_path(self.root.as_str(), ".agency");
        proof {
            reveal_strlit(".agency");
            reveal_strlit("worktrees");
        }
        join_path(a.as_str(), "worktrees")
    }

    /// The directory that holds files attached to tasks: `<root>/.agency/files`.
    pub fn files_dir(&self) -> (d: String)
        ensures
            d@ == agency_subdir(self.root@, seq!['f', 'i', 'l', 'e', 's']),
    {
        let a = join_path(self.root.as_str(), ".agency");
        proof {
            reveal_strlit(".agency");
            reveal_strlit("files");
        }
        join_path(a.as_str(), "files")
    }

    /// The directory for transient state: `<root>/.agency/state`.
    pub fn state_dir(&self) -> (d: String)
        ensures
            d@ == agency_subdir(self.root@, seq!['s', 't', 'a', 't', 'e']),
    {
        let a = join_path(self.root.as_str(), ".agency");
        proof {
            reveal_strlit(".agency");
            reveal_strlit("state");
        }
        join_path(a.as_str(), "state")
    }
}

/// The command line of an agent.
pub struct AgentConfig {
    pub cmd: Vec<String>,
}

/// A copy of a list of strings.
pub fn clone_strings(v: &Vec<String>) -> (r: Vec<String>)
    ensures
        r@ == v@,
{
    let mut out: Vec<String> = Vec::new();
    let mut i: usize = 0;
    while i < v.len()
        invariant
            i <= v.len(),
            out@ == v@.take(i as int),
        decreases v.len() - i,
    {
        out.push(v[i].clone());
        assert(out@ =~= v@.take(i + 1));
        i += 1;
    }
    assert(v@.take(v.len() as int) =~= v@);
    out
}

/// A copy of an optional string.
pub fn clone_opt_string(v: &Option<String>) -> (r: Option<String>)
    ensures
        r == *v,
{
    match v {
        Some(s) => Some(s.clone()),
        None => None,
    }
}

impl Clone for AgentConfig {
    fn clone(&self) -> (r: Self)
        ensures
            r.cmd@ == self.cmd@,
    {
        AgentConfig { cmd: clone_strings(&self.cmd) }
    }
}

/// A named agent, as listed in the configuration.
pub struct AgentEntry {
    pub name: String,
    pub config: AgentConfig,
}

/// The configuration values the library reads.
pub struct AgencyConfig {
    /// The default agent, if one is configured.
    pub agent: Option<String>,
    /// The defined agents, in key order.
    pub agents: Vec<AgentEntry>,
    /// The configured interactive shell command, if any.
    pub shell: Option<Vec<String>>,
    /// The configured tmux socket path, if any.
    pub tmux_socket_path: Option<String>,
    /// The configured detach keybinding, when a keybindings section exists.
    pub detach_key: Option<String>,
    /// The configured editor command line, if any.
    pub editor: Option<Vec<String>>,
}

impl Clone for AgentEntry {
    fn clone(&self) -> (r: Self)
        ensures
            r.name == self.name,
            r.config.cmd@ == self.config.cmd@,
    {
        AgentEntry { name: self.name.clone(), config: self.config.clone() }
    }
}

/// The agent entries with their command lines as plain values.
pub open spec fn entry_views(v: Seq<AgentEntry>) -> Seq<(String, Seq<String>)> {
    v.map_values(|e: AgentEntry| (e.name, e.config.cmd@))
}

impl Clone for AgencyConfig {
    fn clone(&self) -> (r: Self)
        ensures
            r.agent == self.agent,
            entry_views(r.agents@) == entry_views(self.agents@),
            r.shell matches Some(v) ==> self.shell matches Some(w) && v@ == w@,
            r.shell is None <==> self.shell is None,
            r.tmux_socket_path == self.tmux_socket_path,
            r.detach_key == self.detach_key,
            r.editor matches Some(v) ==> self.editor matches Some(w) && v@ == w@,
            r.editor is None <==> self.editor is None,
    {
        let mut agents: Vec<AgentEntry> = Vec::new();
        let mut i: usize = 0;
        while i < self.agents.len()
            invariant
                i <= self.agents.len(),
                entry_views(agents@) == entry_views(self.agents@.take(i as int)),
            decreases self.agents.len() - i,
        {
            let e = self.agents[i].clone();
            let ghost before = agents@;
            let ghost ev = (e.name, e.config.cmd@);
            assert(ev == (self.agents@[i as int].name, self.agents@[i as int].config.cmd@));
            agents.push(e);
            assert(agents@ == before.push(e));
            assert(entry_views(agents@) =~= entry_views(before).push(ev));
            assert(entry_views(self.agents@.take(i + 1)) =~= entry_views(self.agents@.take(i as int)).push(ev));
            i += 1;
        }
        assert(self.agents@.take(self.agents.len() as int) =~= self.agents@);
        AgencyConfig {
            agent: clone_opt_string(&self.agent),
            agents,
            shell: match &self.shell {
                Some(v) => Some(clone_strings(v)),
                None => None,
            },
            tmux_socket_path: clone_opt_string(&self.tmux_socket_path),
            detach_key: clone_opt_string(&self.detach_key),
            editor: match &self.editor {
                Some(v) => Some(clone_strings(v)),
                None => None,
            },
        }
    }
}

impl AgencyConfig {
    /// A configuration with nothing set.
    pub fn empty() -> (c: AgencyConfig)
        ensures
            c.agent is None,
            c.agents@.len() == 0,
            c.shell is None,
            c.tmux_socket_path is None,
            c.detach_key is None,
            c.editor is None,
    {
        AgencyConfig {
            agent: None,
            agents: Vec::new(),
            shell: None,
            tmux_socket_path: None,
            detach_key: None,
            editor: None,
        }
    }

    /// The editor command line: the configured one when it is not empty,
    /// else `$EDITOR` (given as `editor_env`) split into words when that
    /// gives any, else `vi`.
    pub fn editor_argv(&self, editor_env: Option<&str>) -> (r: Vec<String>)
        ensures
            word_views(r@) == editor_argv_spec(
                configured_views(self.editor),
                match editor_env {
                    Some(e) => shell_split(e@),
                    None => None,
                },
            ),
    {
        let env_words = match editor_env {
            Some(e) => match split_shell_words(e) {
                Ok(words) => Some(words),
                Err(_) => None,
            },
            None => None,
        };
        choose_editor_argv(&self.editor, env_words)
    }
}

/// The words of an optional command line.
pub open spec fn configured_views(v: Option<Vec<String>>) -> Option<Seq<Seq<char>>> {
    match v {
        Some(w) => Some(word_views(w@)),
        None => None,
    }
}

/// The editor command line from the configured one and the words of
/// `$EDITOR` (`None` when it is unset or does not split).
pub fn choose_editor_argv(configured: &Option<Vec<String>>, env_words: Option<Vec<String>>) -> (r: Vec<String>)
    ensures
        word_views(r@) == editor_argv_spec(configured_views(*configured), configured_views(env_words)),
{
    match configured {
        Some(v) => {
            if v.len() > 0 {
                return clone_strings(v);
            }
        },
        None => {},
    }
    match env_words {
        Some(words) => {
            if words.len() > 0 {
                return words;
            }
        },
        None => {},
    }
    let mut out: Vec<String> = Vec::new();
    out.push("vi".to_string());
    proof {
        reveal_strlit("vi");
    }
    assert(word_views(out@) =~= seq!["vi"@]);
    out
}

/// The editor command line chosen from the configured one and the words
/// of `$EDITOR`: the first of them that is not empty, else `vi`.
pub open spec fn editor_argv_spec(configured: Option<Seq<Seq<char>>>, env_words: Option<Seq<Seq<char>>>) -> Seq<Seq<char>> {
    if configured is Some && configured->0.len() > 0 {
        configured->0
    } else if env_words is Some && env_words->0.len() > 0 {
        env_words->0
    } else {
        seq!["vi"@]
    }
}

} // verus!
