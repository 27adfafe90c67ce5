//! The screen state machine: which list is shown, what is selected, and
//! what a key press does.
//!
//! Work outside the process (running git, reading session files) is not
//! done here. A step that needs it names the work it needs (`Work`); the
//! caller performs it and hands the step its result (`Outcome`).

use vstd::prelude::*;
use crate::config::{Config, CliToolConfig, ProjectConfig, first_tool, lemma_first_tool};
use crate::worktree::{WorktreeInfo, WorktreeView};
use crate::session::SessionInfo;
use crate::terminal::{container_workdir, workdir_of};
use crate::text::{
    ascii_lower, fuzzy_match, is_ascii_text, is_subsequence, lemma_subsequence_drop_last, lowercase,
    lowercase_of, opt_view, owned, trim, trimmed,
};

verus! {

/// What the main panel shows.
#[derive(Debug)]
pub enum Screen {
    ProjectList,
    WorktreeList { project_index: usize },
    ToolSelect { project_index: usize, worktree: WorktreeInfo },
    SessionList { project_index: usize, worktree_index: usize },
    NewWorktree { project_index: usize, input: String },
    ConfirmDelete { project_index: usize, worktree_index: usize },
    /// `selected_button`: 0 = Return, 1 = Continue.
    NoGitWarning { project_index: usize, selected_button: usize },
}

impl Clone for Screen {
    fn clone(&self) -> (r: Self)
        ensures
            r == *self,
    {
        match self {
            Screen::ProjectList => Screen::ProjectList,
            Screen::WorktreeList { project_index } => Screen::WorktreeList {
                project_index: *project_index,
            },
            Screen::ToolSelect { project_index, worktree } => Screen::ToolSelect {
                project_index: *project_index,
                worktree: worktree.clone(),
            },
            Screen::SessionList { project_index, worktree_index } => Screen::SessionList {
                project_index: *project_index,
                worktree_index: *worktree_index,
            },
            Screen::NewWorktree { project_index, input } => Screen::NewWorktree {
                project_index: *project_index,
                input: input.clone(),
            },
            Screen::ConfirmDelete { project_index, worktree_index } => Screen::ConfirmDelete {
                project_index: *project_index,
                worktree_index: *worktree_index,
            },
            Screen::NoGitWarning { project_index, selected_button } => Screen::NoGitWarning {
                project_index: *project_index,
                selected_button: *selected_button,
            },
        }
    }
}

/// What the caller is to do after a step.
#[derive(Debug)]
pub enum Action {
    /// Nothing to do.
    Nothing,
    Quit,
    LaunchTool { project: ProjectConfig, worktree: WorktreeInfo, cli: CliToolConfig },
    ResumeSession {
        project: ProjectConfig,
        worktree: WorktreeInfo,
        cli: CliToolConfig,
        session_id: String,
    },
    Refresh,
}

/// A key press, as far as the interface tells keys apart.
#[derive(Debug, Clone, Copy, PartialEq, Eq, Structural)]
pub enum Key {
    Up,
    Down,
    Left,
    Right,
    Enter,
    Esc,
    Backspace,
    Delete,
    Char(char),
    Other,
}

/// Outside work that a step needs done first.
#[derive(Debug)]
pub enum Work {
    Nothing,
    /// List the git worktrees of the project at `project_path`.
    ListWorktrees { project_path: String },
    /// Read the sessions recorded for the container directory.
    ListSessions { container_workdir: String },
    /// Create a worktree for `branch_name` in the project.
    CreateWorktree { project_path: String, branch_name: String },
    /// Remove the worktree at `worktree_path` from the project.
    RemoveWorktree { project_path: String, worktree_path: String },
}

/// The kinds of outside work.
#[derive(Debug, Clone, Copy, PartialEq, Eq, Structural)]
pub enum WorkKind {
    Nothing,
    ListWorktrees,
    ListSessions,
    CreateWorktree,
    RemoveWorktree,
}

impl Work {
    pub open spec fn kind(self) -> WorkKind {
        match self {
            Work::Nothing => WorkKind::Nothing,
            Work::ListWorktrees { .. } => WorkKind::ListWorktrees,
            Work::ListSessions { .. } => WorkKind::ListSessions,
            Work::CreateWorktree { .. } => WorkKind::CreateWorktree,
            Work::RemoveWorktree { .. } => WorkKind::RemoveWorktree,
        }
    }
}

/// The result of outside work.
#[derive(Debug)]
pub enum Outcome {
    Nothing,
    /// The listed worktrees, or `None` when listing failed; then whether the
    /// project directory holds a `.git` entry.
    Worktrees { listed: Option<Vec<WorktreeInfo>>, git_dir_exists: bool },
    Sessions(Vec<SessionInfo>),
    /// The new worktree, or the error message.
    Created(Result<WorktreeInfo, String>),
    /// Success, or the error message.
    Removed(Result<(), String>),
}

impl Outcome {
    pub open spec fn kind(self) -> WorkKind {
        match self {
            Outcome::Nothing => WorkKind::Nothing,
            Outcome::Worktrees { .. } => WorkKind::ListWorktrees,
            Outcome::Sessions(_) => WorkKind::ListSessions,
            Outcome::Created(_) => WorkKind::CreateWorktree,
            Outcome::Removed(_) => WorkKind::RemoveWorktree,
        }
    }

    /// This outcome answers work of kind `k`, and the lists it brings fit
    /// the machine's counters once one is added.
    pub open spec fn answers(self, k: WorkKind) -> bool {
        &&& self.kind() == k
        &&& self matches Outcome::Worktrees { listed: Some(ws), .. } ==> ws@.len() + 1 < usize::MAX
        &&& self matches Outcome::Sessions(ss) ==> ss@.len() + 1 < usize::MAX
    }

    /// Whether this outcome answers work of kind `k`.
    pub fn answers_kind(&self, k: WorkKind) -> (r: bool)
        ensures
            r == self.answers(k),
    {
        match self {
            Outcome::Nothing => k == WorkKind::Nothing,
            Outcome::Worktrees { listed, .. } => k == WorkKind::ListWorktrees && match listed {
                Some(ws) => ws.len() < usize::MAX - 1,
                None => true,
            },
            Outcome::Sessions(ss) => k == WorkKind::ListSessions && ss.len() < usize::MAX - 1,
            Outcome::Created(_) => k == WorkKind::CreateWorktree,
            Outcome::Removed(_) => k == WorkKind::RemoveWorktree,
        }
    }
}

impl Work {
    /// The kind of this work.
    pub fn work_kind(&self) -> (r: WorkKind)
        ensures
            r == self.kind(),
    {
        match self {
            Work::Nothing => WorkKind::Nothing,
            Work::ListWorktrees { .. } => WorkKind::ListWorktrees,
            Work::ListSessions { .. } => WorkKind::ListSessions,
            Work::CreateWorktree { .. } => WorkKind::CreateWorktree,
            Work::RemoveWorktree { .. } => WorkKind::RemoveWorktree,
        }
    }
}

/// The state of the interface.
pub struct App {
    pub config: Config,
    pub screen: Screen,
    /// The highlighted row of the focused list.
    pub list_index: usize,
    /// The row of the project list last selected.
    pub project_list_index: usize,
    /// The row of the worktree list last selected.
    pub worktree_list_index: usize,
    pub worktrees: Vec<WorktreeInfo>,
    pub sessions: Vec<SessionInfo>,
    pub status_message: Option<String>,
    pub search_query: String,
    /// Positions in `config.projects` of the projects the search shows.
    pub filtered_indices: Vec<usize>,
}

/// The positions `0..n`.
pub open spec fn all_positions(n: int) -> Seq<usize> {
    Seq::new(n as nat, |i: int| i as usize)
}

/// The positions below `k` of the projects whose lowercased name contains
/// the characters of `q` in order.
pub open spec fn matching_positions(ps: Seq<ProjectConfig>, q: Seq<char>, k: int) -> Seq<usize>
    decreases k,
{
    if k <= 0 {
        Seq::empty()
    } else {
        let prev = matching_positions(ps, q, k - 1);
        if is_subsequence(q, lowercase_of(ps[k - 1].name@)) {
            prev.push((k - 1) as usize)
        } else {
            prev
        }
    }
}

/// The positions of the projects that the search `query` shows, in order:
/// all of them for an empty (lowercased) query, else those whose lowercased
/// name holds the lowercased query's characters in order.
pub open spec fn project_filter(ps: Seq<ProjectConfig>, query: Seq<char>) -> Seq<usize> {
    let q = lowercase_of(query);
    if q.len() == 0 {
        all_positions(ps.len() as int)
    } else {
        matching_positions(ps, q, ps.len() as int)
    }
}

/// Every position `matching_positions` gives is below `k`, and they
/// increase.
pub proof fn lemma_matching_positions(ps: Seq<ProjectConfig>, q: Seq<char>, k: int)
    requires
        0 <= k <= ps.len(),
        ps.len() <= usize::MAX,
    ensures
        forall|a: int| 0 <= a < matching_positions(ps, q, k).len() ==> (#[trigger] matching_positions(ps, q, k)[a]) < k,
        forall|a: int, b: int| 0 <= a < b < matching_positions(ps, q, k).len() ==> (#[trigger] matching_positions(ps, q, k)[a]) < (#[trigger] matching_positions(ps, q, k)[b]),
        matching_positions(ps, q, k).len() <= k,
    decreases k,
{
    if k > 0 {
        lemma_matching_positions(ps, q, k - 1);
        let prev = matching_positions(ps, q, k - 1);
        let cur = matching_positions(ps, q, k);
        assert forall|a: int, b: int| 0 <= a < b < cur.len() implies (#[trigger] cur[a]) < (
        #[trigger] cur[b]) by {
            if is_subsequence(q, lowercase_of(ps[k - 1].name@)) {
                assert(cur == prev.push((k - 1) as usize));
                if b < prev.len() {
                    assert(cur[a] == prev[a] && cur[b] == prev[b]);
                } else {
                    assert(cur[a] == prev[a]);
                    assert(prev[a] < k - 1);
                }
            } else {
                assert(cur == prev);
            }
        }
    }
}

/// Every row the filter gives is a position of a project.
pub proof fn lemma_project_filter_valid(ps: Seq<ProjectConfig>, query: Seq<char>)
    requires
        ps.len() <= usize::MAX,
    ensures
        positions_valid(project_filter(ps, query), ps.len() as int),
{
    lemma_matching_positions(ps, lowercase_of(query), ps.len() as int);
}

/// A row of the project list is a position of `config.projects`.
pub open spec fn positions_valid(fs: Seq<usize>, n: int) -> bool {
    forall|k: int| 0 <= k < fs.len() ==> (#[trigger] fs[k]) < n
}

impl App {
    /// The worktree and session lists leave room for the extra "new" row in
    /// a machine counter.
    pub open spec fn lists_fit(self) -> bool {
        &&& self.worktrees@.len() + 1 < usize::MAX
        &&& self.sessions@.len() + 1 < usize::MAX
    }

    /// The project list shows what the search query selects, and the query
    /// has been lowercased: of an ASCII query, its lowercase is known.
    pub open spec fn filter_is_current(self) -> bool {
        &&& self.filtered_indices@ == project_filter(self.config.projects@, self.search_query@)
        &&& is_ascii_text(self.search_query@) ==> lowercase_of(self.search_query@) == ascii_lower(
            self.search_query@,
        )
    }

    /// The structural invariant: the project list is the current filter,
    /// the rows of the project list and the positions held by the screen
    /// point into the lists they name, and the lists leave room for the
    /// extra "new" row.
    pub open spec fn wf(self) -> bool {
        let n = self.config.projects@.len();
        &&& self.filter_is_current()
        &&& positions_valid(self.filtered_indices@, n as int)
        &&& self.lists_fit()
        &&& match self.screen {
            Screen::ProjectList => true,
            Screen::WorktreeList { project_index } => project_index < n,
            Screen::ToolSelect { project_index, .. } => project_index < n,
            Screen::SessionList { project_index, worktree_index } => project_index < n
                && worktree_index < self.worktrees@.len(),
            Screen::NewWorktree { project_index, .. } => project_index < n,
            Screen::ConfirmDelete { project_index, worktree_index } => project_index < n
                && worktree_index < self.worktrees@.len(),
            Screen::NoGitWarning { project_index, selected_button } => project_index < n
                && selected_button <= 1,
        }
    }

    /// The number of rows of the focused list: the shown projects, the
    /// worktrees plus the "new worktree" row, the tools, or the sessions plus
    /// the "new session" row; none on the dialog screens.
    pub open spec fn item_count(self) -> int {
        match self.screen {
            Screen::ProjectList => self.filtered_indices@.len() as int,
            Screen::WorktreeList { .. } => self.worktrees@.len() + 1 as int,
            Screen::ToolSelect { .. } => self.config.cli_tools@.len() as int,
            Screen::SessionList { .. } => self.sessions@.len() + 1 as int,
            _ => 0,
        }
    }

    /// The highlighted row is one that the list shows (always so on the
    /// screens that have no list).
    pub open spec fn selection_valid(self) -> bool {
        match self.screen {
            Screen::ProjectList => self.filtered_indices@.len() > 0 ==> self.list_index
                < self.filtered_indices@.len(),
            Screen::WorktreeList { .. } => self.list_index <= self.worktrees@.len(),
            Screen::ToolSelect { .. } => self.config.cli_tools@.len() > 0 ==> self.list_index
                < self.config.cli_tools@.len(),
            Screen::SessionList { .. } => self.list_index <= self.sessions@.len(),
            _ => true,
        }
    }

    /// Whether the highlighted row is one that the list shows.
    pub fn selection_in_range(&self) -> (r: bool)
        ensures
            r == self.selection_valid(),
    {
        match &self.screen {
            Screen::ProjectList => self.filtered_indices.len() == 0 || self.list_index
                < self.filtered_indices.len(),
            Screen::WorktreeList { .. } => self.list_index <= self.worktrees.len(),
            Screen::ToolSelect { .. } => self.config.cli_tools.len() == 0 || self.list_index
                < self.config.cli_tools.len(),
            Screen::SessionList { .. } => self.list_index <= self.sessions.len(),
            _ => true,
        }
    }

    /// A fresh state on the project list, showing every project.
    pub fn new(config: Config) -> (r: Self)
        ensures
            r.config == config,
            r.screen == Screen::ProjectList,
            r.list_index == 0,
            r.project_list_index == 0,
            r.worktree_list_index == 0,
            r.worktrees@.len() == 0,
            r.sessions@.len() == 0,
            r.status_message is None,
            r.search_query@.len() == 0,
            r.filtered_indices@ == all_positions(config.projects@.len() as int),
            r.wf(),
    {
        let mut app = App {
            config,
            screen: Screen::ProjectList,
            list_index: 0,
            project_list_index: 0,
            worktree_list_index: 0,
            worktrees: Vec::new(),
            sessions: Vec::new(),
            status_message: None,
            search_query: String::new(),
            filtered_indices: Vec::new(),
        };
        app.update_filter();
        app
    }

    /// The number of rows of the focused list.
    pub fn current_items_count(&self) -> (r: usize)
        requires
            self.lists_fit(),
        ensures
            r == self.item_count(),
    {
        match &self.screen {
            Screen::ProjectList => self.filtered_indices.len(),
            Screen::WorktreeList { .. } => self.worktrees.len() + 1,
            Screen::ToolSelect { .. } => self.config.cli_tools.len(),
            Screen::SessionList { .. } => self.sessions.len() + 1,
            Screen::NewWorktree { .. } | Screen::ConfirmDelete { .. } | Screen::NoGitWarning {
                ..
            } => 0,
        }
    }

    /// The highlight moves one row up unless it is on the first row.
    pub open spec fn move_up_post(self, b: App) -> bool {
        b == App {
            list_index: if self.list_index > 0 {
                (self.list_index - 1) as usize
            } else {
                self.list_index
            },
            ..self
        }
    }

    /// Moves the highlight one row up, unless it is on the first row.
    pub fn move_up(&mut self)
        ensures
            old(self).move_up_post(*final(self)),
    {
        if self.list_index > 0 {
            self.list_index = self.list_index - 1;
        }
    }

    /// The highlight moves one row down unless it is on (or past) the last
    /// row.
    pub open spec fn move_down_post(self, b: App) -> bool {
        b == App {
            list_index: if self.item_count() > 0 && self.list_index < self.item_count() - 1 {
                (self.list_index + 1) as usize
            } else {
                self.list_index
            },
            ..self
        }
    }

    /// Moves the highlight one row down, unless it is on (or past) the last
    /// row.
    pub fn move_down(&mut self)
        requires
            old(self).lists_fit(),
        ensures
            old(self).move_down_post(*final(self)),
            old(self).wf() ==> final(self).wf(),
    {
        let count = self.current_items_count();
        if count > 0 && self.list_index < count - 1 {
            self.list_index = self.list_index + 1;
        }
    }

    /// Recomputes the rows of the project list from the search query.
    fn update_filter(&mut self)
        ensures
            positions_valid(final(self).filtered_indices@, old(self).config.projects@.len() as int),
            final(self).filtered_indices@ == project_filter(
                old(self).config.projects@,
                old(self).search_query@,
            ),
            old(self).search_query@.len() == 0 ==> final(self).filtered_indices@ == all_positions(
                old(self).config.projects@.len() as int,
            ),
            final(self).filter_is_current(),
            *final(self) == (App { filtered_indices: final(self).filtered_indices, ..*old(self) }),
    {
        let query = lowercase(self.search_query.as_str());
        let n = self.config.projects.len();
        let mut fs: Vec<usize> = Vec::new();
        if query.as_str().is_empty() {
            let mut i: usize = 0;
            while i < n
                invariant
                    i <= n,
                    fs@ == all_positions(i as int),
                decreases n - i,
            {
                fs.push(i);
                assert(fs@ =~= all_positions(i + 1));
                i = i + 1;
            }
        } else {
            let mut i: usize = 0;
            while i < n
                invariant
                    n == self.config.projects@.len(),
                    i <= n,
                    query@ == lowercase_of(self.search_query@),
                    fs@ == matching_positions(self.config.projects@, query@, i as int),
                decreases n - i,
            {
                let name = lowercase(self.config.projects[i].name.as_str());
                if fuzzy_match(name.as_str(), query.as_str()) {
                    fs.push(i);
                }
                i = i + 1;
            }
        }
        self.filtered_indices = fs;
        proof {
            lemma_project_filter_valid(self.config.projects@, self.search_query@);
        }
    }

    /// `c` joins the search query, the project list is refiltered and its
    /// first row highlighted.
    pub open spec fn search_push_post(self, c: char, b: App) -> bool {
        &&& b.search_query@ == self.search_query@.push(c)
        &&& b.filtered_indices@ == project_filter(self.config.projects@, b.search_query@)
        &&& b == App {
            search_query: b.search_query,
            filtered_indices: b.filtered_indices,
            list_index: 0,
            ..self
        }
    }

    /// Appends `c` to the search query, refilters, and highlights the first
    /// row.
    pub fn search_push(&mut self, c: char)
        ensures
            old(self).search_push_post(c, *final(self)),
            old(self).wf() ==> final(self).wf(),
    {
        self.search_query.push(c);
        self.update_filter();
        self.list_index = 0;
    }

    /// The last character of the search query goes, the project list is
    /// refiltered, and a highlight past its last row moves onto that row.
    pub open spec fn search_pop_post(self, b: App) -> bool {
        &&& b.search_query@ == if self.search_query@.len() > 0 {
            self.search_query@.drop_last()
        } else {
            self.search_query@
        }
        &&& b.filtered_indices@ == project_filter(self.config.projects@, b.search_query@)
        &&& b == App {
            search_query: b.search_query,
            filtered_indices: b.filtered_indices,
            list_index: if self.list_index >= b.filtered_indices@.len() && b.filtered_indices@.len() > 0 {
                (b.filtered_indices@.len() - 1) as usize
            } else {
                self.list_index
            },
            ..self
        }
    }

    /// Removes the last character of the search query, refilters, and moves
    /// the highlight to the last row when it is past it.
    pub fn search_pop(&mut self)
        ensures
            old(self).search_pop_post(*final(self)),
            old(self).wf() ==> final(self).wf(),
    {
        self.search_query.pop();
        self.update_filter();
        if self.list_index >= self.filtered_indices.len() && self.filtered_indices.len() > 0 {
            self.list_index = self.filtered_indices.len() - 1;
        }
    }

    /// The search query empties, the project list shows every project,
    /// and its first row is highlighted.
    pub open spec fn search_clear_post(self, b: App) -> bool {
        &&& b.search_query@.len() == 0
        &&& b.filtered_indices@ == project_filter(self.config.projects@, b.search_query@)
        &&& b.filtered_indices@ == all_positions(self.config.projects@.len() as int)
        &&& b == App {
            search_query: b.search_query,
            filtered_indices: b.filtered_indices,
            list_index: 0,
            ..self
        }
    }

    /// Empties the search query, shows every project, and highlights the
    /// first row.
    pub fn search_clear(&mut self)
        ensures
            old(self).search_clear_post(*final(self)),
            old(self).wf() ==> final(self).wf(),
    {
        self.search_query = String::new();
        self.update_filter();
        self.list_index = 0;
    }
}

/// The tool a project launches without asking: its own default tool when
/// one by that name is configured, else the global default tool when one by
/// that name is configured.
pub open spec fn launch_default(cfg: Config, project: ProjectConfig) -> Option<int> {
    let global = match cfg.default_tool {
        Some(d) => first_tool(cfg.cli_tools@, d@),
        None => None,
    };
    match project.default_tool {
        Some(d) => match first_tool(cfg.cli_tools@, d@) {
            Some(i) => Some(i),
            None => global,
        },
        None => global,
    }
}

/// The name of the tool that resumes a session of `project`: its default
/// tool, else the global default tool, else "copilot".
pub open spec fn resume_tool_name(cfg: Config, project: ProjectConfig) -> Seq<char> {
    match project.default_tool {
        Some(d) => d@,
        None => match cfg.default_tool {
            Some(d) => d@,
            None => "copilot"@,
        },
    }
}

/// The worktree record that stands for a project directory without git.
pub open spec fn plain_dir_worktree(project: ProjectConfig) -> WorktreeView {
    WorktreeView { name: project.name@, path: project.path@, branch: Seq::empty(), is_main: true }
}

/// `r` launches tool `i` for `project` in `worktree`.
pub open spec fn launches(r: Action, cfg: Config, project: ProjectConfig, worktree: WorktreeView, i: int) -> bool {
    r matches Action::LaunchTool { project: p, worktree: w, cli } && p == project && w@ == worktree
        && 0 <= i < cfg.cli_tools@.len() && cli@ == cfg.cli_tools@[i]@
}

impl App {
    /// Going back: from the worktree list or the no-git warning to the
    /// project list (refiltered; the highlight on the project selected
    /// last, or on the row numbered like the project's position after the
    /// warning), from the other screens of a project to its worktree list
    /// (highlight on the worktree selected last). The status line clears.
    pub open spec fn go_back_post(self, b: App) -> bool {
        match self.screen {
            Screen::ProjectList => b == App { status_message: None, ..self },
            Screen::WorktreeList { .. } => b.filtered_indices@ == project_filter(
                self.config.projects@,
                self.search_query@,
            ) && b == App {
                screen: Screen::ProjectList,
                list_index: self.project_list_index,
                status_message: None,
                filtered_indices: b.filtered_indices,
                ..self
            },
            Screen::NoGitWarning { project_index, .. } => b.filtered_indices@ == project_filter(
                self.config.projects@,
                self.search_query@,
            ) && b == App {
                screen: Screen::ProjectList,
                list_index: project_index,
                status_message: None,
                filtered_indices: b.filtered_indices,
                ..self
            },
            Screen::ToolSelect { project_index, .. } => b == App {
                screen: Screen::WorktreeList { project_index },
                list_index: self.worktree_list_index,
                status_message: None,
                ..self
            },
            Screen::SessionList { project_index, .. } => b == App {
                screen: Screen::WorktreeList { project_index },
                list_index: self.worktree_list_index,
                status_message: None,
                ..self
            },
            Screen::NewWorktree { project_index, .. } => b == App {
                screen: Screen::WorktreeList { project_index },
                list_index: self.worktree_list_index,
                status_message: None,
                ..self
            },
            Screen::ConfirmDelete { project_index, .. } => b == App {
                screen: Screen::WorktreeList { project_index },
                list_index: self.worktree_list_index,
                status_message: None,
                ..self
            },
        }
    }

    /// Goes back one screen.
    pub fn go_back(&mut self)
        ensures
            old(self).go_back_post(*final(self)),
            old(self).wf() ==> final(self).wf(),
    {
        self.status_message = None;
        match &self.screen {
            Screen::ProjectList => {},
            Screen::WorktreeList { .. } => {
                self.screen = Screen::ProjectList;
                self.list_index = self.project_list_index;
                self.update_filter();
            },
            Screen::ToolSelect { project_index, .. } => {
                let pi = *project_index;
                self.screen = Screen::WorktreeList { project_index: pi };
                self.list_index = self.worktree_list_index;
            },
            Screen::SessionList { project_index, .. } => {
                let pi = *project_index;
                self.screen = Screen::WorktreeList { project_index: pi };
                self.list_index = self.worktree_list_index;
            },
            Screen::NewWorktree { project_index, .. } => {
                let pi = *project_index;
                self.screen = Screen::WorktreeList { project_index: pi };
                self.list_index = self.worktree_list_index;
            },
            Screen::ConfirmDelete { project_index, .. } => {
                let pi = *project_index;
                self.screen = Screen::WorktreeList { project_index: pi };
                self.list_index = self.worktree_list_index;
            },
            Screen::NoGitWarning { project_index, .. } => {
                let pi = *project_index;
                self.screen = Screen::ProjectList;
                self.list_index = pi;
                self.update_filter();
            },
        }
    }

    /// Typing a character adds it to the branch name being entered; other
    /// screens ignore it.
    pub open spec fn handle_char_post(self, c: char, b: App) -> bool {
        match self.screen {
            Screen::NewWorktree { project_index, input } => b.screen matches Screen::NewWorktree {
                project_index: pi2,
                input: input2,
            } && pi2 == project_index && input2@ == input@.push(c) && b == App {
                screen: b.screen,
                ..self
            },
            _ => b == self,
        }
    }

    /// Adds `c` to the branch name being entered.
    pub fn handle_char(&mut self, c: char) -> (r: Action)
        ensures
            old(self).handle_char_post(c, *final(self)),
            r is Nothing,
            old(self).wf() ==> final(self).wf(),
    {
        match &mut self.screen {
            Screen::NewWorktree { input, .. } => {
                input.push(c);
            },
            _ => {},
        }
        Action::Nothing
    }

    /// Backspace removes the last character of the branch name being
    /// entered; other screens ignore it.
    pub open spec fn handle_backspace_post(self, b: App) -> bool {
        match self.screen {
            Screen::NewWorktree { project_index, input } => b.screen matches Screen::NewWorktree {
                project_index: pi2,
                input: input2,
            } && pi2 == project_index && input2@ == (if input@.len() > 0 {
                input@.drop_last()
            } else {
                input@
            }) && b == App { screen: b.screen, ..self },
            _ => b == self,
        }
    }

    /// Removes the last character of the branch name being entered.
    pub fn handle_backspace(&mut self)
        ensures
            old(self).handle_backspace_post(*final(self)),
            old(self).wf() ==> final(self).wf(),
    {
        match &mut self.screen {
            Screen::NewWorktree { input, .. } => {
                input.pop();
            },
            _ => {},
        }
    }

    /// The position of the tool that a project launches without asking.
    fn launch_default_index(&self, pi: usize) -> (r: Option<usize>)
        requires
            pi < self.config.projects@.len(),
        ensures
            match r {
                Some(i) => launch_default(self.config, self.config.projects@[pi as int]) == Some(i as int)
                    && i < self.config.cli_tools@.len(),
                None => launch_default(self.config, self.config.projects@[pi as int]) is None,
            },
    {
        let project = &self.config.projects[pi];
        match &project.default_tool {
            Some(d) => match self.config.find_tool_index(d.as_str()) {
                Some(i) => {
                    return Some(i);
                },
                None => {},
            },
            None => {},
        }
        match &self.config.default_tool {
            Some(d) => self.config.find_tool_index(d.as_str()),
            None => None,
        }
    }
}

impl App {
    /// The outside work that selecting needs: the worktree listing of the
    /// highlighted project on a non-empty project list, the sessions of the
    /// highlighted worktree on the worktree list (past the "new" row).
    pub open spec fn select_kind(self) -> WorkKind {
        match self.screen {
            Screen::ProjectList => if self.filtered_indices@.len() == 0 {
                WorkKind::Nothing
            } else {
                WorkKind::ListWorktrees
            },
            Screen::WorktreeList { .. } => if self.list_index == 0 {
                WorkKind::Nothing
            } else {
                WorkKind::ListSessions
            },
            _ => WorkKind::Nothing,
        }
    }

    /// The outside work that selecting needs.
    pub fn select_work(&self) -> (w: Work)
        requires
            self.wf(),
            self.screen is SessionList || self.selection_valid(),
        ensures
            w.kind() == self.select_kind(),
            w matches Work::ListWorktrees { project_path } ==> project_path@ == self.config.projects@[
                self.filtered_indices@[self.list_index as int] as int].path@,
            w matches Work::ListSessions { container_workdir } ==> self.screen matches Screen::WorktreeList { project_index }
                && container_workdir@ == workdir_of(
                self.config.projects@[project_index as int],
                self.worktrees@[self.list_index - 1],
            ),
    {
        match &self.screen {
            Screen::ProjectList => {
                if self.filtered_indices.len() == 0 {
                    Work::Nothing
                } else {
                    let pi = self.filtered_indices[self.list_index];
                    Work::ListWorktrees { project_path: self.config.projects[pi].path.clone() }
                }
            },
            Screen::WorktreeList { project_index } => {
                if self.list_index == 0 {
                    Work::Nothing
                } else {
                    let wt = &self.worktrees[self.list_index - 1];
                    let project = &self.config.projects[*project_index];
                    Work::ListSessions { container_workdir: container_workdir(project, wt) }
                }
            },
            _ => Work::Nothing,
        }
    }

    /// Selecting the highlighted row. On the project list: opens the
    /// project's worktree list when the listing succeeded, the no-git
    /// warning (on "Continue") when it failed and the directory has no
    /// `.git`, else reports the failure; with no rows it reports that there
    /// are no (matching) projects. On the worktree list: the "new" row opens
    /// the branch name entry, a worktree opens its session list with the
    /// sessions read for it. On the tool list: launches the highlighted
    /// tool, or reports that none is configured. Elsewhere nothing happens.
    /// The status line clears first.
    pub open spec fn select_post(self, o: Outcome, b: App, r: Action) -> bool {
        match self.screen {
            Screen::ProjectList => if self.filtered_indices@.len() == 0 {
                &&& r is Nothing
                &&& b == App { status_message: b.status_message, ..self }
                &&& opt_view(b.status_message) == Some(
                    if self.search_query@.len() == 0 {
                        "No projects configured. Edit config.toml in the azkaban repo"@
                    } else {
                        "No matching projects"@
                    },
                )
            } else {
                let pi = self.filtered_indices@[self.list_index as int];
                &&& r is Nothing
                &&& match o {
                    Outcome::Worktrees { listed: Some(ws), .. } => b == App {
                        worktrees: ws,
                        screen: Screen::WorktreeList { project_index: pi },
                        list_index: 0,
                        project_list_index: self.list_index,
                        status_message: None,
                        ..self
                    },
                    Outcome::Worktrees { listed: None, git_dir_exists } => if !git_dir_exists {
                        b == App {
                            screen: Screen::NoGitWarning { project_index: pi, selected_button: 1 },
                            project_list_index: self.list_index,
                            status_message: None,
                            ..self
                        }
                    } else {
                        &&& b == App {
                            project_list_index: self.list_index,
                            status_message: b.status_message,
                            ..self
                        }
                        &&& opt_view(b.status_message) == Some("Failed to list worktrees"@)
                    },
                    _ => true,
                }
            },
            Screen::WorktreeList { project_index } => {
                &&& r is Nothing
                &&& if self.list_index == 0 {
                    &&& b.screen matches Screen::NewWorktree { project_index: pi2, input }
                        && pi2 == project_index && input@.len() == 0
                    &&& b == App { screen: b.screen, list_index: 0, status_message: None, ..self }
                } else {
                    match o {
                        Outcome::Sessions(ss) => b == App {
                            worktree_list_index: self.list_index,
                            sessions: ss,
                            screen: Screen::SessionList {
                                project_index,
                                worktree_index: (self.list_index - 1) as usize,
                            },
                            list_index: 0,
                            status_message: None,
                            ..self
                        },
                        _ => true,
                    }
                }
            },
            Screen::ToolSelect { project_index, worktree } => if self.config.cli_tools@.len() == 0 {
                &&& r is Nothing
                &&& b == App { status_message: b.status_message, ..self }
                &&& opt_view(b.status_message) == Some("No CLI tools configured in config.toml"@)
            } else {
                &&& b == App { status_message: None, ..self }
                &&& launches(
                    r,
                    self.config,
                    self.config.projects@[project_index as int],
                    worktree@,
                    self.list_index as int,
                )
                &&& r->LaunchTool_worktree == worktree
            },
            _ => r is Nothing && b == App { status_message: None, ..self },
        }
    }

    /// Selects the highlighted row, given the result of the work that
    /// `select_work` names.
    pub fn select(&mut self, outcome: Outcome) -> (r: Action)
        requires
            old(self).wf(),
            old(self).screen is SessionList || old(self).selection_valid(),
            outcome.answers(old(self).select_kind()),
        ensures
            old(self).select_post(outcome, *final(self), r),
            final(self).wf(),
    {
        self.status_message = None;
        match &self.screen {
            Screen::ProjectList => {
                if self.filtered_indices.len() == 0 {
                    self.status_message = Some(
                        if self.search_query.as_str().is_empty() {
                            owned("No projects configured. Edit config.toml in the azkaban repo")
                        } else {
                            owned("No matching projects")
                        },
                    );
                    return Action::Nothing;
                }
                let project_index = self.filtered_indices[self.list_index];
                self.project_list_index = self.list_index;
                match outcome {
                    Outcome::Worktrees { listed: Some(wts), .. } => {
                        self.worktrees = wts;
                        self.screen = Screen::WorktreeList { project_index };
                        self.list_index = 0;
                    },
                    Outcome::Worktrees { listed: None, git_dir_exists } => {
                        if !git_dir_exists {
                            self.screen = Screen::NoGitWarning { project_index, selected_button: 1 };
                        } else {
                            self.status_message = Some(owned("Failed to list worktrees"));
                        }
                    },
                    _ => {},
                }
                Action::Nothing
            },
            Screen::WorktreeList { project_index } => {
                let pi = *project_index;
                if self.list_index == 0 {
                    self.screen = Screen::NewWorktree { project_index: pi, input: String::new() };
                    self.list_index = 0;
                    Action::Nothing
                } else {
                    let worktree_index = self.list_index - 1;
                    self.worktree_list_index = self.list_index;
                    match outcome {
                        Outcome::Sessions(ss) => {
                            self.sessions = ss;
                        },
                        _ => {},
                    }
                    self.screen = Screen::SessionList { project_index: pi, worktree_index };
                    self.list_index = 0;
                    Action::Nothing
                }
            },
            Screen::ToolSelect { project_index, worktree } => {
                if self.config.cli_tools.len() == 0 {
                    self.status_message = Some(owned("No CLI tools configured in config.toml"));
                    return Action::Nothing;
                }
                let tool_cfg = self.config.cli_tools[self.list_index].clone();
                let project = self.config.projects[*project_index].clone();
                let worktree = worktree.clone();
                Action::LaunchTool { project, worktree, cli: tool_cfg }
            },
            _ => Action::Nothing,
        }
    }

    /// On a session list: the "new session" row launches the project's
    /// default tool (see `launch_default`) or, when there is none, opens the
    /// tool list (first row highlighted); a session row resumes that
    /// session with the tool named by `resume_tool_name`, or does nothing
    /// when no tool has that name. Elsewhere nothing happens.
    pub open spec fn select_session_post(self, b: App, r: Action) -> bool {
        match self.screen {
            Screen::SessionList { project_index, worktree_index } => {
                let project = self.config.projects@[project_index as int];
                let worktree = self.worktrees@[worktree_index as int];
                if self.list_index == 0 {
                    match launch_default(self.config, project) {
                        Some(i) => b == self && launches(r, self.config, project, worktree@, i)
                            && r->LaunchTool_worktree == worktree,
                        None => r is Nothing && b == App {
                            screen: Screen::ToolSelect { project_index, worktree },
                            list_index: 0,
                            ..self
                        },
                    }
                } else {
                    &&& b == self
                    &&& match first_tool(self.config.cli_tools@, resume_tool_name(self.config, project)) {
                        Some(i) => r matches Action::ResumeSession {
                            project: p,
                            worktree: w,
                            cli,
                            session_id,
                        } && p == project && w == worktree && cli@ == self.config.cli_tools@[i]@
                            && session_id@ == self.sessions@[self.list_index - 1].id@,
                        None => r is Nothing,
                    }
                }
            },
            _ => r is Nothing && b == self,
        }
    }

    /// Starts a new session or resumes the highlighted one.
    pub fn select_session(&mut self) -> (r: Action)
        requires
            old(self).wf(),
            old(self).screen is SessionList ==> old(self).selection_valid(),
        ensures
            old(self).select_session_post(*final(self), r),
            final(self).wf(),
    {
        match &self.screen {
            Screen::SessionList { project_index, worktree_index } => {
                let pi = *project_index;
                let worktree = self.worktrees[*worktree_index].clone();
                proof {
                    lemma_first_tool(self.config.cli_tools@, resume_tool_name(self.config, self.config.projects@[pi as int]));
                }
                if self.list_index == 0 {
                    match self.launch_default_index(pi) {
                        Some(i) => {
                            return Action::LaunchTool {
                                project: self.config.projects[pi].clone(),
                                worktree,
                                cli: self.config.cli_tools[i].clone(),
                            };
                        },
                        None => {
                            self.screen = Screen::ToolSelect { project_index: pi, worktree };
                            self.list_index = 0;
                            return Action::Nothing;
                        },
                    }
                }
                let session_id = self.sessions[self.list_index - 1].id.clone();
                let project = &self.config.projects[pi];
                let tool = match &project.default_tool {
                    Some(d) => self.config.find_tool_index(d.as_str()),
                    None => match &self.config.default_tool {
                        Some(d) => self.config.find_tool_index(d.as_str()),
                        None => self.config.find_tool_index("copilot"),
                    },
                };
                match tool {
                    Some(i) => Action::ResumeSession {
                        project: project.clone(),
                        worktree,
                        cli: self.config.cli_tools[i].clone(),
                        session_id,
                    },
                    None => Action::Nothing,
                }
            },
            _ => Action::Nothing,
        }
    }
}

impl App {
    /// The outside work that confirming a branch name needs: creating the
    /// worktree, unless the trimmed name is empty.
    pub open spec fn confirm_new_worktree_kind(self) -> WorkKind {
        match self.screen {
            Screen::NewWorktree { input, .. } => if trimmed(input@).len() == 0 {
                WorkKind::Nothing
            } else {
                WorkKind::CreateWorktree
            },
            _ => WorkKind::Nothing,
        }
    }

    /// The outside work that confirming a branch name needs: the project's
    /// path and the trimmed branch name.
    pub fn confirm_new_worktree_work(&self) -> (w: Work)
        requires
            self.wf(),
        ensures
            w.kind() == self.confirm_new_worktree_kind(),
            w matches Work::CreateWorktree { project_path, branch_name } ==> self.screen matches Screen::NewWorktree {
                project_index,
                input,
            } && project_path@ == self.config.projects@[project_index as int].path@ && branch_name@
                == trimmed(input@),
    {
        match &self.screen {
            Screen::NewWorktree { project_index, input } => {
                let branch_name = trim(input.as_str());
                if branch_name.as_str().is_empty() {
                    Work::Nothing
                } else {
                    Work::CreateWorktree {
                        project_path: self.config.projects[*project_index].path.clone(),
                        branch_name,
                    }
                }
            },
            _ => Work::Nothing,
        }
    }

    /// Confirming the branch name: an empty (trimmed) name is refused; a
    /// created worktree joins the list, which opens with it highlighted; a
    /// failure is reported. Elsewhere nothing happens.
    pub open spec fn confirm_new_worktree_post(self, o: Outcome, b: App) -> bool {
        match self.screen {
            Screen::NewWorktree { project_index, input } => {
                let branch = trimmed(input@);
                if branch.len() == 0 {
                    &&& b == App { status_message: b.status_message, ..self }
                    &&& opt_view(b.status_message) == Some("Branch name cannot be empty"@)
                } else {
                    match o {
                        Outcome::Created(Ok(wt)) => {
                            &&& b.worktrees@ == self.worktrees@.push(wt)
                            &&& b == App {
                                worktrees: b.worktrees,
                                screen: Screen::WorktreeList { project_index },
                                list_index: b.worktrees@.len() as usize,
                                status_message: b.status_message,
                                ..self
                            }
                            &&& opt_view(b.status_message) == Some("Created worktree: "@ + branch)
                        },
                        Outcome::Created(Err(e)) => {
                            &&& b == App { status_message: b.status_message, ..self }
                            &&& opt_view(b.status_message) == Some(
                                "Failed to create worktree: "@ + e@,
                            )
                        },
                        _ => true,
                    }
                }
            },
            _ => b == self,
        }
    }

    /// Confirms the branch name, given the result of the work that
    /// `confirm_new_worktree_work` names.
    pub fn confirm_new_worktree(&mut self, outcome: Outcome) -> (r: Action)
        requires
            old(self).wf(),
            old(self).worktrees@.len() + 2 < usize::MAX,
            outcome.answers(old(self).confirm_new_worktree_kind()),
        ensures
            old(self).confirm_new_worktree_post(outcome, *final(self)),
            r is Nothing,
            final(self).wf(),
    {
        match &self.screen {
            Screen::NewWorktree { project_index, input } => {
                let pi = *project_index;
                let branch_name = trim(input.as_str());
                if branch_name.as_str().is_empty() {
                    self.status_message = Some(owned("Branch name cannot be empty"));
                    return Action::Nothing;
                }
                match outcome {
                    Outcome::Created(Ok(wt)) => {
                        self.worktrees.push(wt);
                        self.screen = Screen::WorktreeList { project_index: pi };
                        self.list_index = self.worktrees.len();
                        let mut msg = owned("Created worktree: ");
                        msg.append(branch_name.as_str());
                        self.status_message = Some(msg);
                    },
                    Outcome::Created(Err(e)) => {
                        let mut msg = owned("Failed to create worktree: ");
                        msg.append(e.as_str());
                        self.status_message = Some(msg);
                    },
                    _ => {},
                }
            },
            _ => {},
        }
        Action::Nothing
    }

    /// Asking to delete the highlighted worktree: the "new" row is ignored,
    /// the main worktree is refused, any other opens the confirmation.
    /// Elsewhere nothing happens.
    pub open spec fn delete_worktree_post(self, b: App) -> bool {
        match self.screen {
            Screen::WorktreeList { project_index } => if self.list_index == 0 {
                b == self
            } else if self.worktrees@[self.list_index - 1].is_main {
                &&& b == App { status_message: b.status_message, ..self }
                &&& opt_view(b.status_message) == Some("Cannot delete the main worktree"@)
            } else {
                b == App {
                    screen: Screen::ConfirmDelete {
                        project_index,
                        worktree_index: (self.list_index - 1) as usize,
                    },
                    ..self
                }
            },
            _ => b == self,
        }
    }

    /// Asks to delete the highlighted worktree.
    pub fn delete_worktree(&mut self) -> (r: Action)
        requires
            old(self).wf(),
            old(self).screen is WorktreeList ==> old(self).selection_valid(),
        ensures
            old(self).delete_worktree_post(*final(self)),
            r is Nothing,
            final(self).wf(),
    {
        match &self.screen {
            Screen::WorktreeList { project_index } => {
                let pi = *project_index;
                if self.list_index == 0 {
                    return Action::Nothing;
                }
                let wt_index = self.list_index - 1;
                if self.worktrees[wt_index].is_main {
                    self.status_message = Some(owned("Cannot delete the main worktree"));
                    return Action::Nothing;
                }
                self.screen = Screen::ConfirmDelete { project_index: pi, worktree_index: wt_index };
            },
            _ => {},
        }
        Action::Nothing
    }

    /// The outside work that confirming a deletion needs.
    pub open spec fn confirm_delete_kind(self) -> WorkKind {
        if self.screen is ConfirmDelete {
            WorkKind::RemoveWorktree
        } else {
            WorkKind::Nothing
        }
    }

    /// The outside work that confirming a deletion needs: the project's path
    /// and the worktree's path.
    pub fn confirm_delete_work(&self) -> (w: Work)
        requires
            self.wf(),
        ensures
            w.kind() == self.confirm_delete_kind(),
            w matches Work::RemoveWorktree { project_path, worktree_path } ==> self.screen matches Screen::ConfirmDelete {
                project_index,
                worktree_index,
            } && project_path@ == self.config.projects@[project_index as int].path@
                && worktree_path@ == self.worktrees@[worktree_index as int].path@,
    {
        match &self.screen {
            Screen::ConfirmDelete { project_index, worktree_index } => Work::RemoveWorktree {
                project_path: self.config.projects[*project_index].path.clone(),
                worktree_path: self.worktrees[*worktree_index].path.clone(),
            },
            _ => Work::Nothing,
        }
    }

    /// Confirming a deletion: a removed worktree leaves the list, which
    /// opens on its first worktree (or the "new" row when none is left); a
    /// failure is reported and the list opens on the worktree. Elsewhere
    /// nothing happens.
    pub open spec fn confirm_delete_post(self, o: Outcome, b: App) -> bool {
        match self.screen {
            Screen::ConfirmDelete { project_index, worktree_index } => match o {
                Outcome::Removed(Ok(())) => {
                    &&& b.worktrees@ == self.worktrees@.remove(worktree_index as int)
                    &&& b == App {
                        worktrees: b.worktrees,
                        screen: Screen::WorktreeList { project_index },
                        list_index: if b.worktrees@.len() == 0 {
                            0
                        } else {
                            1
                        },
                        status_message: b.status_message,
                        ..self
                    }
                    &&& opt_view(b.status_message) == Some("Worktree deleted"@)
                },
                Outcome::Removed(Err(e)) => {
                    &&& b == App {
                        screen: Screen::WorktreeList { project_index },
                        list_index: (worktree_index + 1) as usize,
                        status_message: b.status_message,
                        ..self
                    }
                    &&& opt_view(b.status_message) == Some("Failed to delete worktree: "@ + e@)
                },
                _ => true,
            },
            _ => b == self,
        }
    }

    /// Confirms the deletion, given the result of the work that
    /// `confirm_delete_work` names.
    pub fn confirm_delete(&mut self, outcome: Outcome) -> (r: Action)
        requires
            old(self).wf(),
            outcome.answers(old(self).confirm_delete_kind()),
        ensures
            old(self).confirm_delete_post(outcome, *final(self)),
            r is Nothing,
            final(self).wf(),
    {
        match &self.screen {
            Screen::ConfirmDelete { project_index, worktree_index } => {
                let pi = *project_index;
                let wi = *worktree_index;
                match outcome {
                    Outcome::Removed(Ok(())) => {
                        self.worktrees.remove(wi);
                        self.screen = Screen::WorktreeList { project_index: pi };
                        self.list_index = if self.worktrees.len() == 0 {
                            0
                        } else {
                            1
                        };
                        self.status_message = Some(owned("Worktree deleted"));
                    },
                    Outcome::Removed(Err(e)) => {
                        self.screen = Screen::WorktreeList { project_index: pi };
                        self.list_index = wi + 1;
                        let mut msg = owned("Failed to delete worktree: ");
                        msg.append(e.as_str());
                        self.status_message = Some(msg);
                    },
                    _ => {},
                }
            },
            _ => {},
        }
        Action::Nothing
    }

    /// Continuing past the no-git warning: launches the project's default
    /// tool (see `launch_default`) in the project directory, or opens the
    /// tool list for it. Elsewhere nothing happens.
    pub open spec fn continue_no_git_post(self, b: App, r: Action) -> bool {
        match self.screen {
            Screen::NoGitWarning { project_index, .. } => {
                let project = self.config.projects@[project_index as int];
                match launch_default(self.config, project) {
                    Some(i) => b == self && launches(r, self.config, project, plain_dir_worktree(project), i),
                    None => {
                        &&& r is Nothing
                        &&& b.screen matches Screen::ToolSelect { project_index: pi2, worktree }
                            && pi2 == project_index && worktree@ == plain_dir_worktree(project)
                        &&& b == App { screen: b.screen, list_index: 0, ..self }
                    },
                }
            },
            _ => r is Nothing && b == self,
        }
    }

    /// Continues past the no-git warning.
    pub fn continue_no_git(&mut self) -> (r: Action)
        requires
            old(self).wf(),
        ensures
            old(self).continue_no_git_post(*final(self), r),
            final(self).wf(),
    {
        match &self.screen {
            Screen::NoGitWarning { project_index, .. } => {
                let pi = *project_index;
                let project = &self.config.projects[pi];
                let dir_worktree = WorktreeInfo {
                    name: project.name.clone(),
                    path: project.path.clone(),
                    branch: String::new(),
                    is_main: true,
                };
                match self.launch_default_index(pi) {
                    Some(i) => Action::LaunchTool {
                        project: project.clone(),
                        worktree: dir_worktree,
                        cli: self.config.cli_tools[i].clone(),
                    },
                    None => {
                        self.screen = Screen::ToolSelect { project_index: pi, worktree: dir_worktree };
                        self.list_index = 0;
                        Action::Nothing
                    },
                }
            },
            _ => Action::Nothing,
        }
    }

    /// After a launched tool exits: back one screen, and once more when
    /// that lands on the tool list.
    pub fn return_from_tool(&mut self)
        requires
            old(self).wf(),
        ensures
            exists|mid: App| {
                &&& old(self).go_back_post(mid)
                &&& if mid.screen is ToolSelect {
                    mid.go_back_post(*final(self))
                } else {
                    *final(self) == mid
                }
            },
            final(self).wf(),
    {
        self.go_back();
        if matches!(self.screen, Screen::ToolSelect { .. }) {
            self.go_back();
        }
    }

    /// The outside work a refresh needs: listing the worktrees again, on
    /// the worktree list.
    pub open spec fn refresh_kind(self) -> WorkKind {
        if self.screen is WorktreeList {
            WorkKind::ListWorktrees
        } else {
            WorkKind::Nothing
        }
    }

    /// The outside work a refresh needs: the project's path.
    pub fn refresh_work(&self) -> (w: Work)
        requires
            self.wf(),
        ensures
            w.kind() == self.refresh_kind(),
            w matches Work::ListWorktrees { project_path } ==> self.screen matches Screen::WorktreeList {
                project_index,
            } && project_path@ == self.config.projects@[project_index as int].path@,
    {
        match &self.screen {
            Screen::WorktreeList { project_index } => Work::ListWorktrees {
                project_path: self.config.projects[*project_index].path.clone(),
            },
            _ => Work::Nothing,
        }
    }

    /// A refresh: on the worktree list a successful listing replaces the
    /// worktrees; the status line reads "Refreshed".
    pub open spec fn refresh_post(self, o: Outcome, b: App) -> bool {
        &&& opt_view(b.status_message) == Some("Refreshed"@)
        &&& match o {
            Outcome::Worktrees { listed: Some(ws), .. } => b == App {
                worktrees: ws,
                status_message: b.status_message,
                ..self
            },
            _ => b == App { status_message: b.status_message, ..self },
        }
    }

    /// Applies a refresh, given the result of the work that `refresh_work`
    /// names.
    pub fn apply_refresh(&mut self, outcome: Outcome)
        requires
            old(self).wf(),
            outcome.answers(old(self).refresh_kind()),
        ensures
            old(self).refresh_post(outcome, *final(self)),
            final(self).wf(),
    {
        match outcome {
            Outcome::Worktrees { listed: Some(ws), .. } => {
                self.worktrees = ws;
            },
            _ => {},
        }
        self.status_message = Some(owned("Refreshed"));
    }
}

impl App {
    /// The outside work that the key `key` needs.
    pub open spec fn key_kind(self, key: Key) -> WorkKind {
        match self.screen {
            Screen::NewWorktree { .. } => if key == Key::Enter {
                self.confirm_new_worktree_kind()
            } else {
                WorkKind::Nothing
            },
            Screen::ConfirmDelete { .. } => if key == Key::Char('y') || key == Key::Right {
                self.confirm_delete_kind()
            } else {
                WorkKind::Nothing
            },
            Screen::NoGitWarning { .. } => WorkKind::Nothing,
            Screen::SessionList { .. } => WorkKind::Nothing,
            _ => if key == Key::Right {
                self.select_kind()
            } else {
                WorkKind::Nothing
            },
        }
    }

    /// The key `key` selects a row, so the highlighted row must be one the
    /// list shows.
    pub open spec fn key_reads_selection(self, key: Key) -> bool {
        match self.screen {
            Screen::ProjectList => key == Key::Right,
            Screen::WorktreeList { .. } => key == Key::Right || key == Key::Delete || key
                == Key::Backspace,
            Screen::ToolSelect { .. } => key == Key::Right,
            Screen::SessionList { .. } => key == Key::Right,
            _ => false,
        }
    }

    /// Whether the key `key` selects a row.
    pub fn reads_selection(&self, key: Key) -> (r: bool)
        ensures
            r == self.key_reads_selection(key),
    {
        match &self.screen {
            Screen::ProjectList => key == Key::Right,
            Screen::WorktreeList { .. } => key == Key::Right || key == Key::Delete || key
                == Key::Backspace,
            Screen::ToolSelect { .. } => key == Key::Right,
            Screen::SessionList { .. } => key == Key::Right,
            _ => false,
        }
    }

    /// The outside work that the key `key` needs.
    pub fn key_work(&self, key: Key) -> (w: Work)
        requires
            self.wf(),
            self.key_reads_selection(key) ==> self.selection_valid(),
        ensures
            w.kind() == self.key_kind(key),
            w matches Work::ListWorktrees { project_path } ==> project_path@ == self.config.projects@[
                self.filtered_indices@[self.list_index as int] as int].path@,
            w matches Work::ListSessions { container_workdir } ==> self.screen matches Screen::WorktreeList { project_index }
                && container_workdir@ == workdir_of(
                self.config.projects@[project_index as int],
                self.worktrees@[self.list_index - 1],
            ),
            w matches Work::CreateWorktree { project_path, branch_name } ==> self.screen matches Screen::NewWorktree {
                project_index,
                input,
            } && project_path@ == self.config.projects@[project_index as int].path@ && branch_name@
                == trimmed(input@),
            w matches Work::RemoveWorktree { project_path, worktree_path } ==> self.screen matches Screen::ConfirmDelete {
                project_index,
                worktree_index,
            } && project_path@ == self.config.projects@[project_index as int].path@
                && worktree_path@ == self.worktrees@[worktree_index as int].path@,
    {
        match &self.screen {
            Screen::NewWorktree { .. } => if key == Key::Enter {
                self.confirm_new_worktree_work()
            } else {
                Work::Nothing
            },
            Screen::ConfirmDelete { .. } => if key == Key::Char('y') || key == Key::Right {
                self.confirm_delete_work()
            } else {
                Work::Nothing
            },
            Screen::NoGitWarning { .. } => Work::Nothing,
            Screen::SessionList { .. } => Work::Nothing,
            _ => if key == Key::Right {
                self.select_work()
            } else {
                Work::Nothing
            },
        }
    }

    /// What a key press does.
    ///
    /// Branch name entry: Left goes back, Enter confirms, Backspace deletes
    /// a character, Esc quits, a character is typed. Deletion prompt: `y` or
    /// Right confirms, `n` or Left goes back, Esc quits. No-git warning: Left
    /// and Right switch between "Return" and "Continue", Enter takes the
    /// chosen one, Esc quits. The lists: Esc clears a search, else quits; Up
    /// and Down move the highlight; Right selects (a session, on the session
    /// list); Left goes back; Delete or Backspace on the worktree list asks
    /// to delete; `r` off the project list refreshes; on the project list a
    /// character extends the search and Backspace shortens it. Other keys do
    /// nothing.
    pub open spec fn key_post(self, key: Key, o: Outcome, b: App, r: Action) -> bool {
        let nothing = r is Nothing && b == self;
        match self.screen {
            Screen::NewWorktree { .. } => match key {
                Key::Left => r is Nothing && self.go_back_post(b),
                Key::Enter => r is Nothing && self.confirm_new_worktree_post(o, b),
                Key::Backspace => r is Nothing && self.handle_backspace_post(b),
                Key::Esc => r is Quit && b == self,
                Key::Char(c) => r is Nothing && self.handle_char_post(c, b),
                _ => nothing,
            },
            Screen::ConfirmDelete { .. } => if key == Key::Char('y') || key == Key::Right {
                r is Nothing && self.confirm_delete_post(o, b)
            } else if key == Key::Char('n') || key == Key::Left {
                r is Nothing && self.go_back_post(b)
            } else if key == Key::Esc {
                r is Quit && b == self
            } else {
                nothing
            },
            Screen::NoGitWarning { project_index, selected_button } => match key {
                Key::Left | Key::Right => r is Nothing && b == App {
                    screen: Screen::NoGitWarning {
                        project_index,
                        selected_button: if selected_button == 0 {
                            1
                        } else {
                            0
                        },
                    },
                    ..self
                },
                Key::Enter => if selected_button == 0 {
                    r is Nothing && self.go_back_post(b)
                } else {
                    self.continue_no_git_post(b, r)
                },
                Key::Esc => r is Quit && b == self,
                _ => nothing,
            },
            _ => match key {
                Key::Esc => if self.screen is ProjectList && self.search_query@.len() > 0 {
                    r is Nothing && self.search_clear_post(b)
                } else {
                    r is Quit && b == self
                },
                Key::Up => r is Nothing && self.move_up_post(b),
                Key::Down => r is Nothing && self.move_down_post(b),
                Key::Right => if self.screen is SessionList {
                    self.select_session_post(b, r)
                } else {
                    self.select_post(o, b, r)
                },
                Key::Left => r is Nothing && self.go_back_post(b),
                Key::Delete => if self.screen is WorktreeList {
                    r is Nothing && self.delete_worktree_post(b)
                } else {
                    nothing
                },
                Key::Backspace => if self.screen is WorktreeList {
                    r is Nothing && self.delete_worktree_post(b)
                } else if self.screen is ProjectList {
                    r is Nothing && self.search_pop_post(b)
                } else {
                    nothing
                },
                Key::Char(c) => if c == 'r' && !(self.screen is ProjectList) {
                    r is Refresh && b == self
                } else if self.screen is ProjectList {
                    r is Nothing && self.search_push_post(c, b)
                } else {
                    nothing
                },
                _ => nothing,
            },
        }
    }

    /// Handles a key press, given the result of the work that `key_work`
    /// names for it.
    pub fn handle_key(&mut self, key: Key, outcome: Outcome) -> (r: Action)
        requires
            old(self).wf(),
            old(self).key_reads_selection(key) ==> old(self).selection_valid(),
            old(self).screen is NewWorktree ==> old(self).worktrees@.len() + 2 < usize::MAX,
            outcome.answers(old(self).key_kind(key)),
        ensures
            old(self).key_post(key, outcome, *final(self), r),
            final(self).wf(),
    {
        match &self.screen {
            Screen::NewWorktree { .. } => match key {
                Key::Left => {
                    self.go_back();
                    Action::Nothing
                },
                Key::Enter => self.confirm_new_worktree(outcome),
                Key::Backspace => {
                    self.handle_backspace();
                    Action::Nothing
                },
                Key::Esc => Action::Quit,
                Key::Char(c) => self.handle_char(c),
                _ => Action::Nothing,
            },
            Screen::ConfirmDelete { .. } => {
                if key == Key::Char('y') || key == Key::Right {
                    self.confirm_delete(outcome)
                } else if key == Key::Char('n') || key == Key::Left {
                    self.go_back();
                    Action::Nothing
                } else if key == Key::Esc {
                    Action::Quit
                } else {
                    Action::Nothing
                }
            },
            Screen::NoGitWarning { project_index, selected_button } => {
                let pi = *project_index;
                let sb = *selected_button;
                match key {
                    Key::Left | Key::Right => {
                        self.screen = Screen::NoGitWarning {
                            project_index: pi,
                            selected_button: if sb == 0 {
                                1
                            } else {
                                0
                            },
                        };
                        Action::Nothing
                    },
                    Key::Enter => {
                        if sb == 0 {
                            self.go_back();
                            Action::Nothing
                        } else {
                            self.continue_no_git()
                        }
                    },
                    Key::Esc => Action::Quit,
                    _ => Action::Nothing,
                }
            },
            _ => {
                let on_projects = matches!(self.screen, Screen::ProjectList);
                let on_worktrees = matches!(self.screen, Screen::WorktreeList { .. });
                let on_sessions = matches!(self.screen, Screen::SessionList { .. });
                match key {
                    Key::Esc => {
                        if on_projects && !self.search_query.as_str().is_empty() {
                            self.search_clear();
                            Action::Nothing
                        } else {
                            Action::Quit
                        }
                    },
                    Key::Up => {
                        self.move_up();
                        Action::Nothing
                    },
                    Key::Down => {
                        self.move_down();
                        Action::Nothing
                    },
                    Key::Right => {
                        if on_sessions {
                            self.select_session()
                        } else {
                            self.select(outcome)
                        }
                    },
                    Key::Left => {
                        self.go_back();
                        Action::Nothing
                    },
                    Key::Delete => {
                        if on_worktrees {
                            self.delete_worktree()
                        } else {
                            Action::Nothing
                        }
                    },
                    Key::Backspace => {
                        if on_worktrees {
                            self.delete_worktree()
                        } else if on_projects {
                            self.search_pop();
                            Action::Nothing
                        } else {
                            Action::Nothing
                        }
                    },
                    Key::Char(c) => {
                        if c == 'r' && !on_projects {
                            Action::Refresh
                        } else if on_projects {
                            self.search_push(c);
                            Action::Nothing
                        } else {
                            Action::Nothing
                        }
                    },
                    _ => Action::Nothing,
                }
            },
        }
    }
}

/// Membership in `matching_positions`: a position below `k` is listed
/// exactly when that project's lowercased name holds `q` in order.
proof fn lemma_matching_members(ps: Seq<ProjectConfig>, q: Seq<char>, k: int, m: int)
    requires
        0 <= k <= ps.len(),
        ps.len() <= usize::MAX,
        0 <= m < ps.len(),
    ensures
        matching_positions(ps, q, k).contains(m as usize) <==> m < k && is_subsequence(
            q,
            lowercase_of(ps[m].name@),
        ),
    decreases k,
{
    if k > 0 {
        lemma_matching_members(ps, q, k - 1, m);
        lemma_matching_positions(ps, q, k - 1);
        let prev = matching_positions(ps, q, k - 1);
        if is_subsequence(q, lowercase_of(ps[k - 1].name@)) {
            let cur = prev.push((k - 1) as usize);
            if m < k - 1 || m >= k {
                if cur.contains(m as usize) {
                    let j = choose|j: int| 0 <= j < cur.len() && cur[j] == m as usize;
                    if j < prev.len() {
                        assert(prev.contains(m as usize));
                    }
                }
                if prev.contains(m as usize) {
                    let j = choose|j: int| 0 <= j < prev.len() && prev[j] == m as usize;
                    assert(cur[j] == m as usize);
                }
            } else {
                assert(cur[cur.len() - 1] == m as usize);
            }
        } else {
            if m == k - 1 {
                if prev.contains(m as usize) {
                    let j = choose|j: int| 0 <= j < prev.len() && prev[j] == m as usize;
                    assert(prev[j] < k - 1);
                }
            }
        }
    }
}

/// Typing filters the projects: with a non-empty (lowercased) query, a
/// project is on the list exactly when its lowercased name holds the
/// query's characters in order; with an empty one every project is. The
/// list is in the projects' order and names each at most once.
pub proof fn lemma_filter_shows_matching_projects(ps: Seq<ProjectConfig>, query: Seq<char>, m: int)
    requires
        ps.len() <= usize::MAX,
        0 <= m < ps.len(),
    ensures
        project_filter(ps, query).contains(m as usize) <==> (lowercase_of(query).len() == 0
            || is_subsequence(lowercase_of(query), lowercase_of(ps[m].name@))),
        forall|a: int, b: int|
            0 <= a < b < project_filter(ps, query).len() ==> (#[trigger] project_filter(ps, query)[a])
                < (#[trigger] project_filter(ps, query)[b]),
{
    let q = lowercase_of(query);
    lemma_matching_positions(ps, q, ps.len() as int);
    if q.len() == 0 {
        assert(all_positions(ps.len() as int)[m] == m as usize);
    } else {
        lemma_matching_members(ps, q, ps.len() as int, m);
    }
}

/// Up and Down never move the highlight off the list.
pub proof fn lemma_moves_stay_on_list(a: App, b: App, c: App)
    requires
        a.wf(),
        a.selection_valid(),
        a.move_up_post(b),
        a.move_down_post(c),
    ensures
        b.selection_valid(),
        c.selection_valid(),
        b.list_index <= a.list_index <= c.list_index,
{
    assert(a.filtered_indices.len() == a.filtered_indices@.len());
    assert(a.config.cli_tools.len() == a.config.cli_tools@.len());
}

/// Opening a project and going back returns to the same project list,
/// with the same project highlighted, when the list was current.
pub proof fn lemma_open_project_then_back(a: App, ws: Vec<WorktreeInfo>, b: App, c: App, r: Action)
    requires
        a.wf(),
        a.screen is ProjectList,
        a.selection_valid(),
        a.filtered_indices@.len() > 0,
        a.filtered_indices@ == project_filter(a.config.projects@, a.search_query@),
        a.select_post(Outcome::Worktrees { listed: Some(ws), git_dir_exists: true }, b, r),
        b.go_back_post(c),
    ensures
        b.screen matches Screen::WorktreeList { project_index } && project_index
            == a.filtered_indices@[a.list_index as int],
        c.screen is ProjectList,
        c.list_index == a.list_index,
        c.filtered_indices@ == a.filtered_indices@,
        c.search_query == a.search_query,
        c.worktrees == ws,
{
}

/// Opening a worktree's sessions and going back returns to its worktree
/// list with that worktree highlighted.
pub proof fn lemma_open_worktree_then_back(a: App, ss: Vec<SessionInfo>, b: App, c: App, r: Action)
    requires
        a.wf(),
        a.screen is WorktreeList,
        a.list_index > 0,
        a.selection_valid(),
        a.select_post(Outcome::Sessions(ss), b, r),
        b.go_back_post(c),
    ensures
        b.screen matches Screen::SessionList { worktree_index, .. } && worktree_index == a.list_index - 1,
        c.screen == a.screen,
        c.list_index == a.list_index,
        c.worktrees == a.worktrees,
{
}

/// Backspace undoes a typed search character: the query and the filter
/// are what they were.
pub proof fn lemma_search_push_then_pop(a: App, ch: char, b: App, c: App)
    requires
        a.search_push_post(ch, b),
        b.search_pop_post(c),
    ensures
        c.search_query@ == a.search_query@,
        c.filtered_indices@ == project_filter(a.config.projects@, a.search_query@),
        c.screen == a.screen,
        c.config == a.config,
{
    assert(b.search_query@.drop_last() =~= a.search_query@);
}

/// Typing a character only narrows the project list: when the query stays
/// ASCII, every project shown after the character is typed was shown
/// before it.
pub proof fn lemma_typing_narrows(a: App, ch: char, b: App)
    requires
        a.wf(),
        b.wf(),
        a.search_push_post(ch, b),
        is_ascii_text(b.search_query@),
    ensures
        forall|k: int|
            0 <= k < b.filtered_indices@.len() ==> a.filtered_indices@.contains(
                #[trigger] b.filtered_indices@[k],
            ),
{
    let ps = a.config.projects@;
    let q = a.search_query@;
    let q2 = b.search_query@;
    assert(a.config.projects.len() == ps.len());
    assert(q2 == q.push(ch));
    assert(is_ascii_text(q)) by {
        assert forall|i: int| 0 <= i < q.len() implies (#[trigger] q[i]) as u32 <= 0x7f by {
            assert(q2[i] == q[i]);
        }
    }
    let lq = ascii_lower(q);
    let lq2 = ascii_lower(q2);
    assert(lq2 =~= lq.push(lq2[q.len() as int]));
    assert(lowercase_of(q) == lq && lowercase_of(q2) == lq2);
    let n = ps.len() as int;
    lemma_matching_positions(ps, lq2, n);
    assert forall|k: int| 0 <= k < b.filtered_indices@.len() implies a.filtered_indices@.contains(
        #[trigger] b.filtered_indices@[k],
    ) by {
        let v = b.filtered_indices@[k];
        assert(b.filtered_indices@ == matching_positions(ps, lq2, n));
        assert(v < n);
        if lq.len() == 0 {
            assert(a.filtered_indices@ == all_positions(n));
            assert(a.filtered_indices@[v as int] == v);
        } else {
            lemma_matching_members(ps, lq2, n, v as int);
            lemma_matching_members(ps, lq, n, v as int);
            lemma_subsequence_drop_last(lq, lq2[q.len() as int], lowercase_of(ps[v as int].name@));
        }
    }
}

/// Some configured tool is called `name`.
pub open spec fn has_tool_named(tools: Seq<CliToolConfig>, name: Seq<char>) -> bool {
    exists|j: int| 0 <= j < tools.len() && (#[trigger] tools[j]).name@ == name
}

/// `i` is the position of the first configured tool called `name`.
pub open spec fn first_named(tools: Seq<CliToolConfig>, name: Seq<char>, i: int) -> bool {
    &&& 0 <= i < tools.len()
    &&& tools[i].name@ == name
    &&& forall|j: int| 0 <= j < i ==> (#[trigger] tools[j]).name@ != name
}

/// An optional tool name names a configured tool.
pub open spec fn names_configured(tools: Seq<CliToolConfig>, name: Option<String>) -> bool {
    match name {
        Some(d) => has_tool_named(tools, d@),
        None => false,
    }
}

/// `r` starts the first configured tool called `name`.
pub open spec fn starts_tool_named(r: Action, tools: Seq<CliToolConfig>, name: Seq<char>) -> bool {
    r matches Action::LaunchTool { cli, .. } && exists|i: int| first_named(tools, name, i) && cli@ == tools[i]@
}

/// Which tool a new session starts: the project's own default tool when a
/// tool of that name is configured; else the global default tool when one
/// of that name is configured; else none (the tool picker opens).
pub open spec fn starts_by_default(r: Action, cfg: Config, project: ProjectConfig) -> bool {
    let tools = cfg.cli_tools@;
    if names_configured(tools, project.default_tool) {
        starts_tool_named(r, tools, project.default_tool->0@)
    } else if names_configured(tools, cfg.default_tool) {
        starts_tool_named(r, tools, cfg.default_tool->0@)
    } else {
        r is Nothing
    }
}

/// `first_tool` finds a tool exactly when one has the name, and then the
/// first one.
proof fn lemma_first_tool_named(tools: Seq<CliToolConfig>, name: Seq<char>)
    ensures
        has_tool_named(tools, name) <==> first_tool(tools, name) is Some,
        first_tool(tools, name) matches Some(i) ==> first_named(tools, name, i),
{
    lemma_first_tool(tools, name);
    match first_tool(tools, name) {
        Some(i) => {
            assert(tools[i].name@ == name);
        },
        None => {},
    }
}

/// `launch_default` follows the order of precedence: the project's own
/// configured default tool first, then the configured global default.
proof fn lemma_launch_default_order(cfg: Config, project: ProjectConfig, r: Action)
    requires
        match launch_default(cfg, project) {
            Some(i) => r matches Action::LaunchTool { cli, .. } && 0 <= i < cfg.cli_tools@.len()
                && cli@ == cfg.cli_tools@[i]@,
            None => r is Nothing,
        },
    ensures
        starts_by_default(r, cfg, project),
{
    let tools = cfg.cli_tools@;
    match project.default_tool {
        Some(d) => lemma_first_tool_named(tools, d@),
        None => {},
    }
    match cfg.default_tool {
        Some(d) => lemma_first_tool_named(tools, d@),
        None => {},
    }
}

/// Starting a new session from the session list launches the project's
/// own default tool when it is configured, whatever the global default;
/// the global default only when the project's is absent or unconfigured;
/// with neither, the tool picker opens.
pub proof fn lemma_new_session_prefers_project_tool(a: App, b: App, r: Action)
    requires
        a.wf(),
        a.screen is SessionList,
        a.list_index == 0,
        a.select_session_post(b, r),
    ensures
        starts_by_default(r, a.config, a.config.projects@[a.screen->SessionList_project_index as int]),
        !names_configured(a.config.cli_tools@, a.config.projects@[a.screen->SessionList_project_index as int].default_tool)
            && !names_configured(a.config.cli_tools@, a.config.default_tool) ==> b.screen is ToolSelect,
{
    let project = a.config.projects@[a.screen->SessionList_project_index as int];
    lemma_launch_default_order(a.config, project, r);
}

/// Continuing past the no-git warning launches a tool by the same order:
/// the project's own configured default tool, else the configured global
/// default, else the tool picker opens.
pub proof fn lemma_no_git_continue_prefers_project_tool(a: App, b: App, r: Action)
    requires
        a.wf(),
        a.screen is NoGitWarning,
        a.continue_no_git_post(b, r),
    ensures
        starts_by_default(r, a.config, a.config.projects@[a.screen->NoGitWarning_project_index as int]),
        !names_configured(a.config.cli_tools@, a.config.projects@[a.screen->NoGitWarning_project_index as int].default_tool)
            && !names_configured(a.config.cli_tools@, a.config.default_tool) ==> b.screen is ToolSelect,
{
    let project = a.config.projects@[a.screen->NoGitWarning_project_index as int];
    lemma_launch_default_order(a.config, project, r);
}

/// `r` resumes session `sid` with the first configured tool called `name`,
/// or does nothing when no tool has that name.
pub open spec fn resumes_with(r: Action, tools: Seq<CliToolConfig>, name: Seq<char>, sid: Seq<char>) -> bool {
    if has_tool_named(tools, name) {
        r matches Action::ResumeSession { cli, session_id, .. } && session_id@ == sid && exists|i: int|
            first_named(tools, name, i) && cli@ == tools[i]@
    } else {
        r is Nothing
    }
}

/// Resuming a highlighted session uses the project's own default tool
/// whenever the project names one; the global default only when the
/// project names none; "copilot" only when neither does.
pub proof fn lemma_resume_prefers_project_tool(a: App, b: App, r: Action)
    requires
        a.wf(),
        a.screen is SessionList,
        a.list_index > 0,
        a.selection_valid(),
        a.select_session_post(b, r),
    ensures
        ({
            let project = a.config.projects@[a.screen->SessionList_project_index as int];
            let tools = a.config.cli_tools@;
            let sid = a.sessions@[a.list_index - 1].id@;
            &&& project.default_tool matches Some(d) ==> resumes_with(r, tools, d@, sid)
            &&& project.default_tool is None ==> (a.config.default_tool matches Some(g) ==> resumes_with(
                r,
                tools,
                g@,
                sid,
            ))
            &&& project.default_tool is None && a.config.default_tool is None ==> resumes_with(
                r,
                tools,
                "copilot"@,
                sid,
            )
            &&& b == a
        }),
{
    let project = a.config.projects@[a.screen->SessionList_project_index as int];
    lemma_first_tool_named(a.config.cli_tools@, resume_tool_name(a.config, project));
}

/// A created worktree joins the end of the list and is the highlighted
/// row (the row after the "new worktree" row and the older worktrees).
pub proof fn lemma_created_worktree_is_highlighted(a: App, wt: WorktreeInfo, b: App)
    requires
        a.wf(),
        a.screen matches Screen::NewWorktree { input, .. } && trimmed(input@).len() > 0,
        a.confirm_new_worktree_post(Outcome::Created(Ok(wt)), b),
    ensures
        b.screen is WorktreeList,
        b.list_index >= 1,
        b.worktrees@[b.list_index - 1] == wt,
        b.worktrees@.len() == a.worktrees@.len() + 1,
{
}

/// A deleted worktree leaves the list and no other worktree changes.
pub proof fn lemma_deleted_worktree_leaves(a: App, b: App)
    requires
        a.wf(),
        a.screen is ConfirmDelete,
        a.confirm_delete_post(Outcome::Removed(Ok(())), b),
    ensures
        b.worktrees@.len() + 1 == a.worktrees@.len(),
        a.screen matches Screen::ConfirmDelete { worktree_index, .. } && (forall|k: int|
            0 <= k < b.worktrees@.len() ==> #[trigger] b.worktrees@[k] == if k < worktree_index {
                a.worktrees@[k]
            } else {
                a.worktrees@[k + 1]
            }),
{
}

/// On the no-git warning, switching buttons twice returns to the same
/// button.
pub proof fn lemma_switch_button_twice(a: App, b: App, c: App, rb: Action, rc: Action)
    requires
        a.wf(),
        a.screen is NoGitWarning,
        a.key_post(Key::Right, Outcome::Nothing, b, rb),
        b.key_post(Key::Left, Outcome::Nothing, c, rc),
    ensures
        c == a,
{
    match a.screen {
        Screen::NoGitWarning { project_index, selected_button } => {
            assert(b.screen is NoGitWarning);
        },
        _ => {},
    }
}

/// A key press that asks to quit or to refresh changes nothing itself.
pub proof fn lemma_quit_and_refresh_change_nothing(a: App, key: Key, o: Outcome, b: App, r: Action)
    requires
        a.wf(),
        a.key_post(key, o, b, r),
        a.key_reads_selection(key) ==> a.selection_valid(),
        o.answers(a.key_kind(key)),
        a.screen is NewWorktree ==> a.worktrees@.len() + 2 < usize::MAX,
    ensures
        r is Quit ==> b == a,
        r is Refresh ==> b == a,
{
}

} // verus!
