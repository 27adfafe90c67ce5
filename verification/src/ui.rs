//! What the screens show: the rows of each list, titles, prompts and the
//! help line. Layout and colours are left to the renderer, which draws a
//! selected row highlighted.

use vstd::prelude::*;
use crate::app::{App, Screen, positions_valid};
use crate::config::ProjectConfig;
use crate::session::{SessionInfo, Timestamp, age_between};
use crate::text::{decimal, decimal_string, owned, opt_view};
use crate::worktree::WorktreeInfo;

verus! {

/// One row of a list.
#[derive(Debug)]
pub struct ListRow {
    /// The row's main text, after the selection marker.
    pub text: String,
    /// Dimmed text after the main text.
    pub hint: String,
    pub selected: bool,
}

/// What a row holds, as plain values.
pub struct RowView {
    pub text: Seq<char>,
    pub hint: Seq<char>,
    pub selected: bool,
}

impl View for ListRow {
    type V = RowView;

    open spec fn view(&self) -> RowView {
        RowView { text: self.text@, hint: self.hint@, selected: self.selected }
    }
}

/// The views of a list of rows.
pub open spec fn row_views(rows: Seq<ListRow>) -> Seq<RowView> {
    rows.map_values(|r: ListRow| r@)
}

/// The marker in front of a row: an arrow on the selected row.
pub open spec fn marker(selected: bool) -> Seq<char> {
    if selected {
        "▶ "@
    } else {
        "  "@
    }
}

fn push_marker(s: &mut String, selected: bool)
    ensures
        final(s)@ == old(s)@ + marker(selected),
{
    if selected {
        s.append("▶ ");
    } else {
        s.append("  ");
    }
}

/// The row of a project: its name, and its default tool in brackets.
pub open spec fn project_row(p: ProjectConfig, selected: bool) -> RowView {
    RowView {
        text: marker(selected) + p.name@,
        hint: match p.default_tool {
            Some(t) => " ["@ + t@ + "]"@,
            None => Seq::empty(),
        },
        selected,
    }
}

fn make_project_row(p: &ProjectConfig, selected: bool) -> (r: ListRow)
    ensures
        r@ == project_row(*p, selected),
{
    let mut text = String::new();
    push_marker(&mut text, selected);
    text.append(p.name.as_str());
    let hint = match &p.default_tool {
        Some(t) => {
            let mut h = owned(" [");
            h.append(t.as_str());
            h.append("]");
            h
        },
        None => String::new(),
    };
    ListRow { text, hint, selected }
}

/// The message of an empty project list, from the search query.
pub open spec fn empty_projects_text(query: Seq<char>) -> Seq<char> {
    if query.len() == 0 {
        "  No projects configured.\n  Edit config.toml in the azkaban repo to add projects."@
    } else {
        "  No matching projects."@
    }
}

/// The help line of each screen.
pub open spec fn help_text_of(screen: Screen, query: Seq<char>) -> Seq<char> {
    match screen {
        Screen::ProjectList => if query.len() == 0 {
            "↑/↓ Navigate  → Select  Type to search  Esc Quit"@
        } else {
            "↑/↓ Navigate  → Select  Backspace Delete  Esc Clear search"@
        },
        Screen::WorktreeList { .. } => "↑/↓ Navigate  → Select  ← Back  Del Delete  Esc Quit"@,
        Screen::SessionList { .. } => "↑/↓ Navigate  → Resume/New  ← Back  Esc Quit"@,
        Screen::ToolSelect { .. } => "↑/↓ Navigate  → Select  ← Back  Esc Quit"@,
        Screen::NewWorktree { .. } => "Type branch name  Enter Confirm  ← Back  Esc Quit"@,
        Screen::ConfirmDelete { .. } => "y/→ Confirm  n/← Cancel  Esc Quit"@,
        Screen::NoGitWarning { .. } => "←/→ Select  Enter Confirm  Esc Quit"@,
    }
}

/// The row of a worktree: its branch, marked when it is the main one.
pub open spec fn worktree_row(w: WorktreeInfo, selected: bool) -> RowView {
    RowView {
        text: marker(selected) + w.branch@,
        hint: if w.is_main {
            " (main)"@
        } else {
            Seq::empty()
        },
        selected,
    }
}

/// The row of a session: its summary, and how long ago it was updated.
pub open spec fn session_row(s: SessionInfo, now: Timestamp, selected: bool) -> RowView {
    RowView {
        text: marker(selected) + s.summary@,
        hint: "  "@ + age_between(now, s.updated_at),
        selected,
    }
}

/// A row that opens something new, such as "[+ New Worktree]".
pub open spec fn new_row(label: Seq<char>, selected: bool) -> RowView {
    RowView { text: marker(selected) + label, hint: Seq::empty(), selected }
}

fn make_new_row(label: &str, selected: bool) -> (r: ListRow)
    ensures
        r@ == new_row(label@, selected),
{
    let mut text = String::new();
    push_marker(&mut text, selected);
    text.append(label);
    ListRow { text, hint: String::new(), selected }
}

impl App {
    /// The rows of the project list. Focused, it shows the projects the
    /// search lets through and selects the highlighted row; in the side
    /// panel it shows every project and selects the one opened last.
    pub open spec fn project_rows_view(self, focused: bool) -> Seq<RowView> {
        let ps = self.config.projects@;
        let fs = self.filtered_indices@;
        if focused {
            Seq::new(fs.len(), |i: int| project_row(ps[fs[i] as int], i == self.list_index))
        } else {
            let opened: int = if self.project_list_index < fs.len() {
                fs[self.project_list_index as int] as int
            } else {
                usize::MAX as int
            };
            Seq::new(ps.len(), |i: int| project_row(ps[i], i == opened))
        }
    }

    /// The rows of the project list.
    pub fn project_rows(&self, focused: bool) -> (r: Vec<ListRow>)
        requires
            positions_valid(self.filtered_indices@, self.config.projects@.len() as int),
        ensures
            row_views(r@) == self.project_rows_view(focused),
    {
        let mut rows: Vec<ListRow> = Vec::new();
        if focused {
            let n = self.filtered_indices.len();
            let mut i: usize = 0;
            while i < n
                invariant
                    positions_valid(self.filtered_indices@, self.config.projects@.len() as int),
                    n == self.filtered_indices@.len(),
                    i <= n,
                    row_views(rows@) == self.project_rows_view(true).take(i as int),
                decreases n - i,
            {
                let p = &self.config.projects[self.filtered_indices[i]];
                let ghost before = row_views(rows@);
                rows.push(make_project_row(p, i == self.list_index));
                assert(row_views(rows@) =~= before.push(rows@[rows@.len() - 1]@));
                assert(self.project_rows_view(true).take(i + 1) =~= self.project_rows_view(true).take(i as int).push(self.project_rows_view(true)[i as int]));
                assert(row_views(rows@) =~= self.project_rows_view(true).take(i + 1));
                i = i + 1;
            }
            assert(self.project_rows_view(true).take(n as int) =~= self.project_rows_view(true));
        } else {
            let opened = if self.project_list_index < self.filtered_indices.len() {
                self.filtered_indices[self.project_list_index]
            } else {
                usize::MAX
            };
            let n = self.config.projects.len();
            let mut i: usize = 0;
            while i < n
                invariant
                    positions_valid(self.filtered_indices@, self.config.projects@.len() as int),
                    n == self.config.projects@.len(),
                    opened == (if self.project_list_index < self.filtered_indices@.len() {
                        self.filtered_indices@[self.project_list_index as int] as int
                    } else {
                        usize::MAX as int
                    }),
                    i <= n,
                    row_views(rows@) == self.project_rows_view(false).take(i as int),
                decreases n - i,
            {
                let ghost before = row_views(rows@);
                rows.push(make_project_row(&self.config.projects[i], i == opened));
                assert(row_views(rows@) =~= before.push(rows@[rows@.len() - 1]@));
                assert(self.project_rows_view(false).take(i + 1) =~= self.project_rows_view(false).take(i as int).push(self.project_rows_view(false)[i as int]));
                assert(row_views(rows@) =~= self.project_rows_view(false).take(i + 1));
                i = i + 1;
            }
            assert(self.project_rows_view(false).take(n as int) =~= self.project_rows_view(false));
        }
        rows
    }

    /// The title of the project list: with a search shown, how many of the
    /// projects it lets through.
    pub fn project_list_title(&self, show_search: bool) -> (r: String)
        ensures
            r@ == if show_search {
                " Projects ("@ + decimal(self.filtered_indices@.len() as nat) + "/"@ + decimal(
                    self.config.projects@.len() as nat,
                ) + ") "@
            } else {
                " Projects "@
            },
    {
        if show_search {
            let mut r = owned(" Projects (");
            r.append(decimal_string(self.filtered_indices.len() as u64).as_str());
            r.append("/");
            r.append(decimal_string(self.config.projects.len() as u64).as_str());
            r.append(") ");
            r
        } else {
            owned(" Projects ")
        }
    }

    /// The message shown instead of an empty project list.
    pub fn empty_projects_message(&self) -> (r: String)
        ensures
            r@ == empty_projects_text(self.search_query@),
    {
        if self.search_query.as_str().is_empty() {
            owned("  No projects configured.\n  Edit config.toml in the azkaban repo to add projects.")
        } else {
            owned("  No matching projects.")
        }
    }

    /// The rows of the worktree list: "[+ New Worktree]" and then each
    /// worktree. Focused, the highlighted row is selected; in the side
    /// panel the worktree opened last.
    pub open spec fn worktree_rows_view(self, focused: bool) -> Seq<RowView> {
        let sel: int = if focused {
            self.list_index as int
        } else {
            self.worktree_list_index as int
        };
        seq![new_row("[+ New Worktree]"@, sel == 0)] + Seq::new(
            self.worktrees@.len(),
            |i: int| worktree_row(self.worktrees@[i], i + 1 == sel),
        )
    }

    /// The rows of the worktree list.
    pub fn worktree_rows(&self, focused: bool) -> (r: Vec<ListRow>)
        requires
            self.lists_fit(),
        ensures
            row_views(r@) == self.worktree_rows_view(focused),
    {
        let sel = if focused {
            self.list_index
        } else {
            self.worktree_list_index
        };
        let mut rows: Vec<ListRow> = Vec::new();
        rows.push(make_new_row("[+ New Worktree]", sel == 0));
        let n = self.worktrees.len();
        let mut i: usize = 0;
        while i < n
            invariant
                self.lists_fit(),
                n == self.worktrees@.len(),
                sel as int == (if focused { self.list_index as int } else { self.worktree_list_index as int }),
                i <= n,
                row_views(rows@) == self.worktree_rows_view(focused).take(i + 1),
            decreases n - i,
        {
            let w = &self.worktrees[i];
            let selected = i + 1 == sel;
            let mut text = String::new();
            push_marker(&mut text, selected);
            text.append(w.branch.as_str());
            let hint = if w.is_main {
                owned(" (main)")
            } else {
                String::new()
            };
            let ghost before = row_views(rows@);
            rows.push(ListRow { text, hint, selected });
            assert(row_views(rows@) =~= before.push(rows@[rows@.len() - 1]@));
            assert(self.worktree_rows_view(focused).take(i + 1 + 1) =~= self.worktree_rows_view(focused).take(i + 1).push(self.worktree_rows_view(focused)[i + 1]));
            assert(row_views(rows@) =~= self.worktree_rows_view(focused).take(i + 2));
            i = i + 1;
        }
        assert(self.worktree_rows_view(focused).take(n + 1) =~= self.worktree_rows_view(focused));
        rows
    }

    /// The title of the worktree list of project `project_index`.
    pub fn worktree_list_title(&self, project_index: usize) -> (r: String)
        requires
            project_index < self.config.projects@.len(),
        ensures
            r@ == " Worktrees — "@ + self.config.projects@[project_index as int].name@ + " "@,
    {
        let mut r = owned(" Worktrees — ");
        r.append(self.config.projects[project_index].name.as_str());
        r.append(" ");
        r
    }

    /// The rows of the tool list: each tool's display name, the highlighted
    /// one selected.
    pub open spec fn tool_rows_view(self) -> Seq<RowView> {
        Seq::new(
            self.config.cli_tools@.len(),
            |i: int| RowView {
                text: marker(i == self.list_index) + match self.config.cli_tools@[i].display_name {
                    Some(d) => d@,
                    None => self.config.cli_tools@[i].name@,
                },
                hint: Seq::empty(),
                selected: i == self.list_index,
            },
        )
    }

    /// The rows of the tool list.
    pub fn tool_rows(&self) -> (r: Vec<ListRow>)
        ensures
            row_views(r@) == self.tool_rows_view(),
    {
        let n = self.config.cli_tools.len();
        let mut rows: Vec<ListRow> = Vec::new();
        let mut i: usize = 0;
        while i < n
            invariant
                n == self.config.cli_tools@.len(),
                i <= n,
                row_views(rows@) == self.tool_rows_view().take(i as int),
            decreases n - i,
        {
            let selected = i == self.list_index;
            let mut text = String::new();
            push_marker(&mut text, selected);
            text.append(self.config.cli_tools[i].display());
            let ghost before = row_views(rows@);
            rows.push(ListRow { text, hint: String::new(), selected });
            assert(row_views(rows@) =~= before.push(rows@[rows@.len() - 1]@));
            assert(self.tool_rows_view().take(i as int + 1) =~= self.tool_rows_view().take(i as int).push(self.tool_rows_view()[i as int]));
            assert(row_views(rows@) =~= self.tool_rows_view().take(i + 1));
            i = i + 1;
        }
        assert(self.tool_rows_view().take(n as int) =~= self.tool_rows_view());
        rows
    }

    /// The rows of the session list at time `now`: "[+ New Session]" and
    /// then each session, the highlighted row selected.
    pub open spec fn session_rows_view(self, now: Timestamp) -> Seq<RowView> {
        seq![new_row("[+ New Session]"@, self.list_index == 0)] + Seq::new(
            self.sessions@.len(),
            |i: int| session_row(self.sessions@[i], now, i + 1 == self.list_index),
        )
    }

    /// The rows of the session list, ages counted up to `now`.
    pub fn session_rows(&self, now: Timestamp) -> (r: Vec<ListRow>)
        requires
            self.lists_fit(),
        ensures
            row_views(r@) == self.session_rows_view(now),
    {
        let mut rows: Vec<ListRow> = Vec::new();
        rows.push(make_new_row("[+ New Session]", self.list_index == 0));
        let n = self.sessions.len();
        let mut i: usize = 0;
        while i < n
            invariant
                self.lists_fit(),
                n == self.sessions@.len(),
                i <= n,
                row_views(rows@) == self.session_rows_view(now).take(i + 1),
            decreases n - i,
        {
            let s = &self.sessions[i];
            let selected = i + 1 == self.list_index;
            let mut text = String::new();
            push_marker(&mut text, selected);
            text.append(s.summary.as_str());
            let mut hint = owned("  ");
            hint.append(s.time_ago_at(now).as_str());
            let ghost before = row_views(rows@);
            rows.push(ListRow { text, hint, selected });
            assert(row_views(rows@) =~= before.push(rows@[rows@.len() - 1]@));
            assert(self.session_rows_view(now).take(i + 1 + 1) =~= self.session_rows_view(now).take(i + 1).push(self.session_rows_view(now)[i + 1]));
            assert(row_views(rows@) =~= self.session_rows_view(now).take(i + 2));
            i = i + 1;
        }
        assert(self.session_rows_view(now).take(n + 1) =~= self.session_rows_view(now));
        rows
    }

    /// The help line of the current screen.
    pub fn help_text(&self) -> (r: String)
        ensures
            r@ == help_text_of(self.screen, self.search_query@),
    {
        match &self.screen {
            Screen::ProjectList => if self.search_query.as_str().is_empty() {
                owned("↑/↓ Navigate  → Select  Type to search  Esc Quit")
            } else {
                owned("↑/↓ Navigate  → Select  Backspace Delete  Esc Clear search")
            },
            Screen::WorktreeList { .. } => owned("↑/↓ Navigate  → Select  ← Back  Del Delete  Esc Quit"),
            Screen::SessionList { .. } => owned("↑/↓ Navigate  → Resume/New  ← Back  Esc Quit"),
            Screen::ToolSelect { .. } => owned("↑/↓ Navigate  → Select  ← Back  Esc Quit"),
            Screen::NewWorktree { .. } => owned("Type branch name  Enter Confirm  ← Back  Esc Quit"),
            Screen::ConfirmDelete { .. } => owned("y/→ Confirm  n/← Cancel  Esc Quit"),
            Screen::NoGitWarning { .. } => owned("←/→ Select  Enter Confirm  Esc Quit"),
        }
    }

    /// The status message as the status line shows it, padded by a space
    /// on each side.
    pub fn status_text(&self) -> (r: Option<String>)
        ensures
            opt_view(r) == match self.status_message {
                Some(m) => Some(" "@ + m@ + " "@),
                None => None,
            },
    {
        match &self.status_message {
            Some(m) => {
                let mut r = owned(" ");
                r.append(m.as_str());
                r.append(" ");
                Some(r)
            },
            None => None,
        }
    }
}

/// The title of the tool list for the worktree called `worktree_name`.
pub fn tool_select_title(worktree_name: &str) -> (r: String)
    ensures
        r@ == " Select CLI Tool — "@ + worktree_name@ + " "@,
{
    let mut r = owned(" Select CLI Tool — ");
    r.append(worktree_name);
    r.append(" ");
    r
}

/// The title of the branch name entry for project `project_index`.
pub fn new_worktree_title(project_index: usize) -> (r: String)
    ensures
        r@ == " New Worktree — Project "@ + decimal(project_index as nat) + " "@,
{
    let mut r = owned(" New Worktree — Project ");
    r.append(decimal_string(project_index as u64).as_str());
    r.append(" ");
    r
}

/// The input line of the branch name entry, with a block cursor.
pub fn input_line(input: &str) -> (r: String)
    ensures
        r@ == "  > "@ + input@ + "█"@,
{
    let mut r = owned("  > ");
    r.append(input);
    r.append("█");
    r
}

/// The question of the deletion prompt.
pub fn delete_question(branch: &str) -> (r: String)
    ensures
        r@ == "  Delete worktree '"@ + branch@ + "'?"@,
{
    let mut r = owned("  Delete worktree '");
    r.append(branch);
    r.append("'?");
    r
}

/// The first line of the no-git warning.
pub fn no_git_line(project_name: &str) -> (r: String)
    ensures
        r@ == "  '"@ + project_name@ + "' is not a git repository."@,
{
    let mut r = owned("  '");
    r.append(project_name);
    r.append("' is not a git repository.");
    r
}

/// The title of the session list of the worktree on branch `branch`.
pub fn session_list_title(branch: &str) -> (r: String)
    ensures
        r@ == " Sessions — "@ + branch@ + " "@,
{
    let mut r = owned(" Sessions — ");
    r.append(branch);
    r.append(" ");
    r
}

/// How a popup taking `percent` per cent of a side is centred: the
/// margin before it, its own share, and the margin after it, in per cent.
pub fn centered_split(percent: u16) -> (r: (u16, u16, u16))
    requires
        percent <= 100,
    ensures
        r.0 == (100 - percent) / 2,
        r.1 == percent,
        r.2 == (100 - percent) / 2,
{
    let margin = (100 - percent) / 2;
    (margin, percent, margin)
}

} // verus!
