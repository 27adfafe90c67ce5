//! The configuration: CLI tools, projects and where they are found.

use vstd::prelude::*;
use vstd::std_specs::cmp::PartialEqSpecImpl;
use crate::text::{opt_view, owned, str_equal, chars_of, string_views};
use crate::paths::{file_name, file_name_of};


verus! {

/// A CLI tool that can be run inside the container.
#[derive(Debug)]
pub struct CliToolConfig {
    /// Short identifier used in `default_tool` references (e.g. "copilot").
    pub name: String,
    /// Display name shown in the interface (e.g. "GitHub Copilot").
    pub display_name: Option<String>,
    /// Shell command that installs the tool inside the container image.
    pub install_cmd: Option<String>,
    /// The binary to invoke (e.g. "copilot", "aider", "gemini").
    pub cli_cmd: String,
    /// Flags always appended to the command (e.g. ["--yolo"]).
    pub flags: Vec<String>,
}

/// A copy of a list of strings.
pub fn copy_strings(v: &Vec<String>) -> (r: Vec<String>)
    ensures
        r@ == v@,
{
    let mut r: Vec<String> = Vec::new();
    let mut i: usize = 0;
    while i < v.len()
        invariant
            i <= v@.len(),
            r@ == v@.take(i as int),
        decreases v@.len() - i,
    {
        r.push(v[i].clone());
        assert(r@ =~= v@.take(i + 1));
        i = i + 1;
    }
    assert(v@.take(v@.len() as int) =~= v@);
    r
}

/// A copy of an optional string.
pub fn copy_opt(o: &Option<String>) -> (r: Option<String>)
    ensures
        r == *o,
{
    match o {
        Some(s) => Some(s.clone()),
        None => None,
    }
}

/// What a CLI tool entry holds, as plain values.
pub struct CliToolView {
    pub name: Seq<char>,
    pub display_name: Option<Seq<char>>,
    pub install_cmd: Option<Seq<char>>,
    pub cli_cmd: Seq<char>,
    pub flags: Seq<Seq<char>>,
}

impl View for CliToolConfig {
    type V = CliToolView;

    open spec fn view(&self) -> CliToolView {
        CliToolView {
            name: self.name@,
            display_name: opt_view(self.display_name),
            install_cmd: opt_view(self.install_cmd),
            cli_cmd: self.cli_cmd@,
            flags: string_views(self.flags@),
        }
    }
}

impl Clone for CliToolConfig {
    fn clone(&self) -> (r: Self)
        ensures
            r@ == self@,
    {
        CliToolConfig {
            name: self.name.clone(),
            display_name: copy_opt(&self.display_name),
            install_cmd: copy_opt(&self.install_cmd),
            cli_cmd: self.cli_cmd.clone(),
            flags: copy_strings(&self.flags),
        }
    }
}

/// Whether two optional strings are equal.
pub fn opt_str_eq(a: &Option<String>, b: &Option<String>) -> (r: bool)
    ensures
        r == (opt_view(*a) == opt_view(*b)),
{
    match a {
        Some(x) => match b {
            Some(y) => str_equal(x.as_str(), y.as_str()),
            None => false,
        },
        None => b.is_none(),
    }
}

/// Whether two lists of strings hold the same strings.
pub fn strings_eq(a: &Vec<String>, b: &Vec<String>) -> (r: bool)
    ensures
        r == (string_views(a@) == string_views(b@)),
{
    if a.len() != b.len() {
        assert(string_views(a@).len() != string_views(b@).len());
        return false;
    }
    let mut i: usize = 0;
    while i < a.len()
        invariant
            a@.len() == b@.len(),
            i <= a@.len(),
            forall|k: int| 0 <= k < i ==> (#[trigger] a@[k])@ == b@[k]@,
        decreases a@.len() - i,
    {
        if !str_equal(a[i].as_str(), b[i].as_str()) {
            assert(string_views(a@)[i as int] != string_views(b@)[i as int]);
            return false;
        }
        i = i + 1;
    }
    assert(string_views(a@) =~= string_views(b@));
    true
}

impl PartialEq for CliToolConfig {
    fn eq(&self, other: &Self) -> (r: bool) {
        self.name == other.name && opt_str_eq(&self.display_name, &other.display_name) && opt_str_eq(
            &self.install_cmd,
            &other.install_cmd,
        ) && self.cli_cmd == other.cli_cmd && strings_eq(&self.flags, &other.flags)
    }
}

impl Eq for CliToolConfig {

}

impl PartialEqSpecImpl for CliToolConfig {
    open spec fn obeys_eq_spec() -> bool {
        true
    }

    open spec fn eq_spec(&self, other: &Self) -> bool {
        self@ == other@
    }
}

impl CliToolConfig {
    /// The name shown in the interface: the display name when one is set,
    /// else the short name.
    pub fn display(&self) -> (r: &str)
        ensures
            r@ == match self.display_name {
                Some(d) => d@,
                None => self.name@,
            },
    {
        match &self.display_name {
            Some(d) => d.as_str(),
            None => self.name.as_str(),
        }
    }
}

/// A project the interface offers.
#[derive(Debug)]
pub struct ProjectConfig {
    pub name: String,
    pub path: String,
    /// The CLI tool this project launches by default.
    pub default_tool: Option<String>,
}

/// What a project entry holds, as plain values.
pub struct ProjectView {
    pub name: Seq<char>,
    pub path: Seq<char>,
    pub default_tool: Option<Seq<char>>,
}

impl View for ProjectConfig {
    type V = ProjectView;

    open spec fn view(&self) -> ProjectView {
        ProjectView { name: self.name@, path: self.path@, default_tool: opt_view(self.default_tool) }
    }
}

impl Clone for ProjectConfig {
    fn clone(&self) -> (r: Self)
        ensures
            r == *self,
    {
        ProjectConfig {
            name: self.name.clone(),
            path: self.path.clone(),
            default_tool: copy_opt(&self.default_tool),
        }
    }
}

impl PartialEq for ProjectConfig {
    fn eq(&self, other: &Self) -> (r: bool) {
        self.name == other.name && self.path == other.path && opt_str_eq(
            &self.default_tool,
            &other.default_tool,
        )
    }
}

impl Eq for ProjectConfig {

}

impl PartialEqSpecImpl for ProjectConfig {
    open spec fn obeys_eq_spec() -> bool {
        true
    }

    open spec fn eq_spec(&self, other: &Self) -> bool {
        self@ == other@
    }
}

/// The whole configuration.
#[derive(Debug)]
pub struct Config {
    pub cli_tools: Vec<CliToolConfig>,
    pub projects: Vec<ProjectConfig>,
    /// Glob patterns whose matching directories become projects.
    pub project_dirs: Vec<String>,
    /// Container to exec into.
    pub container_name: String,
    /// Global default CLI tool name.
    pub default_tool: Option<String>,
    /// The resolved root directory (set at run time, not read from the file).
    pub root_dir: String,
}

/// The views of a list of tools.
pub open spec fn tool_views(ts: Seq<CliToolConfig>) -> Seq<CliToolView> {
    ts.map_values(|t: CliToolConfig| t@)
}

impl Clone for Config {
    fn clone(&self) -> (r: Self)
        ensures
            tool_views(r.cli_tools@) == tool_views(self.cli_tools@),
            r.projects@ == self.projects@,
            r.project_dirs@ == self.project_dirs@,
            r.container_name == self.container_name,
            r.default_tool == self.default_tool,
            r.root_dir == self.root_dir,
    {
        let mut cli_tools: Vec<CliToolConfig> = Vec::new();
        let mut i: usize = 0;
        while i < self.cli_tools.len()
            invariant
                i <= self.cli_tools@.len(),
                tool_views(cli_tools@) == tool_views(self.cli_tools@.take(i as int)),
            decreases self.cli_tools@.len() - i,
        {
            let ghost before = cli_tools@;
            cli_tools.push(self.cli_tools[i].clone());
            assert(tool_views(cli_tools@) =~= tool_views(before).push(self.cli_tools@[i as int]@));
            assert(self.cli_tools@.take(i + 1) =~= self.cli_tools@.take(i as int).push(self.cli_tools@[i as int]));
            assert(tool_views(cli_tools@) =~= tool_views(self.cli_tools@.take(i + 1)));
            i = i + 1;
        }
        assert(self.cli_tools@.take(self.cli_tools@.len() as int) =~= self.cli_tools@);
        let mut projects: Vec<ProjectConfig> = Vec::new();
        let mut k: usize = 0;
        while k < self.projects.len()
            invariant
                k <= self.projects@.len(),
                projects@ == self.projects@.take(k as int),
            decreases self.projects@.len() - k,
        {
            projects.push(self.projects[k].clone());
            assert(projects@ =~= self.projects@.take(k + 1));
            k = k + 1;
        }
        assert(self.projects@.take(self.projects@.len() as int) =~= self.projects@);
        Config {
            cli_tools,
            projects,
            project_dirs: copy_strings(&self.project_dirs),
            container_name: self.container_name.clone(),
            default_tool: copy_opt(&self.default_tool),
            root_dir: self.root_dir.clone(),
        }
    }
}

/// The container name used when the configuration names none.
pub open spec fn default_container_name_text() -> Seq<char> {
    "azkaban-sandbox"@
}

/// The container name used when the configuration names none.
pub fn default_container_name() -> (r: String)
    ensures
        r@ == default_container_name_text(),
{
    owned("azkaban-sandbox")
}

/// The position of the first tool called `name`, if any.
pub open spec fn first_tool(tools: Seq<CliToolConfig>, name: Seq<char>) -> Option<int>
    decreases tools.len(),
{
    if tools.len() == 0 {
        None
    } else {
        match first_tool(tools.drop_last(), name) {
            Some(i) => Some(i),
            None => if tools.last().name@ == name {
                Some(tools.len() - 1)
            } else {
                None
            },
        }
    }
}

/// `first_tool` is the least position whose tool is called `name`.
pub proof fn lemma_first_tool(tools: Seq<CliToolConfig>, name: Seq<char>)
    ensures
        match first_tool(tools, name) {
            Some(i) => 0 <= i < tools.len() && tools[i].name@ == name && forall|j: int|
                0 <= j < i ==> (#[trigger] tools[j]).name@ != name,
            None => forall|j: int| 0 <= j < tools.len() ==> (#[trigger] tools[j]).name@ != name,
        },
    decreases tools.len(),
{
    if tools.len() > 0 {
        lemma_first_tool(tools.drop_last(), name);
        assert forall|j: int| 0 <= j < tools.len() - 1 implies tools[j] == tools.drop_last()[j] by {}
    }
}

/// A new project entry for a discovered directory.
pub open spec fn found_project(path: Seq<char>) -> ProjectView {
    ProjectView {
        name: match file_name_of(path) {
            Some(n) => n,
            None => Seq::empty(),
        },
        path: path,
        default_tool: None,
    }
}

/// Whether a discovered directory becomes a project: its path is not
/// already configured, and its name is neither empty nor hidden.
pub open spec fn keeps_found(existing: Seq<ProjectConfig>, path: Seq<char>) -> bool {
    let name = found_project(path).name;
    &&& forall|k: int| 0 <= k < existing.len() ==> (#[trigger] existing[k]).path@ != path
    &&& name.len() > 0
    &&& name[0] != '.'
}

/// The projects that the discovered directories `found` add to `existing`.
pub open spec fn found_projects(existing: Seq<ProjectConfig>, found: Seq<String>) -> Seq<
    ProjectView,
>
    decreases found.len(),
{
    if found.len() == 0 {
        Seq::empty()
    } else {
        let prev = found_projects(existing, found.drop_last());
        if keeps_found(existing, found.last()@) {
            prev.push(found_project(found.last()@))
        } else {
            prev
        }
    }
}

/// The views of a list of projects.
pub open spec fn project_views(ps: Seq<ProjectConfig>) -> Seq<ProjectView> {
    ps.map_values(|p: ProjectConfig| p@)
}

/// `pattern` with a leading `~` replaced by the home directory, when one
/// is known.
pub open spec fn home_expanded(pattern: Seq<char>, home: Option<Seq<char>>) -> Seq<char> {
    if pattern.len() > 0 && pattern[0] == '~' && home is Some {
        home->0 + pattern.drop_first()
    } else {
        pattern
    }
}

/// Expands a leading `~` of a `project_dirs` pattern to `home`.
pub fn expand_home(pattern: &str, home: Option<&str>) -> (r: String)
    ensures
        r@ == home_expanded(pattern@, match home {
            Some(h) => Some(h@),
            None => None,
        }),
{
    let cs = chars_of(pattern);
    match home {
        Some(h) => {
            if cs.len() > 0 && cs[0] == '~' {
                let mut r = owned(h);
                let mut i: usize = 1;
                while i < cs.len()
                    invariant
                        1 <= i <= cs@.len(),
                        r@ == h@ + cs@.subrange(1, i as int),
                    decreases cs@.len() - i,
                {
                    r.push(cs[i]);
                    assert(r@ =~= h@ + cs@.subrange(1, i + 1));
                    i = i + 1;
                }
                assert(cs@.subrange(1, cs@.len() as int) =~= cs@.drop_first());
                return r;
            }
        },
        None => {},
    }
    owned(pattern)
}

impl Config {
    /// The first configured tool called `name`.
    pub fn find_tool(&self, name: &str) -> (r: Option<&CliToolConfig>)
        ensures
            r == match first_tool(self.cli_tools@, name@) {
                Some(i) => Some(&self.cli_tools@[i]),
                None => None,
            },
    {
        proof {
            lemma_first_tool(self.cli_tools@, name@);
        }
        match self.find_tool_index(name) {
            Some(i) => {
                let t = &self.cli_tools[i];
                assert(first_tool(self.cli_tools@, name@) == Some(i as int));
                assert(*t == self.cli_tools@[i as int]);
                Some(t)
            },
            None => None,
        }
    }

    /// The position of the first configured tool called `name`.
    pub fn find_tool_index(&self, name: &str) -> (r: Option<usize>)
        ensures
            match r {
                Some(i) => first_tool(self.cli_tools@, name@) == Some(i as int),
                None => first_tool(self.cli_tools@, name@) is None,
            },
            r matches Some(i) ==> i < self.cli_tools@.len(),
    {
        let mut i: usize = 0;
        while i < self.cli_tools.len()
            invariant
                i <= self.cli_tools@.len(),
                first_tool(self.cli_tools@.take(i as int), name@) is None,
            decreases self.cli_tools@.len() - i,
        {
            assert(self.cli_tools@.take(i + 1).drop_last() =~= self.cli_tools@.take(i as int));
            if str_equal(self.cli_tools[i].name.as_str(), name) {
                proof {
                    lemma_first_tool_extends(self.cli_tools@, name@, i as int + 1);
                }
                return Some(i);
            }
            i = i + 1;
        }
        assert(self.cli_tools@.take(i as int) =~= self.cli_tools@);
        None
    }

    /// Adds each discovered directory in `found` as a project, unless its
    /// path was configured before the call or its name is empty or hidden.
    pub fn expand_project_dirs(&mut self, found: Vec<String>)
        ensures
            project_views(final(self).projects@) == project_views(old(self).projects@)
                + found_projects(old(self).projects@, found@),
            final(self).cli_tools == old(self).cli_tools,
            final(self).project_dirs == old(self).project_dirs,
            final(self).container_name == old(self).container_name,
            final(self).default_tool == old(self).default_tool,
            final(self).root_dir == old(self).root_dir,
    {
        let ghost existing = self.projects@;
        let mut existing_paths: Vec<String> = Vec::new();
        let mut k: usize = 0;
        while k < self.projects.len()
            invariant
                self.projects@ == existing,
                k <= existing.len(),
                existing_paths@.len() == k,
                forall|m: int| 0 <= m < k ==> (#[trigger] existing_paths@[m])@ == existing[m].path@,
            decreases existing.len() - k,
        {
            existing_paths.push(self.projects[k].path.clone());
            k = k + 1;
        }
        let mut i: usize = 0;
        while i < found.len()
            invariant
                existing_paths@.len() == existing.len(),
                forall|m: int| 0 <= m < existing.len() ==> (#[trigger] existing_paths@[m])@ == existing[m].path@,
                i <= found@.len(),
                project_views(self.projects@) == project_views(existing) + found_projects(
                    existing,
                    found@.take(i as int),
                ),
                self.cli_tools == old(self).cli_tools,
                self.project_dirs == old(self).project_dirs,
                self.container_name == old(self).container_name,
                self.default_tool == old(self).default_tool,
                self.root_dir == old(self).root_dir,
            decreases found@.len() - i,
        {
            let path = &found[i];
            assert(found@.take(i + 1).drop_last() =~= found@.take(i as int));
            let mut known = false;
            let mut m: usize = 0;
            while m < existing_paths.len()
                invariant
                    existing_paths@.len() == existing.len(),
                    forall|n: int| 0 <= n < existing.len() ==> (#[trigger] existing_paths@[n])@ == existing[n].path@,
                    m <= existing.len(),
                    known == exists|n: int| 0 <= n < m && (#[trigger] existing[n]).path@ == path@,
                decreases existing.len() - m,
            {
                if str_equal(existing_paths[m].as_str(), path.as_str()) {
                    known = true;
                }
                m = m + 1;
            }
            if !known {
                let name = match file_name(path.as_str()) {
                    Some(n) => n,
                    None => String::new(),
                };
                let nc = chars_of(name.as_str());
                if nc.len() > 0 && nc[0] != '.' {
                    let ghost before = self.projects@;
                    self.projects.push(ProjectConfig { name, path: path.clone(), default_tool: None });
                    assert(project_views(self.projects@) =~= project_views(before).push(found_project(path@)));
                } else {
                    assert(!keeps_found(existing, path@));
                }
            } else {
                assert(!keeps_found(existing, path@));
            }
            i = i + 1;
        }
        assert(found@.take(found@.len() as int) =~= found@);
    }
}

/// Extending a prefix without a match by one matching tool finds it.
proof fn lemma_first_tool_extends(tools: Seq<CliToolConfig>, name: Seq<char>, n: int)
    requires
        0 < n <= tools.len(),
        first_tool(tools.take(n - 1), name) is None,
        tools[n - 1].name@ == name,
    ensures
        first_tool(tools, name) == Some(n - 1),
{
    assert(tools.take(n).drop_last() =~= tools.take(n - 1));
    assert(first_tool(tools.take(n), name) == Some(n - 1));
    lemma_first_tool_prefix(tools, name, n);
}

/// A match within a prefix is the first match of the whole list.
proof fn lemma_first_tool_prefix(tools: Seq<CliToolConfig>, name: Seq<char>, n: int)
    requires
        0 <= n <= tools.len(),
        first_tool(tools.take(n), name) is Some,
    ensures
        first_tool(tools, name) == first_tool(tools.take(n), name),
    decreases tools.len() - n,
{
    if n < tools.len() {
        assert(tools.take(n + 1).drop_last() =~= tools.take(n));
        lemma_first_tool_prefix(tools, name, n + 1);
    } else {
        assert(tools.take(n) =~= tools);
    }
}

/// Discovery adds exactly the visible, unconfigured directories: a found
/// directory whose path no configured project has, and whose file name is
/// non-empty and does not start with `.`, becomes a project named after
/// that file name, with no default tool; and every project discovery adds
/// is such a directory.
pub proof fn lemma_discovery_adds_visible_directories(existing: Seq<ProjectConfig>, found: Seq<String>)
    ensures
        forall|k: int, n: Seq<char>|
            0 <= k < found.len() && file_name_of(found[k]@) == Some(n) && n.len() > 0 && n[0] != '.'
                && (forall|j: int| 0 <= j < existing.len() ==> (#[trigger] existing[j]).path@ != found[k]@)
                ==> #[trigger] found_projects(existing, found).contains(
                ProjectView { name: n, path: found[k]@, default_tool: None },
            ),
        forall|m: int|
            0 <= m < found_projects(existing, found).len() ==> {
                let q = #[trigger] found_projects(existing, found)[m];
                &&& q.default_tool is None
                &&& file_name_of(q.path) == Some(q.name)
                &&& q.name.len() > 0
                &&& q.name[0] != '.'
                &&& exists|k: int| 0 <= k < found.len() && found[k]@ == q.path
                &&& forall|j: int| 0 <= j < existing.len() ==> (#[trigger] existing[j]).path@ != q.path
            },
    decreases found.len(),
{
    if found.len() > 0 {
        let prev_found = found.drop_last();
        lemma_discovery_adds_visible_directories(existing, prev_found);
        let prev = found_projects(existing, prev_found);
        let cur = found_projects(existing, found);
        assert forall|k: int, n: Seq<char>|
            0 <= k < found.len() && file_name_of(found[k]@) == Some(n) && n.len() > 0 && n[0] != '.'
                && (forall|j: int| 0 <= j < existing.len() ==> (#[trigger] existing[j]).path@ != found[k]@)
            implies #[trigger] cur.contains(ProjectView { name: n, path: found[k]@, default_tool: None }) by {
            let v = ProjectView { name: n, path: found[k]@, default_tool: None };
            if k < found.len() - 1 {
                assert(prev_found[k] == found[k]);
                assert(prev.contains(v));
                let j = choose|j: int| 0 <= j < prev.len() && prev[j] == v;
                assert(cur[j] == v);
            } else {
                assert(keeps_found(existing, found.last()@));
                assert(found_project(found.last()@) == v);
                assert(cur[cur.len() - 1] == v);
            }
        }
        assert forall|m: int| 0 <= m < cur.len() implies {
            let q = #[trigger] cur[m];
            &&& q.default_tool is None
            &&& file_name_of(q.path) == Some(q.name)
            &&& q.name.len() > 0
            &&& q.name[0] != '.'
            &&& exists|k: int| 0 <= k < found.len() && found[k]@ == q.path
            &&& forall|j: int| 0 <= j < existing.len() ==> (#[trigger] existing[j]).path@ != q.path
        } by {
            if m < prev.len() {
                assert(cur[m] == prev[m]);
                let k = choose|k: int| 0 <= k < prev_found.len() && prev_found[k]@ == prev[m].path;
                assert(found[k] == prev_found[k]);
            } else {
                assert(cur[m] == found_project(found.last()@));
                assert(found[found.len() - 1]@ == cur[m].path);
            }
        }
    }
}

impl Default for Config {
    fn default() -> (r: Self)
        ensures
            r.cli_tools@.len() == 0,
            r.projects@.len() == 0,
            r.project_dirs@.len() == 0,
            r.container_name@ == default_container_name_text(),
            r.default_tool is None,
            r.root_dir@.len() == 0,
    {
        Config {
            cli_tools: Vec::new(),
            projects: Vec::new(),
            project_dirs: Vec::new(),
            container_name: default_container_name(),
            default_tool: None,
            root_dir: String::new(),
        }
    }
}

} // verus!
