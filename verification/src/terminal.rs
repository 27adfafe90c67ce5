//! Where a tool runs inside the container and the command that runs it.

use vstd::prelude::*;
use crate::config::{CliToolConfig, ProjectConfig};
use crate::worktree::WorktreeInfo;
use crate::paths::{relative_path, strip_path_prefix};
use crate::session::{build_tool_command, build_resume_command, is_shell_call, shell_line, flag_text};
use crate::text::owned;

verus! {

/// The working directory of a worktree inside the container: the project's
/// mount point for the main worktree, else the worktree's path relative to
/// the project under that mount point (its whole path when it does not lie
/// under the project).
pub open spec fn workdir_of(project: ProjectConfig, worktree: WorktreeInfo) -> Seq<char> {
    if worktree.is_main {
        "/workspace/"@ + project.name@
    } else {
        "/workspace/"@ + project.name@ + "/"@ + match relative_path(worktree.path@, project.path@) {
            Some(r) => r,
            None => worktree.path@,
        }
    }
}

/// The working directory of `worktree` inside the container.
pub fn container_workdir(project: &ProjectConfig, worktree: &WorktreeInfo) -> (r: String)
    ensures
        r@ == workdir_of(*project, *worktree),
{
    let mut r = owned("/workspace/");
    r.append(project.name.as_str());
    if !worktree.is_main {
        r.append("/");
        match strip_path_prefix(worktree.path.as_str(), project.path.as_str()) {
            Some(rel) => r.append(rel.as_str()),
            None => r.append(worktree.path.as_str()),
        }
    }
    r
}

/// The command that starts `tool_config` in the container directory of
/// `worktree`.
pub fn launch_command(project: &ProjectConfig, worktree: &WorktreeInfo, tool_config: &CliToolConfig) -> (r:
    Vec<String>)
    ensures
        is_shell_call(
            r@,
            shell_line(
                workdir_of(*project, *worktree),
                tool_config.cli_cmd@ + flag_text(tool_config@.flags),
            ),
        ),
{
    let workdir = container_workdir(project, worktree);
    build_tool_command(workdir.as_str(), tool_config)
}

/// The command that resumes session `session_id` of `tool_config` in the
/// container directory of `worktree`.
pub fn resume_command(
    project: &ProjectConfig,
    worktree: &WorktreeInfo,
    tool_config: &CliToolConfig,
    session_id: &str,
) -> (r: Vec<String>)
    ensures
        is_shell_call(
            r@,
            shell_line(
                workdir_of(*project, *worktree),
                tool_config.cli_cmd@ + " --resume "@ + session_id@ + flag_text(tool_config@.flags),
            ),
        ),
{
    let workdir = container_workdir(project, worktree);
    build_resume_command(workdir.as_str(), tool_config, session_id)
}

} // verus!
