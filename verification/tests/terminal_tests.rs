use azkaban::config::{CliToolConfig, ProjectConfig};
use azkaban::terminal::{container_workdir, launch_command, resume_command};
use azkaban::worktree::WorktreeInfo;

fn project() -> ProjectConfig {
    ProjectConfig { name: "proj".into(), path: "/home/u/proj".into(), default_tool: None }
}

fn wt(path: &str, is_main: bool) -> WorktreeInfo {
    WorktreeInfo { name: "w".into(), path: path.into(), branch: "b".into(), is_main }
}

#[test]
fn main_worktree_runs_at_the_project_mount() {
    assert_eq!(container_workdir(&project(), &wt("/home/u/proj", true)), "/workspace/proj");
}

#[test]
fn other_worktrees_run_below_it() {
    assert_eq!(container_workdir(&project(), &wt("/home/u/proj/.worktrees/feat", false)), "/workspace/proj/.worktrees/feat");
    assert_eq!(container_workdir(&project(), &wt("/elsewhere/feat", false)), "/workspace/proj//elsewhere/feat");
    assert_eq!(container_workdir(&project(), &wt("/home/u/project2", false)), "/workspace/proj//home/u/project2");
}

#[test]
fn commands_combine_workdir_and_tool() {
    let t = CliToolConfig { name: "c".into(), display_name: None, install_cmd: None, cli_cmd: "aider".into(), flags: vec!["--f".into()] };
    assert_eq!(launch_command(&project(), &wt("/home/u/proj", true), &t), vec!["sh", "-c", "cd /workspace/proj && aider --f"]);
    assert_eq!(
        resume_command(&project(), &wt("/home/u/proj/.worktrees/x", false), &t, "s1"),
        vec!["sh", "-c", "cd /workspace/proj/.worktrees/x && aider --resume s1 --f"]
    );
}
