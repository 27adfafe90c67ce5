use azkaban::app::{Action, App, Key, Outcome, Screen, Work, WorkKind};
use azkaban::config::{CliToolConfig, Config, ProjectConfig};
use azkaban::session::{SessionInfo, Timestamp};
use azkaban::worktree::WorktreeInfo;

fn tool(name: &str) -> CliToolConfig {
    CliToolConfig { name: name.into(), display_name: None, install_cmd: None, cli_cmd: name.into(), flags: vec![] }
}

fn project(name: &str, default_tool: Option<&str>) -> ProjectConfig {
    ProjectConfig { name: name.into(), path: format!("/home/u/{name}"), default_tool: default_tool.map(|d| d.into()) }
}

fn config() -> Config {
    let mut c = Config::default();
    c.cli_tools = vec![tool("aider"), tool("copilot")];
    c.projects = vec![project("Azkaban", None), project("website", Some("aider")), project("zebra", Some("nope"))];
    c
}

fn wt(name: &str, is_main: bool) -> WorktreeInfo {
    WorktreeInfo { name: name.into(), path: format!("/home/u/Azkaban/.worktrees/{name}"), branch: name.into(), is_main }
}

fn session(id: &str) -> SessionInfo {
    SessionInfo { id: id.into(), summary: "s".into(), cwd: "/w".into(), updated_at: Timestamp { secs: 1, nanos: 0 } }
}

fn listed(ws: Vec<WorktreeInfo>) -> Outcome {
    Outcome::Worktrees { listed: Some(ws), git_dir_exists: true }
}

/// An app on the worktree list of the first project, with a main and one
/// more worktree.
fn on_worktrees() -> App {
    let mut app = App::new(config());
    app.select(listed(vec![wt("main", true), wt("feat", false)]));
    app
}

fn press(app: &mut App, key: Key) -> Action {
    let work = app.key_work(key);
    assert!(matches!(work, Work::Nothing));
    app.handle_key(key, Outcome::Nothing)
}

#[test]
fn new_app_shows_every_project() {
    let app = App::new(config());
    assert!(matches!(app.screen, Screen::ProjectList));
    assert_eq!(app.filtered_indices, vec![0, 1, 2]);
    assert_eq!(app.current_items_count(), 3);
    assert_eq!(app.list_index, 0);
    assert!(app.status_message.is_none());
}

#[test]
fn up_and_down_stay_on_the_list() {
    let mut app = App::new(config());
    app.move_up();
    assert_eq!(app.list_index, 0);
    app.move_down();
    app.move_down();
    app.move_down();
    assert_eq!(app.list_index, 2);
    assert!(matches!(press(&mut app, Key::Up), Action::Nothing));
    assert_eq!(app.list_index, 1);
}

#[test]
fn typing_filters_projects_fuzzily_and_ignoring_case() {
    let mut app = App::new(config());
    press(&mut app, Key::Char('A'));
    assert_eq!(app.filtered_indices, vec![0, 2]);
    press(&mut app, Key::Char('b'));
    assert_eq!(app.search_query, "Ab");
    assert_eq!(app.filtered_indices, vec![0]);
    press(&mut app, Key::Char('n'));
    assert_eq!(app.filtered_indices, vec![0]);
    app.search_push('x');
    assert!(app.filtered_indices.is_empty());
    press(&mut app, Key::Backspace);
    assert_eq!(app.search_query, "Abn");
    assert_eq!(app.filtered_indices, vec![0]);
    assert!(matches!(press(&mut app, Key::Esc), Action::Nothing));
    assert_eq!(app.search_query, "");
    assert_eq!(app.filtered_indices, vec![0, 1, 2]);
    assert!(matches!(press(&mut app, Key::Esc), Action::Quit));
}

#[test]
fn search_pop_keeps_the_highlight_on_the_list() {
    let mut app = App::new(config());
    app.search_push('e');
    assert_eq!(app.filtered_indices, vec![1, 2]);
    app.move_down();
    assert_eq!(app.list_index, 1);
    app.search_push('b');
    assert_eq!(app.filtered_indices, vec![1, 2]);
    app.list_index = 1;
    app.search_push('r');
    assert_eq!(app.filtered_indices, vec![2]);
    app.list_index = 3;
    app.search_pop();
    assert_eq!(app.filtered_indices, vec![1, 2]);
    assert_eq!(app.list_index, 1);
}

#[test]
fn selecting_with_no_projects_says_so() {
    let mut app = App::new(Config::default());
    assert!(matches!(app.select_work(), Work::Nothing));
    app.select(Outcome::Nothing);
    assert_eq!(app.status_message.as_deref(), Some("No projects configured. Edit config.toml in the azkaban repo"));
    let mut app = App::new(config());
    app.search_push('q');
    app.select(Outcome::Nothing);
    assert_eq!(app.status_message.as_deref(), Some("No matching projects"));
}

#[test]
fn selecting_a_project_lists_its_worktrees() {
    let mut app = App::new(config());
    app.search_push('w');
    match app.key_work(Key::Right) {
        Work::ListWorktrees { project_path } => assert_eq!(project_path, "/home/u/website"),
        _ => panic!("expected a worktree listing"),
    }
    assert_eq!(app.key_work(Key::Right).work_kind(), WorkKind::ListWorktrees);
    app.handle_key(Key::Right, listed(vec![wt("main", true)]));
    assert!(matches!(app.screen, Screen::WorktreeList { project_index: 1 }));
    assert_eq!(app.worktrees.len(), 1);
    assert_eq!(app.current_items_count(), 2);
    app.go_back();
    assert!(matches!(app.screen, Screen::ProjectList));
    assert_eq!(app.list_index, 0);
    assert_eq!(app.filtered_indices, vec![1]);
}

#[test]
fn a_failed_listing_warns_without_git_or_reports() {
    let mut app = App::new(config());
    app.move_down();
    app.select(Outcome::Worktrees { listed: None, git_dir_exists: false });
    assert!(matches!(app.screen, Screen::NoGitWarning { project_index: 1, selected_button: 1 }));
    let mut app = App::new(config());
    app.select(Outcome::Worktrees { listed: None, git_dir_exists: true });
    assert!(matches!(app.screen, Screen::ProjectList));
    assert_eq!(app.status_message.as_deref(), Some("Failed to list worktrees"));
}

#[test]
fn no_git_warning_buttons() {
    let mut app = App::new(config());
    app.move_down();
    app.move_down();
    app.select(Outcome::Worktrees { listed: None, git_dir_exists: false });
    press(&mut app, Key::Left);
    assert!(matches!(app.screen, Screen::NoGitWarning { project_index: 2, selected_button: 0 }));
    press(&mut app, Key::Right);
    assert!(matches!(app.screen, Screen::NoGitWarning { project_index: 2, selected_button: 1 }));
    // project "zebra" names an unknown tool and there is no global default
    assert!(matches!(press(&mut app, Key::Enter), Action::Nothing));
    match &app.screen {
        Screen::ToolSelect { project_index: 2, worktree } => {
            assert_eq!(worktree.name, "zebra");
            assert_eq!(worktree.path, "/home/u/zebra");
            assert_eq!(worktree.branch, "");
            assert!(worktree.is_main);
        }
        _ => panic!("expected the tool list"),
    }
    match press(&mut app, Key::Right) {
        Action::LaunchTool { project, cli, .. } => {
            assert_eq!(project.name, "zebra");
            assert_eq!(cli.name, "aider");
        }
        _ => panic!("expected a launch"),
    }
    // back from the tool list lands on the project's (empty) worktree list
    app.return_from_tool();
    assert!(matches!(app.screen, Screen::WorktreeList { project_index: 2 }));
    assert_eq!(app.list_index, 0);
}

#[test]
fn no_git_return_goes_back_to_the_row_of_the_project() {
    let mut app = App::new(config());
    app.move_down();
    app.select(Outcome::Worktrees { listed: None, git_dir_exists: false });
    press(&mut app, Key::Left);
    press(&mut app, Key::Enter);
    assert!(matches!(app.screen, Screen::ProjectList));
    assert_eq!(app.list_index, 1);
    assert!(app.selection_in_range());
}

#[test]
fn continuing_without_git_launches_the_default_tool() {
    let mut app = App::new(config());
    app.move_down();
    app.select(Outcome::Worktrees { listed: None, git_dir_exists: false });
    match app.continue_no_git() {
        Action::LaunchTool { project, worktree, cli } => {
            assert_eq!(project.name, "website");
            assert_eq!(worktree.path, "/home/u/website");
            assert_eq!(cli.name, "aider");
        }
        _ => panic!("expected a launch"),
    }
}

#[test]
fn new_worktree_entry() {
    let mut app = on_worktrees();
    assert!(matches!(press(&mut app, Key::Right), Action::Nothing));
    assert!(matches!(app.screen, Screen::NewWorktree { project_index: 0, .. }));
    for c in [' ', 'f', 'x', 'y'] {
        press(&mut app, Key::Char(c));
    }
    press(&mut app, Key::Backspace);
    match app.key_work(Key::Enter) {
        Work::CreateWorktree { project_path, branch_name } => {
            assert_eq!(project_path, "/home/u/Azkaban");
            assert_eq!(branch_name, "fx");
        }
        _ => panic!("expected a creation"),
    }
    app.handle_key(Key::Enter, Outcome::Created(Ok(wt("fx", false))));
    assert!(matches!(app.screen, Screen::WorktreeList { project_index: 0 }));
    assert_eq!(app.worktrees.len(), 3);
    assert_eq!(app.list_index, 3);
    assert_eq!(app.status_message.as_deref(), Some("Created worktree: fx"));
}

#[test]
fn new_worktree_errors() {
    let mut app = on_worktrees();
    app.select(Outcome::Nothing);
    app.handle_char(' ');
    assert!(matches!(app.confirm_new_worktree_work(), Work::Nothing));
    app.confirm_new_worktree(Outcome::Nothing);
    assert_eq!(app.status_message.as_deref(), Some("Branch name cannot be empty"));
    app.handle_char('b');
    app.confirm_new_worktree(Outcome::Created(Err("exists".into())));
    assert_eq!(app.status_message.as_deref(), Some("Failed to create worktree: exists"));
    assert!(matches!(app.screen, Screen::NewWorktree { .. }));
    assert!(matches!(press(&mut app, Key::Esc), Action::Quit));
    press(&mut app, Key::Left);
    assert!(matches!(app.screen, Screen::WorktreeList { .. }));
    assert!(app.status_message.is_none());
}

#[test]
fn deleting_worktrees() {
    let mut app = on_worktrees();
    press(&mut app, Key::Delete);
    assert!(matches!(app.screen, Screen::WorktreeList { .. }));
    app.move_down();
    press(&mut app, Key::Backspace);
    assert_eq!(app.status_message.as_deref(), Some("Cannot delete the main worktree"));
    app.move_down();
    press(&mut app, Key::Delete);
    assert!(matches!(app.screen, Screen::ConfirmDelete { project_index: 0, worktree_index: 1 }));
    press(&mut app, Key::Char('n'));
    assert!(matches!(app.screen, Screen::WorktreeList { .. }));
    // back from the prompt, the highlight returns to the worktree selected last (none yet)
    assert_eq!(app.list_index, 0);
    press(&mut app, Key::Down);
    press(&mut app, Key::Down);
    press(&mut app, Key::Delete);
    match app.key_work(Key::Char('y')) {
        Work::RemoveWorktree { project_path, worktree_path } => {
            assert_eq!(project_path, "/home/u/Azkaban");
            assert_eq!(worktree_path, "/home/u/Azkaban/.worktrees/feat");
        }
        _ => panic!("expected a removal"),
    }
    app.handle_key(Key::Char('y'), Outcome::Removed(Err("locked".into())));
    assert_eq!(app.list_index, 2);
    assert_eq!(app.status_message.as_deref(), Some("Failed to delete worktree: locked"));
    press(&mut app, Key::Delete);
    app.handle_key(Key::Right, Outcome::Removed(Ok(())));
    assert_eq!(app.worktrees.len(), 1);
    assert_eq!(app.list_index, 1);
    assert_eq!(app.status_message.as_deref(), Some("Worktree deleted"));
}

#[test]
fn deleting_the_last_worktree_highlights_the_new_row() {
    let mut app = App::new(config());
    app.select(listed(vec![wt("only", false)]));
    app.move_down();
    app.delete_worktree();
    app.confirm_delete(Outcome::Removed(Ok(())));
    assert!(app.worktrees.is_empty());
    assert_eq!(app.list_index, 0);
}

#[test]
fn sessions_of_a_worktree() {
    let mut app = on_worktrees();
    app.move_down();
    app.move_down();
    match app.key_work(Key::Right) {
        Work::ListSessions { container_workdir } => assert_eq!(container_workdir, "/workspace/Azkaban/.worktrees/feat"),
        _ => panic!("expected a session listing"),
    }
    app.handle_key(Key::Right, Outcome::Sessions(vec![session("s1"), session("s2")]));
    assert!(matches!(app.screen, Screen::SessionList { project_index: 0, worktree_index: 1 }));
    assert_eq!(app.current_items_count(), 3);
    assert_eq!(app.worktree_list_index, 2);
    // no default tool for this project and none globally: the tool list opens
    assert!(matches!(press(&mut app, Key::Right), Action::Nothing));
    assert!(matches!(app.screen, Screen::ToolSelect { project_index: 0, .. }));
    press(&mut app, Key::Down);
    match press(&mut app, Key::Right) {
        Action::LaunchTool { cli, worktree, .. } => {
            assert_eq!(cli.name, "copilot");
            assert_eq!(worktree.name, "feat");
        }
        _ => panic!("expected a launch"),
    }
    app.return_from_tool();
    assert!(matches!(app.screen, Screen::WorktreeList { .. }));
    assert_eq!(app.list_index, 2);
}

#[test]
fn resuming_a_session_uses_copilot_by_default() {
    let mut app = on_worktrees();
    app.move_down();
    app.select(Outcome::Sessions(vec![session("s1"), session("s2")]));
    app.move_down();
    app.move_down();
    match press(&mut app, Key::Right) {
        Action::ResumeSession { cli, session_id, worktree, .. } => {
            assert_eq!(cli.name, "copilot");
            assert_eq!(session_id, "s2");
            assert_eq!(worktree.name, "main");
        }
        _ => panic!("expected a resume"),
    }
    app.config.cli_tools = vec![tool("aider")];
    assert!(matches!(app.select_session(), Action::Nothing));
    app.config.default_tool = Some("aider".into());
    assert!(matches!(app.select_session(), Action::ResumeSession { .. }));
    app.list_index = 0;
    match app.select_session() {
        Action::LaunchTool { cli, .. } => assert_eq!(cli.name, "aider"),
        _ => panic!("expected a launch"),
    }
}

#[test]
fn tool_list_without_tools() {
    let mut app = on_worktrees();
    app.move_down();
    app.select(Outcome::Sessions(vec![]));
    app.config.cli_tools = vec![];
    app.select_session();
    assert!(matches!(app.screen, Screen::ToolSelect { .. }));
    assert_eq!(app.current_items_count(), 0);
    assert!(matches!(app.select(Outcome::Nothing), Action::Nothing));
    assert_eq!(app.status_message.as_deref(), Some("No CLI tools configured in config.toml"));
}

#[test]
fn refresh_replaces_the_worktrees() {
    let mut app = on_worktrees();
    assert!(matches!(press(&mut app, Key::Char('r')), Action::Refresh));
    match app.refresh_work() {
        Work::ListWorktrees { project_path } => assert_eq!(project_path, "/home/u/Azkaban"),
        _ => panic!("expected a listing"),
    }
    app.apply_refresh(listed(vec![wt("main", true)]));
    assert_eq!(app.worktrees.len(), 1);
    assert_eq!(app.status_message.as_deref(), Some("Refreshed"));
    app.apply_refresh(Outcome::Worktrees { listed: None, git_dir_exists: true });
    assert_eq!(app.worktrees.len(), 1);
}

#[test]
fn outcomes_answer_their_work() {
    assert!(Outcome::Nothing.answers_kind(WorkKind::Nothing));
    assert!(!Outcome::Nothing.answers_kind(WorkKind::ListSessions));
    assert!(Outcome::Removed(Ok(())).answers_kind(WorkKind::RemoveWorktree));
    assert!(Outcome::Sessions(vec![]).answers_kind(WorkKind::ListSessions));
}

#[test]
fn selection_range_check() {
    let mut app = App::new(config());
    assert!(app.selection_in_range());
    app.list_index = 3;
    assert!(!app.selection_in_range());
}

#[test]
fn returning_from_the_no_git_warning_can_leave_the_filtered_list() {
    let mut app = App::new(config());
    app.search_push('z');
    assert_eq!(app.filtered_indices, vec![0, 2]);
    app.move_down();
    app.select(Outcome::Worktrees { listed: None, git_dir_exists: false });
    assert!(matches!(app.screen, Screen::NoGitWarning { project_index: 2, .. }));
    app.go_back();
    // the highlight takes the project's position, not its row in the filtered list
    assert_eq!(app.list_index, 2);
    assert!(!app.selection_in_range());
}

#[test]
fn clearing_the_search_shows_every_project() {
    let mut app = App::new(config());
    app.search_push('z');
    app.search_push('Q');
    assert!(app.filtered_indices.is_empty());
    app.search_clear();
    assert_eq!(app.search_query, "");
    assert_eq!(app.filtered_indices, vec![0, 1, 2]);
    assert_eq!(app.list_index, 0);
}

#[test]
fn typing_only_narrows_the_list() {
    let mut app = App::new(config());
    let mut before = app.filtered_indices.clone();
    for c in "ebra".chars() {
        app.search_push(c);
        assert!(app.filtered_indices.iter().all(|i| before.contains(i)), "after {:?}", app.search_query);
        before = app.filtered_indices.clone();
    }
    assert_eq!(app.filtered_indices, vec![2]);
}
