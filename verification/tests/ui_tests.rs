use azkaban::app::{App, Outcome, Screen};
use azkaban::config::{CliToolConfig, Config, ProjectConfig};
use azkaban::session::{SessionInfo, Timestamp};
use azkaban::ui::{centered_split, delete_question, input_line, new_worktree_title, no_git_line, session_list_title, tool_select_title};
use azkaban::worktree::WorktreeInfo;

fn config() -> Config {
    let mut c = Config::default();
    c.cli_tools = vec![
        CliToolConfig { name: "copilot".into(), display_name: Some("GitHub Copilot".into()), install_cmd: None, cli_cmd: "copilot".into(), flags: vec![] },
        CliToolConfig { name: "gemini".into(), display_name: None, install_cmd: None, cli_cmd: "gemini".into(), flags: vec![] },
    ];
    c.projects = vec![
        ProjectConfig { name: "Alpha".into(), path: "/a".into(), default_tool: Some("gemini".into()) },
        ProjectConfig { name: "beta".into(), path: "/b".into(), default_tool: None },
    ];
    c
}

fn texts(rows: &[azkaban::ui::ListRow]) -> Vec<(String, String, bool)> {
    rows.iter().map(|r| (r.text.clone(), r.hint.clone(), r.selected)).collect()
}

#[test]
fn project_rows_mark_the_highlight_and_default_tools() {
    let mut app = App::new(config());
    app.move_down();
    assert_eq!(
        texts(&app.project_rows(true)),
        vec![
            ("  Alpha".to_string(), " [gemini]".to_string(), false),
            ("▶ beta".to_string(), "".to_string(), true),
        ]
    );
    // unfocused: the project opened last is marked
    assert_eq!(texts(&app.project_rows(false))[0].2, true);
    app.search_push('B');
    assert_eq!(app.filtered_indices, vec![1]);
    assert_eq!(texts(&app.project_rows(true)), vec![("▶ beta".to_string(), "".to_string(), true)]);
    assert_eq!(app.project_list_title(true), " Projects (1/2) ");
    assert_eq!(app.project_list_title(false), " Projects ");
    app.search_push('q');
    assert!(app.project_rows(true).is_empty());
    assert_eq!(app.empty_projects_message(), "  No matching projects.");
    assert_eq!(App::new(Config::default()).empty_projects_message(), "  No projects configured.\n  Edit config.toml in the azkaban repo to add projects.");
}

#[test]
fn worktree_rows_start_with_the_new_row() {
    let mut app = App::new(config());
    app.select(Outcome::Worktrees {
        listed: Some(vec![
            WorktreeInfo { name: "a".into(), path: "/a".into(), branch: "main".into(), is_main: true },
            WorktreeInfo { name: "f".into(), path: "/a/.worktrees/f".into(), branch: "f".into(), is_main: false },
        ]),
        git_dir_exists: true,
    });
    assert_eq!(
        texts(&app.worktree_rows(true)),
        vec![
            ("▶ [+ New Worktree]".to_string(), "".to_string(), true),
            ("  main".to_string(), " (main)".to_string(), false),
            ("  f".to_string(), "".to_string(), false),
        ]
    );
    assert_eq!(app.worktree_list_title(0), " Worktrees — Alpha ");
    assert_eq!(app.help_text(), "↑/↓ Navigate  → Select  ← Back  Del Delete  Esc Quit");
    app.move_down();
    app.move_down();
    app.select(Outcome::Sessions(vec![SessionInfo {
        id: "s".into(),
        summary: "fix".into(),
        cwd: "/w".into(),
        updated_at: Timestamp { secs: 1000, nanos: 0 },
    }]));
    assert!(matches!(app.screen, Screen::SessionList { .. }));
    assert_eq!(texts(&app.worktree_rows(false))[2].2, true);
    assert_eq!(
        texts(&app.session_rows(Timestamp { secs: 1000 + 7200, nanos: 0 })),
        vec![
            ("▶ [+ New Session]".to_string(), "".to_string(), true),
            ("  fix".to_string(), "  2h ago".to_string(), false),
        ]
    );
    assert_eq!(app.help_text(), "↑/↓ Navigate  → Resume/New  ← Back  Esc Quit");
}

#[test]
fn tool_rows_show_display_names() {
    let mut app = App::new(config());
    app.list_index = 1;
    assert_eq!(
        texts(&app.tool_rows()),
        vec![
            ("  GitHub Copilot".to_string(), "".to_string(), false),
            ("▶ gemini".to_string(), "".to_string(), true),
        ]
    );
}

#[test]
fn help_and_status_lines() {
    let mut app = App::new(config());
    assert_eq!(app.help_text(), "↑/↓ Navigate  → Select  Type to search  Esc Quit");
    app.search_push('a');
    assert_eq!(app.help_text(), "↑/↓ Navigate  → Select  Backspace Delete  Esc Clear search");
    assert!(app.status_text().is_none());
    app.status_message = Some("Refreshed".into());
    assert_eq!(app.status_text().as_deref(), Some(" Refreshed "));
}

#[test]
fn dialog_texts() {
    assert_eq!(tool_select_title("feat"), " Select CLI Tool — feat ");
    assert_eq!(new_worktree_title(12), " New Worktree — Project 12 ");
    assert_eq!(input_line("ab"), "  > ab█");
    assert_eq!(delete_question("feat"), "  Delete worktree 'feat'?");
    assert_eq!(no_git_line("notes"), "  'notes' is not a git repository.");
    assert_eq!(session_list_title("main"), " Sessions — main ");
}

#[test]
fn popups_are_centred() {
    assert_eq!(centered_split(40), (30, 40, 30));
    assert_eq!(centered_split(25), (37, 25, 37));
    assert_eq!(centered_split(100), (0, 100, 0));
}

#[test]
fn equality_compares_every_field() {
    let a = WorktreeInfo { name: "a".into(), path: "/a".into(), branch: "main".into(), is_main: true };
    let mut b = a.clone();
    assert_eq!(a, b);
    b.is_main = false;
    assert_ne!(a, b);
    let p = ProjectConfig { name: "p".into(), path: "/p".into(), default_tool: None };
    let mut q = p.clone();
    assert_eq!(p, q);
    q.default_tool = Some("x".into());
    assert_ne!(p, q);
    let t = config().cli_tools[0].clone();
    let mut u = t.clone();
    assert_eq!(t, u);
    u.flags.push("--f".into());
    assert_ne!(t, u);
}
