use azkaban::config::CliToolConfig;
use azkaban::session::{
    build_resume_command, build_tool_command, describe_age, elapsed_seconds, list_sessions_for_worktree,
    parse_rfc3339, session_from_workspace, sessions_at, sessions_from_workspaces, sort_by_recency, utc_now, clock_or_epoch, count_copilot_tools,
    CopilotWorkspace, SessionInfo, Timestamp,
};

fn at(secs: i64) -> Timestamp {
    Timestamp { secs, nanos: 0 }
}

fn session(id: &str, secs: i64) -> SessionInfo {
    SessionInfo { id: id.into(), summary: "s".into(), cwd: "/w".into(), updated_at: at(secs) }
}

fn ws(id: &str, cwd: &str, summary: &str, updated_at: Option<&str>) -> CopilotWorkspace {
    CopilotWorkspace { id: id.into(), cwd: cwd.into(), summary: summary.into(), updated_at: updated_at.map(|s| s.into()) }
}

fn tool(name: &str, flags: &[&str]) -> CliToolConfig {
    CliToolConfig {
        name: name.into(),
        display_name: None,
        install_cmd: None,
        cli_cmd: name.into(),
        flags: flags.iter().map(|f| f.to_string()).collect(),
    }
}

#[test]
fn ages_in_words() {
    assert_eq!(describe_age(-5), "just now");
    assert_eq!(describe_age(0), "just now");
    assert_eq!(describe_age(59), "just now");
    assert_eq!(describe_age(60), "1m ago");
    assert_eq!(describe_age(3599), "59m ago");
    assert_eq!(describe_age(3600), "1h ago");
    assert_eq!(describe_age(86399), "23h ago");
    assert_eq!(describe_age(86400), "1d ago");
    assert_eq!(describe_age(29 * 86400 + 5), "29d ago");
    assert_eq!(describe_age(30 * 86400), "1mo ago");
    assert_eq!(describe_age(95 * 86400), "3mo ago");
}

#[test]
fn time_ago_counts_from_the_update() {
    let s = session("a", 1_700_000_000);
    assert_eq!(s.time_ago_at(at(1_700_000_000 + 5 * 3600 + 10)), "5h ago");
    assert_eq!(s.time_ago_at(Timestamp { secs: 1_700_000_059, nanos: 999_999_999 }), "just now");
    assert_eq!(s.time_ago_at(at(1_699_000_000)), "just now");
    let now = utc_now().expect("the clock reads after 1970");
    assert!(now.nanos < 1_000_000_000 && now.secs > 1_600_000_000);
    let fresh = SessionInfo { updated_at: now, ..session("b", 0) };
    assert_eq!(fresh.time_ago(), "just now");
    assert_eq!(clock_or_epoch(None), at(0));
    assert_eq!(clock_or_epoch(Some(at(5))), at(5));
}

#[test]
fn elapsed_seconds_truncate_toward_zero() {
    assert_eq!(elapsed_seconds(Timestamp { secs: 100, nanos: 500_000_000 }, at(40)), Some(60));
    assert_eq!(elapsed_seconds(at(40), Timestamp { secs: 100, nanos: 500_000_000 }), Some(-60));
    assert_eq!(elapsed_seconds(at(i64::MAX), at(0)), None);
    assert_eq!(session("x", 0).time_ago_at(at(i64::MAX)), "just now");
}

#[test]
fn rfc3339_times_are_read_in_utc() {
    assert_eq!(parse_rfc3339("2024-01-01T00:00:00Z"), Some((1_704_067_200, 0)));
    assert_eq!(parse_rfc3339("2024-01-01T02:00:00.5+02:00"), Some((1_704_067_200, 500_000_000)));
    assert_eq!(parse_rfc3339("yesterday"), None);
}

#[test]
fn workspaces_become_sessions() {
    let now = at(42);
    let s = session_from_workspace(&ws("id1", "/workspace/p", "", Some("2024-01-01T00:00:00Z")), now);
    assert_eq!(s.id, "id1");
    assert_eq!(s.summary, "(no summary)");
    assert_eq!(s.cwd, "/workspace/p");
    assert_eq!(s.updated_at, at(1_704_067_200));
    let t = session_from_workspace(&ws("id2", "", "fix bug", Some("garbage")), now);
    assert_eq!(t.summary, "fix bug");
    assert_eq!(t.updated_at, now);
    let u = session_from_workspace(&ws("id3", "", "x", None), now);
    assert_eq!(u.updated_at, now);
}

#[test]
fn sorting_puts_the_latest_first_and_keeps_ties_in_order() {
    let sorted = sort_by_recency(vec![session("a", 10), session("b", 30), session("c", 10), session("d", 20), session("e", 30)]);
    let ids: Vec<&str> = sorted.iter().map(|s| s.id.as_str()).collect();
    assert_eq!(ids, vec!["b", "e", "d", "a", "c"]);
    let nanos = sort_by_recency(vec![session("x", 5), SessionInfo { updated_at: Timestamp { secs: 5, nanos: 1 }, ..session("y", 0) }]);
    assert_eq!(nanos[0].id, "y");
    assert!(sort_by_recency(vec![]).is_empty());
}

#[test]
fn sessions_are_filtered_by_directory_and_sorted() {
    let list = vec![
        ws("old", "/workspace/p", "o", Some("2024-01-01T00:00:00Z")),
        ws("other", "/workspace/q", "q", Some("2025-01-01T00:00:00Z")),
        ws("new", "/workspace/p", "n", Some("2024-06-01T00:00:00Z")),
    ];
    let nows = vec![at(1), at(2), at(3)];
    let ids: Vec<String> = sessions_at(&list, "/workspace/p", &nows).into_iter().map(|s| s.id).collect();
    assert_eq!(ids, vec!["new", "old"]);
    let all: Vec<String> = sessions_at(&list, "", &nows).into_iter().map(|s| s.id).collect();
    assert_eq!(all, vec!["other", "new", "old"]);
    let read: Vec<String> = sessions_from_workspaces(&list, "/workspace/q").into_iter().map(|s| s.id).collect();
    assert_eq!(read, vec!["other"]);
}

#[test]
fn sessions_come_once_per_copilot_tool() {
    let copilot = vec![session("a", 1), session("b", 2)];
    assert_eq!(count_copilot_tools(&vec![tool("copilot", &[]), tool("aider", &[]), tool("copilot", &[])]), 2);
    let none = list_sessions_for_worktree(&vec![tool("aider", &[])], &copilot);
    assert!(none.is_empty());
    let once: Vec<String> = list_sessions_for_worktree(&vec![tool("aider", &[]), tool("copilot", &[])], &copilot).into_iter().map(|s| s.id).collect();
    assert_eq!(once, vec!["b", "a"]);
    let twice: Vec<String> = list_sessions_for_worktree(&vec![tool("copilot", &[]), tool("copilot", &[])], &copilot).into_iter().map(|s| s.id).collect();
    assert_eq!(twice, vec!["b", "b", "a", "a"]);
}

#[test]
fn tool_commands_run_in_the_workdir() {
    assert_eq!(
        build_tool_command("/workspace/p", &tool("copilot", &["--yolo", "--x"])),
        vec!["sh", "-c", "cd /workspace/p && copilot --yolo --x"]
    );
    assert_eq!(build_tool_command("/w", &tool("aider", &[])), vec!["sh", "-c", "cd /w && aider"]);
    assert_eq!(
        build_resume_command("/w", &tool("copilot", &["--yolo"]), "abc-123"),
        vec!["sh", "-c", "cd /w && copilot --resume abc-123 --yolo"]
    );
}
