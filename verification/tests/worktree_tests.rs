use azkaban::worktree::{
    created_worktree, new_worktree_location, parse_worktree_list, split_lines, worktree_add_attempts, worktree_remove_args,
    worktrees_dir,
};
use azkaban::paths::join_path;

fn lines(s: &str) -> Vec<String> {
    split_lines(s).into_iter().map(|l| l.into_iter().collect()).collect()
}

#[test]
fn split_lines_matches_str_lines() {
    for s in ["", "a", "a\n", "a\nb", "a\r\nb\r\n", "a\r", "\n\nx", "a\rb\n"] {
        let expected: Vec<String> = s.lines().map(|l| l.to_string()).collect();
        assert_eq!(lines(s), expected, "input {:?}", s);
    }
}

#[test]
fn porcelain_listing_is_read() {
    let out = "worktree /home/u/proj\nHEAD 1234\nbranch refs/heads/main\n\nworktree /home/u/proj/.worktrees/feat\nHEAD 5678\nbranch refs/heads/feat\n\nworktree /home/u/proj/.worktrees/det\nHEAD 9abc\ndetached\n\n";
    let ws = parse_worktree_list(out);
    assert_eq!(ws.len(), 3);
    assert_eq!((ws[0].name.as_str(), ws[0].path.as_str(), ws[0].branch.as_str(), ws[0].is_main), ("proj", "/home/u/proj", "main", true));
    assert_eq!((ws[1].name.as_str(), ws[1].branch.as_str(), ws[1].is_main), ("feat", "feat", false));
    assert_eq!((ws[2].name.as_str(), ws[2].branch.as_str(), ws[2].is_main), ("det", "HEAD", false));
}

#[test]
fn bare_repositories_are_skipped_but_count_as_first() {
    let out = "worktree /srv/repo.git\nbare\n\nworktree /srv/wt\nbranch other/x\n";
    let ws = parse_worktree_list(out);
    assert_eq!(ws.len(), 1);
    assert_eq!(ws[0].path, "/srv/wt");
    assert_eq!(ws[0].branch, "other/x");
    assert!(!ws[0].is_main);
}

#[test]
fn a_bare_stanza_between_others_gives_no_worktree() {
    let out = "worktree /a/main\nbranch refs/heads/main\n\nworktree /a/mirror\nbare\n\nworktree /a/.worktrees/x\nbranch refs/heads/x\n";
    let ws = parse_worktree_list(out);
    let paths: Vec<&str> = ws.iter().map(|w| w.path.as_str()).collect();
    assert_eq!(paths, vec!["/a/main", "/a/.worktrees/x"]);
    assert!(ws[0].is_main);
    assert!(!ws[1].is_main);
}

#[test]
fn crlf_output_and_odd_paths() {
    let ws = parse_worktree_list("worktree /\r\nbranch refs/heads/dev\r\n");
    assert_eq!(ws.len(), 1);
    assert_eq!(ws[0].name, "unknown");
    assert_eq!(ws[0].branch, "dev");
    assert!(parse_worktree_list("").is_empty());
    assert!(parse_worktree_list("branch refs/heads/x\n").is_empty());
}

#[test]
fn a_branch_line_before_any_stanza_belongs_to_the_first() {
    let ws = parse_worktree_list("branch refs/heads/early\nworktree /a/b\n");
    assert_eq!(ws[0].branch, "early");
}

#[test]
fn created_worktrees_are_named_after_their_branch() {
    let w = created_worktree("feat", "/p/.worktrees/feat");
    assert_eq!((w.name.as_str(), w.path.as_str(), w.branch.as_str(), w.is_main), ("feat", "/p/.worktrees/feat", "feat", false));
}

#[test]
fn worktree_creation_tries_three_ways() {
    let a = worktree_add_attempts("/p/.worktrees/f", "f");
    assert_eq!(a, vec![
        vec!["worktree", "add", "/p/.worktrees/f", "f"],
        vec!["worktree", "add", "-b", "f", "/p/.worktrees/f", "HEAD"],
        vec!["worktree", "add", "--orphan", "-b", "f", "/p/.worktrees/f"],
    ]);
}

#[test]
fn new_worktrees_go_under_the_project() {
    assert_eq!(worktrees_dir("/p"), "/p/.worktrees");
    assert_eq!(new_worktree_location("/p", "feat"), "/p/.worktrees/feat");
    assert_eq!(new_worktree_location("/p/", "a/b"), "/p/.worktrees/a/b");
    assert_eq!(join_path("/p", "/abs"), "/abs");
    assert_eq!(worktree_remove_args("/p/.worktrees/f"), vec!["worktree", "remove", "--force", "/p/.worktrees/f"]);
}
