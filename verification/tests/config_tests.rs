use azkaban::config::{default_container_name, expand_home, CliToolConfig, Config, ProjectConfig};

fn tool(name: &str, display: Option<&str>) -> CliToolConfig {
    CliToolConfig {
        name: name.to_string(),
        display_name: display.map(|d| d.to_string()),
        install_cmd: None,
        cli_cmd: name.to_string(),
        flags: vec![],
    }
}

#[test]
fn display_prefers_the_display_name() {
    assert_eq!(tool("copilot", Some("GitHub Copilot")).display(), "GitHub Copilot");
    assert_eq!(tool("aider", None).display(), "aider");
}

#[test]
fn default_config_uses_the_sandbox_container() {
    let c = Config::default();
    assert_eq!(default_container_name(), "azkaban-sandbox");
    assert_eq!(c.container_name, "azkaban-sandbox");
    assert!(c.cli_tools.is_empty() && c.projects.is_empty() && c.project_dirs.is_empty());
    assert!(c.default_tool.is_none());
    assert_eq!(c.root_dir, "");
}

#[test]
fn find_tool_returns_the_first_tool_with_the_name() {
    let mut c = Config::default();
    c.cli_tools = vec![tool("aider", None), tool("gemini", Some("first")), tool("gemini", Some("second"))];
    assert_eq!(c.find_tool("gemini").unwrap().display(), "first");
    assert_eq!(c.find_tool_index("gemini"), Some(1));
    assert!(c.find_tool("copilot").is_none());
    assert!(c.find_tool("Aider").is_none());
}

#[test]
fn expand_home_replaces_a_leading_tilde_only() {
    assert_eq!(expand_home("~/projects/*", Some("/home/u")), "/home/u/projects/*");
    assert_eq!(expand_home("~", Some("/home/u")), "/home/u");
    assert_eq!(expand_home("/srv/~x", Some("/home/u")), "/srv/~x");
    assert_eq!(expand_home("~/projects/*", None), "~/projects/*");
}

#[test]
fn discovered_directories_become_projects() {
    let mut c = Config::default();
    c.projects = vec![ProjectConfig { name: "known".into(), path: "/p/known".into(), default_tool: Some("aider".into()) }];
    c.expand_project_dirs(vec![
        "/p/known".to_string(),
        "/p/alpha".to_string(),
        "/p/.hidden".to_string(),
        "/".to_string(),
        "/p/beta/".to_string(),
        "/p/alpha".to_string(),
    ]);
    let names: Vec<&str> = c.projects.iter().map(|p| p.name.as_str()).collect();
    let paths: Vec<&str> = c.projects.iter().map(|p| p.path.as_str()).collect();
    assert_eq!(names, vec!["known", "alpha", "beta", "alpha"]);
    assert_eq!(paths, vec!["/p/known", "/p/alpha", "/p/beta/", "/p/alpha"]);
    assert!(c.projects[1].default_tool.is_none());
}
