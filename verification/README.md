# azkaban

A terminal front end that runs agentic CLI tools inside a sandbox
container, with git worktree management and session tracking.

- `src/` is the verified library (Verus): configuration handling, the
  reading of `git worktree list --porcelain`, session records and their
  ordering, the shell commands that start or resume a tool, the texts of
  the screens, and the screen state machine (`app.rs`). A step that needs
  outside work (git, the file system) names it as a `Work` value and takes
  its result as an `Outcome`.
- `app/` is the program around it: terminal setup and the key loop
  (crossterm), rendering (ratatui), reading `config.yaml` (serde_yaml),
  expanding `project_dirs` (glob), and running `git` and `docker exec`.
- `tests/` exercises the library on concrete values.
