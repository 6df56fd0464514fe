use pylot::config::ConfigError;
use pylot::context::{
    join_path_text, parse_env_vars, summarize_porcelain, CommandOutput, ContextError,
    DirectoryScan, ProjectContext, ProjectFiles, Timestamp,
};
use pylot::textmap::TextMap;

fn no_files() -> ProjectFiles {
    ProjectFiles {
        dot_env: false,
        dot_env_local: false,
        dot_env_development: false,
        package_json: false,
        cargo_toml: false,
        go_mod: false,
        requirements_txt: false,
        pyproject_toml: false,
        docker_compose_yml: false,
        docker_compose_yaml: false,
        compose_yml: false,
    }
}

fn scan_of(path: &str, dir: Option<&str>, branch: Option<&str>, env: Option<&str>) -> DirectoryScan {
    DirectoryScan {
        path: path.to_string(),
        dir_name: dir.map(|d| d.to_string()),
        branch_output: branch.map(|b| CommandOutput { success: true, stdout: b.to_string() }),
        env_content: env.map(|e| e.to_string()),
        files: no_files(),
    }
}

fn bare_context(name: &str, last: Option<i64>) -> ProjectContext {
    ProjectContext {
        name: name.to_string(),
        path: format!("/p/{}", name),
        git_branch: None,
        env_vars: TextMap::new(),
        env_file: None,
        services: TextMap::new(),
        ports_required: Vec::new(),
        last_accessed: last.map(|s| Timestamp { secs: s, nanos: 0 }),
    }
}

fn pairs(m: &TextMap<String>) -> Vec<(String, String)> {
    m.entries().iter().map(|(k, v)| (k.clone(), v.clone())).collect()
}

fn git(ok: bool, out: &str) -> Option<CommandOutput> {
    Some(CommandOutput { success: ok, stdout: out.to_string() })
}

#[test]
fn env_file_lines_become_variables() {
    let m = parse_env_vars("# comment\nKEY=\"value\"\n  B = 2 \n\nnoequals\nURL=a=b\n=x\n");
    assert_eq!(
        pairs(&m),
        vec![
            ("KEY".to_string(), "value".to_string()),
            ("B".to_string(), "2".to_string()),
            ("URL".to_string(), "a=b".to_string()),
            (String::new(), "x".to_string()),
        ]
    );
}

#[test]
fn later_env_line_wins() {
    let m = parse_env_vars("A=1\nA=2\n");
    assert_eq!(pairs(&m), vec![("A".to_string(), "2".to_string())]);
}

#[test]
fn porcelain_summary_counts_kinds() {
    assert_eq!(
        summarize_porcelain(" M src/a.rs\n?? new.txt\nA  added.rs\nD  old.txt\n"),
        "1 modified, 2 untracked/added, 1 deleted"
    );
    assert_eq!(summarize_porcelain("R  a -> b\n\n  \n"), "1 changes");
    assert_eq!(summarize_porcelain("MM x\n"), "1 modified");
}

#[test]
fn dirty_state_and_summary_agree() {
    let clean = git(true, "");
    let failed = git(false, " M x\n");
    let dirty = git(true, " M x\n");
    assert!(!ProjectContext::has_dirty_git_state(&clean));
    assert!(!ProjectContext::has_dirty_git_state(&failed));
    assert!(!ProjectContext::has_dirty_git_state(&None));
    assert!(ProjectContext::has_dirty_git_state(&dirty));
    assert_eq!(ProjectContext::dirty_summary(&clean), None);
    assert_eq!(ProjectContext::dirty_summary(&failed), None);
    assert_eq!(ProjectContext::dirty_summary(&dirty), Some("1 modified".to_string()));
}

#[test]
fn branch_is_trimmed_output() {
    assert_eq!(ProjectContext::detect_git_branch(&git(true, "main\n")), Some("main".to_string()));
    assert_eq!(ProjectContext::detect_git_branch(&git(false, "fatal")), None);
    assert_eq!(ProjectContext::detect_git_branch(&None), None);
}

#[test]
fn env_file_detection_order() {
    let mut f = no_files();
    assert_eq!(f.detect_env_file(), None);
    f.dot_env_development = true;
    assert_eq!(f.detect_env_file(), Some(".env.development".to_string()));
    f.dot_env_local = true;
    assert_eq!(f.detect_env_file(), Some(".env.local".to_string()));
    f.dot_env = true;
    assert_eq!(f.detect_env_file(), Some(".env".to_string()));
}

#[test]
fn capture_without_config() {
    let now = Timestamp { secs: 100, nanos: 5 };
    let ctx = ProjectContext::capture_current(
        "proj",
        scan_of("/src/proj", Some("proj"), Some("dev\n"), Some("A=1\n")),
        None,
        now,
    )
    .unwrap();
    assert_eq!(ctx.name, "proj");
    assert_eq!(ctx.path, "/src/proj");
    assert_eq!(ctx.git_branch, Some("dev".to_string()));
    assert_eq!(pairs(&ctx.env_vars), vec![("A".to_string(), "1".to_string())]);
    assert_eq!(ctx.env_file, None);
    assert!(ctx.services.is_empty());
    assert!(ctx.ports_required.is_empty());
    assert_eq!(ctx.last_accessed, Some(now));
}

#[test]
fn capture_applies_project_config() {
    let config = "env_file = \".env.local\"\n[services]\nweb = \"npm start\"\nn = 5\n[ports]\nrequired = [3000, 70000, \"x\"]\n";
    let ctx = ProjectContext::capture_current(
        "proj",
        scan_of("/src/proj", None, None, None),
        Some(config),
        Timestamp { secs: 1, nanos: 0 },
    )
    .unwrap();
    assert_eq!(ctx.env_file, Some(".env.local".to_string()));
    assert_eq!(pairs(&ctx.services), vec![("web".to_string(), "npm start".to_string())]);
    assert_eq!(ctx.ports_required, vec![3000, 4464]);
}

#[test]
fn invalid_config_is_an_error() {
    let r = ProjectContext::capture_current(
        "proj",
        scan_of("/src/proj", None, None, None),
        Some("this is = = not toml"),
        Timestamp { secs: 1, nanos: 0 },
    );
    match r {
        Err(ConfigError::Toml(msg)) => assert!(!msg.is_empty()),
        Ok(_) => panic!("a broken configuration was accepted"),
    }
}

#[test]
fn applying_config_twice_changes_nothing_more() {
    let config = "[services]\nweb = \"run\"\n[ports]\nrequired = [1]\n";
    let mut ctx = bare_context("a", None);
    ctx.apply_project_config(config).unwrap();
    let once = (pairs(&ctx.services), ctx.ports_required.clone(), ctx.env_file.clone());
    ctx.apply_project_config(config).unwrap();
    let twice = (pairs(&ctx.services), ctx.ports_required.clone(), ctx.env_file.clone());
    assert_eq!(once, twice);
}

#[test]
fn load_marks_context_used() {
    let saved = bare_context("a", Some(5));
    let now = Timestamp { secs: 99, nanos: 1 };
    let ctx = ProjectContext::load(saved, None, now).unwrap();
    assert_eq!(ctx.last_accessed, Some(now));
    assert_eq!(ctx.name, "a");
    let with = ProjectContext::load(bare_context("b", None), Some("env_file = \"x\""), now).unwrap();
    assert_eq!(with.env_file, Some("x".to_string()));
    assert!(ProjectContext::load(bare_context("c", None), Some("[["), now).is_err());
}

#[test]
fn detect_current_names_after_directory() {
    let now = Timestamp { secs: 7, nanos: 0 };
    let a = ProjectContext::detect_current(scan_of("/x/app", Some("app"), None, None), now);
    assert_eq!(a.name, "app");
    let b = ProjectContext::detect_current(scan_of("/", None, None, None), now);
    assert_eq!(b.name, "unknown");
}

#[test]
fn config_template_for_node_and_compose() {
    let mut f = no_files();
    f.package_json = true;
    f.compose_yml = true;
    let t = ProjectContext::generate_config_template(&f);
    assert_eq!(
        t,
        "# pylot project configuration\n# This file defines your project's dev environment\n\nenv_file = \".env\"\n\n[services]\n# Define services that should run when switching to this project\n# dev = \"npm run dev\"\n# docker = \"docker compose up -d\"\n\n[ports]\n# Ports your project needs \u{2014} pylot will warn about conflicts\nrequired = []\n"
    );
}

#[test]
fn shell_commands_in_order() {
    let mut ctx = bare_context("a", None);
    ctx.path = "/w/a".to_string();
    ctx.git_branch = Some("main".to_string());
    ctx.env_file = Some(".env".to_string());
    ctx.env_vars.insert("K".to_string(), "v".to_string());
    ctx.services.insert("web".to_string(), "npm start".to_string());
    assert_eq!(
        ctx.print_shell_commands(),
        vec![
            "__PYLOT_COMMANDS__",
            "cd \"/w/a\"",
            "git checkout main 2>/dev/null",
            "set -a && source \".env\" && set +a",
            "export K=\"v\"",
            "# Starting service: web",
            "npm start &",
        ]
    );
}

#[test]
fn most_recent_first_ties_keep_order() {
    let cs = vec![
        bare_context("none", None),
        bare_context("five", Some(5)),
        bare_context("ten", Some(10)),
        bare_context("five_again", Some(5)),
    ];
    let names: Vec<String> =
        ProjectContext::sort_by_recency(cs).into_iter().map(|c| c.name).collect();
    assert_eq!(names, vec!["ten", "five", "five_again", "none"]);
}

#[test]
fn context_files_and_paths() {
    assert!(ProjectContext::is_context_file("a.json"));
    assert!(!ProjectContext::is_context_file(".json"));
    assert!(!ProjectContext::is_context_file("services.txt"));
    assert_eq!(ProjectContext::config_dir("/home/me"), "/home/me/.pylot");
    assert_eq!(ProjectContext::context_file("/home/me", "web"), "/home/me/.pylot/web.json");
    assert_eq!(join_path_text("/a", "/abs"), "/abs");
    assert_eq!(join_path_text("", "rel"), "rel");
}

#[test]
fn context_error_messages() {
    assert_eq!(
        ContextError::NotFound("web".to_string()).message(),
        "Context 'web' not found. Run 'pylot list' to see available contexts."
    );
    assert_eq!(ContextError::NothingToRemove("web".to_string()).message(), "Context 'web' not found.");
}

#[test]
fn generated_template_reads_back() {
    let mut f = no_files();
    f.package_json = true;
    f.dot_env_local = true;
    let template = ProjectContext::generate_config_template(&f);
    let mut ctx = bare_context("t", None);
    ctx.services.insert("kept".to_string(), "run".to_string());
    ctx.ports_required = vec![9];
    ctx.apply_project_config(&template).unwrap();
    assert_eq!(ctx.env_file, Some(".env.local".to_string()));
    assert_eq!(pairs(&ctx.services), vec![("kept".to_string(), "run".to_string())]);
    assert!(ctx.ports_required.is_empty());
}
