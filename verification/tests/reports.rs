use pylot::context::{CommandOutput, DirectoryScan, ProjectContext, ProjectFiles, Timestamp};
use pylot::report::{
    cmd_init, cmd_list, cmd_remove, cmd_save, cmd_status, cmd_stop, remove_prompt, started_line,
    switched_lines, Line, Staged, SwitchAction, SwitchEvent, SwitchFlow, SwitchStage,
};
use pylot::services::{ServiceError, ServiceManager, ServiceState};
use pylot::style::{CROSS, DOT};
use pylot::textmap::TextMap;
use pylot::tui::Tone;

fn files_none() -> ProjectFiles {
    ProjectFiles {
        dot_env: false,
        dot_env_local: false,
        dot_env_development: false,
        package_json: false,
        cargo_toml: false,
        go_mod: false,
        requirements_txt: false,
        pyproject_toml: false,
        docker_compose_yml: false,
        docker_compose_yaml: false,
        compose_yml: false,
    }
}

fn plain_context(name: &str, last: Option<i64>) -> ProjectContext {
    ProjectContext {
        name: name.to_string(),
        path: format!("/p/{}", name),
        git_branch: None,
        env_vars: TextMap::new(),
        env_file: None,
        services: TextMap::new(),
        ports_required: Vec::new(),
        last_accessed: last.map(|s| Timestamp { secs: s, nanos: 0 }),
    }
}

fn s(t: &str) -> String {
    t.to_string()
}

#[test]
fn save_report_lines() {
    let scan = DirectoryScan {
        path: s("/w/a"),
        dir_name: Some(s("a")),
        branch_output: Some(CommandOutput { success: true, stdout: s("main\n") }),
        env_content: Some(s("K=v\nL=w\n")),
        files: files_none(),
    };
    let (ctx, lines) =
        cmd_save("a", scan, Some("[services]\nweb = \"npm start\"\n"), Timestamp { secs: 0, nanos: 0 })
            .unwrap();
    assert_eq!(ctx.name, "a");
    assert_eq!(
        lines,
        vec![
            Line::Blank,
            Line::Success(s("Context \x1b[1ma\x1b[0m saved")),
            Line::Blank,
            Line::Item(s("path"), s("/w/a")),
            Line::ItemColored(s("branch"), s("main"), Tone::Magenta),
            Line::Item(s("env vars"), s("2")),
            Line::Item(s("services"), s("web")),
            Line::Blank,
            Line::Hint(s("Switch with: pylot switch a")),
            Line::Blank,
        ]
    );
}

#[test]
fn save_report_without_branch_or_services() {
    let scan = DirectoryScan {
        path: s("/w/b"),
        dir_name: None,
        branch_output: None,
        env_content: None,
        files: files_none(),
    };
    let (_, lines) = cmd_save("b", scan, None, Timestamp { secs: 0, nanos: 0 }).unwrap();
    assert_eq!(lines[4], Line::ItemColored(s("branch"), s("n/a"), Tone::Magenta));
    assert_eq!(lines[5], Line::Item(s("env vars"), s("0")));
    assert_eq!(lines.len(), 9);
}

#[test]
fn list_report_rows() {
    let mut m = ServiceManager::new();
    let mut state = ServiceState::new();
    state.register("a", "api", u32::MAX);
    let cs = vec![plain_context("a", Some(86400 + 3600 + 60)), plain_context("b", None)];
    assert_eq!(
        cmd_list(&cs, &m, &state),
        vec![
            Line::Blank,
            Line::Heading(s("Your Contexts")),
            Line::Blank,
            Line::TableHeader,
            Line::TableRow(s("a"), s("/p/a"), s("\u{2013}"), s("0/1 up"), s("Jan 02 01:01")),
            Line::TableRow(s("b"), s("/p/b"), s("\u{2013}"), s("\u{2013}"), s("\u{2013}")),
            Line::Blank,
        ]
    );
}

#[test]
fn list_report_when_empty() {
    let mut m = ServiceManager::new();
    assert_eq!(
        cmd_list(&Vec::new(), &m, &ServiceState::new()),
        vec![Line::EmptyState(
            s("No saved contexts yet."),
            s("Run pylot save <name> in a project directory to get started.")
        )]
    );
}

#[test]
fn status_report_lines() {
    let mut m = ServiceManager::new();
    let mut state = ServiceState::new();
    state.register("app", "api", u32::MAX);
    let mut ctx = plain_context("app", None);
    ctx.git_branch = Some(s("dev"));
    let git = Some(CommandOutput { success: true, stdout: s(" M x\n") });
    let lines = cmd_status(&ctx, &git, &m, &state, &vec![(22, s("sshd"))]);
    assert_eq!(
        lines,
        vec![
            Line::Blank,
            Line::Heading(s("Status: app")),
            Line::Blank,
            Line::Item(s("path"), s("/p/app")),
            Line::ItemColored(s("branch"), s("dev"), Tone::Magenta),
            Line::Item(s("env vars"), s("0")),
            Line::ItemColored(s("git"), s("dirty (1 modified)"), Tone::Yellow),
            Line::Section(s("Services")),
            Line::Plain(format!(
                "  {} api  \x1b[31mstopped\x1b[0m \x1b[2mPID 4294967295\x1b[0m",
                CROSS
            )),
            Line::Section(s("Active Ports")),
            Line::Plain(format!("  {}  \x1b[97m:22\x1b[0m \x1b[2msshd\x1b[0m", DOT)),
            Line::Blank,
        ]
    );
}

#[test]
fn status_report_clean_and_quiet() {
    let mut m = ServiceManager::new();
    let ctx = plain_context("app", None);
    let lines = cmd_status(&ctx, &None, &m, &ServiceState::new(), &Vec::new());
    assert_eq!(lines[6], Line::ItemColored(s("git"), s("clean"), Tone::Green));
    assert_eq!(lines.len(), 8);
}

#[test]
fn init_keeps_existing_config() {
    assert_eq!(
        cmd_init(true, Some("proj")),
        Staged {
            before: vec![
                Line::Blank,
                Line::Warn(s(".pylot.toml already exists in this directory.")),
                Line::Blank
            ],
            go_on: false,
            after: vec![],
        }
    );
}

#[test]
fn init_writes_template() {
    let r = cmd_init(false, None);
    assert_eq!(r.before, vec![Line::Blank]);
    assert!(r.go_on);
    assert_eq!(
        r.after,
        vec![
            Line::Success(s("Created .pylot.toml")),
            Line::Blank,
            Line::Hint(s("Edit it to define your services and required ports, then:")),
            Line::Blank,
            Line::Plain(s("    \x1b[2m$ pylot save myproject\x1b[0m")),
            Line::Blank,
        ]
    );
}

#[test]
fn stop_without_services() {
    let mut m = ServiceManager::new();
    let mut state = ServiceState::new();
    let r = cmd_stop(&mut m, &mut state, None, Some("web"));
    assert_eq!(
        r,
        Staged {
            before: vec![Line::Blank, Line::Hint(s("No services running for 'web'.")), Line::Blank],
            go_on: false,
            after: vec![],
        }
    );
    let r = cmd_stop(&mut m, &mut state, None, None);
    assert_eq!(r.before[1], Line::Hint(s("No services running for 'unknown'.")));
}

#[test]
fn stop_forgets_dead_services() {
    let mut m = ServiceManager::new();
    let mut state = ServiceState::new();
    state.register("web", "api", u32::MAX);
    let r = cmd_stop(&mut m, &mut state, Some("web"), Some("other"));
    assert_eq!(r.before, vec![Line::Blank]);
    assert!(r.go_on);
    assert_eq!(r.after, vec![Line::Success(s("All services stopped for 'web'")), Line::Blank]);
    assert!(state.running.is_empty());
}

#[test]
fn remove_asks_then_reports() {
    let (lines, q) = remove_prompt("web");
    assert_eq!(lines, vec![Line::Blank]);
    assert_eq!(q, "Remove context 'web'?");
    let mut m = ServiceManager::new();
    let mut state = ServiceState::new();
    state.register("web", "api", u32::MAX);
    let no = cmd_remove(false, &mut m, &mut state, "web");
    assert_eq!(no.before, vec![Line::Hint(s("Cancelled.")), Line::Blank]);
    assert!(!no.go_on);
    assert_eq!(state.get_services("web").len(), 1);
    let yes = cmd_remove(true, &mut m, &mut state, "web");
    assert!(yes.before.is_empty());
    assert!(yes.go_on);
    assert_eq!(yes.after, vec![Line::Success(s("Context 'web' removed")), Line::Blank]);
    assert!(state.running.is_empty());
}

#[test]
fn started_service_line() {
    assert_eq!(
        started_line("web", 12, "npm start"),
        Line::Plain(s("  Started service 'web' (PID 12): npm start"))
    );
}

#[test]
fn switch_declined_on_dirty_tree() {
    let mut m = ServiceManager::new();
    let mut f = SwitchFlow::new(false);
    let dirty = Some(CommandOutput { success: true, stdout: s(" M x\n") });
    let a = f.step(SwitchEvent::GitStatus(dirty), &mut m);
    assert_eq!(
        a,
        SwitchAction::Ask(
            vec![Line::Blank, Line::Warn(s("Uncommitted changes: 1 modified"))],
            s("Switch anyway?")
        )
    );
    assert_eq!(f.stage, SwitchStage::DirtyAsked);
    let a = f.step(SwitchEvent::Answer(false), &mut m);
    assert_eq!(
        a,
        SwitchAction::Cancel(vec![
            Line::Blank,
            Line::Hint(s("Commit or stash your changes, or use --force")),
            Line::Blank
        ])
    );
    assert_eq!(f.stage, SwitchStage::Done);
}

#[test]
fn forced_switch_skips_dirty_check() {
    let mut m = ServiceManager::new();
    let mut f = SwitchFlow::new(true);
    let dirty = Some(CommandOutput { success: true, stdout: s(" M x\n") });
    assert_eq!(f.step(SwitchEvent::GitStatus(dirty), &mut m), SwitchAction::Load);
    assert_eq!(f.stage, SwitchStage::Loading);
}

#[test]
fn switch_kill_of_unknown_process_fails() {
    let mut m = ServiceManager::new();
    let mut f = SwitchFlow::new(false);
    assert_eq!(f.step(SwitchEvent::GitStatus(None), &mut m), SwitchAction::Load);
    let a = f.step(SwitchEvent::Loaded(vec![(3000, u32::MAX, s("unknown"))], true), &mut m);
    assert_eq!(
        a,
        SwitchAction::Ask(
            vec![
                Line::Blank,
                Line::Warn(s("Port conflicts detected:")),
                Line::Item(s(":3000"), s("unknown (PID 4294967295)")),
                Line::Blank,
            ],
            s("Kill conflicting processes?")
        )
    );
    assert_eq!(
        f.step(SwitchEvent::Answer(true), &mut m),
        SwitchAction::Fail(ServiceError::ProcessNotFound(u32::MAX))
    );
}

#[test]
fn switch_declined_kill_then_services() {
    let mut m = ServiceManager::new();
    let mut f = SwitchFlow::new(false);
    f.step(SwitchEvent::GitStatus(Some(CommandOutput { success: true, stdout: s("") })), &mut m);
    f.step(SwitchEvent::Loaded(vec![(80, 1, s("nginx"))], true), &mut m);
    assert_eq!(
        f.step(SwitchEvent::Answer(false), &mut m),
        SwitchAction::StartServices(vec![Line::Section(s("Services"))])
    );
    assert_eq!(f.step(SwitchEvent::Started, &mut m), SwitchAction::Finish(vec![]));
    assert_eq!(f.stage, SwitchStage::Done);
}

#[test]
fn switch_without_conflicts_or_services_finishes() {
    let mut m = ServiceManager::new();
    let mut f = SwitchFlow::new(false);
    f.step(SwitchEvent::GitStatus(None), &mut m);
    assert_eq!(f.step(SwitchEvent::Loaded(vec![], false), &mut m), SwitchAction::Finish(vec![]));
}

#[test]
fn switched_report_lines() {
    let mut ctx = plain_context("a", Some(0));
    ctx.git_branch = Some(s("main"));
    assert_eq!(
        switched_lines("a", &ctx),
        vec![
            Line::Blank,
            Line::Success(s("Switched to \x1b[1ma\x1b[0m")),
            Line::Blank,
            Line::Item(s("path"), s("/p/a")),
            Line::ItemColored(s("branch"), s("main"), Tone::Magenta),
            Line::Item(s("last used"), s("1970-01-01 00:00")),
            Line::Blank,
        ]
    );
    let bare = plain_context("b", None);
    assert_eq!(switched_lines("b", &bare).len(), 5);
}
