use pylot::cli::{cmd_shell_init, run, Cli, Commands, Task, FISH_HOOK};
use pylot::context::{CommandOutput, ProjectContext, Timestamp};
use pylot::report::Line;
use pylot::style::{answer_is_yes, render, truncate, DOT};
use pylot::textmap::TextMap;
use pylot::tui::{
    dirty_warning, switched_note, Action, App, Effect, Key, Span, Tone,
};

fn dash_context(name: &str, branch: Option<&str>) -> ProjectContext {
    ProjectContext {
        name: name.to_string(),
        path: format!("/d/{}", name),
        git_branch: branch.map(|b| b.to_string()),
        env_vars: TextMap::new(),
        env_file: None,
        services: TextMap::new(),
        ports_required: Vec::new(),
        last_accessed: None,
    }
}

fn three_apps() -> App {
    App::new(
        vec![dash_context("a", Some("main")), dash_context("b", None), dash_context("c", None)],
        vec![(3000, "node".to_string())],
        vec![
            (
                "a".to_string(),
                vec![("api".to_string(), 1, true), ("job".to_string(), 2, false)],
            ),
            ("b".to_string(), vec![("db".to_string(), 3, true)]),
        ],
    )
}

fn sp(t: &str, tone: Tone, bold: bool) -> Span {
    Span { text: t.to_string(), tone, bold }
}

#[test]
fn truncate_keeps_short_text() {
    assert_eq!(truncate("short", 32), "short");
    assert_eq!(truncate("", 32), "");
    let exact = "x".repeat(32);
    assert_eq!(truncate(&exact, 32), exact);
}

#[test]
fn truncate_cuts_long_text_with_ellipsis() {
    let long = "a".repeat(40);
    assert_eq!(truncate(&long, 32), format!("{}\u{2026}", "a".repeat(31)));
}

#[test]
fn yes_answers() {
    assert!(answer_is_yes("y\n"));
    assert!(answer_is_yes("  Y "));
    assert!(!answer_is_yes("yes"));
    assert!(!answer_is_yes(""));
    assert!(!answer_is_yes("n"));
}

#[test]
fn render_item_and_section() {
    assert_eq!(
        render(&Line::Item("path".to_string(), "/x".to_string())),
        vec![format!("  {}  \x1b[2mpath        \x1b[0m /x", DOT)]
    );
    assert_eq!(
        render(&Line::Section("Services".to_string())),
        vec![String::new(), "  \x1b[36m\x1b[1m  Services\x1b[0m".to_string()]
    );
    assert_eq!(render(&Line::Blank), vec![String::new()]);
    assert_eq!(
        render(&Line::ItemColored("git".to_string(), "clean".to_string(), Tone::Green)),
        vec![format!("  {}  \x1b[2mgit         \x1b[0m \x1b[32mclean\x1b[0m", DOT)]
    );
}

#[test]
fn render_table_row_pads_and_cuts() {
    let path = "p".repeat(40);
    let row = Line::TableRow(
        "web".to_string(),
        path,
        "main".to_string(),
        "1/1 up".to_string(),
        "Jan 02 01:01".to_string(),
    );
    let expected = format!(
        "  \x1b[36m\u{25b8}\x1b[0m \x1b[1m{:<14}\x1b[0m \x1b[2m{:<32}\x1b[0m \x1b[35m{:<10}\x1b[0m \x1b[32m{:<8}\x1b[0m \x1b[2m{}\x1b[0m",
        "web",
        format!("{}\u{2026}", "p".repeat(31)),
        "main",
        "1/1 up",
        "Jan 02 01:01"
    );
    assert_eq!(render(&row), vec![expected]);
}

#[test]
fn render_table_header_and_empty_state() {
    let h = render(&Line::TableHeader);
    assert_eq!(
        h[0],
        format!(
            "    \x1b[2m{:<14} {:<32} {:<10} {:<8} {}\x1b[0m",
            "NAME", "PATH", "BRANCH", "SERVICES", "LAST USED"
        )
    );
    assert_eq!(h[1], format!("  \x1b[2m  {}\x1b[0m", "\u{2500}".repeat(82)));
    let e = render(&Line::EmptyState("m".to_string(), "h".to_string()));
    assert_eq!(
        e,
        vec![
            String::new(),
            "  \x1b[2m  m\x1b[0m".to_string(),
            String::new(),
            "  \x1b[90m  h\x1b[0m".to_string(),
            String::new()
        ]
    );
}

#[test]
fn navigation_wraps_both_ways() {
    let mut app = three_apps();
    assert_eq!(app.selected, Some(0));
    app.previous();
    assert_eq!(app.selected, Some(2));
    app.next();
    assert_eq!(app.selected, Some(0));
    app.next();
    app.next();
    assert_eq!(app.selected, Some(2));
    let mut empty = App::new(vec![], vec![], vec![]);
    assert_eq!(empty.selected, None);
    empty.next();
    empty.previous();
    assert_eq!(empty.selected, None);
}

#[test]
fn keys_select_and_quit() {
    let mut app = three_apps();
    assert_eq!(app.handle_key(Key::Char('j')), Effect::Nothing);
    assert_eq!(app.selected, Some(1));
    assert_eq!(app.handle_key(Key::Up), Effect::Nothing);
    assert_eq!(app.selected, Some(0));
    app.handle_key(Key::Enter);
    assert!(app.should_quit);
    assert_eq!(app.action, Action::Switch("a".to_string()));
    let mut other = three_apps();
    other.handle_key(Key::Esc);
    assert!(other.should_quit);
    assert_eq!(other.action, Action::Stay);
}

#[test]
fn delete_asks_then_removes() {
    let mut app = three_apps();
    app.handle_key(Key::Down);
    app.handle_key(Key::Char('d'));
    assert_eq!(app.confirm_delete, Some(1));
    assert_eq!(
        app.status_message,
        Some("Delete 'b'? Press y to confirm, any other key to cancel".to_string())
    );
    assert_eq!(app.footer(), (
        "Delete 'b'? Press y to confirm, any other key to cancel".to_string(),
        Tone::Yellow
    ));
    assert_eq!(app.handle_key(Key::Char('y')), Effect::RemoveContext("b".to_string()));
    app.complete_removal(None);
    assert_eq!(app.status_message, Some("Removed 'b'".to_string()));
    let names: Vec<&str> = app.contexts.iter().map(|c| c.name.as_str()).collect();
    assert_eq!(names, vec!["a", "c"]);
    assert_eq!(app.selected, Some(1));
    assert_eq!(app.confirm_delete, None);
}

#[test]
fn removing_last_moves_selection_back() {
    let mut app = three_apps();
    app.handle_key(Key::Up);
    app.handle_key(Key::Delete);
    app.complete_removal(None);
    assert_eq!(app.selected, Some(1));
    let mut single = App::new(vec![dash_context("x", None)], vec![], vec![]);
    single.handle_key(Key::Char('d'));
    single.complete_removal(Some("disk full".to_string()));
    assert_eq!(single.status_message, Some("Error: disk full".to_string()));
    assert_eq!(single.contexts.len(), 1);
    single.handle_key(Key::Char('d'));
    single.complete_removal(None);
    assert_eq!(single.selected, None);
}

#[test]
fn other_key_cancels_delete() {
    let mut app = three_apps();
    app.handle_key(Key::Char('d'));
    assert_eq!(app.handle_key(Key::Char('n')), Effect::Nothing);
    assert_eq!(app.confirm_delete, None);
    assert_eq!(app.status_message, None);
    assert_eq!(
        app.footer(),
        (" \u{2191}/\u{2193} navigate  |  Enter switch  |  d delete  |  q quit".to_string(), Tone::DarkGray)
    );
}

#[test]
fn list_labels_show_branch_and_health() {
    let app = three_apps();
    assert_eq!(
        app.list_labels(),
        vec!["  a (main) [1/2]".to_string(), "  b (-) [ok]".to_string(), "  c (-)".to_string()]
    );
    assert_eq!(app.get_health("zzz").len(), 0);
}

#[test]
fn details_of_selected_context() {
    let mut app = three_apps();
    app.contexts[0].ports_required = vec![3000, 4000];
    app.contexts[0].last_accessed = Some(Timestamp { secs: 60, nanos: 0 });
    let d = app.details();
    assert_eq!(d[0], vec![sp("Name:     ", Tone::Yellow, false), sp("a", Tone::Plain, false)]);
    assert_eq!(d[2], vec![sp("Branch:   ", Tone::Yellow, false), sp("main", Tone::Plain, false)]);
    assert_eq!(d[3], vec![sp("Env file: ", Tone::Yellow, false), sp("none", Tone::Plain, false)]);
    assert_eq!(d[6], vec![sp("Services:", Tone::Green, true)]);
    assert_eq!(
        d[7],
        vec![
            sp("  api ", Tone::Plain, false),
            sp("(PID 1) ", Tone::DarkGray, false),
            sp("running", Tone::Green, false)
        ]
    );
    assert_eq!(d[10], vec![sp("Required ports:", Tone::Magenta, true)]);
    assert_eq!(d[11], vec![sp("  :3000 ", Tone::Plain, false), sp("IN USE", Tone::Red, false)]);
    assert_eq!(d[12], vec![sp("  :4000 ", Tone::Plain, false), sp("free", Tone::Green, false)]);
    assert_eq!(
        d[14],
        vec![sp("Last used: ", Tone::Yellow, false), sp("1970-01-01 00:01", Tone::Plain, false)]
    );
    assert_eq!(d.len(), 15);
    let empty = App::new(vec![], vec![], vec![]);
    assert_eq!(empty.details(), vec![vec![sp("No context selected", Tone::Plain, false)]]);
}

#[test]
fn notes_after_dashboard() {
    let dirty = Some(CommandOutput { success: true, stdout: "?? x\n".to_string() });
    assert_eq!(
        dirty_warning(&dirty),
        Some("Warning: Current directory has uncommitted changes (1 untracked/added).".to_string())
    );
    assert_eq!(dirty_warning(&None), None);
    assert_eq!(switched_note("web"), "Switched to 'web'");
}

#[test]
fn command_line_decides_task() {
    assert_eq!(run(Cli { command: None }), Task::Dashboard);
    assert_eq!(
        run(Cli { command: Some(Commands::Switch { name: "w".to_string(), force: true }) }),
        Task::Switch("w".to_string(), true)
    );
    assert_eq!(
        run(Cli { command: Some(Commands::Stop { name: None }) }),
        Task::Stop(None)
    );
    assert_eq!(
        run(Cli { command: Some(Commands::ShellInit { shell: "fish".to_string() }) }),
        Task::ShellInit("fish".to_string())
    );
}

#[test]
fn shell_hooks_for_each_shell() {
    assert_eq!(cmd_shell_init("fish"), Ok(FISH_HOOK.to_string()));
    let zsh = cmd_shell_init("zsh").unwrap();
    assert!(zsh.starts_with("# Add this to your ~/.zshrc\npylot() {\n"));
    assert!(zsh.ends_with("        command pylot \"$@\"\n    fi\n}"));
    assert!(cmd_shell_init("bash").unwrap().starts_with("# Add this to your ~/.bashrc\n"));
    assert_eq!(
        cmd_shell_init("tcsh"),
        Err("Unsupported shell: tcsh. Supported: bash, zsh, fish".to_string())
    );
}

#[test]
fn truncate_twice_is_truncate_once() {
    let accented = format!("x{}", "é".repeat(20));
    for s in ["short", accented.as_str(), "x".repeat(33).as_str(), &"ab".repeat(40)] {
        let once = truncate(s, 32);
        assert_eq!(truncate(&once, 32), once);
    }
}

#[test]
fn confirm_key_without_pending_delete_does_nothing() {
    let mut app = three_apps();
    assert_eq!(app.handle_key(Key::Char('y')), Effect::Nothing);
    assert_eq!(app.confirm_delete, None);
    assert!(!app.should_quit);
    assert_eq!(app.action, Action::Stay);
    let mut empty = App::new(vec![], vec![], vec![]);
    empty.handle_key(Key::Enter);
    assert!(!empty.should_quit);
    empty.handle_key(Key::Char('d'));
    assert_eq!(empty.confirm_delete, None);
}

#[test]
fn health_table_for_dashboard() {
    let m = pylot::services::ServiceManager::new();
    let mut state = pylot::services::ServiceState::new();
    state.register("b", "db", u32::MAX);
    let contexts = vec![dash_context("a", None), dash_context("b", None)];
    let table = pylot::tui::dashboard_health(&contexts, &m, &state);
    assert_eq!(
        table,
        vec![
            ("a".to_string(), vec![]),
            ("b".to_string(), vec![("db".to_string(), u32::MAX, false)])
        ]
    );
}

#[test]
fn released_keys_change_nothing() {
    let mut app = three_apps();
    assert_eq!(app.handle_event(Key::Char('q'), false), Effect::Nothing);
    assert!(!app.should_quit);
    assert_eq!(app.handle_event(Key::Char('j'), true), Effect::Nothing);
    assert_eq!(app.selected, Some(1));
}

#[test]
fn after_dashboard_switch_plan() {
    let mut ctx = dash_context("web", None);
    ctx.services.insert("api".to_string(), "run api".to_string());
    let dirty = Some(CommandOutput { success: true, stdout: " M a\n".to_string() });
    let next = pylot::tui::after_switch("web", &ctx, &dirty);
    assert_eq!(
        next.warning,
        Some("Warning: Current directory has uncommitted changes (1 modified).".to_string())
    );
    assert_eq!(next.starting, Some("Starting services...".to_string()));
    assert_eq!(next.note, "Switched to 'web'");
    assert_eq!(next.commands[0], "__PYLOT_COMMANDS__");
    assert_eq!(next.commands[1], "cd \"/d/web\"");
    let quiet = pylot::tui::after_switch("c", &dash_context("c", None), &None);
    assert_eq!(quiet.warning, None);
    assert_eq!(quiet.starting, None);
}
