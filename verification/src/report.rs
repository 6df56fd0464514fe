use vstd::prelude::*;

use crate::config::{config_applied, toml_document, ConfigError};
use crate::context::{
    captured, dirty_summary_of, format_utc, is_dirty, utc_text, CommandOutput, DirectoryScan,
    ProjectContext, Timestamp,
};
use crate::services::{
    alive_entries, health_of, pids_of, service_entries, stopped_state, ServiceError,
    ServiceManager, ServiceState,
};
use crate::style::{BOLD, CHECK, CROSS, DIM, DOT, GREEN, RED, RESET, WHITE};
use crate::text::{decimal, join, join_strings, push_decimal, string_views};
use crate::textmap::keys_of;
use crate::tui::{alive_count, count_alive, Tone};

verus! {

/// A line of terminal output, in the shapes the style helpers print.
#[derive(Debug, PartialEq, Eq)]
pub enum Line {
    /// An empty line.
    Blank,
    /// A bold heading.
    Heading(String),
    /// A section title, after an empty line.
    Section(String),
    /// A label and its value.
    Item(String, String),
    /// A label and its value, the value in a colour.
    ItemColored(String, String, Tone),
    /// A message after a check mark.
    Success(String),
    /// A warning after an exclamation mark.
    Warn(String),
    /// An error after a cross.
    Error(String),
    /// A gray hint.
    Hint(String),
    /// A line printed as it is.
    Plain(String),
    /// The column titles of the context table.
    TableHeader,
    /// A row of the context table: name, path, branch, services, last use.
    TableRow(String, String, String, String, String),
    /// A message and a hint shown where a list is empty.
    EmptyState(String, String),
}

/// What a line says, as text.
pub enum Said {
    Blank,
    Heading(Seq<char>),
    Section(Seq<char>),
    Item(Seq<char>, Seq<char>),
    ItemColored(Seq<char>, Seq<char>, Tone),
    Success(Seq<char>),
    Warn(Seq<char>),
    Error(Seq<char>),
    Hint(Seq<char>),
    Plain(Seq<char>),
    TableHeader,
    TableRow(Seq<char>, Seq<char>, Seq<char>, Seq<char>, Seq<char>),
    EmptyState(Seq<char>, Seq<char>),
}

impl View for Line {
    type V = Said;

    open spec fn view(&self) -> Said {
        match self {
            Line::Blank => Said::Blank,
            Line::Heading(t) => Said::Heading(t@),
            Line::Section(t) => Said::Section(t@),
            Line::Item(l, v) => Said::Item(l@, v@),
            Line::ItemColored(l, v, c) => Said::ItemColored(l@, v@, *c),
            Line::Success(t) => Said::Success(t@),
            Line::Warn(t) => Said::Warn(t@),
            Line::Error(t) => Said::Error(t@),
            Line::Hint(t) => Said::Hint(t@),
            Line::Plain(t) => Said::Plain(t@),
            Line::TableHeader => Said::TableHeader,
            Line::TableRow(a, b, c, d, e) => Said::TableRow(a@, b@, c@, d@, e@),
            Line::EmptyState(m, h) => Said::EmptyState(m@, h@),
        }
    }
}

/// What each of the lines says.
pub open spec fn said(ls: Seq<Line>) -> Seq<Said> {
    ls.map_values(|l: Line| l@)
}

/// Adds a line at the end.
fn say(out: &mut Vec<Line>, l: Line)
    ensures
        said(final(out)@) == said(old(out)@).push(l@),
{
    let ghost before = out@;
    out.push(l);
    assert(said(out@) =~= said(before).push(l@));
}

/// The text of an optional value, or `default` where there is none.
pub open spec fn or_text(o: Option<String>, default: Seq<char>) -> Seq<char> {
    match o {
        Some(s) => s@,
        None => default,
    }
}

/// The text of an optional value, or `default` where there is none.
fn text_or(o: &Option<String>, default: &str) -> (r: String)
    ensures
        r@ == or_text(*o, default@),
{
    match o {
        Some(s) => s.clone(),
        None => default.to_owned(),
    }
}

/// What `save` reports once a context is saved under `name`.
pub open spec fn save_said(ctx: ProjectContext, name: Seq<char>) -> Seq<Said> {
    seq![
        Said::Blank,
        Said::Success("Context "@ + BOLD@ + name + RESET@ + " saved"@),
        Said::Blank,
        Said::Item("path"@, ctx.path@),
        Said::ItemColored("branch"@, or_text(ctx.git_branch, "n/a"@), Tone::Magenta),
        Said::Item("env vars"@, decimal(ctx.env_vars.entry_seq().len())),
    ] + (if ctx.services.entry_seq().len() == 0 {
        Seq::empty()
    } else {
        seq![Said::Item("services"@, join(keys_of(ctx.services.entry_seq()), ", "@))]
    }) + seq![Said::Blank, Said::Hint("Switch with: pylot switch "@ + name), Said::Blank]
}

/// What `save` reports for the context saved under `name`.
pub fn saved_lines(ctx: &ProjectContext, name: &str) -> (r: Vec<Line>)
    ensures
        said(r@) == save_said(*ctx, name@),
{
    let mut r: Vec<Line> = Vec::new();
    say(&mut r, Line::Blank);
    let mut m = "Context ".to_owned();
    m.append(BOLD);
    m.append(name);
    m.append(RESET);
    m.append(" saved");
    say(&mut r, Line::Success(m));
    say(&mut r, Line::Blank);
    say(&mut r, Line::Item("path".to_owned(), ctx.path.clone()));
    say(
        &mut r,
        Line::ItemColored("branch".to_owned(), text_or(&ctx.git_branch, "n/a"), Tone::Magenta),
    );
    let n = ctx.env_vars.entries().len();
    let mut count = String::new();
    push_decimal(&mut count, n as u64);
    say(&mut r, Line::Item("env vars".to_owned(), count));
    if !ctx.services.entries().is_empty() {
        say(&mut r, Line::Item("services".to_owned(), services_label(ctx)));
    }
    say(&mut r, Line::Blank);
    let mut h = "Switch with: pylot switch ".to_owned();
    h.append(name);
    say(&mut r, Line::Hint(h));
    say(&mut r, Line::Blank);
    assert(said(r@) =~= save_said(*ctx, name@));
    r
}

/// Save the current project under `name`: the context captured from the
/// scanned directory, with the project's `.pylot.toml` text applied where it
/// has one, and what is reported once it is saved.
pub fn cmd_save(
    name: &str,
    scan: DirectoryScan,
    project_config: Option<&str>,
    now: Timestamp,
) -> (r: Result<(ProjectContext, Vec<Line>), ConfigError>)
    ensures
        match project_config {
            None => r matches Ok((ctx, ls)) && captured(ctx, name@, scan, now) && said(ls@)
                == save_said(ctx, name@),
            Some(text) => match toml_document(text@) {
                Some(doc) => r matches Ok((ctx, ls)) && (exists|c: ProjectContext|
                    captured(c, name@, scan, now) && config_applied(c, ctx, doc)) && said(ls@)
                    == save_said(ctx, name@),
                None => r is Err,
            },
        },
{
    match ProjectContext::capture_current(name, scan, project_config, now) {
        Ok(ctx) => {
            let lines = saved_lines(&ctx, name);
            Ok((ctx, lines))
        },
        Err(e) => Err(e),
    }
}

/// The services column of the context list: a dash without services, else
/// how many of them run.
pub open spec fn service_summary(h: Seq<(String, u32, bool)>) -> Seq<char> {
    if h.len() == 0 {
        "\u{2013}"@
    } else {
        decimal(alive_count(h)) + "/"@ + decimal(h.len()) + " up"@
    }
}

/// The services column of the context list.
pub fn service_summary_text(h: &[(String, u32, bool)]) -> (r: String)
    ensures
        r@ == service_summary(h@),
{
    if h.len() == 0 {
        return "\u{2013}".to_owned();
    }
    let alive = count_alive(h);
    let mut r = String::new();
    push_decimal(&mut r, alive as u64);
    r.append("/");
    push_decimal(&mut r, h.len() as u64);
    r.append(" up");
    r
}

/// The names of a context's services, joined with commas, in stored order.
pub fn services_label(ctx: &ProjectContext) -> (r: String)
    ensures
        r@ == join(keys_of(ctx.services.entry_seq()), ", "@),
{
    let es = ctx.services.entries();
    let mut names: Vec<String> = Vec::new();
    assert(es@.take(0) =~= Seq::<(String, String)>::empty());
    for i in 0..es.len()
        invariant
            string_views(names@) == keys_of(es@.take(i as int)),
    {
        let ghost before = names@;
        names.push(es[i].0.clone());
        assert(names@ == before.push(es@[i as int].0));
        assert(es@.take(i + 1) =~= es@.take(i as int).push(es@[i as int]));
        assert(string_views(names@) =~= string_views(before).push(es@[i as int].0@));
        assert(keys_of(es@.take(i + 1)) =~= keys_of(es@.take(i as int)).push(es@[i as int].0@));
    }
    assert(es@.take(es@.len() as int) =~= es@);
    join_strings(&names, ", ")
}

/// The git line of the status report: dirty with the summary of the
/// changes, in yellow, or clean, in green.
pub open spec fn git_status_item(status: Option<CommandOutput>) -> (Seq<char>, Tone) {
    if is_dirty(status) {
        ("dirty ("@ + dirty_summary_of(status)->0 + ")"@, Tone::Yellow)
    } else {
        ("clean"@, Tone::Green)
    }
}

/// The git line of the status report, from what `git status --porcelain` gave.
pub fn git_status_line(status: &Option<CommandOutput>) -> (r: (String, Tone))
    ensures
        (r.0@, r.1) == git_status_item(*status),
{
    match ProjectContext::dirty_summary(status) {
        Some(summary) => {
            let mut t = "dirty (".to_owned();
            t.append(summary.as_str());
            t.append(")");
            (t, Tone::Yellow)
        },
        None => ("clean".to_owned(), Tone::Green),
    }
}

/// The moment of last use as the context table shows it, or a dash.
pub open spec fn last_used_short(t: Option<Timestamp>) -> Seq<char> {
    match t {
        Some(t) => match utc_text(t.secs, t.nanos, "%b %d %H:%M"@) {
            Some(s) => s,
            None => "\u{2013}"@,
        },
        None => "\u{2013}"@,
    }
}

/// The moment of last use as the context table shows it, or a dash.
fn last_used_short_text(t: Option<Timestamp>) -> (r: String)
    ensures
        r@ == last_used_short(t),
{
    match t {
        Some(t) => match format_utc(t, "%b %d %H:%M") {
            Some(s) => s,
            None => "\u{2013}".to_owned(),
        },
        None => "\u{2013}".to_owned(),
    }
}

/// A context's row in the context table, given the health of its services.
pub open spec fn list_row(ctx: ProjectContext, h: Seq<(String, u32, bool)>) -> Said {
    Said::TableRow(
        ctx.name@,
        ctx.path@,
        or_text(ctx.git_branch, "\u{2013}"@),
        service_summary(h),
        last_used_short(ctx.last_accessed),
    )
}

/// What `list` reports of the saved contexts `cs`, in their order, with the
/// services recorded in `state` and the running processes `pids`.
pub open spec fn list_said(cs: Seq<ProjectContext>, state: ServiceState, pids: Set<u32>) -> Seq<
    Said,
> {
    if cs.len() == 0 {
        seq![
            Said::EmptyState(
                "No saved contexts yet."@,
                "Run pylot save <name> in a project directory to get started."@,
            ),
        ]
    } else {
        seq![Said::Blank, Said::Heading("Your Contexts"@), Said::Blank, Said::TableHeader]
            + Seq::new(
            cs.len(),
            |i: int| list_row(cs[i], health_of(service_entries(state, cs[i].name@), pids)),
        ) + seq![Said::Blank]
    }
}

/// List the saved contexts, most recently used first as given, with the
/// health of each one's services.
pub fn cmd_list(contexts: &Vec<ProjectContext>, manager: &ServiceManager, state: &ServiceState) -> (r:
    Vec<Line>)
    ensures
        said(r@) == list_said(contexts@, *state, manager.pids()),
{
    let mut r: Vec<Line> = Vec::new();
    if contexts.len() == 0 {
        say(
            &mut r,
            Line::EmptyState(
                "No saved contexts yet.".to_owned(),
                "Run pylot save <name> in a project directory to get started.".to_owned(),
            ),
        );
        assert(said(r@) =~= list_said(contexts@, *state, manager.pids()));
        return r;
    }
    say(&mut r, Line::Blank);
    say(&mut r, Line::Heading("Your Contexts".to_owned()));
    say(&mut r, Line::Blank);
    say(&mut r, Line::TableHeader);
    let ghost head = said(r@);
    let ghost rows = Seq::new(
        contexts@.len(),
        |i: int|
            list_row(
                contexts@[i],
                health_of(service_entries(*state, contexts@[i].name@), manager.pids()),
            ),
    );
    for i in 0..contexts.len()
        invariant
            said(r@) == head + rows.take(i as int),
            rows.len() == contexts@.len(),
            forall|k: int|
                0 <= k < rows.len() ==> #[trigger] rows[k] == list_row(
                    contexts@[k],
                    health_of(service_entries(*state, contexts@[k].name@), manager.pids()),
                ),
    {
        let ctx = &contexts[i];
        let health = manager.service_health(state, ctx.name.as_str());
        let summary = service_summary_text(health.as_slice());
        let row = Line::TableRow(
            ctx.name.clone(),
            ctx.path.clone(),
            text_or(&ctx.git_branch, "\u{2013}"),
            summary,
            last_used_short_text(ctx.last_accessed),
        );
        say(&mut r, row);
        assert(rows[i as int] == row@);
        assert(said(r@) =~= head + rows.take(i + 1));
    }
    assert(rows.take(contexts.len() as int) =~= rows);
    say(&mut r, Line::Blank);
    assert(said(r@) =~= list_said(contexts@, *state, manager.pids()));
    r
}

/// A service's line in the status report: whether it runs, and its process id.
pub open spec fn service_row(e: (String, u32, bool)) -> Said {
    if e.2 {
        Said::Plain(
            "  "@ + CHECK@ + " "@ + e.0@ + "  "@ + GREEN@ + "running"@ + RESET@ + " "@ + DIM@
                + "PID "@ + decimal(e.1 as nat) + RESET@,
        )
    } else {
        Said::Plain(
            "  "@ + CROSS@ + " "@ + e.0@ + "  "@ + RED@ + "stopped"@ + RESET@ + " "@ + DIM@
                + "PID "@ + decimal(e.1 as nat) + RESET@,
        )
    }
}

/// A listening port's line in the status report, with its process's name.
pub open spec fn port_row(p: (u16, String)) -> Said {
    Said::Plain(
        "  "@ + DOT@ + "  "@ + WHITE@ + ":"@ + decimal(p.0 as nat) + RESET@ + " "@ + DIM@ + p.1@
            + RESET@,
    )
}

/// What `status` reports of the context `ctx` detected in the current
/// directory: what git said of its changes, the health `h` of its services,
/// and the ports that listen on the machine.
pub open spec fn status_said(
    ctx: ProjectContext,
    git: Option<CommandOutput>,
    h: Seq<(String, u32, bool)>,
    ports: Seq<(u16, String)>,
) -> Seq<Said> {
    seq![
        Said::Blank,
        Said::Heading("Status: "@ + ctx.name@),
        Said::Blank,
        Said::Item("path"@, ctx.path@),
        Said::ItemColored("branch"@, or_text(ctx.git_branch, "n/a"@), Tone::Magenta),
        Said::Item("env vars"@, decimal(ctx.env_vars.entry_seq().len())),
        Said::ItemColored("git"@, git_status_item(git).0, git_status_item(git).1),
    ] + (if h.len() == 0 {
        Seq::empty()
    } else {
        seq![Said::Section("Services"@)] + h.map_values(|e: (String, u32, bool)| service_row(e))
    }) + (if ports.len() == 0 {
        Seq::empty()
    } else {
        seq![Said::Section("Active Ports"@)] + ports.map_values(|p: (u16, String)| port_row(p))
    }) + seq![Said::Blank]
}

/// A service's line in the status report.
fn service_row_line(e: &(String, u32, bool)) -> (l: Line)
    ensures
        l@ == service_row(*e),
{
    let mut t = "  ".to_owned();
    if e.2 {
        t.append(CHECK);
    } else {
        t.append(CROSS);
    }
    t.append(" ");
    t.append(e.0.as_str());
    t.append("  ");
    if e.2 {
        t.append(GREEN);
        t.append("running");
    } else {
        t.append(RED);
        t.append("stopped");
    }
    t.append(RESET);
    t.append(" ");
    t.append(DIM);
    t.append("PID ");
    push_decimal(&mut t, e.1 as u64);
    t.append(RESET);
    Line::Plain(t)
}

/// A listening port's line in the status report.
fn port_row_line(p: &(u16, String)) -> (l: Line)
    ensures
        l@ == port_row(*p),
{
    let mut t = "  ".to_owned();
    t.append(DOT);
    t.append("  ");
    t.append(WHITE);
    t.append(":");
    push_decimal(&mut t, p.0 as u64);
    t.append(RESET);
    t.append(" ");
    t.append(DIM);
    t.append(p.1.as_str());
    t.append(RESET);
    Line::Plain(t)
}

/// Show the status of the context detected in the current directory: its
/// place, branch and git state from what `git status --porcelain` gave, the
/// health of its services, and the listening ports `active_ports`.
pub fn cmd_status(
    ctx: &ProjectContext,
    git_status: &Option<CommandOutput>,
    manager: &ServiceManager,
    state: &ServiceState,
    active_ports: &Vec<(u16, String)>,
) -> (r: Vec<Line>)
    ensures
        said(r@) == status_said(
            *ctx,
            *git_status,
            health_of(service_entries(*state, ctx.name@), manager.pids()),
            active_ports@,
        ),
{
    let mut r: Vec<Line> = Vec::new();
    say(&mut r, Line::Blank);
    let mut t = "Status: ".to_owned();
    t.append(ctx.name.as_str());
    say(&mut r, Line::Heading(t));
    say(&mut r, Line::Blank);
    say(&mut r, Line::Item("path".to_owned(), ctx.path.clone()));
    say(
        &mut r,
        Line::ItemColored("branch".to_owned(), text_or(&ctx.git_branch, "n/a"), Tone::Magenta),
    );
    let n = ctx.env_vars.entries().len();
    let mut count = String::new();
    push_decimal(&mut count, n as u64);
    say(&mut r, Line::Item("env vars".to_owned(), count));
    let (g, tone) = git_status_line(git_status);
    say(&mut r, Line::ItemColored("git".to_owned(), g, tone));
    let ghost head = said(r@);
    let health = manager.service_health(state, ctx.name.as_str());
    let ghost hs = health@.map_values(|e: (String, u32, bool)| service_row(e));
    if health.len() > 0 {
        say(&mut r, Line::Section("Services".to_owned()));
        let ghost start = said(r@);
        for i in 0..health.len()
            invariant
                said(r@) == start + hs.take(i as int),
                hs == health@.map_values(|e: (String, u32, bool)| service_row(e)),
        {
            let l = service_row_line(&health[i]);
            say(&mut r, l);
            assert(said(r@) =~= start + hs.take(i + 1));
        }
        assert(hs.take(health.len() as int) =~= hs);
    }
    let ghost mid = said(r@);
    assert(mid =~= head + (if health@.len() == 0 {
        Seq::empty()
    } else {
        seq![Said::Section("Services"@)] + hs
    }));
    let ghost ps = active_ports@.map_values(|p: (u16, String)| port_row(p));
    if active_ports.len() > 0 {
        say(&mut r, Line::Section("Active Ports".to_owned()));
        let ghost start = said(r@);
        for i in 0..active_ports.len()
            invariant
                said(r@) == start + ps.take(i as int),
                ps == active_ports@.map_values(|p: (u16, String)| port_row(p)),
        {
            let l = port_row_line(&active_ports[i]);
            say(&mut r, l);
            assert(said(r@) =~= start + ps.take(i + 1));
        }
        assert(ps.take(active_ports.len() as int) =~= ps);
    }
    let ghost tail = said(r@);
    assert(tail =~= mid + (if active_ports@.len() == 0 {
        Seq::empty()
    } else {
        seq![Said::Section("Active Ports"@)] + ps
    }));
    say(&mut r, Line::Blank);
    assert(said(r@) =~= status_said(
        *ctx,
        *git_status,
        health@,
        active_ports@,
    ));
    r
}

/// What a command says before the outside work it asks for, whether that
/// work goes ahead, and what it says once the work is done.
#[derive(Debug, PartialEq, Eq)]
pub struct Staged {
    pub before: Vec<Line>,
    pub go_on: bool,
    pub after: Vec<Line>,
}

/// What `init` says before writing the template, whether it writes it, and
/// what it says after: a project that already has `.pylot.toml` keeps it.
pub open spec fn init_said(exists: bool, dir_name: Option<Seq<char>>) -> (Seq<Said>, bool, Seq<Said>) {
    if exists {
        (
            seq![
                Said::Blank,
                Said::Warn(".pylot.toml already exists in this directory."@),
                Said::Blank,
            ],
            false,
            Seq::empty(),
        )
    } else {
        let dir = match dir_name {
            Some(d) => d,
            None => "myproject"@,
        };
        (
            seq![Said::Blank],
            true,
            seq![
                Said::Success("Created .pylot.toml"@),
                Said::Blank,
                Said::Hint("Edit it to define your services and required ports, then:"@),
                Said::Blank,
                Said::Plain("    "@ + DIM@ + "$ pylot save "@ + dir + RESET@),
                Said::Blank,
            ],
        )
    }
}

/// The parts of a staged report, as text.
pub open spec fn staged_said(s: Staged) -> (Seq<Said>, bool, Seq<Said>) {
    (said(s.before@), s.go_on, said(s.after@))
}

/// Initialize a `.pylot.toml` in the current directory, named `dir_name`,
/// unless `config_exists`: the template is written where `go_on` holds.
pub fn cmd_init(config_exists: bool, dir_name: Option<&str>) -> (r: Staged)
    ensures
        staged_said(r) == init_said(
            config_exists,
            match dir_name {
                Some(d) => Some(d@),
                None => None,
            },
        ),
{
    let mut before: Vec<Line> = Vec::new();
    let mut after: Vec<Line> = Vec::new();
    say(&mut before, Line::Blank);
    if config_exists {
        say(&mut before, Line::Warn(".pylot.toml already exists in this directory.".to_owned()));
        say(&mut before, Line::Blank);
        assert(said(after@) =~= Seq::<Said>::empty());
        return Staged { before, go_on: false, after };
    }
    say(&mut after, Line::Success("Created .pylot.toml".to_owned()));
    say(&mut after, Line::Blank);
    say(
        &mut after,
        Line::Hint("Edit it to define your services and required ports, then:".to_owned()),
    );
    say(&mut after, Line::Blank);
    let mut t = "    ".to_owned();
    t.append(DIM);
    t.append("$ pylot save ");
    match dir_name {
        Some(d) => t.append(d),
        None => t.append("myproject"),
    }
    t.append(RESET);
    say(&mut after, Line::Plain(t));
    say(&mut after, Line::Blank);
    Staged { before, go_on: true, after }
}

/// The line printed for a service that was stopped.
pub open spec fn stopped_row(e: (String, u32)) -> Said {
    Said::Plain("  Stopped service '"@ + e.0@ + "' (PID "@ + decimal(e.1 as nat) + ")"@)
}

/// The line printed for a service that was started with `cmd`.
pub open spec fn started_row(name: Seq<char>, pid: u32, cmd: Seq<char>) -> Said {
    Said::Plain("  Started service '"@ + name + "' (PID "@ + decimal(pid as nat) + "): "@ + cmd)
}

/// The line printed for a service that was started with `cmd`.
pub fn started_line(name: &str, pid: u32, cmd: &str) -> (l: Line)
    ensures
        l@ == started_row(name@, pid, cmd@),
{
    let mut t = "  Started service '".to_owned();
    t.append(name);
    t.append("' (PID ");
    push_decimal(&mut t, pid as u64);
    t.append("): ");
    t.append(cmd);
    Line::Plain(t)
}

/// The lines for the stopped services, in order.
fn stopped_lines(out: &mut Vec<Line>, stopped: &Vec<(String, u32)>)
    ensures
        said(final(out)@) == said(old(out)@) + stopped@.map_values(|e: (String, u32)| stopped_row(e)),
{
    let ghost start = said(out@);
    let ghost rows = stopped@.map_values(|e: (String, u32)| stopped_row(e));
    for i in 0..stopped.len()
        invariant
            said(out@) == start + rows.take(i as int),
            rows == stopped@.map_values(|e: (String, u32)| stopped_row(e)),
    {
        let mut t = "  Stopped service '".to_owned();
        t.append(stopped[i].0.as_str());
        t.append("' (PID ");
        push_decimal(&mut t, stopped[i].1 as u64);
        t.append(")");
        say(out, Line::Plain(t));
        assert(said(out@) =~= start + rows.take(i + 1));
    }
    assert(rows.take(stopped.len() as int) =~= rows);
}

/// The name `stop` acts on: the one given, else the current directory's
/// name, else "unknown".
pub open spec fn stop_target(name: Option<Seq<char>>, cwd_name: Option<Seq<char>>) -> Seq<char> {
    match name {
        Some(n) => n,
        None => match cwd_name {
            Some(d) => d,
            None => "unknown"@,
        },
    }
}

/// What `stop` says for the context `c`, given the services recorded for it
/// and those of them still running: the state is saved where `go_on` holds.
pub open spec fn stop_said(c: Seq<char>, recorded: Seq<(String, u32)>, alive: Seq<(String, u32)>) -> (
    Seq<Said>,
    bool,
    Seq<Said>,
) {
    if recorded.len() == 0 {
        (
            seq![Said::Blank, Said::Hint("No services running for '"@ + c + "'."@), Said::Blank],
            false,
            Seq::empty(),
        )
    } else {
        (
            seq![Said::Blank] + alive.map_values(|e: (String, u32)| stopped_row(e)),
            true,
            seq![Said::Success("All services stopped for '"@ + c + "'"@), Said::Blank],
        )
    }
}

/// Stop all services of the context `name`, or of the current directory's
/// context: each one still running is killed, and all of them are forgotten.
pub fn cmd_stop(
    manager: &mut ServiceManager,
    state: &mut ServiceState,
    name: Option<&str>,
    cwd_name: Option<&str>,
) -> (r: Staged)
    ensures
        ({
            let c = stop_target(
                match name {
                    Some(n) => Some(n@),
                    None => None,
                },
                match cwd_name {
                    Some(d) => Some(d@),
                    None => None,
                },
            );
            let recorded = service_entries(*old(state), c);
            let alive = alive_entries(recorded, old(manager).pids());
            &&& staged_said(r) == stop_said(c, recorded, alive)
            &&& final(state)@ == (if recorded.len() == 0 {
                old(state)@
            } else {
                stopped_state(old(state)@, c)
            })
            &&& final(manager).signalled() == old(manager).signalled() + pids_of(alive)
        }),
        final(manager).names() == old(manager).names(),
{
    let target = match name {
        Some(n) => n.to_owned(),
        None => match cwd_name {
            Some(d) => d.to_owned(),
            None => "unknown".to_owned(),
        },
    };
    let health = manager.service_health(state, target.as_str());
    let mut before: Vec<Line> = Vec::new();
    let mut after: Vec<Line> = Vec::new();
    say(&mut before, Line::Blank);
    if health.len() == 0 {
        let mut t = "No services running for '".to_owned();
        t.append(target.as_str());
        t.append("'.");
        say(&mut before, Line::Hint(t));
        say(&mut before, Line::Blank);
        assert(said(after@) =~= Seq::<Said>::empty());
        assert(manager.signalled() + pids_of(Seq::<(String, u32)>::empty()) =~= manager.signalled());
        return Staged { before, go_on: false, after };
    }
    let stopped = manager.stop_services(state, target.as_str());
    stopped_lines(&mut before, &stopped);
    let mut t = "All services stopped for '".to_owned();
    t.append(target.as_str());
    t.append("'");
    say(&mut after, Line::Success(t));
    say(&mut after, Line::Blank);
    Staged { before, go_on: true, after }
}

/// What is shown before asking whether to remove the context `name`, and the question.
pub fn remove_prompt(name: &str) -> (r: (Vec<Line>, String))
    ensures
        said(r.0@) == seq![Said::Blank],
        r.1@ == "Remove context '"@ + name@ + "'?"@,
{
    let mut lines: Vec<Line> = Vec::new();
    say(&mut lines, Line::Blank);
    let mut q = "Remove context '".to_owned();
    q.append(name);
    q.append("'?");
    (lines, q)
}

/// What `remove` says for the context `name` once the user answered: where
/// confirmed, the services still running among those recorded are stopped
/// and the state is saved and the saved context deleted (`go_on`).
pub open spec fn remove_said(confirmed: bool, name: Seq<char>, alive: Seq<(String, u32)>) -> (
    Seq<Said>,
    bool,
    Seq<Said>,
) {
    if !confirmed {
        (seq![Said::Hint("Cancelled."@), Said::Blank], false, Seq::empty())
    } else {
        (
            alive.map_values(|e: (String, u32)| stopped_row(e)),
            true,
            seq![Said::Success("Context '"@ + name + "' removed"@), Said::Blank],
        )
    }
}

/// Remove the saved context `name` once the user answered `confirmed`: its
/// services are stopped and forgotten first.
pub fn cmd_remove(
    confirmed: bool,
    manager: &mut ServiceManager,
    state: &mut ServiceState,
    name: &str,
) -> (r: Staged)
    ensures
        staged_said(r) == remove_said(
            confirmed,
            name@,
            alive_entries(service_entries(*old(state), name@), old(manager).pids()),
        ),
        final(state)@ == (if confirmed {
            stopped_state(old(state)@, name@)
        } else {
            old(state)@
        }),
        final(manager).names() == old(manager).names(),
        final(manager).signalled() == (if confirmed {
            old(manager).signalled() + pids_of(
                alive_entries(service_entries(*old(state), name@), old(manager).pids()),
            )
        } else {
            old(manager).signalled()
        }),
{
    let mut before: Vec<Line> = Vec::new();
    let mut after: Vec<Line> = Vec::new();
    if !confirmed {
        say(&mut before, Line::Hint("Cancelled.".to_owned()));
        say(&mut before, Line::Blank);
        assert(said(after@) =~= Seq::<Said>::empty());
        return Staged { before, go_on: false, after };
    }
    let stopped = manager.stop_services(state, name);
    stopped_lines(&mut before, &stopped);
    assert(said(before@) =~= stopped@.map_values(|e: (String, u32)| stopped_row(e)));
    let mut t = "Context '".to_owned();
    t.append(name);
    t.append("' removed");
    say(&mut after, Line::Success(t));
    say(&mut after, Line::Blank);
    Staged { before, go_on: true, after }
}

/// Where a switch to a saved context stands.
#[derive(Debug, PartialEq, Eq, Structural)]
pub enum SwitchStage {
    /// Nothing done yet: the git state of the current directory comes next.
    Begin,
    /// The user was asked whether to switch despite uncommitted changes.
    DirtyAsked,
    /// The saved context is to be loaded and its required ports looked up.
    Loading,
    /// The user was asked whether to kill the processes on the required ports.
    KillAsked,
    /// The context's services are being started.
    Starting,
    /// Nothing is left to decide.
    Done,
}

/// What the outside work of a switch gave.
#[derive(Debug)]
pub enum SwitchEvent {
    /// What `git status --porcelain` gave in the current directory, or
    /// nothing where it did not run.
    GitStatus(Option<CommandOutput>),
    /// The user's answer to the last question.
    Answer(bool),
    /// The context was loaded: the processes found on its required ports,
    /// and whether it defines services.
    Loaded(Vec<(u16, u32, String)>, bool),
    /// The context's services were started.
    Started,
}

/// What a switch asks for next; each action's lines are shown first.
#[derive(Debug, PartialEq, Eq)]
pub enum SwitchAction {
    /// Ask the user this yes-or-no question.
    Ask(Vec<Line>, String),
    /// Load the saved context and look up the processes on its required ports.
    Load,
    /// Start the context's services.
    StartServices(Vec<Line>),
    /// Report the switched context and print its shell commands.
    Finish(Vec<Line>),
    /// Stop without switching.
    Cancel(Vec<Line>),
    /// Stop with this error.
    Fail(ServiceError),
}

/// The decisions of a switch to a saved context, one outside result at a time.
pub struct SwitchFlow {
    /// Whether uncommitted changes are ignored.
    pub force: bool,
    pub stage: SwitchStage,
    /// The processes to kill, where the user is asked about them.
    pub conflicts: Vec<u32>,
    /// Whether the loaded context defines services.
    pub has_services: bool,
}

/// Whether the outside result `e` is what a switch at `stage` waits for.
pub open spec fn awaits(stage: SwitchStage, e: SwitchEvent) -> bool {
    match stage {
        SwitchStage::Begin => e is GitStatus,
        SwitchStage::DirtyAsked => e is Answer,
        SwitchStage::Loading => e is Loaded,
        SwitchStage::KillAsked => e is Answer,
        SwitchStage::Starting => e is Started,
        SwitchStage::Done => false,
    }
}

/// The warning shown before asking whether to switch despite uncommitted changes.
pub open spec fn dirty_said(st: Option<CommandOutput>) -> Seq<Said> {
    seq![Said::Blank, Said::Warn("Uncommitted changes: "@ + dirty_summary_of(st)->0)]
}

/// A conflicting port's line: the port, the process's name and its id.
pub open spec fn conflict_row(c: (u16, u32, String)) -> Said {
    Said::Item(":"@ + decimal(c.0 as nat), c.2@ + " (PID "@ + decimal(c.1 as nat) + ")"@)
}

/// The warning shown before asking whether to kill the processes on the
/// required ports.
pub open spec fn conflicts_said(cs: Seq<(u16, u32, String)>) -> Seq<Said> {
    seq![Said::Blank, Said::Warn("Port conflicts detected:"@)] + cs.map_values(
        |c: (u16, u32, String)| conflict_row(c),
    ) + seq![Said::Blank]
}

/// Once the ports are settled, after the lines `pre`: the services are
/// started where the context has some, else the switch finishes.
pub open spec fn proceeds(f: SwitchFlow, a: SwitchAction, has_services: bool, pre: Seq<Said>) -> bool {
    if has_services {
        f.stage == SwitchStage::Starting && (a matches SwitchAction::StartServices(ls) && said(ls@)
            == pre + seq![Said::Section("Services"@)])
    } else {
        f.stage == SwitchStage::Done && (a matches SwitchAction::Finish(ls) && said(ls@) == pre)
    }
}

/// The next stage and action of a switch at `f` on the outside result `e`,
/// where `alive` holds the running processes.
pub open spec fn switch_next(f: SwitchFlow, e: SwitchEvent, alive: Set<u32>, g: SwitchFlow, a: SwitchAction) -> bool {
    match (f.stage, e) {
        (SwitchStage::Begin, SwitchEvent::GitStatus(st)) => if !f.force && is_dirty(st) {
            g.stage == SwitchStage::DirtyAsked && (a matches SwitchAction::Ask(ls, q) && said(ls@)
                == dirty_said(st) && q@ == "Switch anyway?"@)
        } else {
            g.stage == SwitchStage::Loading && a is Load
        },
        (SwitchStage::DirtyAsked, SwitchEvent::Answer(yes)) => if yes {
            g.stage == SwitchStage::Loading && a is Load
        } else {
            g.stage == SwitchStage::Done && (a matches SwitchAction::Cancel(ls) && said(ls@) == seq![
                Said::Blank,
                Said::Hint("Commit or stash your changes, or use --force"@),
                Said::Blank,
            ])
        },
        (SwitchStage::Loading, SwitchEvent::Loaded(cs, svc)) => g.has_services == svc && if cs.len()
            > 0 {
            g.stage == SwitchStage::KillAsked && g.conflicts@ == cs@.map_values(
                |c: (u16, u32, String)| c.1,
            ) && (a matches SwitchAction::Ask(ls, q) && said(ls@) == conflicts_said(cs@) && q@
                == "Kill conflicting processes?"@)
        } else {
            proceeds(g, a, svc, Seq::empty())
        },
        (SwitchStage::KillAsked, SwitchEvent::Answer(yes)) => if !yes {
            proceeds(g, a, f.has_services, Seq::empty())
        } else if forall|i: int| 0 <= i < f.conflicts@.len() ==> alive.contains(#[trigger] f.conflicts@[i]) {
            proceeds(g, a, f.has_services, seq![Said::Success("Processes killed"@)])
        } else {
            g.stage == SwitchStage::Done && (a matches SwitchAction::Fail(err) && exists|i: int|
                0 <= i < f.conflicts@.len() && !alive.contains(#[trigger] f.conflicts@[i]) && err
                    == ServiceError::ProcessNotFound(f.conflicts@[i]) && forall|j: int|
                    0 <= j < i ==> alive.contains(#[trigger] f.conflicts@[j]))
        },
        (SwitchStage::Starting, SwitchEvent::Started) => g.stage == SwitchStage::Done
            && (a matches SwitchAction::Finish(ls) && said(ls@) == Seq::<Said>::empty()),
        _ => false,
    }
}

/// The leading ids of `ps` that are among `alive`, up to the first that is not.
pub open spec fn alive_prefix(ps: Seq<u32>, alive: Set<u32>) -> Seq<u32>
    decreases ps.len(),
{
    if ps.len() == 0 {
        Seq::empty()
    } else if alive.contains(ps[0]) {
        seq![ps[0]] + alive_prefix(ps.drop_first(), alive)
    } else {
        Seq::empty()
    }
}

/// Where the first `i` ids are alive and the next, if any, is not, the
/// alive prefix is the first `i` ids.
pub proof fn lemma_alive_prefix(ps: Seq<u32>, alive: Set<u32>, i: int)
    requires
        0 <= i <= ps.len(),
        forall|j: int| 0 <= j < i ==> alive.contains(#[trigger] ps[j]),
        i < ps.len() ==> !alive.contains(ps[i]),
    ensures
        alive_prefix(ps, alive) == ps.take(i),
    decreases i,
{
    if i == 0 {
        assert(ps.take(0) =~= Seq::<u32>::empty());
    } else {
        let rest = ps.drop_first();
        assert forall|j: int| 0 <= j < i - 1 implies alive.contains(#[trigger] rest[j]) by {
            assert(rest[j] == ps[j + 1]);
        }
        assert(ps[0] == ps[0 as int]);
        assert(alive.contains(ps[0]));
        lemma_alive_prefix(rest, alive, i - 1);
        assert(ps.take(i) =~= seq![ps[0]] + rest.take(i - 1));
    }
}

impl SwitchFlow {
    /// A switch that has done nothing yet.
    pub fn new(force: bool) -> (f: Self)
        ensures
            f.force == force,
            f.stage == SwitchStage::Begin,
    {
        SwitchFlow { force, stage: SwitchStage::Begin, conflicts: Vec::new(), has_services: false }
    }

    /// The lines and action once the ports are settled.
    fn proceed(&mut self, pre: Vec<Line>) -> (a: SwitchAction)
        ensures
            proceeds(*final(self), a, old(self).has_services, said(pre@)),
            final(self).force == old(self).force,
            final(self).has_services == old(self).has_services,
    {
        let mut ls = pre;
        if self.has_services {
            say(&mut ls, Line::Section("Services".to_owned()));
            assert(said(ls@) =~= said(pre@) + seq![Said::Section("Services"@)]);
            self.stage = SwitchStage::Starting;
            SwitchAction::StartServices(ls)
        } else {
            self.stage = SwitchStage::Done;
            SwitchAction::Finish(ls)
        }
    }

    /// Decide what a switch does next on the outside result `event`; the
    /// processes on the required ports are killed here, in order, where the
    /// user agreed, stopping at the first one the snapshot does not hold.
    pub fn step(&mut self, event: SwitchEvent, manager: &mut ServiceManager) -> (a: SwitchAction)
        requires
            awaits(old(self).stage, event),
        ensures
            switch_next(*old(self), event, old(manager).pids(), *final(self), a),
            final(manager).names() == old(manager).names(),
            final(manager).signalled() == if old(self).stage == SwitchStage::KillAsked
                && event matches SwitchEvent::Answer(true) {
                old(manager).signalled() + alive_prefix(old(self).conflicts@, old(manager).pids())
            } else {
                old(manager).signalled()
            },
            final(self).force == old(self).force,
    {
        match event {
            SwitchEvent::GitStatus(st) => {
                if !self.force && ProjectContext::has_dirty_git_state(&st) {
                    let mut ls: Vec<Line> = Vec::new();
                    say(&mut ls, Line::Blank);
                    let summary = ProjectContext::dirty_summary(&st);
                    proof {
                        crate::context::law_summary_iff_dirty(st);
                    }
                    let mut t = "Uncommitted changes: ".to_owned();
                    match summary {
                        Some(s) => t.append(s.as_str()),
                        None => {},
                    }
                    say(&mut ls, Line::Warn(t));
                    assert(said(ls@) =~= dirty_said(st));
                    self.stage = SwitchStage::DirtyAsked;
                    SwitchAction::Ask(ls, "Switch anyway?".to_owned())
                } else {
                    self.stage = SwitchStage::Loading;
                    SwitchAction::Load
                }
            },
            SwitchEvent::Answer(yes) => {
                if self.stage == SwitchStage::DirtyAsked {
                    if yes {
                        self.stage = SwitchStage::Loading;
                        SwitchAction::Load
                    } else {
                        let mut ls: Vec<Line> = Vec::new();
                        say(&mut ls, Line::Blank);
                        say(
                            &mut ls,
                            Line::Hint("Commit or stash your changes, or use --force".to_owned()),
                        );
                        say(&mut ls, Line::Blank);
                        assert(said(ls@) =~= seq![
                            Said::Blank,
                            Said::Hint("Commit or stash your changes, or use --force"@),
                            Said::Blank,
                        ]);
                        self.stage = SwitchStage::Done;
                        SwitchAction::Cancel(ls)
                    }
                } else if !yes {
                    let none: Vec<Line> = Vec::new();
                    assert(said(none@) =~= Seq::<Said>::empty());
                    self.proceed(none)
                } else {
                    let n = self.conflicts.len();
                    for i in 0..n
                        invariant
                            n == self.conflicts@.len(),
                            yes,
                            old(self).stage == SwitchStage::KillAsked,
                            event == SwitchEvent::Answer(yes),
                            *self == *old(self),
                            manager.names() == old(manager).names(),
                            manager.signalled() == old(manager).signalled() + self.conflicts@.take(
                                i as int,
                            ),
                            forall|j: int| 0 <= j < i ==> manager.pids().contains(#[trigger] self.conflicts@[j]),
                    {
                        let pid = self.conflicts[i];
                        match manager.kill_process(pid) {
                            Ok(()) => {
                                assert(self.conflicts@.take(i + 1) =~= self.conflicts@.take(
                                    i as int,
                                ).push(pid));
                                assert(manager.signalled() =~= old(manager).signalled()
                                    + self.conflicts@.take(i + 1));
                            },
                            Err(e) => {
                                assert(!manager.pids().contains(self.conflicts@[i as int]));
                                proof {
                                    lemma_alive_prefix(
                                        self.conflicts@,
                                        old(manager).pids(),
                                        i as int,
                                    );
                                }
                                self.stage = SwitchStage::Done;
                                return SwitchAction::Fail(e);
                            },
                        }
                    }
                    proof {
                        lemma_alive_prefix(self.conflicts@, old(manager).pids(), n as int);
                        assert(self.conflicts@.take(n as int) =~= self.conflicts@);
                    }
                    let mut ls: Vec<Line> = Vec::new();
                    say(&mut ls, Line::Success("Processes killed".to_owned()));
                    assert(said(ls@) =~= seq![Said::Success("Processes killed"@)]);
                    self.proceed(ls)
                }
            },
            SwitchEvent::Loaded(cs, svc) => {
                self.has_services = svc;
                if cs.len() > 0 {
                    let mut ls: Vec<Line> = Vec::new();
                    say(&mut ls, Line::Blank);
                    say(&mut ls, Line::Warn("Port conflicts detected:".to_owned()));
                    let ghost start = said(ls@);
                    let ghost rows = cs@.map_values(|c: (u16, u32, String)| conflict_row(c));
                    let mut pids: Vec<u32> = Vec::new();
                    for i in 0..cs.len()
                        invariant
                            said(ls@) == start + rows.take(i as int),
                            rows == cs@.map_values(|c: (u16, u32, String)| conflict_row(c)),
                            pids@ == cs@.take(i as int).map_values(|c: (u16, u32, String)| c.1),
                    {
                        let mut label = ":".to_owned();
                        push_decimal(&mut label, cs[i].0 as u64);
                        let mut v = cs[i].2.clone();
                        v.append(" (PID ");
                        push_decimal(&mut v, cs[i].1 as u64);
                        v.append(")");
                        say(&mut ls, Line::Item(label, v));
                        pids.push(cs[i].1);
                        assert(said(ls@) =~= start + rows.take(i + 1));
                        assert(pids@ =~= cs@.take(i + 1).map_values(|c: (u16, u32, String)| c.1));
                    }
                    assert(rows.take(cs.len() as int) =~= rows);
                    assert(cs@.take(cs.len() as int) =~= cs@);
                    say(&mut ls, Line::Blank);
                    assert(said(ls@) =~= conflicts_said(cs@));
                    self.conflicts = pids;
                    self.stage = SwitchStage::KillAsked;
                    SwitchAction::Ask(ls, "Kill conflicting processes?".to_owned())
                } else {
                    let none: Vec<Line> = Vec::new();
                    assert(said(none@) =~= Seq::<Said>::empty());
                    self.proceed(none)
                }
            },
            SwitchEvent::Started => {
                self.stage = SwitchStage::Done;
                let ls: Vec<Line> = Vec::new();
                assert(said(ls@) =~= Seq::<Said>::empty());
                SwitchAction::Finish(ls)
            },
        }
    }
}

/// The moment of last use as the switch report shows it, where chrono can
/// show it.
pub open spec fn last_used_long(t: Option<Timestamp>) -> Option<Seq<char>> {
    match t {
        Some(t) => utc_text(t.secs, t.nanos, "%Y-%m-%d %H:%M"@),
        None => None,
    }
}

/// What a finished switch to the context `ctx`, asked for as `name`, reports
/// before the shell commands.
pub open spec fn switched_said(name: Seq<char>, ctx: ProjectContext) -> Seq<Said> {
    seq![
        Said::Blank,
        Said::Success("Switched to "@ + BOLD@ + name + RESET@),
        Said::Blank,
        Said::Item("path"@, ctx.path@),
    ] + match ctx.git_branch {
        Some(b) => seq![Said::ItemColored("branch"@, b@, Tone::Magenta)],
        None => Seq::empty(),
    } + match last_used_long(ctx.last_accessed) {
        Some(t) => seq![Said::Item("last used"@, t)],
        None => Seq::empty(),
    } + seq![Said::Blank]
}

/// What a finished switch to the context `ctx`, asked for as `name`,
/// reports before the shell commands.
pub fn switched_lines(name: &str, ctx: &ProjectContext) -> (r: Vec<Line>)
    ensures
        said(r@) == switched_said(name@, *ctx),
{
    let mut r: Vec<Line> = Vec::new();
    say(&mut r, Line::Blank);
    let mut t = "Switched to ".to_owned();
    t.append(BOLD);
    t.append(name);
    t.append(RESET);
    say(&mut r, Line::Success(t));
    say(&mut r, Line::Blank);
    say(&mut r, Line::Item("path".to_owned(), ctx.path.clone()));
    match &ctx.git_branch {
        Some(b) => say(&mut r, Line::ItemColored("branch".to_owned(), b.clone(), Tone::Magenta)),
        None => {},
    }
    let last = match ctx.last_accessed {
        Some(t) => format_utc(t, "%Y-%m-%d %H:%M"),
        None => None,
    };
    match last {
        Some(s) => say(&mut r, Line::Item("last used".to_owned(), s)),
        None => {},
    }
    say(&mut r, Line::Blank);
    assert(said(r@) =~= switched_said(name@, *ctx));
    r
}

/// After a switch that was not forced stopped at the question about
/// uncommitted changes, a yes goes on to load the context and a no cancels
/// the switch without loading anything.
pub proof fn law_dirty_answer_decides(
    f: SwitchFlow,
    yes: bool,
    alive: Set<u32>,
    g: SwitchFlow,
    a: SwitchAction,
)
    requires
        f.stage == SwitchStage::DirtyAsked,
        switch_next(f, SwitchEvent::Answer(yes), alive, g, a),
    ensures
        yes ==> g.stage == SwitchStage::Loading && a is Load,
        !yes ==> g.stage == SwitchStage::Done && a is Cancel,
{
}

/// A switch that is not forced asks about uncommitted changes exactly when
/// git reports some; a forced one never asks and goes on to load.
pub proof fn law_dirty_question_asked(
    f: SwitchFlow,
    st: Option<CommandOutput>,
    alive: Set<u32>,
    g: SwitchFlow,
    a: SwitchAction,
)
    requires
        f.stage == SwitchStage::Begin,
        switch_next(f, SwitchEvent::GitStatus(st), alive, g, a),
    ensures
        f.force ==> a is Load,
        !f.force ==> (a is Ask <==> (st matches Some(o) && o.success && o.stdout@.len() > 0)),
{
}

/// Every context listed gets one row, in order, naming it and its path,
/// with its branch where it has one and a dash where it has none.
pub proof fn law_list_rows(cs: Seq<ProjectContext>, state: ServiceState, pids: Set<u32>, i: int)
    requires
        0 <= i < cs.len(),
    ensures
        list_said(cs, state, pids).len() == cs.len() + 5,
        list_said(cs, state, pids)[i + 4] matches Said::TableRow(n, p, b, _, _) && n == cs[i].name@
            && p == cs[i].path@ && b == match cs[i].git_branch {
            Some(x) => x@,
            None => "\u{2013}"@,
        },
{
}

/// `w` stands in `t` from position `k`.
pub open spec fn shows_at(t: Seq<char>, k: int, w: Seq<char>) -> bool {
    0 <= k && k + w.len() <= t.len() && t.subrange(k, k + w.len()) == w
}

/// The status line of a running service shows the check mark and, after
/// the service's name, "running"; that of a stopped one shows the cross and
/// "stopped".
pub proof fn law_service_row_state(e: (String, u32, bool))
    ensures
        service_row(e) matches Said::Plain(t) && if e.2 {
            shows_at(t, 2, CHECK@) && shows_at(
                t,
                (2 + CHECK@.len() + 1 + e.0@.len() + 2 + GREEN@.len()) as int,
                "running"@,
            )
        } else {
            shows_at(t, 2, CROSS@) && shows_at(
                t,
                (2 + CROSS@.len() + 1 + e.0@.len() + 2 + RED@.len()) as int,
                "stopped"@,
            )
        },
{
    reveal_strlit("running");
    reveal_strlit("stopped");
    reveal_strlit("  ");
    reveal_strlit(" ");
    assert("  "@.len() == 2);
    assert(" "@.len() == 1);
    assert("running"@.len() == 7);
    assert("stopped"@.len() == 7);
    match service_row(e) {
        Said::Plain(t) => {
            let tail = RESET@ + " "@ + DIM@ + "PID "@ + decimal(e.1 as nat) + RESET@;
            if e.2 {
                let pre = "  "@ + CHECK@ + " "@ + e.0@ + "  "@ + GREEN@;
                assert(t =~= pre + "running"@ + tail);
                assert(pre.len() == 2 + CHECK@.len() + 1 + e.0@.len() + 2 + GREEN@.len());
                assert(t.subrange(2, (2 + CHECK@.len()) as int) =~= CHECK@);
                assert(t.subrange(pre.len() as int, (pre.len() + 7) as int) =~= "running"@);
            } else {
                let pre = "  "@ + CROSS@ + " "@ + e.0@ + "  "@ + RED@;
                assert(t =~= pre + "stopped"@ + tail);
                assert(pre.len() == 2 + CROSS@.len() + 1 + e.0@.len() + 2 + RED@.len());
                assert(t.subrange(2, (2 + CROSS@.len()) as int) =~= CROSS@);
                assert(t.subrange(pre.len() as int, (pre.len() + 7) as int) =~= "stopped"@);
            }
        },
        _ => {},
    }
}

} // verus!
