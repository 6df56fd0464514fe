use vstd::prelude::*;

use crate::context::{
    dirty_summary_of, format_utc, is_dirty, law_summary_iff_dirty, opt_view, CommandOutput,
    ProjectContext,
};
use crate::context::shell_command_lines;
use crate::report::last_used_long;
use crate::text::string_views;
use crate::services::{health_of, service_entries, ServiceManager, ServiceState};
use crate::text::{decimal, push_decimal};

verus! {

/// A key that the dashboard reacts to.
#[derive(Debug, Clone, Copy, PartialEq, Eq)]
pub enum Key {
    Char(char),
    Esc,
    Up,
    Down,
    Enter,
    Delete,
    Other,
}

/// What the dashboard does once it is closed.
#[derive(Debug, PartialEq, Eq)]
pub enum Action {
    /// Nothing more to do.
    Stay,
    /// Switch to the context with this name.
    Switch(String),
}

/// Outside work that a key asks for.
#[derive(Debug, PartialEq, Eq)]
pub enum Effect {
    Nothing,
    /// Remove the saved context with this name, then report with `complete_removal`.
    RemoveContext(String),
}

/// The position after `sel` in a list of `len` entries, wrapping around.
pub open spec fn next_index(sel: Option<usize>, len: nat) -> nat {
    match sel {
        Some(i) => ((i + 1) % (len as int)) as nat,
        None => 0,
    }
}

/// The position before `sel` in a list of `len` entries, wrapping around.
pub open spec fn previous_index(sel: Option<usize>, len: nat) -> nat {
    match sel {
        Some(i) => if i == 0 {
            (len - 1) as nat
        } else {
            (i - 1) as nat
        },
        None => 0,
    }
}

/// Moving the selection forward and then back returns to where it was.
pub proof fn law_next_then_previous(i: usize, len: usize)
    requires
        i < len,
    ensures
        previous_index(Some(next_index(Some(i), len as nat) as usize), len as nat) == i,
        next_index(Some(previous_index(Some(i), len as nat) as usize), len as nat) == i,
{
    if i + 1 < len {
        assert((i + 1) % (len as int) == i + 1) by (nonlinear_arith)
            requires
                0 <= i + 1 < len,
        ;
    } else {
        assert((i + 1) % (len as int) == 0) by (nonlinear_arith)
            requires
                i + 1 == len,
                len > 0,
        ;
    }
    if i == 0 {
        assert(((len - 1) + 1) % (len as int) == 0) by (nonlinear_arith)
            requires
                len > 0,
        ;
    } else {
        assert(((i - 1) + 1) % (len as int) == i) by (nonlinear_arith)
            requires
                0 < i < len,
        ;
    }
}

/// The prompt shown while a deletion waits for confirmation.
pub open spec fn delete_prompt(name: Seq<char>) -> Seq<char> {
    "Delete '"@ + name + "'? Press y to confirm, any other key to cancel"@
}

/// The key confirms a pending deletion.
pub open spec fn is_confirm_key(key: Key) -> bool {
    key == Key::Char('y') || key == Key::Char('Y')
}

/// `new` is `old` with only the selection and pending deletion changed as
/// moving the selection does.
pub open spec fn moved(old: App, new: App, to: nat) -> bool {
    &&& new.contexts == old.contexts
    &&& new.active_ports == old.active_ports
    &&& new.service_health == old.service_health
    &&& new.should_quit == old.should_quit
    &&& new.action == old.action
    &&& new.status_message == old.status_message
    &&& if old.contexts@.len() == 0 {
        new.selected == old.selected && new.confirm_delete == old.confirm_delete
    } else {
        new.selected == Some(to as usize) && new.confirm_delete is None
    }
}

/// What a key does to the dashboard, and the outside work it asks for.
pub open spec fn key_handled(old: App, new: App, key: Key, e: Effect) -> bool {
    match old.confirm_delete {
        Some(idx) => if is_confirm_key(key) {
            new == old && e == Effect::RemoveContext(old.contexts@[idx as int].name)
        } else {
            &&& e is Nothing
            &&& new == App { confirm_delete: None, status_message: None, ..old }
        },
        None => {
            &&& e is Nothing
            &&& match key {
                Key::Char('q') | Key::Esc => new == App { should_quit: true, ..old },
                Key::Down | Key::Char('j') => moved(
                    old,
                    new,
                    next_index(old.selected, old.contexts@.len()),
                ),
                Key::Up | Key::Char('k') => moved(
                    old,
                    new,
                    previous_index(old.selected, old.contexts@.len()),
                ),
                Key::Enter => match old.selected {
                    Some(i) => new == App {
                        action: Action::Switch(old.contexts@[i as int].name),
                        should_quit: true,
                        ..old
                    },
                    None => new == old,
                },
                Key::Char('d') | Key::Delete => match old.selected {
                    Some(i) => new.confirm_delete == Some(i) && opt_view(new.status_message)
                        == Some(delete_prompt(old.contexts@[i as int].name@)) && new == App {
                        confirm_delete: new.confirm_delete,
                        status_message: new.status_message,
                        ..old
                    },
                    None => new == old,
                },
                _ => new == old,
            }
        },
    }
}

/// The health rows recorded for the context called `name`: those of the
/// first entry with that name, none if there is none.
pub open spec fn health_lookup(sh: Seq<(String, Vec<(String, u32, bool)>)>, name: Seq<char>) -> Seq<
    (String, u32, bool),
>
    decreases sh.len(),
{
    if sh.len() == 0 {
        Seq::empty()
    } else if sh[0].0@ == name {
        sh[0].1@
    } else {
        health_lookup(sh.drop_first(), name)
    }
}

/// How many of the health rows are running.
pub open spec fn alive_count(h: Seq<(String, u32, bool)>) -> nat
    decreases h.len(),
{
    if h.len() == 0 {
        0
    } else {
        alive_count(h.drop_last()) + if h.last().2 {
            1nat
        } else {
            0nat
        }
    }
}

/// No more services run than there are.
pub proof fn lemma_alive_count_bound(h: Seq<(String, u32, bool)>)
    ensures
        alive_count(h) <= h.len(),
    decreases h.len(),
{
    if h.len() > 0 {
        lemma_alive_count_bound(h.drop_last());
    }
}

/// How many of the health rows are running.
pub fn count_alive(h: &[(String, u32, bool)]) -> (n: usize)
    ensures
        n == alive_count(h@),
{
    let mut n: usize = 0;
    assert(h@.take(0) =~= Seq::<(String, u32, bool)>::empty());
    for i in 0..h.len()
        invariant
            n <= i,
            n == alive_count(h@.take(i as int)),
    {
        assert(h@.take(i + 1).drop_last() =~= h@.take(i as int));
        if h[i].2 {
            n += 1;
        }
    }
    assert(h@.take(h@.len() as int) =~= h@);
    n
}

/// The marker after a context's name in the list: nothing without services,
/// " [ok]" when all run, " [stopped]" when none does, else how many run.
pub open spec fn service_indicator(h: Seq<(String, u32, bool)>) -> Seq<char> {
    if h.len() == 0 {
        Seq::empty()
    } else if alive_count(h) == h.len() {
        " [ok]"@
    } else if alive_count(h) == 0 {
        " [stopped]"@
    } else {
        " ["@ + decimal(alive_count(h)) + "/"@ + decimal(h.len()) + "]"@
    }
}

/// A context's line in the dashboard list.
pub open spec fn context_label(ctx: ProjectContext, h: Seq<(String, u32, bool)>) -> Seq<char> {
    "  "@ + ctx.name@ + " ("@ + match ctx.git_branch {
        Some(b) => b@,
        None => "-"@,
    } + ")"@ + service_indicator(h)
}

/// The marker after a context's name in the list.
pub fn service_indicator_text(h: &[(String, u32, bool)]) -> (r: String)
    ensures
        r@ == service_indicator(h@),
{
    let n = h.len();
    if n == 0 {
        return String::new();
    }
    let alive = count_alive(h);
    if alive == n {
        " [ok]".to_owned()
    } else if alive == 0 {
        " [stopped]".to_owned()
    } else {
        let mut r = " [".to_owned();
        push_decimal(&mut r, alive as u64);
        r.append("/");
        push_decimal(&mut r, n as u64);
        r.append("]");
        r
    }
}

/// A context's line in the dashboard list.
pub fn context_label_text(ctx: &ProjectContext, h: &[(String, u32, bool)]) -> (r: String)
    ensures
        r@ == context_label(*ctx, h@),
{
    let mut r = "  ".to_owned();
    r.append(ctx.name.as_str());
    r.append(" (");
    match &ctx.git_branch {
        Some(b) => r.append(b.as_str()),
        None => r.append("-"),
    }
    r.append(")");
    let ind = service_indicator_text(h);
    r.append(ind.as_str());
    r
}

/// The colour a piece of dashboard text is shown in.
#[derive(Debug, Clone, Copy, PartialEq, Eq, Structural)]
pub enum Tone {
    Plain,
    Yellow,
    Green,
    Red,
    Magenta,
    DarkGray,
}

/// A piece of a dashboard line.
#[derive(Debug, PartialEq, Eq)]
pub struct Span {
    pub text: String,
    pub tone: Tone,
    pub bold: bool,
}

/// A span as its text, tone and weight.
pub open spec fn span_view(s: Span) -> (Seq<char>, Tone, bool) {
    (s.text@, s.tone, s.bold)
}

/// The spans of a line.
pub open spec fn line_view(l: Seq<Span>) -> Seq<(Seq<char>, Tone, bool)> {
    l.map_values(|s: Span| span_view(s))
}

/// The spans of each line.
pub open spec fn lines_view(ls: Seq<Vec<Span>>) -> Seq<Seq<(Seq<char>, Tone, bool)>> {
    ls.map_values(|l: Vec<Span>| line_view(l@))
}

/// An empty line.
pub open spec fn blank_line() -> Seq<(Seq<char>, Tone, bool)> {
    seq![(Seq::<char>::empty(), Tone::Plain, false)]
}

/// A service's line in the details: its name, its process id, and whether it runs.
pub open spec fn health_rows(h: Seq<(String, u32, bool)>) -> Seq<Seq<(Seq<char>, Tone, bool)>>
    decreases h.len(),
{
    if h.len() == 0 {
        Seq::empty()
    } else {
        let e = h.last();
        health_rows(h.drop_last()).push(
            seq![
                ("  "@ + e.0@ + " "@, Tone::Plain, false),
                ("(PID "@ + decimal(e.1 as nat) + ") "@, Tone::DarkGray, false),
                if e.2 {
                    ("running"@, Tone::Green, false)
                } else {
                    ("stopped"@, Tone::Red, false)
                },
            ],
        )
    }
}

/// A configured service's line in the details: its name and its command.
pub open spec fn service_rows(es: Seq<(String, String)>) -> Seq<Seq<(Seq<char>, Tone, bool)>>
    decreases es.len(),
{
    if es.len() == 0 {
        Seq::empty()
    } else {
        service_rows(es.drop_last()).push(
            seq![("  "@ + es.last().0@ + " \u{2192} "@ + es.last().1@, Tone::Plain, false)],
        )
    }
}

/// Some listening socket uses `port`.
pub open spec fn port_in_use(active: Seq<(u16, String)>, port: u16) -> bool {
    exists|i: int| 0 <= i < active.len() && #[trigger] active[i].0 == port
}

/// A required port's line in the details: the port and whether it is in use.
pub open spec fn port_rows(ports: Seq<u16>, active: Seq<(u16, String)>) -> Seq<
    Seq<(Seq<char>, Tone, bool)>,
>
    decreases ports.len(),
{
    if ports.len() == 0 {
        Seq::empty()
    } else {
        let p = ports.last();
        port_rows(ports.drop_last(), active).push(
            seq![
                ("  :"@ + decimal(p as nat) + " "@, Tone::Plain, false),
                if port_in_use(active, p) {
                    ("IN USE"@, Tone::Red, false)
                } else {
                    ("free"@, Tone::Green, false)
                },
            ],
        )
    }
}

/// The first lines of the details panel: the context's fields.
pub open spec fn detail_fields(ctx: ProjectContext) -> Seq<Seq<(Seq<char>, Tone, bool)>> {
    seq![
        seq![("Name:     "@, Tone::Yellow, false), (ctx.name@, Tone::Plain, false)],
        seq![("Path:     "@, Tone::Yellow, false), (ctx.path@, Tone::Plain, false)],
        seq![("Branch:   "@, Tone::Yellow, false), (match ctx.git_branch {
            Some(b) => b@,
            None => "n/a"@,
        }, Tone::Plain, false)],
        seq![("Env file: "@, Tone::Yellow, false), (match ctx.env_file {
            Some(f) => f@,
            None => "none"@,
        }, Tone::Plain, false)],
        seq![("Env vars: "@, Tone::Yellow, false), (decimal(ctx.env_vars@.len()), Tone::Plain, false)],
        blank_line(),
    ]
}

/// The services part of the details: their health where they run, else
/// their commands where there are some.
pub open spec fn detail_services(ctx: ProjectContext, h: Seq<(String, u32, bool)>) -> Seq<
    Seq<(Seq<char>, Tone, bool)>,
> {
    if h.len() > 0 {
        seq![seq![("Services:"@, Tone::Green, true)]] + health_rows(h) + seq![blank_line()]
    } else if ctx.services@.len() > 0 {
        seq![seq![("Services (not started):"@, Tone::DarkGray, false)]] + service_rows(
            ctx.services.entry_seq(),
        ) + seq![blank_line()]
    } else {
        Seq::empty()
    }
}

/// The required ports part of the details.
pub open spec fn detail_ports(ctx: ProjectContext, active: Seq<(u16, String)>) -> Seq<
    Seq<(Seq<char>, Tone, bool)>,
> {
    if ctx.ports_required@.len() > 0 {
        seq![seq![("Required ports:"@, Tone::Magenta, true)]] + port_rows(
            ctx.ports_required@,
            active,
        ) + seq![blank_line()]
    } else {
        Seq::empty()
    }
}

/// The details panel for a selected context.
pub open spec fn detail_spec(
    ctx: ProjectContext,
    h: Seq<(String, u32, bool)>,
    active: Seq<(u16, String)>,
    last_used: Option<Seq<char>>,
) -> Seq<Seq<(Seq<char>, Tone, bool)>> {
    detail_fields(ctx) + detail_services(ctx, h) + detail_ports(ctx, active) + match last_used {
        Some(t) => seq![seq![("Last used: "@, Tone::Yellow, false), (t, Tone::Plain, false)]],
        None => Seq::empty(),
    }
}

fn span(text: String, tone: Tone, bold: bool) -> (s: Span)
    ensures
        span_view(s) == (text@, tone, bold),
{
    Span { text, tone, bold }
}

fn text_line(text: String, tone: Tone, bold: bool) -> (l: Vec<Span>)
    ensures
        line_view(l@) == seq![(text@, tone, bold)],
{
    let l = vec![span(text, tone, bold)];
    assert(line_view(l@) =~= seq![(text@, tone, bold)]);
    l
}

fn labelled_line(label: &str, value: String) -> (l: Vec<Span>)
    ensures
        line_view(l@) == seq![(label@, Tone::Yellow, false), (value@, Tone::Plain, false)],
{
    let l = vec![span(label.to_owned(), Tone::Yellow, false), span(value, Tone::Plain, false)];
    assert(line_view(l@) =~= seq![(label@, Tone::Yellow, false), (value@, Tone::Plain, false)]);
    l
}

/// Whether some listening socket uses `port`.
pub fn is_port_in_use(active: &[(u16, String)], port: u16) -> (b: bool)
    ensures
        b == port_in_use(active@, port),
{
    for i in 0..active.len()
        invariant
            forall|j: int| 0 <= j < i ==> active@[j].0 != port,
    {
        if active[i].0 == port {
            assert(active@[i as int].0 == port);
            return true;
        }
    }
    false
}

/// The details panel for a selected context: its fields, its services'
/// health (or, before they run, their commands), its required ports and
/// whether each is in use, and when it was last used.
pub fn detail_lines(ctx: &ProjectContext, h: &[(String, u32, bool)], active: &[(u16, String)]) -> (r:
    Vec<Vec<Span>>)
    ensures
        lines_view(r@) == detail_spec(*ctx, h@, active@, last_used_long(ctx.last_accessed)),
{
    let last_used = match ctx.last_accessed {
        Some(t) => format_utc(t, "%Y-%m-%d %H:%M"),
        None => None,
    };
    details_with(ctx, h, active, last_used)
}

/// The details panel, with the text of the last use given.
fn details_with(
    ctx: &ProjectContext,
    h: &[(String, u32, bool)],
    active: &[(u16, String)],
    last_used: Option<String>,
) -> (r: Vec<Vec<Span>>)
    ensures
        lines_view(r@) == detail_spec(*ctx, h@, active@, opt_view(last_used)),
{
    let mut r: Vec<Vec<Span>> = Vec::new();
    r.push(labelled_line("Name:     ", ctx.name.clone()));
    r.push(labelled_line("Path:     ", ctx.path.clone()));
    let branch = match &ctx.git_branch {
        Some(b) => b.clone(),
        None => "n/a".to_owned(),
    };
    r.push(labelled_line("Branch:   ", branch));
    let env_file = match &ctx.env_file {
        Some(f) => f.clone(),
        None => "none".to_owned(),
    };
    r.push(labelled_line("Env file: ", env_file));
    let mut count = String::new();
    push_decimal(&mut count, ctx.env_vars.len() as u64);
    r.push(labelled_line("Env vars: ", count));
    r.push(text_line(String::new(), Tone::Plain, false));
    assert(lines_view(r@) =~~= detail_fields(*ctx));
    push_service_part(&mut r, ctx, h);
    push_port_part(&mut r, ctx, active);
    match last_used {
        Some(t) => {
            r.push(labelled_line("Last used: ", t));
        },
        None => {},
    }
    assert(lines_view(r@) =~= detail_spec(*ctx, h@, active@, opt_view(last_used)));
    r
}

/// Appends the services part of the details.
fn push_service_part(r: &mut Vec<Vec<Span>>, ctx: &ProjectContext, h: &[(String, u32, bool)])
    ensures
        lines_view(final(r)@) == lines_view(old(r)@) + detail_services(*ctx, h@),
{
    let ghost base = lines_view(r@);
    if h.len() > 0 {
        let hdr = text_line("Services:".to_owned(), Tone::Green, true);
        r.push(hdr);
        let ghost start = lines_view(r@);
        assert(start =~= base.push(seq![("Services:"@, Tone::Green, true)]));
        assert(h@.take(0) =~= Seq::<(String, u32, bool)>::empty());
        assert(lines_view(r@) =~= start + health_rows(h@.take(0)));
        for i in 0..h.len()
            invariant
                lines_view(r@) == start + health_rows(h@.take(i as int)),
        {
            assert(h@.take(i + 1).drop_last() =~= h@.take(i as int));
            let mut name = "  ".to_owned();
            name.append(h[i].0.as_str());
            name.append(" ");
            let mut pid = "(PID ".to_owned();
            push_decimal(&mut pid, h[i].1 as u64);
            pid.append(") ");
            let state = if h[i].2 {
                span("running".to_owned(), Tone::Green, false)
            } else {
                span("stopped".to_owned(), Tone::Red, false)
            };
            let row = vec![span(name, Tone::Plain, false), span(pid, Tone::DarkGray, false), state];
            let ghost before = lines_view(r@);
            r.push(row);
            assert(lines_view(r@) =~= before.push(line_view(row@)));
            assert(line_view(row@) =~= health_rows(h@.take(i + 1)).last());
        }
        assert(h@.take(h@.len() as int) =~= h@);
        let ghost body = lines_view(r@);
        let blank = text_line(String::new(), Tone::Plain, false);
        r.push(blank);
        assert(lines_view(r@) =~= body.push(blank_line()));
        assert(lines_view(r@) =~= base + detail_services(*ctx, h@));
    } else if ctx.services.len() > 0 {
        let hdr = text_line("Services (not started):".to_owned(), Tone::DarkGray, false);
        r.push(hdr);
        let ghost start = lines_view(r@);
        assert(start =~= base.push(seq![("Services (not started):"@, Tone::DarkGray, false)]));
        let es = ctx.services.entries();
        assert(es@.take(0) =~= Seq::<(String, String)>::empty());
        assert(lines_view(r@) =~= start + service_rows(es@.take(0)));
        for i in 0..es.len()
            invariant
                lines_view(r@) == start + service_rows(es@.take(i as int)),
        {
            assert(es@.take(i + 1).drop_last() =~= es@.take(i as int));
            let mut t = "  ".to_owned();
            t.append(es[i].0.as_str());
            t.append(" \u{2192} ");
            t.append(es[i].1.as_str());
            let row = text_line(t, Tone::Plain, false);
            let ghost before = lines_view(r@);
            r.push(row);
            assert(lines_view(r@) =~= before.push(line_view(row@)));
        }
        assert(es@.take(es@.len() as int) =~= es@);
        let ghost body = lines_view(r@);
        let blank = text_line(String::new(), Tone::Plain, false);
        r.push(blank);
        assert(lines_view(r@) =~= body.push(blank_line()));
        assert(lines_view(r@) =~= base + detail_services(*ctx, h@));
    } else {
        assert(lines_view(r@) =~= base + detail_services(*ctx, h@));
    }
}

/// Appends the required ports part of the details.
fn push_port_part(r: &mut Vec<Vec<Span>>, ctx: &ProjectContext, active: &[(u16, String)])
    ensures
        lines_view(final(r)@) == lines_view(old(r)@) + detail_ports(*ctx, active@),
{
    let ghost with_services = lines_view(r@);
    if ctx.ports_required.len() > 0 {
        let hdr = text_line("Required ports:".to_owned(), Tone::Magenta, true);
        r.push(hdr);
        let ghost start = lines_view(r@);
        assert(start =~= with_services.push(seq![("Required ports:"@, Tone::Magenta, true)]));
        let ports = &ctx.ports_required;
        assert(ports@.take(0) =~= Seq::<u16>::empty());
        assert(lines_view(r@) =~= start + port_rows(ports@.take(0), active@));
        for i in 0..ports.len()
            invariant
                lines_view(r@) == start + port_rows(ports@.take(i as int), active@),
        {
            assert(ports@.take(i + 1).drop_last() =~= ports@.take(i as int));
            let mut t = "  :".to_owned();
            push_decimal(&mut t, ports[i] as u64);
            t.append(" ");
            let state = if is_port_in_use(active, ports[i]) {
                span("IN USE".to_owned(), Tone::Red, false)
            } else {
                span("free".to_owned(), Tone::Green, false)
            };
            let row = vec![span(t, Tone::Plain, false), state];
            let ghost before = lines_view(r@);
            r.push(row);
            assert(lines_view(r@) =~= before.push(line_view(row@)));
            assert(line_view(row@) =~= port_rows(ports@.take(i + 1), active@).last());
        }
        assert(ports@.take(ports@.len() as int) =~= ports@);
        let ghost body = lines_view(r@);
        let blank = text_line(String::new(), Tone::Plain, false);
        r.push(blank);
        assert(lines_view(r@) =~= body.push(blank_line()));
        assert(lines_view(r@) =~= with_services + detail_ports(*ctx, active@));
    } else {
        assert(lines_view(r@) =~= with_services + detail_ports(*ctx, active@));
    }
}

/// What the details panel shows where no context is selected.
pub open spec fn no_selection() -> Seq<Seq<(Seq<char>, Tone, bool)>> {
    seq![seq![("No context selected"@, Tone::Plain, false)]]
}

/// The warning shown after the dashboard, before switching, where the
/// current directory has uncommitted changes.
pub open spec fn dirty_note(status: Option<CommandOutput>) -> Option<Seq<char>> {
    if is_dirty(status) {
        Some(
            "Warning: Current directory has uncommitted changes ("@ + dirty_summary_of(status)->0
                + ")."@,
        )
    } else {
        None
    }
}

/// The warning shown after the dashboard, before switching, from what
/// `git status --porcelain` gave in the current directory.
pub fn dirty_warning(status: &Option<CommandOutput>) -> (r: Option<String>)
    ensures
        opt_view(r) == dirty_note(*status),
{
    proof {
        law_summary_iff_dirty(*status);
    }
    match ProjectContext::dirty_summary(status) {
        Some(summary) => {
            let mut m = "Warning: Current directory has uncommitted changes (".to_owned();
            m.append(summary.as_str());
            m.append(").");
            Some(m)
        },
        None => None,
    }
}

/// What the program does once the dashboard closed on a switch to a
/// context: warn about uncommitted changes in the current directory, start
/// the context's services where it has some, note the switch, and print the
/// shell commands for the parent shell.
pub struct AfterSwitch {
    /// The warning about uncommitted changes, if there are any.
    pub warning: Option<String>,
    /// The note shown before the services are started, where they are.
    pub starting: Option<String>,
    /// The note shown once switched.
    pub note: String,
    /// The lines printed for the parent shell.
    pub commands: Vec<String>,
}

/// What follows a dashboard that closed on a switch to the context `ctx`,
/// chosen as `name`, given what `git status --porcelain` gave in the current
/// directory.
pub fn after_switch(name: &str, ctx: &ProjectContext, git: &Option<CommandOutput>) -> (r:
    AfterSwitch)
    ensures
        opt_view(r.warning) == dirty_note(*git),
        opt_view(r.starting) == if ctx.services.entry_seq().len() > 0 {
            Some("Starting services..."@)
        } else {
            None::<Seq<char>>
        },
        r.note@ == "Switched to '"@ + name@ + "'"@,
        string_views(r.commands@) == shell_command_lines(*ctx),
{
    let starting = if ctx.services.entries().len() > 0 {
        Some("Starting services...".to_owned())
    } else {
        None
    };
    AfterSwitch {
        warning: dirty_warning(git),
        starting,
        note: switched_note(name),
        commands: ctx.print_shell_commands(),
    }
}

/// The note shown once the dashboard switched to the context `name`.
pub fn switched_note(name: &str) -> (r: String)
    ensures
        r@ == "Switched to '"@ + name@ + "'"@,
{
    let mut m = "Switched to '".to_owned();
    m.append(name);
    m.append("'");
    m
}

/// The health of each context's services, as the dashboard keeps it: each
/// context's name, in order, with the health of the services recorded for it.
pub fn dashboard_health(
    contexts: &Vec<ProjectContext>,
    manager: &ServiceManager,
    state: &ServiceState,
) -> (r: Vec<(String, Vec<(String, u32, bool)>)>)
    ensures
        r@.len() == contexts@.len(),
        forall|i: int|
            0 <= i < r@.len() ==> (#[trigger] r@[i]).0@ == contexts@[i].name@ && r@[i].1@
                == health_of(service_entries(*state, contexts@[i].name@), manager.pids()),
{
    let mut r: Vec<(String, Vec<(String, u32, bool)>)> = Vec::new();
    for i in 0..contexts.len()
        invariant
            r@.len() == i,
            forall|k: int|
                0 <= k < i ==> (#[trigger] r@[k]).0@ == contexts@[k].name@ && r@[k].1@
                    == health_of(service_entries(*state, contexts@[k].name@), manager.pids()),
    {
        let name = contexts[i].name.clone();
        let h = manager.service_health(state, contexts[i].name.as_str());
        r.push((name, h));
    }
    r
}

/// How the dashboard reports the removal that its pending deletion asked
/// for: `error` holds the failure's message, if it failed. A removed context
/// leaves the list, and the selection stays at its position or moves to the
/// new last context; nothing else changes.
pub open spec fn removal_reported(old: App, new: App, error: Option<String>) -> bool {
    let idx = old.confirm_delete->0 as int;
    let name = old.contexts@[idx].name@;
    &&& new.confirm_delete is None
    &&& new.active_ports == old.active_ports
    &&& new.service_health == old.service_health
    &&& new.should_quit == old.should_quit
    &&& new.action == old.action
    &&& match error {
        Some(msg) => {
            &&& opt_view(new.status_message) == Some("Error: "@ + msg@)
            &&& new.contexts == old.contexts
            &&& new.selected == old.selected
        },
        None => {
            let rest = old.contexts@.remove(idx);
            &&& opt_view(new.status_message) == Some("Removed '"@ + name + "'"@)
            &&& new.contexts@ == rest
            &&& new.selected == if rest.len() == 0 {
                None
            } else if idx >= rest.len() {
                Some((rest.len() - 1) as usize)
            } else {
                Some(idx as usize)
            }
        },
    }
}

/// There is a selection exactly when there are contexts.
pub open spec fn selection_tracks(app: App) -> bool {
    app.selected is Some <==> app.contexts@.len() > 0
}

/// Every key keeps the dashboard well formed, and keeps a selection exactly
/// when there are contexts.
pub proof fn law_keys_keep_selection(old: App, new: App, key: Key, e: Effect)
    requires
        old.wf(),
        selection_tracks(old),
        key_handled(old, new, key, e),
    ensures
        new.wf(),
        selection_tracks(new),
{
    let n = old.contexts@.len();
    if old.confirm_delete is None && n > 0 {
        match old.selected {
            Some(i) => {
                assert((i + 1) % (n as int) < n) by (nonlinear_arith)
                    requires
                        n > 0,
                ;
                assert(0 <= (i + 1) % (n as int)) by (nonlinear_arith)
                    requires
                        n > 0,
                ;
            },
            None => {},
        }
    }
}

/// Reporting a removal keeps the dashboard well formed, and keeps a
/// selection exactly when there are contexts.
pub proof fn law_removal_keeps_selection(old: App, new: App, error: Option<String>)
    requires
        old.wf(),
        selection_tracks(old),
        old.confirm_delete is Some,
        removal_reported(old, new, error),
    ensures
        new.wf(),
        selection_tracks(new),
{
}

/// Only a confirming key right after a deletion was asked for removes a
/// context, and it is the context that was selected when it was asked for;
/// only `d` or Delete asks for one, for the selected context, and any other
/// key then drops it. The dashboard closes only on `q`, Esc, or Enter with a
/// context selected, and only Enter chooses a context to switch to.
pub proof fn law_keys_that_act(old: App, new: App, key: Key, e: Effect)
    requires
        old.wf(),
        key_handled(old, new, key, e),
    ensures
        e matches Effect::RemoveContext(n) ==> old.confirm_delete matches Some(idx)
            && is_confirm_key(key) && n == old.contexts@[idx as int].name,
        old.confirm_delete is None && new.confirm_delete is Some ==> (key == Key::Char('d')
            || key == Key::Delete) && new.confirm_delete == old.selected,
        old.confirm_delete is Some && !is_confirm_key(key) ==> new.confirm_delete is None
            && e is Nothing,
        !old.should_quit && new.should_quit ==> old.confirm_delete is None && (key == Key::Char(
            'q',
        ) || key == Key::Esc || (key == Key::Enter && old.selected is Some)),
        new.action != old.action ==> key == Key::Enter && old.confirm_delete is None
            && (old.selected matches Some(i) && new.action == Action::Switch(
            old.contexts@[i as int].name,
        )),
        new.contexts == old.contexts,
        e is RemoveContext ==> new == old,
{
}

/// With no deletion pending, Up and `k` move the selection to the context
/// before it, from the first to the last; Down and `j` move it to the one
/// after, from the last to the first.
pub proof fn law_up_down_keys(old: App, new: App, key: Key, e: Effect)
    requires
        old.wf(),
        old.confirm_delete is None,
        old.selected is Some,
        key_handled(old, new, key, e),
    ensures
        ({
            let i = old.selected->0 as int;
            let n = old.contexts@.len() as int;
            &&& (key == Key::Up || key == Key::Char('k')) ==> new.selected == Some(
                (if i == 0 {
                    n - 1
                } else {
                    i - 1
                }) as usize,
            )
            &&& (key == Key::Down || key == Key::Char('j')) ==> new.selected == Some(
                (if i + 1 == n {
                    0
                } else {
                    i + 1
                }) as usize,
            )
        }),
{
    let i = old.selected->0 as int;
    let n = old.contexts@.len() as int;
    if i + 1 < n {
        assert((i + 1) % n == i + 1) by (nonlinear_arith)
            requires
                0 <= i + 1 < n,
        ;
    } else {
        assert((i + 1) % n == 0) by (nonlinear_arith)
            requires
                i + 1 == n,
                n > 0,
        ;
    }
}

/// One handled key of a dashboard run: the key takes `a` to some state, and
/// a removal it asks for is reported before the next key, which gives `b`.
pub open spec fn run_step(a: App, b: App, key: Key, e: Effect) -> bool {
    exists|mid: App|
        #[trigger] key_handled(a, mid, key, e) && if e is RemoveContext {
            exists|err: Option<String>| #[trigger] removal_reported(mid, b, err)
        } else {
            b == mid
        }
}

/// A run of the dashboard: `apps[k + 1]` follows `apps[k]` on the key
/// `keys[k]`, which has the effect `effects[k]`.
pub open spec fn dashboard_run(apps: Seq<App>, keys: Seq<Key>, effects: Seq<Effect>) -> bool {
    &&& apps.len() == keys.len() + 1
    &&& effects.len() == keys.len()
    &&& forall|k: int|
        #![trigger keys[k]]
        0 <= k < keys.len() ==> run_step(apps[k], apps[k + 1], keys[k], effects[k])
}

/// Along a run that starts well formed, with a selection exactly when there
/// are contexts and no deletion pending, every state is so too, and a
/// pending deletion was asked for by the key just before, for the context
/// then selected.
pub proof fn lemma_run_states(apps: Seq<App>, keys: Seq<Key>, effects: Seq<Effect>, k: int)
    requires
        dashboard_run(apps, keys, effects),
        apps[0].wf(),
        selection_tracks(apps[0]),
        apps[0].confirm_delete is None,
        0 <= k < apps.len(),
    ensures
        apps[k].wf(),
        selection_tracks(apps[k]),
        apps[k].confirm_delete is Some ==> k >= 1 && (keys[k - 1] == Key::Char('d') || keys[k
            - 1] == Key::Delete) && apps[k].confirm_delete == apps[k - 1].selected
            && apps[k].contexts == apps[k - 1].contexts,
    decreases k,
{
    if k > 0 {
        let j = k - 1;
        lemma_run_states(apps, keys, effects, j);
        assert(run_step(apps[j], apps[j + 1], keys[j], effects[j]));
        let a = apps[j];
        let b = apps[k];
        let mid = choose|mid: App|
            #[trigger] key_handled(a, mid, keys[j], effects[j]) && if effects[j] is RemoveContext {
                exists|err: Option<String>| #[trigger] removal_reported(mid, b, err)
            } else {
                b == mid
            };
        law_keys_keep_selection(a, mid, keys[j], effects[j]);
        law_keys_that_act(a, mid, keys[j], effects[j]);
        if effects[j] is RemoveContext {
            let err = choose|err: Option<String>| #[trigger] removal_reported(mid, b, err);
            law_removal_keeps_selection(mid, b, err);
        }
    }
}

/// Over any run of the dashboard from a well-formed start with no deletion
/// pending: a context is removed only on a confirming key right after `d`
/// or Delete, and it is the context selected when that key was pressed; the
/// dashboard closes only on `q`, Esc, or Enter with a context selected,
/// with no deletion pending; and only Enter chooses a context to switch to.
pub proof fn law_dashboard_run(apps: Seq<App>, keys: Seq<Key>, effects: Seq<Effect>)
    requires
        dashboard_run(apps, keys, effects),
        apps[0].wf(),
        selection_tracks(apps[0]),
        apps[0].confirm_delete is None,
    ensures
        forall|k: int|
            0 <= k < keys.len() && (#[trigger] effects[k] is RemoveContext) ==> k >= 1 && (keys[k
                - 1] == Key::Char('d') || keys[k - 1] == Key::Delete) && is_confirm_key(keys[k])
                && (apps[k - 1].selected matches Some(i) && effects[k] == Effect::RemoveContext(
                apps[k - 1].contexts@[i as int].name,
            )),
        forall|k: int|
            0 <= k < keys.len() && !apps[k].should_quit && (#[trigger] apps[k + 1]).should_quit
                ==> apps[k].confirm_delete is None && (keys[k] == Key::Char('q') || keys[k]
                == Key::Esc || (keys[k] == Key::Enter && apps[k].selected is Some)),
        forall|k: int|
            0 <= k < keys.len() && (#[trigger] apps[k + 1]).action != apps[k].action ==> keys[k]
                == Key::Enter && (apps[k].selected matches Some(i) && apps[k + 1].action
                == Action::Switch(apps[k].contexts@[i as int].name)),
{
    assert forall|k: int| 0 <= k < keys.len() implies {
        &&& (#[trigger] effects[k] is RemoveContext) ==> k >= 1 && (keys[k - 1] == Key::Char('d')
            || keys[k - 1] == Key::Delete) && is_confirm_key(keys[k]) && (apps[k - 1].selected matches Some(
            i,
        ) && effects[k] == Effect::RemoveContext(apps[k - 1].contexts@[i as int].name))
        &&& !apps[k].should_quit && apps[k + 1].should_quit ==> apps[k].confirm_delete is None && (
        keys[k] == Key::Char('q') || keys[k] == Key::Esc || (keys[k] == Key::Enter
            && apps[k].selected is Some))
        &&& apps[k + 1].action != apps[k].action ==> keys[k] == Key::Enter && (apps[k].selected matches Some(
            i,
        ) && apps[k + 1].action == Action::Switch(apps[k].contexts@[i as int].name))
    } by {
        lemma_run_states(apps, keys, effects, k);
        assert(run_step(apps[k], apps[k + 1], keys[k], effects[k]));
        let a = apps[k];
        let b = apps[k + 1];
        let mid = choose|mid: App|
            #[trigger] key_handled(a, mid, keys[k], effects[k]) && if effects[k] is RemoveContext {
                exists|err: Option<String>| #[trigger] removal_reported(mid, b, err)
            } else {
                b == mid
            };
        law_keys_that_act(a, mid, keys[k], effects[k]);
        if effects[k] is RemoveContext {
            let err = choose|err: Option<String>| #[trigger] removal_reported(mid, b, err);
            assert(mid == a);
        }
    }
}

/// The interactive dashboard's state.
pub struct App {
    pub contexts: Vec<ProjectContext>,
    pub selected: Option<usize>,
    pub active_ports: Vec<(u16, String)>,
    pub service_health: Vec<(String, Vec<(String, u32, bool)>)>,
    pub should_quit: bool,
    pub action: Action,
    pub confirm_delete: Option<usize>,
    pub status_message: Option<String>,
}

impl App {
    /// The selection and a pending deletion point at listed contexts.
    pub open spec fn wf(&self) -> bool {
        &&& self.selected matches Some(i) ==> i < self.contexts@.len()
        &&& self.confirm_delete matches Some(i) ==> i < self.contexts@.len()
    }

    /// A dashboard over the saved contexts, with the first one selected.
    pub fn new(
        contexts: Vec<ProjectContext>,
        active_ports: Vec<(u16, String)>,
        service_health: Vec<(String, Vec<(String, u32, bool)>)>,
    ) -> (app: Self)
        ensures
            app.wf(),
            app.contexts@ == contexts@,
            app.active_ports@ == active_ports@,
            app.service_health@ == service_health@,
            app.selected == (if contexts@.len() > 0 {
                Some(0usize)
            } else {
                None
            }),
            !app.should_quit,
            app.action is Stay,
            app.confirm_delete is None,
            app.status_message is None,
            selection_tracks(app),
    {
        let selected = if contexts.len() > 0 {
            Some(0)
        } else {
            None
        };
        App {
            contexts,
            selected,
            active_ports,
            service_health,
            should_quit: false,
            action: Action::Stay,
            confirm_delete: None,
            status_message: None,
        }
    }

    /// The selected context.
    pub fn selected_context(&self) -> (r: Option<&ProjectContext>)
        requires
            self.wf(),
        ensures
            match self.selected {
                Some(i) => r == Some(&self.contexts@[i as int]),
                None => r is None,
            },
    {
        match self.selected {
            Some(i) => Some(&self.contexts[i]),
            None => None,
        }
    }

    /// Select the next context, after the last the first; any pending
    /// deletion is dropped.
    pub fn next(&mut self)
        requires
            old(self).wf(),
        ensures
            final(self).wf(),
            final(self).contexts == old(self).contexts,
            final(self).active_ports == old(self).active_ports,
            final(self).service_health == old(self).service_health,
            old(self).contexts@.len() == 0 ==> *final(self) == *old(self),
            old(self).contexts@.len() > 0 ==> final(self).selected == Some(
                next_index(old(self).selected, old(self).contexts@.len()) as usize,
            ) && final(self).confirm_delete is None,
            final(self).should_quit == old(self).should_quit,
            final(self).action == old(self).action,
            final(self).status_message == old(self).status_message,
    {
        let n = self.contexts.len();
        if n == 0 {
            return;
        }
        let i = match self.selected {
            Some(i) => (i + 1) % n,
            None => 0,
        };
        self.selected = Some(i);
        self.confirm_delete = None;
    }

    /// Select the previous context, before the first the last; any pending
    /// deletion is dropped.
    pub fn previous(&mut self)
        requires
            old(self).wf(),
        ensures
            final(self).wf(),
            final(self).contexts == old(self).contexts,
            final(self).active_ports == old(self).active_ports,
            final(self).service_health == old(self).service_health,
            old(self).contexts@.len() == 0 ==> *final(self) == *old(self),
            old(self).contexts@.len() > 0 ==> final(self).selected == Some(
                previous_index(old(self).selected, old(self).contexts@.len()) as usize,
            ) && final(self).confirm_delete is None,
            final(self).should_quit == old(self).should_quit,
            final(self).action == old(self).action,
            final(self).status_message == old(self).status_message,
    {
        let n = self.contexts.len();
        if n == 0 {
            return;
        }
        let i = match self.selected {
            Some(i) => if i == 0 {
                n - 1
            } else {
                i - 1
            },
            None => 0,
        };
        self.selected = Some(i);
        self.confirm_delete = None;
    }

    /// The health rows of the context called `name`, none if it has none.
    pub fn get_health(&self, name: &str) -> (r: &[(String, u32, bool)])
        ensures
            r@ == health_lookup(self.service_health@, name@),
    {
        let k: String = name.to_owned();
        let mut i: usize = 0;
        let ghost sh = self.service_health@;
        assert(sh.skip(0) =~= sh);
        while i < self.service_health.len()
            invariant
                i <= sh.len(),
                sh == self.service_health@,
                k@ == name@,
                health_lookup(sh, name@) == health_lookup(sh.skip(i as int), name@),
            decreases sh.len() - i,
        {
            assert(sh.skip(i as int)[0] == sh[i as int]);
            if self.service_health[i].0 == k {
                return self.service_health[i].1.as_slice();
            }
            assert(sh.skip(i as int).drop_first() =~= sh.skip(i + 1));
            i += 1;
        }
        let empty: &[(String, u32, bool)] = &[];
        assert(empty@ =~= Seq::<(String, u32, bool)>::empty());
        empty
    }

    /// The list of contexts, one label each, in order.
    pub fn list_labels(&self) -> (r: Vec<String>)
        ensures
            r@.len() == self.contexts@.len(),
            forall|i: int|
                0 <= i < r@.len() ==> #[trigger] r@[i]@ == context_label(
                    self.contexts@[i],
                    health_lookup(self.service_health@, self.contexts@[i].name@),
                ),
    {
        let mut r: Vec<String> = Vec::new();
        for i in 0..self.contexts.len()
            invariant
                r@.len() == i,
                forall|k: int|
                    0 <= k < i ==> #[trigger] r@[k]@ == context_label(
                        self.contexts@[k],
                        health_lookup(self.service_health@, self.contexts@[k].name@),
                    ),
        {
            let h = self.get_health(self.contexts[i].name.as_str());
            r.push(context_label_text(&self.contexts[i], h));
        }
        r
    }

    /// The details panel: the selected context's details with its services'
    /// health and the listening ports, or a note that none is selected.
    pub fn details(&self) -> (r: Vec<Vec<Span>>)
        requires
            self.wf(),
        ensures
            lines_view(r@) == match self.selected {
                Some(i) => detail_spec(
                    self.contexts@[i as int],
                    health_lookup(self.service_health@, self.contexts@[i as int].name@),
                    self.active_ports@,
                    last_used_long(self.contexts@[i as int].last_accessed),
                ),
                None => no_selection(),
            },
    {
        match self.selected {
            Some(i) => {
                let ctx = &self.contexts[i];
                let h = self.get_health(ctx.name.as_str());
                detail_lines(ctx, h, self.active_ports.as_slice())
            },
            None => {
                let r = vec![text_line("No context selected".to_owned(), Tone::Plain, false)];
                assert(lines_view(r@) =~= no_selection());
                r
            },
        }
    }

    /// The footer: the status message, or else the key help; shown in yellow
    /// while a deletion waits for confirmation.
    pub fn footer(&self) -> (r: (String, Tone))
        ensures
            r.0@ == match self.status_message {
                Some(m) => m@,
                None => " \u{2191}/\u{2193} navigate  |  Enter switch  |  d delete  |  q quit"@,
            },
            r.1 == if self.confirm_delete is Some {
                Tone::Yellow
            } else {
                Tone::DarkGray
            },
    {
        let text = match &self.status_message {
            Some(m) => m.clone(),
            None => " \u{2191}/\u{2193} navigate  |  Enter switch  |  d delete  |  q quit".to_owned(),
        };
        let tone = if self.confirm_delete.is_some() {
            Tone::Yellow
        } else {
            Tone::DarkGray
        };
        (text, tone)
    }

    /// React to a key event: a press is handled as `handle_key` does; any
    /// other event leaves the dashboard as it is.
    pub fn handle_event(&mut self, key: Key, pressed: bool) -> (e: Effect)
        requires
            old(self).wf(),
        ensures
            final(self).wf(),
            pressed ==> key_handled(*old(self), *final(self), key, e),
            !pressed ==> *final(self) == *old(self) && e is Nothing,
    {
        if pressed {
            self.handle_key(key)
        } else {
            Effect::Nothing
        }
    }

    /// React to a key, as `key_handled` describes.
    pub fn handle_key(&mut self, key: Key) -> (e: Effect)
        requires
            old(self).wf(),
        ensures
            final(self).wf(),
            key_handled(*old(self), *final(self), key, e),
    {
        match self.confirm_delete {
            Some(idx) => {
                match key {
                    Key::Char('y') | Key::Char('Y') => {
                        Effect::RemoveContext(self.contexts[idx].name.clone())
                    },
                    _ => {
                        self.confirm_delete = None;
                        self.status_message = None;
                        Effect::Nothing
                    },
                }
            },
            None => {
                match key {
                    Key::Char('q') | Key::Esc => {
                        self.should_quit = true;
                    },
                    Key::Down | Key::Char('j') => {
                        self.next();
                    },
                    Key::Up | Key::Char('k') => {
                        self.previous();
                    },
                    Key::Enter => {
                        match self.selected {
                            Some(i) => {
                                self.action = Action::Switch(self.contexts[i].name.clone());
                                self.should_quit = true;
                            },
                            None => {},
                        }
                    },
                    Key::Char('d') | Key::Delete => {
                        match self.selected {
                            Some(i) => {
                                self.confirm_delete = Some(i);
                                let mut m = "Delete '".to_owned();
                                m.append(self.contexts[i].name.as_str());
                                m.append("'? Press y to confirm, any other key to cancel");
                                self.status_message = Some(m);
                            },
                            None => {},
                        }
                    },
                    _ => {},
                }
                Effect::Nothing
            },
        }
    }

    /// Report how the removal that the pending deletion asked for went:
    /// `error` holds the failure's message, if it failed. A removed context
    /// leaves the list, and the selection stays at its position or moves to
    /// the new last context.
    pub fn complete_removal(&mut self, error: Option<String>)
        requires
            old(self).wf(),
            old(self).confirm_delete is Some,
        ensures
            final(self).wf(),
            removal_reported(*old(self), *final(self), error),
    {
        let idx = match self.confirm_delete {
            Some(i) => i,
            None => 0,
        };
        match error {
            Some(msg) => {
                let mut m = "Error: ".to_owned();
                m.append(msg.as_str());
                self.status_message = Some(m);
            },
            None => {
                let mut m = "Removed '".to_owned();
                m.append(self.contexts[idx].name.as_str());
                m.append("'");
                self.status_message = Some(m);
                self.contexts.remove(idx);
                let n = self.contexts.len();
                if n > 0 {
                    let new_idx = if idx >= n {
                        n - 1
                    } else {
                        idx
                    };
                    self.selected = Some(new_idx);
                } else {
                    self.selected = None;
                }
            },
        }
        self.confirm_delete = None;
    }
}

} // verus!
