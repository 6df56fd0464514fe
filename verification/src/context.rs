use vstd::prelude::*;

use crate::text::{
    chars_of, copy_range, decimal, index_of, index_of_char, join, join_strings, lines,
    push_decimal, split_lines, string_of, string_views, strip_char, strip_chars, trim, trim_chars,
    views,
};
use crate::textmap::{TextMap, unique_keys};

verus! {

/// The text values of a map keyed by text.
pub open spec fn text_values(m: Map<Seq<char>, String>) -> Map<Seq<char>, Seq<char>> {
    Map::new(|k: Seq<char>| m.contains_key(k), |k: Seq<char>| m[k]@)
}

/// The variable that one line of a `.env` file sets: none for a blank line,
/// a `#` comment or a line without `=`; else the trimmed text before the
/// first `=`, and the trimmed text after it without surrounding quotes.
pub open spec fn env_line_entry(line: Seq<char>) -> Option<(Seq<char>, Seq<char>)> {
    let t = trim(line);
    if t.len() == 0 || t[0] == '#' {
        None
    } else {
        match index_of(t, '=') {
            None => None,
            Some(k) => Some((trim(t.take(k as int)), strip_char(trim(t.skip((k + 1) as int)), '"'))),
        }
    }
}

/// The variables that the lines of a `.env` file set; a later line wins.
pub open spec fn env_map(ls: Seq<Seq<char>>) -> Map<Seq<char>, Seq<char>>
    decreases ls.len(),
{
    if ls.len() == 0 {
        Map::empty()
    } else {
        let m = env_map(ls.drop_last());
        match env_line_entry(ls.last()) {
            Some(e) => m.insert(e.0, e.1),
            None => m,
        }
    }
}

/// Reads one line of a `.env` file.
pub fn parse_env_line(line: &Vec<char>) -> (r: Option<(String, String)>)
    ensures
        match env_line_entry(line@) {
            Some(e) => r matches Some(x) && x.0@ == e.0 && x.1@ == e.1,
            None => r is None,
        },
{
    let t = trim_chars(line);
    if t.len() == 0 || t[0] == '#' {
        return None;
    }
    match index_of_char(&t, '=') {
        None => None,
        Some(k) => {
            let key = trim_chars(&copy_range(&t, 0, k));
            let rest = copy_range(&t, k + 1, t.len());
            assert(rest@ =~= t@.skip(k + 1));
            assert(t@.subrange(0, k as int) =~= t@.take(k as int));
            let value = strip_chars(&trim_chars(&rest), '"');
            Some((string_of(&key), string_of(&value)))
        },
    }
}

/// The variables that a `.env` file sets.
pub fn parse_env_vars(content: &str) -> (r: TextMap<String>)
    ensures
        text_values(r@) == env_map(lines(content@)),
{
    let chars = chars_of(content);
    let ls = split_lines(&chars);
    let ghost lv = views(ls@);
    let mut m: TextMap<String> = TextMap::new();
    assert(lv.take(0) =~= Seq::<Seq<char>>::empty());
    assert(text_values(m@) =~= env_map(lv.take(0)));
    for i in 0..ls.len()
        invariant
            lv == views(ls@),
            text_values(m@) == env_map(lv.take(i as int)),
    {
        assert(lv.take(i + 1).drop_last() =~= lv.take(i as int));
        assert(lv.take(i + 1).last() == ls@[i as int]@);
        match parse_env_line(&ls[i]) {
            Some((k, v)) => {
                let ghost before = text_values(m@);
                m.insert(k, v);
                assert(text_values(m@) =~= before.insert(k@, v@));
            },
            None => {},
        }
    }
    assert(lv.take(ls.len() as int) =~= lv);
    m
}

/// A moment, as seconds and nanoseconds since the Unix epoch.
#[derive(Debug, Clone, Copy, PartialEq, Eq, Structural)]
pub struct Timestamp {
    pub secs: i64,
    pub nanos: u32,
}

/// The text that chrono's `DateTime<Utc>::format` gives for the moment
/// `secs` seconds and `nanos` nanoseconds after the Unix epoch and the format
/// `pattern`, or none where chrono cannot represent that moment.
pub uninterp spec fn utc_text(secs: i64, nanos: u32, pattern: Seq<char>) -> Option<Seq<char>>;

/// The formats this library shows moments in: a full date and time, and a
/// short one for tables.
pub open spec fn known_pattern(pattern: Seq<char>) -> bool {
    pattern == "%Y-%m-%d %H:%M"@ || pattern == "%b %d %H:%M"@
}

/// `chrono::DateTime::<Utc>::from_timestamp`, then `format(pattern)` written
/// out: the text is `utc_text` of the moment and pattern; none where chrono
/// cannot represent the moment. Only the library's own formats are passed,
/// which chrono always renders.
#[verifier::external_body]
pub(crate) fn format_utc(t: Timestamp, pattern: &str) -> (r: Option<String>)
    requires
        known_pattern(pattern@),
    ensures
        opt_view(r) == utc_text(t.secs, t.nanos, pattern@),
{
    match chrono::DateTime::from_timestamp(t.secs, t.nanos) {
        Some(d) => Some(d.format(pattern).to_string()),
        None => None,
    }
}

/// A saved project context: where the project lives and what switching to
/// it sets up.
#[derive(Debug)]
pub struct ProjectContext {
    pub name: String,
    pub path: String,
    pub git_branch: Option<String>,
    pub env_vars: TextMap<String>,
    pub env_file: Option<String>,
    pub services: TextMap<String>,
    pub ports_required: Vec<u16>,
    pub last_accessed: Option<Timestamp>,
}

/// Why a saved context could not be used.
#[derive(Debug, PartialEq, Eq)]
pub enum ContextError {
    /// No context is saved under this name, when loading it.
    NotFound(String),
    /// No context is saved under this name, when removing it.
    NothingToRemove(String),
}

impl ContextError {
    /// The message shown for the error.
    pub fn message(&self) -> (m: String)
        ensures
            m@ == match self {
                ContextError::NotFound(n) => "Context '"@ + n@
                    + "' not found. Run 'pylot list' to see available contexts."@,
                ContextError::NothingToRemove(n) => "Context '"@ + n@ + "' not found."@,
            },
    {
        let mut m = "Context '".to_owned();
        match self {
            ContextError::NotFound(n) => {
                m.append(n.as_str());
                m.append("' not found. Run 'pylot list' to see available contexts.");
            },
            ContextError::NothingToRemove(n) => {
                m.append(n.as_str());
                m.append("' not found.");
            },
        }
        m
    }
}

/// What a command printed on its standard output, and whether it succeeded.
#[derive(Debug, PartialEq, Eq)]
pub struct CommandOutput {
    pub success: bool,
    pub stdout: String,
}

/// The non-blank lines of `ls`, trimmed.
pub open spec fn change_lines(ls: Seq<Seq<char>>) -> Seq<Seq<char>>
    decreases ls.len(),
{
    if ls.len() == 0 {
        Seq::empty()
    } else {
        let r = change_lines(ls.drop_last());
        let t = trim(ls.last());
        if t.len() == 0 {
            r
        } else {
            r.push(t)
        }
    }
}

/// How many of `ls` start with `a` or with `b`.
pub open spec fn count_marked(ls: Seq<Seq<char>>, a: char, b: char) -> nat
    decreases ls.len(),
{
    if ls.len() == 0 {
        0
    } else {
        count_marked(ls.drop_last(), a, b) + if ls.last().len() > 0 && (ls.last()[0] == a
            || ls.last()[0] == b) {
            1nat
        } else {
            0nat
        }
    }
}

/// The parts of a summary of `git status --porcelain` lines: the modified,
/// the untracked or added and the deleted, each where there are some.
pub open spec fn summary_parts(cl: Seq<Seq<char>>) -> Seq<Seq<char>> {
    let m = count_marked(cl, 'M', 'M');
    let a = count_marked(cl, 'A', '?');
    let d = count_marked(cl, 'D', 'D');
    let pm = if m > 0 {
        seq![decimal(m) + " modified"@]
    } else {
        Seq::empty()
    };
    let pa = if a > 0 {
        seq![decimal(a) + " untracked/added"@]
    } else {
        Seq::empty()
    };
    let pd = if d > 0 {
        seq![decimal(d) + " deleted"@]
    } else {
        Seq::empty()
    };
    pm + pa + pd
}

/// A summary of `git status --porcelain` output.
pub open spec fn porcelain_summary(stdout: Seq<char>) -> Seq<char> {
    let cl = change_lines(lines(stdout));
    let parts = summary_parts(cl);
    if parts.len() == 0 {
        decimal(cl.len()) + " changes"@
    } else {
        join(parts, ", "@)
    }
}

/// The summary of uncommitted changes that `git status --porcelain` output
/// gives: none where the command did not run, failed or printed nothing.
pub open spec fn dirty_summary_of(out: Option<CommandOutput>) -> Option<Seq<char>> {
    match out {
        Some(o) => if o.success && o.stdout@.len() > 0 {
            Some(porcelain_summary(o.stdout@))
        } else {
            None
        },
        None => None,
    }
}

/// The working tree has uncommitted changes: `git status --porcelain` ran,
/// succeeded and printed something.
pub open spec fn is_dirty(out: Option<CommandOutput>) -> bool {
    match out {
        Some(o) => o.success && o.stdout@.len() > 0,
        None => false,
    }
}

/// The current branch that `git rev-parse --abbrev-ref HEAD` printed, trimmed.
pub open spec fn branch_of(out: Option<CommandOutput>) -> Option<Seq<char>> {
    match out {
        Some(o) => if o.success {
            Some(trim(o.stdout@))
        } else {
            None
        },
        None => None,
    }
}

/// Counts the changes in porcelain output and words the summary.
pub fn summarize_porcelain(stdout: &str) -> (r: String)
    ensures
        r@ == porcelain_summary(stdout@),
{
    let chars = chars_of(stdout);
    let ls = split_lines(&chars);
    let ghost lv = views(ls@);
    let mut total: usize = 0;
    let mut modified: usize = 0;
    let mut added: usize = 0;
    let mut deleted: usize = 0;
    assert(lv.take(0) =~= Seq::<Seq<char>>::empty());
    for i in 0..ls.len()
        invariant
            lv == views(ls@),
            total <= i,
            modified <= total,
            added <= total,
            deleted <= total,
            total == change_lines(lv.take(i as int)).len(),
            modified == count_marked(change_lines(lv.take(i as int)), 'M', 'M'),
            added == count_marked(change_lines(lv.take(i as int)), 'A', '?'),
            deleted == count_marked(change_lines(lv.take(i as int)), 'D', 'D'),
    {
        assert(lv.take(i + 1).drop_last() =~= lv.take(i as int));
        assert(lv.take(i + 1).last() == ls@[i as int]@);
        let t = trim_chars(&ls[i]);
        if t.len() > 0 {
            let ghost cl = change_lines(lv.take(i as int));
            assert(change_lines(lv.take(i + 1)) == cl.push(t@));
            assert(cl.push(t@).drop_last() =~= cl);
            total += 1;
            let c = t[0];
            if c == 'M' {
                modified += 1;
            }
            if c == 'A' || c == '?' {
                added += 1;
            }
            if c == 'D' {
                deleted += 1;
            }
        }
    }
    assert(lv.take(ls.len() as int) =~= lv);
    let mut parts: Vec<String> = Vec::new();
    if modified > 0 {
        let mut p = String::new();
        push_decimal(&mut p, modified as u64);
        p.append(" modified");
        parts.push(p);
    }
    if added > 0 {
        let mut p = String::new();
        push_decimal(&mut p, added as u64);
        p.append(" untracked/added");
        parts.push(p);
    }
    if deleted > 0 {
        let mut p = String::new();
        push_decimal(&mut p, deleted as u64);
        p.append(" deleted");
        parts.push(p);
    }
    let ghost cl = change_lines(lv);
    assert(string_views(parts@) =~= summary_parts(cl));
    if parts.len() == 0 {
        let mut r = String::new();
        push_decimal(&mut r, total as u64);
        r.append(" changes");
        assert(r@ =~= porcelain_summary(stdout@));
        r
    } else {
        join_strings(&parts, ", ")
    }
}

/// There is a summary of uncommitted changes exactly when the working tree
/// is dirty.
pub proof fn law_summary_iff_dirty(out: Option<CommandOutput>)
    ensures
        dirty_summary_of(out) is Some <==> is_dirty(out),
{
}

/// Which of the files that matter here a project directory holds.
pub struct ProjectFiles {
    pub dot_env: bool,
    pub dot_env_local: bool,
    pub dot_env_development: bool,
    pub package_json: bool,
    pub cargo_toml: bool,
    pub go_mod: bool,
    pub requirements_txt: bool,
    pub pyproject_toml: bool,
    pub docker_compose_yml: bool,
    pub docker_compose_yaml: bool,
    pub compose_yml: bool,
}

/// The env file of a project: the first of `.env`, `.env.local` and
/// `.env.development` that it holds.
pub open spec fn env_file_of(f: ProjectFiles) -> Option<Seq<char>> {
    if f.dot_env {
        Some(".env"@)
    } else if f.dot_env_local {
        Some(".env.local"@)
    } else if f.dot_env_development {
        Some(".env.development"@)
    } else {
        None
    }
}

/// The `.pylot.toml` template for a project with env file `env_file` and
/// the given files: a suggested service for each kind of project it looks like.
pub open spec fn config_template(env_file: Seq<char>, f: ProjectFiles) -> Seq<char> {
    "# pylot project configuration\n"@ + "# This file defines your project's dev environment\n\n"@
        + "env_file = \""@ + env_file + "\"\n\n"@ + "[services]\n"@
        + "# Define services that should run when switching to this project\n"@ + (if f.package_json {
        "# dev = \"npm run dev\"\n"@
    } else {
        Seq::empty()
    }) + (if f.cargo_toml {
        "# dev = \"cargo watch -x run\"\n"@
    } else {
        Seq::empty()
    }) + (if f.go_mod {
        "# dev = \"go run .\"\n"@
    } else {
        Seq::empty()
    }) + (if f.requirements_txt || f.pyproject_toml {
        "# dev = \"python manage.py runserver\"\n"@
    } else {
        Seq::empty()
    }) + (if f.docker_compose_yml || f.docker_compose_yaml || f.compose_yml {
        "# docker = \"docker compose up -d\"\n"@
    } else {
        Seq::empty()
    }) + "\n[ports]\n"@ + "# Ports your project needs \u{2014} pylot will warn about conflicts\n"@
        + "required = []\n"@
}

impl ProjectFiles {
    /// Detect the env file of the project.
    pub fn detect_env_file(&self) -> (r: Option<String>)
        ensures
            opt_view(r) == env_file_of(*self),
    {
        if self.dot_env {
            Some(".env".to_owned())
        } else if self.dot_env_local {
            Some(".env.local".to_owned())
        } else if self.dot_env_development {
            Some(".env.development".to_owned())
        } else {
            None
        }
    }
}

/// The text of an optional string.
pub open spec fn opt_view(o: Option<String>) -> Option<Seq<char>> {
    match o {
        Some(s) => Some(s@),
        None => None,
    }
}

/// What is read of a project directory to capture its context.
pub struct DirectoryScan {
    /// The directory's path.
    pub path: String,
    /// The directory's own name, where it has one.
    pub dir_name: Option<String>,
    /// What `git rev-parse --abbrev-ref HEAD` gave there, if it ran.
    pub branch_output: Option<CommandOutput>,
    /// The text of its `.env` file, if it could be read.
    pub env_content: Option<String>,
    /// Which of the files that matter it holds.
    pub files: ProjectFiles,
}

/// The context captured from a scanned directory under `name`, last used `now`.
pub open spec fn captured(ctx: ProjectContext, name: Seq<char>, scan: DirectoryScan, now: Timestamp) -> bool {
    &&& ctx.name@ == name
    &&& ctx.path@ == scan.path@
    &&& opt_view(ctx.git_branch) == branch_of(scan.branch_output)
    &&& text_values(ctx.env_vars@) == match scan.env_content {
        Some(c) => env_map(lines(c@)),
        None => Map::empty(),
    }
    &&& opt_view(ctx.env_file) == env_file_of(scan.files)
    &&& ctx.services@ == Map::<Seq<char>, String>::empty()
    &&& ctx.ports_required@.len() == 0
    &&& ctx.last_accessed == Some(now)
}

/// The name a directory is known by: its own name, or "unknown".
pub open spec fn dir_label(dir_name: Option<String>) -> Seq<char> {
    match dir_name {
        Some(n) => n@,
        None => "unknown"@,
    }
}

impl ProjectContext {
    /// Detect the current git branch from what `git rev-parse --abbrev-ref HEAD` gave.
    pub fn detect_git_branch(out: &Option<CommandOutput>) -> (r: Option<String>)
        ensures
            opt_view(r) == branch_of(*out),
    {
        match out {
            Some(o) => if o.success {
                let chars = chars_of(o.stdout.as_str());
                Some(string_of(&trim_chars(&chars)))
            } else {
                None
            },
            None => None,
        }
    }

    /// Check if the project directory has uncommitted git changes, from what
    /// `git status --porcelain` gave.
    pub fn has_dirty_git_state(status: &Option<CommandOutput>) -> (b: bool)
        ensures
            b == is_dirty(*status),
    {
        match status {
            Some(o) => o.success && !o.stdout.as_str().is_empty(),
            None => false,
        }
    }

    /// Get a summary of uncommitted changes, from what `git status --porcelain` gave.
    pub fn dirty_summary(status: &Option<CommandOutput>) -> (r: Option<String>)
        ensures
            opt_view(r) == dirty_summary_of(*status),
    {
        match status {
            Some(o) => {
                if !o.success || o.stdout.as_str().is_empty() {
                    None
                } else {
                    Some(summarize_porcelain(o.stdout.as_str()))
                }
            },
            None => None,
        }
    }

    /// The env file of a scanned project, as `detect_env_file` finds it.
    fn scanned_env_vars(scan: &DirectoryScan) -> (m: TextMap<String>)
        ensures
            text_values(m@) == match scan.env_content {
                Some(c) => env_map(lines(c@)),
                None => Map::empty(),
            },
    {
        match &scan.env_content {
            Some(c) => parse_env_vars(c.as_str()),
            None => {
                let m = TextMap::new();
                assert(text_values(m@) =~= Map::<Seq<char>, Seq<char>>::empty());
                m
            },
        }
    }

    /// Capture context from a scanned directory under `name`, before its
    /// project configuration is applied.
    pub fn capture_scanned(name: &str, scan: DirectoryScan, now: Timestamp) -> (ctx: Self)
        ensures
            captured(ctx, name@, scan, now),
    {
        let git_branch = Self::detect_git_branch(&scan.branch_output);
        let env_vars = Self::scanned_env_vars(&scan);
        let env_file = scan.files.detect_env_file();
        let services = TextMap::new();
        ProjectContext {
            name: name.to_owned(),
            path: scan.path,
            git_branch,
            env_vars,
            env_file,
            services,
            ports_required: Vec::new(),
            last_accessed: Some(now),
        }
    }

    /// Capture context from a scanned directory under `name`, then apply the
    /// project's `.pylot.toml` text where it has one.
    pub fn capture_current(
        name: &str,
        scan: DirectoryScan,
        project_config: Option<&str>,
        now: Timestamp,
    ) -> (r: Result<Self, crate::config::ConfigError>)
        ensures
            match project_config {
                None => r matches Ok(ctx) && captured(ctx, name@, scan, now),
                Some(text) => match crate::config::toml_document(text@) {
                    Some(doc) => r matches Ok(ctx) && exists|c: ProjectContext|
                        captured(c, name@, scan, now) && crate::config::config_applied(
                            c,
                            ctx,
                            doc,
                        ),
                    None => r is Err,
                },
            },
    {
        let mut ctx = Self::capture_scanned(name, scan, now);
        match project_config {
            Some(text) => {
                match ctx.apply_project_config(text) {
                    Ok(()) => Ok(ctx),
                    Err(e) => Err(e),
                }
            },
            None => Ok(ctx),
        }
    }

    /// Detect context from a scanned directory, named after the directory.
    pub fn detect_current(scan: DirectoryScan, now: Timestamp) -> (ctx: Self)
        ensures
            captured(ctx, dir_label(scan.dir_name), scan, now),
    {
        let name = match &scan.dir_name {
            Some(n) => n.clone(),
            None => "unknown".to_owned(),
        };
        Self::capture_scanned(name.as_str(), scan, now)
    }

    /// Generate a `.pylot.toml` template for a project with the given files.
    pub fn generate_config_template(files: &ProjectFiles) -> (t: String)
        ensures
            t@ == config_template(
                match env_file_of(*files) {
                    Some(e) => e,
                    None => ".env"@,
                },
                *files,
            ),
    {
        let env_file = match files.detect_env_file() {
            Some(e) => e,
            None => ".env".to_owned(),
        };
        let mut toml = String::new();
        toml.append("# pylot project configuration\n");
        toml.append("# This file defines your project's dev environment\n\n");
        toml.append("env_file = \"");
        toml.append(env_file.as_str());
        toml.append("\"\n\n");
        toml.append("[services]\n");
        toml.append("# Define services that should run when switching to this project\n");
        if files.package_json {
            toml.append("# dev = \"npm run dev\"\n");
        }
        if files.cargo_toml {
            toml.append("# dev = \"cargo watch -x run\"\n");
        }
        if files.go_mod {
            toml.append("# dev = \"go run .\"\n");
        }
        if files.requirements_txt || files.pyproject_toml {
            toml.append("# dev = \"python manage.py runserver\"\n");
        }
        if files.docker_compose_yml || files.docker_compose_yaml || files.compose_yml {
            toml.append("# docker = \"docker compose up -d\"\n");
        }
        toml.append("\n[ports]\n");
        toml.append("# Ports your project needs \u{2014} pylot will warn about conflicts\n");
        toml.append("required = []\n");
        assert(toml@ =~= config_template(
            match env_file_of(*files) {
                Some(e) => e,
                None => ".env"@,
            },
            *files,
        ));
        toml
    }
}

/// The `export` line of each environment variable, in order.
pub open spec fn export_lines(es: Seq<(String, String)>) -> Seq<Seq<char>>
    decreases es.len(),
{
    if es.len() == 0 {
        Seq::empty()
    } else {
        export_lines(es.drop_last()).push(
            "export "@ + es.last().0@ + "=\""@ + es.last().1@ + "\""@,
        )
    }
}

/// For each service, in order, a comment naming it and its command run in
/// the background.
pub open spec fn service_start_lines(es: Seq<(String, String)>) -> Seq<Seq<char>>
    decreases es.len(),
{
    if es.len() == 0 {
        Seq::empty()
    } else {
        service_start_lines(es.drop_last()).push("# Starting service: "@ + es.last().0@).push(
            es.last().1@ + " &"@,
        )
    }
}

/// The shell commands that switching to `ctx` runs: the marker line, a `cd`
/// to its path, a checkout of its branch, sourcing its env file, an export
/// of each variable and the start of each service.
pub open spec fn shell_command_lines(ctx: ProjectContext) -> Seq<Seq<char>> {
    seq!["__PYLOT_COMMANDS__"@, "cd \""@ + ctx.path@ + "\""@] + match ctx.git_branch {
        Some(b) => seq!["git checkout "@ + b@ + " 2>/dev/null"@],
        None => Seq::empty(),
    } + match ctx.env_file {
        Some(f) => seq!["set -a && source \""@ + f@ + "\" && set +a"@],
        None => Seq::empty(),
    } + export_lines(ctx.env_vars.entry_seq()) + service_start_lines(ctx.services.entry_seq())
}

/// `a` is not later than `b`: no time is earlier than any time, and times
/// compare by seconds, then nanoseconds.
pub open spec fn not_later(a: Option<Timestamp>, b: Option<Timestamp>) -> bool {
    match (a, b) {
        (None, _) => true,
        (Some(_), None) => false,
        (Some(x), Some(y)) => x.secs < y.secs || (x.secs == y.secs && x.nanos <= y.nanos),
    }
}

/// `order` places the contexts of `orig` into `r`: `r[i]` is `orig[order[i]]`,
/// each context exactly once, the most recently used first, and contexts used
/// at the same time in their original order.
pub open spec fn recency_order(r: Seq<ProjectContext>, orig: Seq<ProjectContext>, order: Seq<int>) -> bool {
    &&& r.len() == orig.len()
    &&& order.len() == r.len()
    &&& forall|i: int| 0 <= i < order.len() ==> 0 <= #[trigger] order[i] < orig.len()
    &&& forall|i: int, j: int|
        0 <= i < order.len() && 0 <= j < order.len() && i != j ==> #[trigger] order[i]
            != #[trigger] order[j]
    &&& forall|i: int| 0 <= i < r.len() ==> #[trigger] r[i] == orig[order[i]]
    &&& forall|i: int, j: int|
        0 <= i < j < r.len() ==> not_later(#[trigger] r[j].last_accessed, #[trigger] r[i].last_accessed)
    &&& forall|i: int, j: int|
        0 <= i < j < r.len() && r[i].last_accessed == r[j].last_accessed ==> #[trigger] order[i]
            < #[trigger] order[j]
}

/// Of two moments, one is not later than the other.
pub proof fn lemma_not_later_total(a: Option<Timestamp>, b: Option<Timestamp>)
    ensures
        not_later(a, b) || not_later(b, a),
        not_later(a, b) && not_later(b, a) ==> a == b,
{
}

/// Being not later is transitive.
pub proof fn lemma_not_later_trans(a: Option<Timestamp>, b: Option<Timestamp>, c: Option<Timestamp>)
    requires
        not_later(a, b),
        not_later(b, c),
    ensures
        not_later(a, c),
{
}

/// Inserting the next context at `p`, after every context that is not
/// older than it, keeps the contexts ordered by recency.
pub proof fn lemma_recency_insert(
    r: Seq<ProjectContext>,
    orig: Seq<ProjectContext>,
    order: Seq<int>,
    p: int,
)
    requires
        recency_order(r, orig.take(r.len() as int), order),
        r.len() < orig.len(),
        0 <= p <= r.len(),
        forall|k: int| 0 <= k < p ==> not_later(orig[r.len() as int].last_accessed, #[trigger] r[k].last_accessed),
        p < r.len() ==> !not_later(orig[r.len() as int].last_accessed, r[p].last_accessed),
    ensures
        recency_order(
            r.insert(p, orig[r.len() as int]),
            orig.take((r.len() + 1) as int),
            order.insert(p, r.len() as int),
        ),
{
    let n = r.len() as int;
    let c = orig[n];
    let nr = r.insert(p, c);
    let no = order.insert(p, n);
    let o1 = orig.take(n + 1);
    let o0 = orig.take(n);
    assert forall|i: int| 0 <= i < no.len() implies 0 <= #[trigger] no[i] < o1.len() by {
        if i < p {
            assert(no[i] == order[i]);
        } else if i > p {
            assert(no[i] == order[i - 1]);
        }
    }
    assert forall|i: int, j: int|
        0 <= i < no.len() && 0 <= j < no.len() && i != j implies #[trigger] no[i] != #[trigger] no[j] by {
        let oi = if i < p { i } else { i - 1 };
        let oj = if j < p { j } else { j - 1 };
        if i != p && j != p {
            assert(no[i] == order[oi] && no[j] == order[oj]);
        } else if i == p {
            assert(no[j] == order[oj]);
            assert(order[oj] < n);
        } else {
            assert(no[i] == order[oi]);
            assert(order[oi] < n);
        }
    }
    assert forall|i: int| 0 <= i < nr.len() implies #[trigger] nr[i] == o1[no[i]] by {
        if i < p {
            assert(nr[i] == r[i] && no[i] == order[i]);
            assert(r[i] == o0[order[i]]);
        } else if i > p {
            assert(nr[i] == r[i - 1] && no[i] == order[i - 1]);
            assert(r[i - 1] == o0[order[i - 1]]);
        }
    }
    assert forall|i: int, j: int| 0 <= i < j < nr.len() implies not_later(
        #[trigger] nr[j].last_accessed,
        #[trigger] nr[i].last_accessed,
    ) by {
        if j < p {
            assert(nr[i] == r[i] && nr[j] == r[j]);
        } else if j == p {
            assert(nr[i] == r[i]);
        } else if i < p {
            assert(nr[i] == r[i] && nr[j] == r[j - 1]);
            if i < j - 1 {
                assert(not_later(r[j - 1].last_accessed, r[i].last_accessed));
            }
        } else if i == p {
            assert(nr[j] == r[j - 1]);
            lemma_not_later_total(c.last_accessed, r[p].last_accessed);
            if j - 1 > p {
                assert(not_later(r[j - 1].last_accessed, r[p].last_accessed));
                lemma_not_later_trans(r[j - 1].last_accessed, r[p].last_accessed, c.last_accessed);
            }
        } else {
            assert(nr[i] == r[i - 1] && nr[j] == r[j - 1]);
            assert(not_later(r[j - 1].last_accessed, r[i - 1].last_accessed));
        }
    }
    assert forall|i: int, j: int|
        0 <= i < j < nr.len() && nr[i].last_accessed == nr[j].last_accessed implies #[trigger] no[i]
        < #[trigger] no[j] by {
        if j < p {
            assert(nr[i] == r[i] && nr[j] == r[j] && no[i] == order[i] && no[j] == order[j]);
        } else if j == p {
            assert(no[i] == order[i]);
            assert(order[i] < n);
        } else if i < p {
            assert(nr[i] == r[i] && nr[j] == r[j - 1] && no[i] == order[i] && no[j] == order[j - 1]);
            if i < j - 1 {
            }
        } else if i == p {
            assert(nr[j] == r[j - 1]);
            lemma_not_later_total(c.last_accessed, r[p].last_accessed);
            if j - 1 > p {
                assert(not_later(r[j - 1].last_accessed, r[p].last_accessed));
                lemma_not_later_total(r[j - 1].last_accessed, r[p].last_accessed);
                lemma_not_later_total(c.last_accessed, r[j - 1].last_accessed);
                lemma_not_later_trans(c.last_accessed, r[j - 1].last_accessed, r[p].last_accessed);
            }
        } else {
            assert(nr[i] == r[i - 1] && nr[j] == r[j - 1] && no[i] == order[i - 1] && no[j]
                == order[j - 1]);
        }
    }
}

/// Whether a directory entry named `file_name` holds a saved context: its
/// extension is `json`.
pub open spec fn is_context_file_name(file_name: Seq<char>) -> bool {
    file_name.len() > 5 && file_name.skip(file_name.len() - 5) == ".json"@
}

/// `base` joined with the relative path `rest`, as `Path::join` does on Unix.
pub open spec fn join_path(base: Seq<char>, rest: Seq<char>) -> Seq<char> {
    if rest.len() > 0 && rest[0] == '/' {
        rest
    } else if base.len() == 0 {
        rest
    } else if base.last() == '/' {
        base + rest
    } else {
        base + seq!['/'] + rest
    }
}

/// `base` joined with `rest` as `Path::join` does on Unix.
pub fn join_path_text(base: &str, rest: &str) -> (r: String)
    ensures
        r@ == join_path(base@, rest@),
{
    let b = chars_of(base);
    let t = chars_of(rest);
    if t.len() > 0 && t[0] == '/' {
        rest.to_owned()
    } else if b.len() == 0 {
        rest.to_owned()
    } else if b[b.len() - 1] == '/' {
        let mut r = base.to_owned();
        r.append(rest);
        r
    } else {
        let mut r = base.to_owned();
        crate::text::push_char(&mut r, '/');
        r.append(rest);
        r
    }
}

impl ProjectContext {
    /// The lines to print for the parent shell to execute when switching to
    /// this context, one command per line, starting with the marker line.
    pub fn print_shell_commands(&self) -> (r: Vec<String>)
        ensures
            string_views(r@) == shell_command_lines(*self),
    {
        let mut r: Vec<String> = Vec::new();
        r.push("__PYLOT_COMMANDS__".to_owned());
        let mut cd = "cd \"".to_owned();
        cd.append(self.path.as_str());
        cd.append("\"");
        r.push(cd);
        match &self.git_branch {
            Some(b) => {
                let mut l = "git checkout ".to_owned();
                l.append(b.as_str());
                l.append(" 2>/dev/null");
                r.push(l);
            },
            None => {},
        }
        match &self.env_file {
            Some(f) => {
                let mut l = "set -a && source \"".to_owned();
                l.append(f.as_str());
                l.append("\" && set +a");
                r.push(l);
            },
            None => {},
        }
        let ghost head = string_views(r@);
        assert(head =~= seq!["__PYLOT_COMMANDS__"@, "cd \""@ + self.path@ + "\""@] + match self.git_branch {
            Some(b) => seq!["git checkout "@ + b@ + " 2>/dev/null"@],
            None => Seq::empty(),
        } + match self.env_file {
            Some(f) => seq!["set -a && source \""@ + f@ + "\" && set +a"@],
            None => Seq::empty(),
        });
        let vars = self.env_vars.entries();
        assert(vars@.take(0) =~= Seq::<(String, String)>::empty());
        assert(string_views(r@) =~= head + export_lines(vars@.take(0)));
        for i in 0..vars.len()
            invariant
                string_views(r@) == head + export_lines(vars@.take(i as int)),
        {
            assert(vars@.take(i + 1).drop_last() =~= vars@.take(i as int));
            let mut l = "export ".to_owned();
            l.append(vars[i].0.as_str());
            l.append("=\"");
            l.append(vars[i].1.as_str());
            l.append("\"");
            let ghost before = string_views(r@);
            r.push(l);
            assert(string_views(r@) =~= before.push(l@));
        }
        assert(vars@.take(vars.len() as int) =~= vars@);
        let ghost mid = string_views(r@);
        let svcs = self.services.entries();
        assert(svcs@.take(0) =~= Seq::<(String, String)>::empty());
        assert(string_views(r@) =~= mid + service_start_lines(svcs@.take(0)));
        for i in 0..svcs.len()
            invariant
                string_views(r@) == mid + service_start_lines(svcs@.take(i as int)),
        {
            assert(svcs@.take(i + 1).drop_last() =~= svcs@.take(i as int));
            let mut c = "# Starting service: ".to_owned();
            c.append(svcs[i].0.as_str());
            let mut l = svcs[i].1.clone();
            l.append(" &");
            let ghost before = string_views(r@);
            r.push(c);
            r.push(l);
            assert(string_views(r@) =~= before.push(c@).push(l@));
        }
        assert(svcs@.take(svcs.len() as int) =~= svcs@);
        assert(string_views(r@) =~= shell_command_lines(*self));
        r
    }

    /// Orders saved contexts as the list shows them: the most recently used
    /// first, contexts used at the same time in their given order.
    pub fn sort_by_recency(contexts: Vec<ProjectContext>) -> (r: Vec<ProjectContext>)
        ensures
            exists|order: Seq<int>| recency_order(r@, contexts@, order),
    {
        let ghost orig = contexts@;
        let total = contexts.len();
        let mut rest = contexts;
        let mut r: Vec<ProjectContext> = Vec::new();
        let ghost mut order: Seq<int> = Seq::empty();
        let mut n: usize = 0;
        assert(orig.skip(0) =~= orig);
        assert(orig.take(0) =~= Seq::<ProjectContext>::empty());
        while rest.len() > 0
            invariant
                n <= orig.len(),
                orig.len() == total,
                rest@ == orig.skip(n as int),
                r@.len() == n,
                recency_order(r@, orig.take(n as int), order),
            decreases rest.len(),
        {
            let c = rest.remove(0);
            assert(c == orig[n as int]);
            assert(rest@ =~= orig.skip(n + 1));
            let mut p: usize = 0;
            while p < r.len() && Self::is_not_later(&c.last_accessed, &r[p].last_accessed)
                invariant
                    p <= r@.len(),
                    forall|k: int|
                        0 <= k < p ==> not_later(c.last_accessed, #[trigger] r@[k].last_accessed),
                decreases r.len() - p,
            {
                p += 1;
            }
            proof {
                lemma_recency_insert(r@, orig, order, p as int);
                order = order.insert(p as int, n as int);
            }
            r.insert(p, c);
            n += 1;
        }
        assert(orig.take(n as int) =~= orig);
        r
    }

    /// Whether `a` is not later than `b`.
    pub fn is_not_later(a: &Option<Timestamp>, b: &Option<Timestamp>) -> (r: bool)
        ensures
            r == not_later(*a, *b),
    {
        match (a, b) {
            (None, _) => true,
            (Some(_), None) => false,
            (Some(x), Some(y)) => x.secs < y.secs || (x.secs == y.secs && x.nanos <= y.nanos),
        }
    }

    /// Whether a directory entry named `file_name` holds a saved context.
    pub fn is_context_file(file_name: &str) -> (b: bool)
        ensures
            b == is_context_file_name(file_name@),
    {
        let v = chars_of(file_name);
        let n = v.len();
        if n <= 5 {
            return false;
        }
        let ext = vec!['.', 'j', 's', 'o', 'n'];
        proof {
            vstd::string::axiom_str_literal_len(".json");
            reveal_strlit(".json");
        }
        assert(ext@ =~= ".json"@);
        let tail = copy_range(&v, n - 5, n);
        assert(tail@ =~= v@.skip(n - 5));
        let mut same = true;
        let mut i: usize = 0;
        assert(tail@.take(0) =~= ext@.take(0));
        while i < 5
            invariant
                i <= 5,
                tail@.len() == 5,
                ext@.len() == 5,
                same == (tail@.take(i as int) == ext@.take(i as int)),
            decreases 5 - i,
        {
            if tail[i] != ext[i] {
                assert(tail@.take(i + 1)[i as int] != ext@.take(i + 1)[i as int]);
                same = false;
            } else if same {
                assert(tail@.take(i + 1) =~= ext@.take(i + 1));
            } else {
                assert(tail@.take(i + 1).take(i as int) =~= tail@.take(i as int));
                assert(ext@.take(i + 1).take(i as int) =~= ext@.take(i as int));
            }
            i += 1;
        }
        assert(tail@.take(5) =~= tail@);
        assert(ext@.take(5) =~= ext@);
        same
    }

    /// The directory that holds the saved contexts, under the home directory `home`.
    pub fn config_dir(home: &str) -> (r: String)
        ensures
            r@ == join_path(home@, ".pylot"@),
    {
        join_path_text(home, ".pylot")
    }

    /// The file that holds the saved context called `name`.
    pub fn context_file(home: &str, name: &str) -> (r: String)
        ensures
            r@ == join_path(join_path(home@, ".pylot"@), name@ + ".json"@),
    {
        let dir = Self::config_dir(home);
        let mut file = name.to_owned();
        file.append(".json");
        join_path_text(dir.as_str(), file.as_str())
    }
}

} // verus!
