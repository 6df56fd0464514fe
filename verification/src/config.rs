use vstd::prelude::*;

use crate::context::{opt_view, text_values, ProjectContext, Timestamp};
use crate::textmap::TextMap;

verus! {

/// A TOML value, holding as plain values what the project configuration reads.
/// A float's value is not kept.
#[derive(Debug, PartialEq)]
pub enum TomlValue {
    String(String),
    Integer(i64),
    Float,
    Boolean(bool),
    Datetime(String),
    Array(Vec<TomlValue>),
    Table(Vec<(String, TomlValue)>),
}

/// `toml::Value`, carried as an opaque value.
#[verifier::external_type_specification]
#[verifier::external_body]
pub struct ExTomlValue(toml::Value);

/// The value that `toml::from_str::<toml::Value>` reads from a document, or
/// none where it refuses the document.
pub uninterp spec fn toml_document(text: Seq<char>) -> Option<TomlValue>;

/// Converts a `toml::Value` to the library's value, variant by variant.
#[verifier::external_body]
fn value_from_toml(v: toml::Value) -> TomlValue {
    match v {
        toml::Value::String(s) => TomlValue::String(s),
        toml::Value::Integer(i) => TomlValue::Integer(i),
        toml::Value::Float(_) => TomlValue::Float,
        toml::Value::Boolean(b) => TomlValue::Boolean(b),
        toml::Value::Datetime(d) => TomlValue::Datetime(d.to_string()),
        toml::Value::Array(a) => TomlValue::Array(a.into_iter().map(value_from_toml).collect()),
        toml::Value::Table(t) => TomlValue::Table(
            t.into_iter().map(|(k, x)| (k, value_from_toml(x))).collect(),
        ),
    }
}

/// `toml::from_str::<toml::Value>`: the document's value, or the parser's
/// message where it refuses the document. The message's text is not stated.
#[verifier::external_body]
fn parse_toml(text: &str) -> (r: Result<TomlValue, String>)
    ensures
        match r {
            Ok(v) => toml_document(text@) == Some(v),
            Err(_) => toml_document(text@) is None,
        },
{
    match toml::from_str::<toml::Value>(text) {
        Ok(v) => Ok(value_from_toml(v)),
        Err(e) => Err(e.to_string()),
    }
}

/// Why a project configuration could not be read.
#[derive(Debug, PartialEq, Eq)]
pub enum ConfigError {
    /// The file is not valid TOML; the parser's message.
    Toml(String),
}

impl ConfigError {
    /// The message shown for the error.
    pub fn message(&self) -> (m: String)
        ensures
            match self {
                ConfigError::Toml(msg) => m@ == msg@,
            },
    {
        match self {
            ConfigError::Toml(msg) => msg.clone(),
        }
    }
}

/// The value of the first entry of `es` with key `key`.
pub open spec fn table_lookup(es: Seq<(String, TomlValue)>, key: Seq<char>) -> Option<TomlValue>
    decreases es.len(),
{
    if es.len() == 0 {
        None
    } else if es[0].0@ == key {
        Some(es[0].1)
    } else {
        table_lookup(es.drop_first(), key)
    }
}

/// `Value::get(key)`: the entry of a table, none for any other value.
pub open spec fn value_get(v: Option<TomlValue>, key: Seq<char>) -> Option<TomlValue> {
    match v {
        Some(TomlValue::Table(es)) => table_lookup(es@, key),
        _ => None,
    }
}

/// The string entries of a table, in order, as key and text.
pub open spec fn string_entries(es: Seq<(String, TomlValue)>) -> Seq<(Seq<char>, Seq<char>)>
    decreases es.len(),
{
    if es.len() == 0 {
        Seq::empty()
    } else {
        let r = string_entries(es.drop_last());
        match es.last().1 {
            TomlValue::String(s) => r.push((es.last().0@, s@)),
            _ => r,
        }
    }
}

/// `m` after inserting each of `ps` in order.
pub open spec fn insert_all(m: Map<Seq<char>, Seq<char>>, ps: Seq<(Seq<char>, Seq<char>)>) -> Map<
    Seq<char>,
    Seq<char>,
>
    decreases ps.len(),
{
    if ps.len() == 0 {
        m
    } else {
        insert_all(m, ps.drop_last()).insert(ps.last().0, ps.last().1)
    }
}

/// The integers of an array, in order, each cut to 16 bits as `as u16` does.
pub open spec fn port_items(items: Seq<TomlValue>) -> Seq<u16>
    decreases items.len(),
{
    if items.len() == 0 {
        Seq::empty()
    } else {
        let r = port_items(items.drop_last());
        match items.last() {
            TomlValue::Integer(i) => r.push(i as u16),
            _ => r,
        }
    }
}

/// The context marked as last used at `now`.
pub open spec fn touched(ctx: ProjectContext, now: Timestamp) -> ProjectContext {
    ProjectContext { last_accessed: Some(now), ..ctx }
}

/// What applying a configuration document does to a context: the document's
/// `env_file` string replaces the env file; each string entry of its
/// `services` table sets that service's command; the integers of its
/// `ports.required` array replace the required ports. Whatever is missing or
/// of another type changes nothing.
pub open spec fn config_applied(old: ProjectContext, new: ProjectContext, doc: TomlValue) -> bool {
    let d = Some(doc);
    &&& new.name == old.name
    &&& new.path == old.path
    &&& new.git_branch == old.git_branch
    &&& new.env_vars@ == old.env_vars@
    &&& new.last_accessed == old.last_accessed
    &&& opt_view(new.env_file) == match value_get(d, "env_file"@) {
        Some(TomlValue::String(s)) => Some(s@),
        _ => opt_view(old.env_file),
    }
    &&& text_values(new.services@) == match value_get(d, "services"@) {
        Some(TomlValue::Table(es)) => insert_all(text_values(old.services@), string_entries(es@)),
        _ => text_values(old.services@),
    }
    &&& new.ports_required@ == match value_get(value_get(d, "ports"@), "required"@) {
        Some(TomlValue::Array(items)) => port_items(items@),
        _ => old.ports_required@,
    }
}

/// A key inserted once more at the end keeps only its last value.
pub proof fn lemma_insert_all_shadow(
    m: Map<Seq<char>, Seq<char>>,
    ps: Seq<(Seq<char>, Seq<char>)>,
    k: Seq<char>,
    v: Seq<char>,
)
    ensures
        insert_all(m.insert(k, v), ps).insert(k, v) == insert_all(m, ps).insert(k, v),
    decreases ps.len(),
{
    if ps.len() > 0 {
        lemma_insert_all_shadow(m, ps.drop_last(), k, v);
        let a = insert_all(m.insert(k, v), ps.drop_last());
        let b = insert_all(m, ps.drop_last());
        assert(a.insert(k, v) =~= b.insert(k, v));
        let ak = a.insert(k, v);
        let bk = b.insert(k, v);
        let l = ps.last();
        let lhs = a.insert(l.0, l.1).insert(k, v);
        let rhs = b.insert(l.0, l.1).insert(k, v);
        assert forall|x: Seq<char>| #![auto] lhs.contains_key(x) == rhs.contains_key(x) by {
            if x != k && x != l.0 {
                assert(ak.contains_key(x) == a.contains_key(x));
                assert(bk.contains_key(x) == b.contains_key(x));
            }
        }
        assert forall|x: Seq<char>| #![auto] lhs.contains_key(x) implies lhs[x] == rhs[x] by {
            if x != k && x != l.0 {
                assert(ak.contains_key(x) == a.contains_key(x));
                assert(ak[x] == a[x]);
                assert(bk[x] == b[x]);
            }
        }
        assert(lhs =~= rhs);
    } else {
        assert(m.insert(k, v).insert(k, v) =~= m.insert(k, v));
    }
}

/// Inserting the same entries twice gives what inserting them once gives.
pub proof fn lemma_insert_all_twice(m: Map<Seq<char>, Seq<char>>, ps: Seq<(Seq<char>, Seq<char>)>)
    ensures
        insert_all(insert_all(m, ps), ps) == insert_all(m, ps),
    decreases ps.len(),
{
    if ps.len() > 0 {
        let q = ps.drop_last();
        let l = ps.last();
        lemma_insert_all_twice(m, q);
        lemma_insert_all_shadow(insert_all(m, q), q, l.0, l.1);
    }
}

/// Applying the same configuration document twice leaves the context as
/// applying it once does: reloading a project's configuration changes nothing.
pub proof fn law_config_reapply(a: ProjectContext, b: ProjectContext, c: ProjectContext, doc: TomlValue)
    requires
        config_applied(a, b, doc),
        config_applied(b, c, doc),
    ensures
        c.name == b.name,
        c.path == b.path,
        c.git_branch == b.git_branch,
        c.env_vars@ == b.env_vars@,
        c.last_accessed == b.last_accessed,
        opt_view(c.env_file) == opt_view(b.env_file),
        text_values(c.services@) == text_values(b.services@),
        c.ports_required@ == b.ports_required@,
{
    match value_get(Some(doc), "services"@) {
        Some(TomlValue::Table(es)) => {
            lemma_insert_all_twice(text_values(a.services@), string_entries(es@));
        },
        _ => {},
    }
}

/// A document read from the generated `.pylot.toml` template whose env file
/// is `env_file`: that `env_file` string, an empty `services` table (the
/// suggested services are comments) and an empty `ports.required` array.
pub open spec fn template_document(doc: TomlValue, env_file: Seq<char>) -> bool {
    &&& (value_get(Some(doc), "env_file"@) matches Some(TomlValue::String(s)) && s@ == env_file)
    &&& (value_get(Some(doc), "services"@) matches Some(TomlValue::Table(es)) && es@.len() == 0)
    &&& (value_get(value_get(Some(doc), "ports"@), "required"@) matches Some(
        TomlValue::Array(items),
    ) && items@.len() == 0)
}

/// Applying the generated template sets the env file it names, keeps the
/// context's services, and leaves it requiring no ports.
pub proof fn law_template_config(
    old: ProjectContext,
    new: ProjectContext,
    doc: TomlValue,
    env_file: Seq<char>,
)
    requires
        template_document(doc, env_file),
        config_applied(old, new, doc),
    ensures
        opt_view(new.env_file) == Some(env_file),
        text_values(new.services@) == text_values(old.services@),
        new.ports_required@.len() == 0,
        new.env_vars@ == old.env_vars@,
        new.git_branch == old.git_branch,
{
}

/// The entry of `es` with key `key`, first match.
pub fn table_get<'a>(es: &'a Vec<(String, TomlValue)>, key: &str) -> (r: Option<&'a TomlValue>)
    ensures
        match table_lookup(es@, key@) {
            Some(v) => r == Some(&v),
            None => r is None,
        },
{
    let k: String = key.to_owned();
    let mut i: usize = 0;
    assert(es@.skip(0) =~= es@);
    while i < es.len()
        invariant
            i <= es@.len(),
            k@ == key@,
            table_lookup(es@, key@) == table_lookup(es@.skip(i as int), key@),
        decreases es.len() - i,
    {
        assert(es@.skip(i as int)[0] == es@[i as int]);
        if es[i].0 == k {
            return Some(&es[i].1);
        }
        assert(es@.skip(i as int).drop_first() =~= es@.skip(i + 1));
        i += 1;
    }
    None
}

/// `Value::get(key)` on a value that may be missing.
pub fn get_in<'a>(v: Option<&'a TomlValue>, key: &str) -> (r: Option<&'a TomlValue>)
    ensures
        match value_get(
            match v {
                Some(x) => Some(*x),
                None => None,
            },
            key@,
        ) {
            Some(x) => r == Some(&x),
            None => r is None,
        },
{
    match v {
        Some(TomlValue::Table(es)) => table_get(es, key),
        _ => None,
    }
}

impl ProjectContext {
    /// Applies a parsed project configuration, as `config_applied` describes.
    pub fn apply_config_value(&mut self, doc: &TomlValue)
        ensures
            config_applied(*old(self), *final(self), *doc),
    {
        match get_in(Some(doc), "env_file") {
            Some(TomlValue::String(s)) => {
                self.env_file = Some(s.clone());
            },
            _ => {},
        }
        let ghost s1 = *self;
        match get_in(Some(doc), "services") {
            Some(TomlValue::Table(es)) => {
                let ghost base = text_values(self.services@);
                assert(es@.take(0) =~= Seq::<(String, TomlValue)>::empty());
                for i in 0..es.len()
                    invariant
                        text_values(self.services@) == insert_all(
                            base,
                            string_entries(es@.take(i as int)),
                        ),
                        self.name == s1.name,
                        self.path == s1.path,
                        self.git_branch == s1.git_branch,
                        self.env_vars == s1.env_vars,
                        self.env_file == s1.env_file,
                        self.ports_required == s1.ports_required,
                        self.last_accessed == s1.last_accessed,
                {
                    assert(es@.take(i + 1).drop_last() =~= es@.take(i as int));
                    assert(es@.take(i + 1).last() == es@[i as int]);
                    match &es[i].1 {
                        TomlValue::String(cmd) => {
                            assert(string_entries(es@.take(i + 1)) == string_entries(
                                es@.take(i as int),
                            ).push((es@[i as int].0@, cmd@)));
                            assert(string_entries(es@.take(i as int)).push(
                                (es@[i as int].0@, cmd@),
                            ).drop_last() =~= string_entries(es@.take(i as int)));
                            let ghost before = text_values(self.services@);
                            self.services.insert(es[i].0.clone(), cmd.clone());
                            assert(text_values(self.services@) =~= before.insert(
                                es@[i as int].0@,
                                cmd@,
                            ));
                        },
                        _ => {
                            assert(string_entries(es@.take(i + 1)) == string_entries(
                                es@.take(i as int),
                            ));
                        },
                    }
                }
                assert(es@.take(es.len() as int) =~= es@);
            },
            _ => {},
        }
        match get_in(get_in(Some(doc), "ports"), "required") {
            Some(TomlValue::Array(items)) => {
                let mut ports: Vec<u16> = Vec::new();
                assert(items@.take(0) =~= Seq::<TomlValue>::empty());
                for i in 0..items.len()
                    invariant
                        ports@ == port_items(items@.take(i as int)),
                {
                    assert(items@.take(i + 1).drop_last() =~= items@.take(i as int));
                    assert(items@.take(i + 1).last() == items@[i as int]);
                    match &items[i] {
                        TomlValue::Integer(p) => {
                            ports.push(#[verifier::truncate] (*p as u16));
                        },
                        _ => {},
                    }
                }
                assert(items@.take(items.len() as int) =~= items@);
                self.ports_required = ports;
            },
            _ => {},
        }
    }

    /// Reopen a saved context: it is marked as used `now`, then the project's
    /// `.pylot.toml` text is applied where the project has one. A document
    /// that does not parse gives the parser's message.
    pub fn load(saved: ProjectContext, project_config: Option<&str>, now: Timestamp) -> (r: Result<
        ProjectContext,
        ConfigError,
    >)
        ensures
            match project_config {
                None => r matches Ok(ctx) && ctx == touched(saved, now),
                Some(text) => match toml_document(text@) {
                    Some(doc) => r matches Ok(ctx) && config_applied(touched(saved, now), ctx, doc),
                    None => r is Err,
                },
            },
    {
        let mut ctx = saved;
        ctx.last_accessed = Some(now);
        match project_config {
            Some(text) => match ctx.apply_project_config(text) {
                Ok(()) => Ok(ctx),
                Err(e) => Err(e),
            },
            None => Ok(ctx),
        }
    }

    /// Load a project-local `.pylot.toml` configuration from its text: the
    /// parsed document is applied as `apply_config_value` does; a document
    /// that does not parse changes nothing and gives the parser's message.
    pub fn apply_project_config(&mut self, text: &str) -> (r: Result<(), ConfigError>)
        ensures
            match toml_document(text@) {
                Some(doc) => r is Ok && config_applied(*old(self), *final(self), doc),
                None => r is Err && *final(self) == *old(self),
            },
    {
        match parse_toml(text) {
            Ok(doc) => {
                self.apply_config_value(&doc);
                Ok(())
            },
            Err(msg) => Err(ConfigError::Toml(msg)),
        }
    }
}

} // verus!
