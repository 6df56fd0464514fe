use vstd::prelude::*;

use crate::context::{join_path, join_path_text, ProjectContext};
use crate::snapshot::Snapshot;
use crate::ports::{
    listen_report, listening_ports, one_per_port, parse_port_pid, port_pid, port_views, unknown_name,
    unknown_string, PortTool,
};
use crate::text::{decimal, push_decimal};
use crate::textmap::{
    entries_map, lemma_entries_map_at, lemma_entries_map_drop_first, lemma_entries_map_push,
    lemma_unique_keys_skip, unique_keys, TextMap,
};

verus! {

/// The two-level map view: context name to service name to process id.
pub open spec fn services_view(m: Map<Seq<char>, TextMap<u32>>) -> Map<
    Seq<char>,
    Map<Seq<char>, u32>,
> {
    Map::new(|k: Seq<char>| m.contains_key(k), |k: Seq<char>| m[k]@)
}

/// The state after recording that `service` of `context` runs as `pid`.
pub open spec fn registered(
    m: Map<Seq<char>, Map<Seq<char>, u32>>,
    context: Seq<char>,
    service: Seq<char>,
    pid: u32,
) -> Map<Seq<char>, Map<Seq<char>, u32>> {
    let inner = if m.contains_key(context) {
        m[context]
    } else {
        Map::empty()
    };
    m.insert(context, inner.insert(service, pid))
}

/// The state after recording, in order, that each of `started` runs for `context`.
pub open spec fn registered_all(
    m: Map<Seq<char>, Map<Seq<char>, u32>>,
    context: Seq<char>,
    started: Seq<(String, u32)>,
) -> Map<Seq<char>, Map<Seq<char>, u32>>
    decreases started.len(),
{
    if started.len() == 0 {
        m
    } else {
        registered(
            registered_all(m, context, started.drop_last()),
            context,
            started.last().0@,
            started.last().1,
        )
    }
}

/// The state after forgetting `service` of `context`; a context left with no
/// services is forgotten too.
pub open spec fn unregistered(
    m: Map<Seq<char>, Map<Seq<char>, u32>>,
    context: Seq<char>,
    service: Seq<char>,
) -> Map<Seq<char>, Map<Seq<char>, u32>> {
    if m.contains_key(context) {
        let inner = m[context].remove(service);
        if inner.dom() == Set::<Seq<char>>::empty() {
            m.remove(context)
        } else {
            m.insert(context, inner)
        }
    } else {
        m
    }
}

/// The services recorded for `context`: none where it has no record.
pub open spec fn services_of(m: Map<Seq<char>, Map<Seq<char>, u32>>, context: Seq<char>) -> Map<
    Seq<char>,
    u32,
> {
    if m.contains_key(context) {
        m[context]
    } else {
        Map::empty()
    }
}

/// The services recorded for `context` with their process ids, in the order
/// in which they were first recorded: none where it has no record.
pub open spec fn service_entries(s: ServiceState, context: Seq<char>) -> Seq<(String, u32)> {
    if s.running@.contains_key(context) {
        s.running@[context].entry_seq()
    } else {
        Seq::empty()
    }
}

/// Every recorded context has at least one service.
pub open spec fn no_empty_contexts(m: Map<Seq<char>, Map<Seq<char>, u32>>) -> bool {
    forall|c: Seq<char>| #[trigger] m.contains_key(c) ==> m[c].dom() != Set::<Seq<char>>::empty()
}

/// The process ids of the services started for each saved context.
pub struct ServiceState {
    /// Context name to (service name to process id).
    pub running: TextMap<TextMap<u32>>,
}

impl View for ServiceState {
    type V = Map<Seq<char>, Map<Seq<char>, u32>>;

    open spec fn view(&self) -> Map<Seq<char>, Map<Seq<char>, u32>> {
        services_view(self.running@)
    }
}

impl Default for ServiceState {
    fn default() -> (s: Self)
        ensures
            s@ == Map::<Seq<char>, Map<Seq<char>, u32>>::empty(),
    {
        ServiceState::new()
    }
}

impl ServiceState {
    /// A state with nothing recorded.
    pub fn new() -> (s: Self)
        ensures
            s@ == Map::<Seq<char>, Map<Seq<char>, u32>>::empty(),
    {
        let s = ServiceState { running: TextMap::new() };
        assert(s@ =~= Map::<Seq<char>, Map<Seq<char>, u32>>::empty());
        s
    }

    /// The file that holds the service state, under the home directory `home`.
    pub fn state_path(home: &str) -> (r: String)
        ensures
            r@ == join_path(join_path(home@, ".pylot"@), "services.json"@),
    {
        let dir = ProjectContext::config_dir(home);
        join_path_text(dir.as_str(), "services.json")
    }

    /// Record the services just started for `context`, in the order they
    /// were started: each name with its process id.
    pub fn register_started(&mut self, context: &str, started: &Vec<(String, u32)>)
        ensures
            final(self)@ == registered_all(old(self)@, context@, started@),
    {
        let ghost s0 = self@;
        for i in 0..started.len()
            invariant
                self@ == registered_all(s0, context@, started@.take(i as int)),
        {
            self.register(context, started[i].0.as_str(), started[i].1);
            assert(started@.take(i + 1).drop_last() =~= started@.take(i as int));
        }
        assert(started@.take(started.len() as int) =~= started@);
    }

    /// Record that a service was started.
    pub fn register(&mut self, context: &str, service: &str, pid: u32)
        ensures
            final(self)@ == registered(old(self)@, context@, service@, pid),
    {
        let ghost m0 = self.running@;
        let mut inner = match self.running.remove(context) {
            Some(m) => m,
            None => TextMap::new(),
        };
        let ghost i0 = inner@;
        inner.insert(service.to_owned(), pid);
        self.running.insert(context.to_owned(), inner);
        assert(self.running@ =~= m0.insert(context@, inner));
        assert(i0 == services_of(services_view(m0), context@));
        assert(self@ =~= registered(old(self)@, context@, service@, pid));
    }

    /// Remove a service record.
    pub fn unregister(&mut self, context: &str, service: &str)
        ensures
            final(self)@ == unregistered(old(self)@, context@, service@),
    {
        match self.running.remove(context) {
            Some(mut inner) => {
                inner.remove(service);
                if !inner.is_empty() {
                    self.running.insert(context.to_owned(), inner);
                    assert(self@ =~= unregistered(old(self)@, context@, service@));
                } else {
                    assert(self@ =~= unregistered(old(self)@, context@, service@));
                }
            },
            None => {
                assert(self@ =~= unregistered(old(self)@, context@, service@));
            },
        }
    }

    /// Get running services for a context: each recorded service once, with
    /// its process id.
    pub fn get_services(&self, context: &str) -> (r: Vec<(String, u32)>)
        ensures
            r@ == service_entries(*self, context@),
            unique_keys(r@),
            entries_map(r@) == services_of(self@, context@),
    {
        let mut r: Vec<(String, u32)> = Vec::new();
        match self.running.get(context) {
            Some(inner) => {
                let es = inner.entries();
                for i in 0..es.len()
                    invariant
                        r@ == es@.take(i as int),
                {
                    let name = es[i].0.clone();
                    r.push((name, es[i].1));
                    assert(r@ =~= es@.take(i + 1));
                }
                assert(es@.take(es@.len() as int) =~= es@);
            },
            None => {
                assert(r@ =~= service_entries(*self, context@));
                assert(entries_map(r@) =~= Map::<Seq<char>, u32>::empty());
            },
        }
        r
    }
}

/// After a service is registered, looking it up gives its process id, and
/// every other context keeps its services.
pub proof fn law_register_then_lookup(
    m: Map<Seq<char>, Map<Seq<char>, u32>>,
    context: Seq<char>,
    service: Seq<char>,
    pid: u32,
    other: Seq<char>,
)
    ensures
        services_of(registered(m, context, service, pid), context).contains_key(service),
        services_of(registered(m, context, service, pid), context)[service] == pid,
        other != context ==> services_of(registered(m, context, service, pid), other)
            == services_of(m, other),
{
}

/// Registering a service that was not recorded and then unregistering it
/// gives back the state before, when the context was not recorded with no
/// services.
pub proof fn law_unregister_undoes_register(
    m: Map<Seq<char>, Map<Seq<char>, u32>>,
    context: Seq<char>,
    service: Seq<char>,
    pid: u32,
)
    requires
        m.contains_key(context) ==> m[context].dom() != Set::<Seq<char>>::empty(),
        !services_of(m, context).contains_key(service),
    ensures
        unregistered(registered(m, context, service, pid), context, service) == m,
{
    let r = registered(m, context, service, pid);
    let inner = r[context].remove(service);
    assert(inner =~= services_of(m, context));
    if m.contains_key(context) {
        assert(inner.dom() != Set::<Seq<char>>::empty());
        assert(unregistered(r, context, service) =~= m);
    } else {
        assert(inner.dom() =~= Set::<Seq<char>>::empty());
        assert(unregistered(r, context, service) =~= m);
    }
}

/// Registering and unregistering never leave a context recorded with no services.
pub proof fn law_no_empty_contexts_kept(
    m: Map<Seq<char>, Map<Seq<char>, u32>>,
    context: Seq<char>,
    service: Seq<char>,
    pid: u32,
)
    requires
        no_empty_contexts(m),
    ensures
        no_empty_contexts(registered(m, context, service, pid)),
        no_empty_contexts(unregistered(m, context, service)),
{
    let r = registered(m, context, service, pid);
    assert forall|c: Seq<char>| #[trigger] r.contains_key(c) implies r[c].dom() != Set::<
        Seq<char>,
    >::empty() by {
        if c == context {
            assert(r[c].dom().contains(service));
        }
    }
}

/// Unregistering the same service twice is the same as doing it once.
pub proof fn law_unregister_idempotent(
    m: Map<Seq<char>, Map<Seq<char>, u32>>,
    context: Seq<char>,
    service: Seq<char>,
)
    ensures
        unregistered(unregistered(m, context, service), context, service) == unregistered(
            m,
            context,
            service,
        ),
{
    let u = unregistered(m, context, service);
    if u.contains_key(context) {
        assert(u[context].remove(service) =~= u[context]);
    }
    assert(unregistered(u, context, service) =~= u);
}

/// The last registration of a service decides its process id.
pub proof fn law_register_overwrites(
    m: Map<Seq<char>, Map<Seq<char>, u32>>,
    context: Seq<char>,
    service: Seq<char>,
    first: u32,
    second: u32,
)
    ensures
        registered(registered(m, context, service, first), context, service, second) == registered(
            m,
            context,
            service,
            second,
        ),
{
    let a = registered(registered(m, context, service, first), context, service, second);
    let b = registered(m, context, service, second);
    assert(a[context] =~= b[context]);
    assert(a =~= b);
}

/// Why a service operation failed.
#[derive(Debug, PartialEq, Eq)]
pub enum ServiceError {
    /// No process with this id is known.
    ProcessNotFound(u32),
}

impl ServiceError {
    /// The message shown for the error.
    pub fn message(&self) -> (m: String)
        ensures
            match self {
                ServiceError::ProcessNotFound(pid) => m@ == seq!['P', 'r', 'o', 'c', 'e', 's', 's', ' ']
                    + decimal(*pid as nat) + seq![' ', 'n', 'o', 't', ' ', 'f', 'o', 'u', 'n', 'd'],
            },
    {
        match self {
            ServiceError::ProcessNotFound(pid) => {
                let mut m = crate::text::string_of(&vec!['P', 'r', 'o', 'c', 'e', 's', 's', ' ']);
                push_decimal(&mut m, *pid as u64);
                let tail = crate::text::string_of(&vec![' ', 'n', 'o', 't', ' ', 'f', 'o', 'u', 'n', 'd']);
                m.append(tail.as_str());
                m
            },
        }
    }
}

/// The name of the process `pid` in a snapshot holding `names`, or
/// "unknown" where the snapshot does not hold it.
pub open spec fn name_or_unknown(names: Map<u32, Seq<char>>, pid: u32) -> Seq<char> {
    if names.contains_key(pid) {
        names[pid]
    } else {
        unknown_name()
    }
}

/// The process that a port report names, as the manager reports it: the
/// process id, and the process's name in the snapshot, or "unknown".
pub open spec fn port_owner_matches(
    r: Option<(u32, String)>,
    report: Seq<char>,
    tool: PortTool,
    names: Map<u32, Seq<char>>,
) -> bool {
    match port_pid(report, tool) {
        None => r is None,
        Some(pid) => r matches Some(o) && o.0 == pid && o.1@ == name_or_unknown(names, pid),
    }
}

/// What a per-port lookup reports, as text: the output of a lookup that
/// ran, or nothing.
pub open spec fn report_views(rs: Seq<(u16, Option<String>)>) -> Seq<(u16, Option<Seq<char>>)> {
    rs.map_values(
        |e: (u16, Option<String>)|
            (
                e.0,
                match e.1 {
                    Some(t) => Some(t@),
                    None => None,
                },
            ),
    )
}

/// The ports whose lookup names a listening process, with that process, in order.
pub open spec fn conflicting(rs: Seq<(u16, Option<Seq<char>>)>, tool: PortTool) -> Seq<(u16, u32)>
    decreases rs.len(),
{
    if rs.len() == 0 {
        Seq::empty()
    } else {
        let before = conflicting(rs.drop_last(), tool);
        match rs.last().1 {
            Some(report) => match port_pid(report, tool) {
                Some(pid) => before.push((rs.last().0, pid)),
                None => before,
            },
            None => before,
        }
    }
}

/// The `i`-th lookup ran and names a listening process.
pub open spec fn names_pid(rs: Seq<(u16, Option<Seq<char>>)>, i: int, tool: PortTool) -> bool {
    0 <= i < rs.len() && (rs[i].1 matches Some(rep) && port_pid(rep, tool) is Some)
}

/// The process that the `i`-th lookup names.
pub open spec fn named_pid(rs: Seq<(u16, Option<Seq<char>>)>, i: int, tool: PortTool) -> u32 {
    port_pid(rs[i].1->0, tool)->0
}

/// Some row of `c` is `row`.
pub open spec fn has_row(c: Seq<(u16, u32)>, row: (u16, u32)) -> bool {
    exists|j: int| 0 <= j < c.len() && c[j] == row
}

/// Some lookup of `rs` ran on port `row.0` and names the process `row.1`.
pub open spec fn has_busy_lookup(rs: Seq<(u16, Option<Seq<char>>)>, tool: PortTool, row: (u16, u32)) -> bool {
    exists|i: int| #[trigger] names_pid(rs, i, tool) && rs[i].0 == row.0 && named_pid(rs, i, tool) == row.1
}

/// A port whose lookup names a listening process is reported as a conflict
/// with that process.
pub proof fn law_busy_port_conflicts(rs: Seq<(u16, Option<Seq<char>>)>, tool: PortTool, i: int)
    requires
        names_pid(rs, i, tool),
    ensures
        has_row(conflicting(rs, tool), (rs[i].0, named_pid(rs, i, tool))),
    decreases rs.len(),
{
    let before = conflicting(rs.drop_last(), tool);
    let row = (rs[i].0, named_pid(rs, i, tool));
    if i == rs.len() - 1 {
        assert(conflicting(rs, tool) == before.push(row));
        assert(conflicting(rs, tool)[before.len() as int] == row);
    } else {
        assert(rs.drop_last()[i] == rs[i]);
        law_busy_port_conflicts(rs.drop_last(), tool, i);
        let j = choose|j: int| 0 <= j < before.len() && before[j] == row;
        assert(conflicting(rs, tool)[j] == row);
    }
}

/// Every reported conflict is a port whose lookup names that process.
pub proof fn law_conflicts_are_busy(rs: Seq<(u16, Option<Seq<char>>)>, tool: PortTool, j: int)
    requires
        0 <= j < conflicting(rs, tool).len(),
    ensures
        has_busy_lookup(rs, tool, conflicting(rs, tool)[j]),
    decreases rs.len(),
{
    let before = conflicting(rs.drop_last(), tool);
    let n = rs.len() - 1;
    if j < before.len() {
        assert(conflicting(rs, tool)[j] == before[j]);
        law_conflicts_are_busy(rs.drop_last(), tool, j);
        let i = choose|i: int|
            #[trigger] names_pid(rs.drop_last(), i, tool) && rs.drop_last()[i].0 == before[j].0
                && named_pid(rs.drop_last(), i, tool) == before[j].1;
        assert(rs.drop_last()[i] == rs[i]);
        assert(names_pid(rs, i, tool));
    } else {
        assert(names_pid(rs, n, tool));
    }
}

/// A reported conflict is the expected port and process, with the
/// process's name in the snapshot, or "unknown" where it does not hold it.
pub open spec fn conflict_row_ok(row: (u16, u32, String), c: (u16, u32), names: Map<
    u32,
    Seq<char>,
>) -> bool {
    &&& row.0 == c.0
    &&& row.1 == c.1
    &&& row.2@ == name_or_unknown(names, c.1)
}

/// The name and process id of each health row.
pub open spec fn health_pairs(r: Seq<(String, u32, bool)>) -> Seq<(String, u32)> {
    r.map_values(|e: (String, u32, bool)| (e.0, e.1))
}

/// The process ids of the entries, in order.
pub open spec fn pids_of(es: Seq<(String, u32)>) -> Seq<u32> {
    es.map_values(|e: (String, u32)| e.1)
}

/// Each service with its process id and whether that process is among `pids`.
pub open spec fn health_of(es: Seq<(String, u32)>, pids: Set<u32>) -> Seq<(String, u32, bool)> {
    es.map_values(|e: (String, u32)| (e.0, e.1, pids.contains(e.1)))
}

/// The entries whose process is among `pids`, in order.
pub open spec fn alive_entries(es: Seq<(String, u32)>, pids: Set<u32>) -> Seq<(String, u32)>
    decreases es.len(),
{
    if es.len() == 0 {
        Seq::empty()
    } else if pids.contains(es.last().1) {
        alive_entries(es.drop_last(), pids).push(es.last())
    } else {
        alive_entries(es.drop_last(), pids)
    }
}

/// The services of `m` whose process is among `pids`.
pub open spec fn alive_services(m: Map<Seq<char>, u32>, pids: Set<u32>) -> Map<Seq<char>, u32> {
    Map::new(|k: Seq<char>| m.contains_key(k) && pids.contains(m[k]), |k: Seq<char>| m[k])
}

/// The state after every service of `context` was stopped and forgotten.
pub open spec fn stopped_state(m: Map<Seq<char>, Map<Seq<char>, u32>>, context: Seq<char>) -> Map<
    Seq<char>,
    Map<Seq<char>, u32>,
> {
    if m.contains_key(context) && m[context].dom() != Set::<Seq<char>>::empty() {
        m.remove(context)
    } else {
        m
    }
}

/// After the services started for a context are recorded, each one that was
/// not started again later is recorded with its process id.
pub proof fn law_started_then_recorded(
    m: Map<Seq<char>, Map<Seq<char>, u32>>,
    context: Seq<char>,
    started: Seq<(String, u32)>,
    i: int,
)
    requires
        0 <= i < started.len(),
        forall|j: int| i < j < started.len() ==> (#[trigger] started[j]).0@ != started[i].0@,
    ensures
        services_of(registered_all(m, context, started), context).contains_key(started[i].0@),
        services_of(registered_all(m, context, started), context)[started[i].0@] == started[i].1,
    decreases started.len(),
{
    if i < started.len() - 1 {
        let rest = started.drop_last();
        assert forall|j: int| i < j < rest.len() implies (#[trigger] rest[j]).0@ != rest[i].0@ by {
            assert(rest[j] == started[j]);
        }
        law_started_then_recorded(m, context, rest, i);
        assert(started.last() == started[started.len() - 1]);
    }
}

/// Once every service of a context is stopped, no service of it is recorded.
pub proof fn law_stop_forgets_context(m: Map<Seq<char>, Map<Seq<char>, u32>>, context: Seq<char>)
    ensures
        services_of(stopped_state(m, context), context).dom() == Set::<Seq<char>>::empty(),
{
    if m.contains_key(context) && m[context].dom() == Set::<Seq<char>>::empty() {
    } else {
        assert(services_of(stopped_state(m, context), context).dom() =~= Set::<Seq<char>>::empty());
    }
}

/// Looks at the machine's processes, to tell which services still run.
pub struct ServiceManager {
    snapshot: Snapshot,
}

impl ServiceManager {
    /// The processes in the manager's snapshot, each id with its name.
    pub closed spec fn names(&self) -> Map<u32, Seq<char>> {
        self.snapshot.names()
    }

    /// The ids of the processes in the manager's snapshot.
    pub open spec fn pids(&self) -> Set<u32> {
        self.names().dom()
    }

    /// The ids of the processes the manager sent the kill signal, in order.
    pub closed spec fn signalled(&self) -> Seq<u32> {
        self.snapshot.signalled()
    }

    /// A manager with a fresh snapshot of the machine's processes, that has
    /// signalled no process yet.
    pub fn new() -> (m: Self)
        ensures
            m.signalled() == Seq::<u32>::empty(),
    {
        ServiceManager { snapshot: Snapshot::new() }
    }

    /// Check if a process is still running.
    pub fn is_process_alive(&self, pid: u32) -> (b: bool)
        ensures
            b == self.pids().contains(pid),
    {
        self.snapshot.holds(pid)
    }

    /// Kill a process by PID: a process the snapshot holds is sent the kill
    /// signal; any other is not found, and nothing is signalled.
    pub fn kill_process(&mut self, pid: u32) -> (r: Result<(), ServiceError>)
        ensures
            r is Ok == old(self).pids().contains(pid),
            r matches Err(e) ==> e == ServiceError::ProcessNotFound(pid),
            final(self).names() == old(self).names(),
            final(self).signalled() == if r is Ok {
                old(self).signalled().push(pid)
            } else {
                old(self).signalled()
            },
    {
        if self.is_process_alive(pid) {
            self.snapshot.kill(pid);
            Ok(())
        } else {
            Err(ServiceError::ProcessNotFound(pid))
        }
    }

    /// The name of the process with this id, or "unknown" where the
    /// snapshot does not hold it.
    pub fn process_name_or_unknown(&self, pid: u32) -> (n: String)
        ensures
            n@ == name_or_unknown(self.names(), pid),
    {
        match self.snapshot.name_of(pid) {
            Some(n) => n,
            None => unknown_string(),
        }
    }

    /// The process that a per-port report of `tool` names as listening,
    /// with its name.
    pub fn find_process_on_port(&self, report: &str, tool: PortTool) -> (r: Option<(u32, String)>)
        ensures
            port_owner_matches(r, report@, tool, self.names()),
    {
        match parse_port_pid(report, tool) {
            Some(pid) => Some((pid, self.process_name_or_unknown(pid))),
            None => None,
        }
    }

    /// Get all listening ports and their processes from the report of
    /// `tool`: one entry per port, by increasing port, each the first that
    /// the report gives for its port.
    pub fn get_listening_ports(&self, report: &str, tool: PortTool) -> (r: Vec<(u16, String)>)
        ensures
            one_per_port(port_views(r@), listen_report(report@, tool)),
    {
        listening_ports(report, tool)
    }

    /// Check which required ports are already in use: `lookups` holds, for
    /// each required port in order, the report of a lookup that ran, or
    /// nothing where it did not.
    pub fn check_port_conflicts(&self, lookups: &Vec<(u16, Option<String>)>, tool: PortTool) -> (r:
        Vec<(u16, u32, String)>)
        ensures
            r@.len() == conflicting(report_views(lookups@), tool).len(),
            forall|i: int|
                0 <= i < r@.len() ==> conflict_row_ok(
                    #[trigger] r@[i],
                    conflicting(report_views(lookups@), tool)[i],
                    self.names(),
                ),
    {
        let ghost rv = report_views(lookups@);
        let mut r: Vec<(u16, u32, String)> = Vec::new();
        for i in 0..lookups.len()
            invariant
                rv == report_views(lookups@),
                r@.len() == conflicting(rv.take(i as int), tool).len(),
                forall|j: int|
                    0 <= j < r@.len() ==> conflict_row_ok(
                        #[trigger] r@[j],
                        conflicting(rv.take(i as int), tool)[j],
                        self.names(),
                    ),
        {
            let ghost before = conflicting(rv.take(i as int), tool);
            assert(rv.take(i + 1).drop_last() =~= rv.take(i as int));
            assert(rv.take(i + 1).last() == rv[i as int]);
            match &lookups[i].1 {
                Some(report) => {
                    match self.find_process_on_port(report.as_str(), tool) {
                        Some((pid, name)) => {
                            let ghost old_r = r@;
                            r.push((lookups[i].0, pid, name));
                            let ghost after = conflicting(rv.take(i + 1), tool);
                            assert(after == before.push((lookups@[i as int].0, pid)));
                            assert forall|j: int| 0 <= j < r@.len() implies conflict_row_ok(
                                #[trigger] r@[j],
                                after[j],
                                self.names(),
                            ) by {
                                if j < old_r.len() {
                                    assert(r@[j] == old_r[j]);
                                    assert(conflict_row_ok(old_r[j], before[j], self.names()));
                                }
                            }
                        },
                        None => {
                            assert(conflicting(rv.take(i + 1), tool) == before);
                        },
                    }
                },
                None => {
                    assert(conflicting(rv.take(i + 1), tool) == before);
                },
            }
        }
        assert(rv.take(lookups.len() as int) =~= rv);
        r
    }

    /// Get service health status for a context: each recorded service once,
    /// with its process id and whether that process is running.
    pub fn service_health(&self, state: &ServiceState, context_name: &str) -> (r: Vec<
        (String, u32, bool),
    >)
        ensures
            r@ == health_of(service_entries(*state, context_name@), self.pids()),
            unique_keys(health_pairs(r@)),
            entries_map(health_pairs(r@)) == services_of(
                state@,
                context_name@,
            ),
            forall|i: int| 0 <= i < r@.len() ==> #[trigger] r@[i].2 == self.pids().contains(r@[i].1),
    {
        let services = state.get_services(context_name);
        let mut r: Vec<(String, u32, bool)> = Vec::new();
        assert(health_pairs(r@) =~= services@.take(0));
        assert(r@ =~= health_of(services@.take(0), self.pids()));
        for i in 0..services.len()
            invariant
                health_pairs(r@) == services@.take(i as int),
                r@ == health_of(services@.take(i as int), self.pids()),
                forall|j: int|
                    0 <= j < r@.len() ==> #[trigger] r@[j].2 == self.pids().contains(r@[j].1),
        {
            let name = services[i].0.clone();
            let pid = services[i].1;
            let alive = self.is_process_alive(pid);
            let ghost old_r = r@;
            r.push((name, pid, alive));
            assert(r@ == old_r.push((name, pid, alive)));
            assert(health_pairs(r@) =~= health_pairs(old_r).push((name, pid)));
            assert(services@.take(i + 1) =~= services@.take(i as int).push(services@[i as int]));
            assert(health_pairs(r@) =~= services@.take(i + 1));
            assert(r@ =~= health_of(services@.take(i + 1), self.pids()));
        }
        assert(services@.take(services.len() as int) =~= services@);
        r
    }

    /// Stop all services for a context: kill each recorded process that is
    /// still running, in order, forget every service of the context, and give
    /// back the services that were running.
    pub fn stop_services(&mut self, state: &mut ServiceState, context_name: &str) -> (r: Vec<
        (String, u32),
    >)
        ensures
            final(state)@ == stopped_state(old(state)@, context_name@),
            r@ == alive_entries(service_entries(*old(state), context_name@), old(self).pids()),
            unique_keys(r@),
            entries_map(r@) == alive_services(
                services_of(old(state)@, context_name@),
                old(self).pids(),
            ),
            final(self).names() == old(self).names(),
            final(self).signalled() == old(self).signalled() + pids_of(r@),
    {
        let ghost m0 = state@;
        let ghost c = context_name@;
        let services = state.get_services(context_name);
        let ghost sv = services@;
        let ghost all = entries_map(sv);
        let mut stopped: Vec<(String, u32)> = Vec::new();
        proof {
            if sv.len() > 0 {
                lemma_entries_map_at(sv, 0);
            }
            assert(entries_map(stopped@) =~= alive_services(entries_map(sv.take(0)), self.pids()));
            assert(stopped@ =~= alive_entries(sv.take(0), self.pids()));
            assert(old(self).signalled() + pids_of(stopped@) =~= old(self).signalled());
        }
        for i in 0..services.len()
            invariant
                sv == services@,
                unique_keys(sv),
                all == entries_map(sv),
                all == services_of(m0, c),
                c == context_name@,
                sv.len() > 0 ==> m0.contains_key(c),
                i == 0 ==> state@ == m0,
                self.names() == old(self).names(),
                self.signalled() == old(self).signalled() + pids_of(stopped@),
                i > 0 ==> state@ == (if entries_map(sv.skip(i as int)).dom() == Set::<
                    Seq<char>,
                >::empty() {
                    m0.remove(c)
                } else {
                    m0.insert(c, entries_map(sv.skip(i as int)))
                }),
                unique_keys(stopped@),
                stopped@ == alive_entries(sv.take(i as int), self.pids()),
                entries_map(stopped@) == alive_services(entries_map(sv.take(i as int)), self.pids()),
                forall|j: int|
                    0 <= j < stopped@.len() ==> entries_map(sv.take(i as int)).contains_key(
                        #[trigger] stopped@[j].0@,
                    ),
        {
            let name = &services[i].0;
            let pid = services[i].1;
            proof {
                lemma_unique_keys_skip(sv, i as int);
                lemma_entries_map_drop_first(sv.skip(i as int));
                assert(sv.skip(i as int).drop_first() =~= sv.skip(i + 1));
                assert(sv.skip(0) =~= sv);
                lemma_entries_map_at(sv.skip(i as int), 0);
            }
            if self.is_process_alive(pid) {
                let killed = self.kill_process(pid);
                assert(killed is Ok);
                let ghost before = stopped@;
                let e = (name.clone(), pid);
                stopped.push(e);
                proof {
                    assert(pids_of(stopped@) =~= pids_of(before).push(pid));
                    assert(old(self).signalled() + pids_of(stopped@) =~= (old(self).signalled()
                        + pids_of(before)).push(pid));
                    assert(!entries_map(sv.take(i as int)).contains_key(sv[i as int].0@)) by {
                        if entries_map(sv.take(i as int)).contains_key(sv[i as int].0@) {
                            let k = choose|k: int|
                                0 <= k < i && sv.take(i as int)[k].0@ == sv[i as int].0@;
                            assert(sv[k].0@ != sv[i as int].0@);
                        }
                    }
                    assert forall|j: int|
                        0 <= j < before.len() implies #[trigger] before[j].0@ != e.0@ by {
                        assert(entries_map(sv.take(i as int)).contains_key(before[j].0@));
                    }
                    assert(unique_keys(stopped@)) by {
                        assert forall|a: int, b: int|
                            0 <= a < stopped@.len() && 0 <= b < stopped@.len() && a != b implies #[trigger] stopped@[a].0@
                            != #[trigger] stopped@[b].0@ by {
                            if a < before.len() && b < before.len() {
                                assert(stopped@[a] == before[a] && stopped@[b] == before[b]);
                            } else if a < before.len() {
                                assert(stopped@[a] == before[a]);
                            } else {
                                assert(stopped@[b] == before[b]);
                            }
                        }
                    }
                    assert(stopped@ =~= before.push(e));
                    lemma_entries_map_push(before, e);

                }
            }
            proof {
                assert(sv.take(i + 1) =~= sv.take(i as int).push(sv[i as int]));
                assert(sv.take(i + 1).drop_last() =~= sv.take(i as int));
                assert(unique_keys(sv.take(i + 1))) by {
                    assert forall|a: int, b: int|
                        0 <= a < i + 1 && 0 <= b < i + 1 && a != b implies #[trigger] sv.take(
                            i + 1,
                        )[a].0@ != #[trigger] sv.take(i + 1)[b].0@ by {
                        assert(sv[a].0@ != sv[b].0@);
                    }
                }
                lemma_entries_map_push(sv.take(i as int), sv[i as int]);
                assert(!entries_map(sv.take(i as int)).contains_key(sv[i as int].0@)) by {
                    if entries_map(sv.take(i as int)).contains_key(sv[i as int].0@) {
                        let k = choose|k: int|
                            0 <= k < i && sv.take(i as int)[k].0@ == sv[i as int].0@;
                        assert(sv[k].0@ != sv[i as int].0@);
                    }
                }
                assert(entries_map(stopped@) =~= alive_services(
                    entries_map(sv.take(i + 1)),
                    self.pids(),
                ));
                assert forall|j: int| 0 <= j < stopped@.len() implies entries_map(
                    sv.take(i + 1),
                ).contains_key(#[trigger] stopped@[j].0@) by {
                    lemma_entries_map_at(stopped@, j);
                }
            }
            state.unregister(context_name, name.as_str());
            proof {
                let rem = entries_map(sv.skip(i as int));
                let next = entries_map(sv.skip(i + 1));
                assert(next == rem.remove(sv[i as int].0@));
                if i == 0 {
                    assert(m0[c] == rem);
                }
                if next.dom() == Set::<Seq<char>>::empty() {
                    assert(state@ =~= m0.remove(c));
                } else {
                    assert(state@ =~= m0.insert(c, next));
                }
            }
        }
        proof {
            let n = sv.len() as int;
            assert(sv.take(n) =~= sv);
            if n > 0 {
                assert(sv.skip(n) =~= Seq::<(String, u32)>::empty());
                assert(entries_map(sv.skip(n)).dom() =~= Set::<Seq<char>>::empty());
                assert(m0[c].dom() != Set::<Seq<char>>::empty()) by {
                    lemma_entries_map_at(sv, 0);
                }
            } else {
                assert(all.dom() =~= Set::<Seq<char>>::empty());
                assert(all.dom() == Set::<Seq<char>>::empty());
            }
        }
        stopped
    }
}

} // verus!
