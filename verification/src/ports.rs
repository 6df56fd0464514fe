use vstd::prelude::*;

use crate::text::{
    chars_of, copy_range, find, find_chars, lemma_find_found, lemma_split_on_nonempty, lines, parse_unsigned,
    parse_unsigned_chars, split_chars, split_lines, split_on, split_words, string_of, trim,
    trim_chars, views, words,
};

verus! {

/// What `split(sep).last()` gives: the text after the last `sep`.
pub open spec fn last_field(s: Seq<char>, sep: char) -> Seq<char> {
    split_on(s, sep).last()
}

/// The name shown for a process whose name is not known.
pub open spec fn unknown_name() -> Seq<char> {
    seq!['u', 'n', 'k', 'n', 'o', 'w', 'n']
}

/// The name shown for a process whose name is not known.
pub fn unknown_string() -> (s: String)
    ensures
        s@ == unknown_name(),
{
    let v = vec!['u', 'n', 'k', 'n', 'o', 'w', 'n'];
    string_of(&v)
}

/// The listening socket that one line of `ss -tlnp` reports: the port after
/// the last `:` of the fourth column, and the process name between the first
/// two quotes of the last column.
pub open spec fn ss_listen_entry(line: Seq<char>) -> Option<(u16, Seq<char>)> {
    let parts = words(line);
    if parts.len() < 5 {
        None
    } else {
        match parse_unsigned(last_field(parts[3], ':'), 65535) {
            Some(p) => {
                let q = split_on(parts.last(), '"');
                Some((p as u16, if q.len() >= 2 { q[1] } else { unknown_name() }))
            },
            None => None,
        }
    }
}

/// The listening socket that one line of `lsof -iTCP -sTCP:LISTEN -nP`
/// reports: the command name in the first column and the port after the
/// last `:` of the ninth.
pub open spec fn lsof_listen_entry(line: Seq<char>) -> Option<(u16, Seq<char>)> {
    let parts = words(line);
    if parts.len() < 9 {
        None
    } else {
        match parse_unsigned(last_field(parts[8], ':'), 65535) {
            Some(p) => Some((p as u16, parts[0])),
            None => None,
        }
    }
}

/// The tool whose output lists the listening ports.
#[derive(Debug, Clone, Copy, PartialEq, Eq)]
pub enum PortTool {
    /// `ss`, on Linux.
    Ss,
    /// `lsof`, on macOS.
    Lsof,
}

/// The listening socket that one line of the report of `tool` names.
pub open spec fn listen_entry(line: Seq<char>, tool: PortTool) -> Option<(u16, Seq<char>)> {
    match tool {
        PortTool::Ss => ss_listen_entry(line),
        PortTool::Lsof => lsof_listen_entry(line),
    }
}

/// The sockets that the given report lines list, in order.
pub open spec fn listen_entries(ls: Seq<Seq<char>>, tool: PortTool) -> Seq<(u16, Seq<char>)>
    decreases ls.len(),
{
    if ls.len() == 0 {
        Seq::empty()
    } else {
        let r = listen_entries(ls.drop_last(), tool);
        match listen_entry(ls.last(), tool) {
            Some(e) => r.push(e),
            None => r,
        }
    }
}

/// The sockets that a report lists, after its header line.
pub open spec fn listen_report(out: Seq<char>, tool: PortTool) -> Seq<(u16, Seq<char>)> {
    let ls = lines(out);
    if ls.len() == 0 {
        Seq::empty()
    } else {
        listen_entries(ls.drop_first(), tool)
    }
}

/// The views of port and name pairs.
pub open spec fn port_views(v: Seq<(u16, String)>) -> Seq<(u16, Seq<char>)> {
    v.map_values(|e: (u16, String)| (e.0, e.1@))
}

/// `es[j]` is `x`, and no entry before it has the same port.
pub open spec fn is_first_entry(es: Seq<(u16, Seq<char>)>, j: int, x: (u16, Seq<char>)) -> bool {
    &&& 0 <= j < es.len()
    &&& es[j] == x
    &&& forall|k: int| 0 <= k < j ==> #[trigger] es[k].0 != x.0
}

/// `r[i]` has port `p`.
pub open spec fn port_at(r: Seq<(u16, Seq<char>)>, i: int, p: u16) -> bool {
    0 <= i < r.len() && r[i].0 == p
}

/// The entry at position `i`: names the positions that the facts below
/// speak of.
pub open spec fn entry_at(r: Seq<(u16, Seq<char>)>, i: int) -> (u16, Seq<char>) {
    r[i]
}

/// Some entry of `es` is `x` and is the first with its port.
pub open spec fn has_first_entry(es: Seq<(u16, Seq<char>)>, x: (u16, Seq<char>)) -> bool {
    exists|j: int| #[trigger] is_first_entry(es, j, x)
}

/// Some entry of `r` has port `p`.
pub open spec fn has_port(r: Seq<(u16, Seq<char>)>, p: u16) -> bool {
    exists|i: int| #[trigger] port_at(r, i, p)
}

/// `r` holds, by increasing port, the first entry of `es` for each port
/// that occurs in `es`: what a stable sort by port followed by dropping
/// repeated ports gives.
pub open spec fn one_per_port(r: Seq<(u16, Seq<char>)>, es: Seq<(u16, Seq<char>)>) -> bool {
    &&& forall|i: int, j: int| 0 <= i < j < r.len() ==> #[trigger] r[i].0 < #[trigger] r[j].0
    &&& forall|i: int| 0 <= i < r.len() ==> has_first_entry(es, #[trigger] entry_at(r, i))
    &&& forall|j: int| 0 <= j < es.len() ==> has_port(r, (#[trigger] entry_at(es, j)).0)
}

/// A first entry for its port stays first when more entries follow.
pub proof fn lemma_first_entry_extends(
    es: Seq<(u16, Seq<char>)>,
    e: (u16, Seq<char>),
    j: int,
    x: (u16, Seq<char>),
)
    requires
        is_first_entry(es, j, x),
    ensures
        is_first_entry(es.push(e), j, x),
{
    assert forall|k: int| 0 <= k < j implies #[trigger] es.push(e)[k].0 != x.0 by {
        assert(es.push(e)[k] == es[k]);
    }
}

/// Appending an entry whose port is already listed leaves the result for the longer list valid.
pub proof fn lemma_port_seen(
    rv: Seq<(u16, Seq<char>)>,
    en: Seq<(u16, Seq<char>)>,
    e: (u16, Seq<char>),
    pos: int,
)
    requires
        one_per_port(rv, en),
        0 <= pos < rv.len(),
        rv[pos].0 == e.0,
    ensures
        one_per_port(rv, en.push(e)),
{
    let en1 = en.push(e);
    assert forall|i: int| 0 <= i < rv.len() implies has_first_entry(en1, #[trigger] entry_at(rv, i)) by {
        assert(entry_at(rv, i) == rv[i]);
        let j = choose|j: int| #[trigger] is_first_entry(en, j, entry_at(rv, i));
        lemma_first_entry_extends(en, e, j, rv[i]);
    }
    assert forall|j: int| 0 <= j < en1.len() implies has_port(rv, (#[trigger] entry_at(en1, j)).0) by {
        if j < en.len() {
            assert(en1[j] == en[j]);
            assert(entry_at(en, j) == en[j]);
            let i = choose|i: int| #[trigger] port_at(rv, i, entry_at(en, j).0);
            assert(port_at(rv, i, entry_at(en1, j).0));
        } else {
            assert(port_at(rv, pos, entry_at(en1, j).0));
        }
    }
}

/// Appending an entry with a port not yet listed inserts it where its port belongs.
pub proof fn lemma_port_new(
    rv: Seq<(u16, Seq<char>)>,
    en: Seq<(u16, Seq<char>)>,
    e: (u16, Seq<char>),
    pos: int,
)
    requires
        one_per_port(rv, en),
        0 <= pos <= rv.len(),
        forall|k: int| 0 <= k < pos ==> rv[k].0 < e.0,
        pos < rv.len() ==> rv[pos].0 > e.0,
    ensures
        one_per_port(rv.insert(pos, e), en.push(e)),
{
    let en1 = en.push(e);
    let nv = rv.insert(pos, e);
    let n = en.len() as int;
    assert forall|k: int| 0 <= k < n implies #[trigger] en1[k].0 != e.0 by {
        assert(en1[k] == en[k]);
        assert(entry_at(en, k) == en[k]);
        let i = choose|i: int| #[trigger] port_at(rv, i, entry_at(en, k).0);
        if i >= pos {
            if i > pos {
                assert(rv[pos].0 < rv[i].0);
            }
        }
    }
    assert(is_first_entry(en1, n, e));
    assert forall|i: int, j: int| 0 <= i < j < nv.len() implies #[trigger] nv[i].0
        < #[trigger] nv[j].0 by {
        if i < pos && j == pos {
        } else if i < pos && j > pos {
            assert(nv[j] == rv[j - 1]);
            if i < j - 1 {
                assert(rv[i].0 < rv[j - 1].0);
            }
        } else if i == pos {
            assert(nv[j] == rv[j - 1]);
            if j - 1 > pos {
                assert(rv[pos].0 < rv[j - 1].0);
            }
        } else if i > pos {
            assert(nv[i] == rv[i - 1]);
            assert(nv[j] == rv[j - 1]);
            assert(rv[i - 1].0 < rv[j - 1].0);
        } else {
            assert(rv[i].0 < rv[j].0);
        }
    }
    assert forall|i: int| 0 <= i < nv.len() implies has_first_entry(en1, #[trigger] entry_at(nv, i)) by {
        if i == pos {
            assert(is_first_entry(en1, n, entry_at(nv, i)));
        } else {
            let oi = if i < pos {
                i
            } else {
                i - 1
            };
            assert(nv[i] == rv[oi]);
            assert(entry_at(rv, oi) == rv[oi]);
            let j = choose|j: int| #[trigger] is_first_entry(en, j, entry_at(rv, oi));
            lemma_first_entry_extends(en, e, j, rv[oi]);
            assert(is_first_entry(en1, j, entry_at(nv, i)));
        }
    }
    assert forall|j: int| 0 <= j < en1.len() implies has_port(nv, (#[trigger] entry_at(en1, j)).0) by {
        if j < n {
            assert(en1[j] == en[j]);
            assert(entry_at(en, j) == en[j]);
            let i = choose|i: int| #[trigger] port_at(rv, i, entry_at(en, j).0);
            let ni = if i < pos {
                i
            } else {
                i + 1
            };
            assert(nv[ni] == rv[i]);
            assert(port_at(nv, ni, entry_at(en1, j).0));
        } else {
            assert(port_at(nv, pos, entry_at(en1, j).0));
        }
    }
}

/// The entries sorted by port, keeping the first entry of each port.
pub fn sort_dedup_by_port(es: Vec<(u16, String)>) -> (r: Vec<(u16, String)>)
    ensures
        one_per_port(port_views(r@), port_views(es@)),
{
    let ghost ev = port_views(es@);
    let mut r: Vec<(u16, String)> = Vec::new();
    let mut n: usize = 0;
    assert(ev.take(0) =~= Seq::<(u16, Seq<char>)>::empty());
    assert(port_views(r@) =~= Seq::<(u16, Seq<char>)>::empty());
    while n < es.len()
        invariant
            n <= es.len(),
            ev == port_views(es@),
            one_per_port(port_views(r@), ev.take(n as int)),
        decreases es.len() - n,
    {
        let port = es[n].0;
        let ghost rv = port_views(r@);
        assert(ev.take(n + 1) =~= ev.take(n as int).push(ev[n as int]));
        let mut pos: usize = 0;
        while pos < r.len() && r[pos].0 < port
            invariant
                pos <= r.len(),
                rv == port_views(r@),
                forall|k: int| 0 <= k < pos ==> rv[k].0 < port,
            decreases r.len() - pos,
        {
            pos += 1;
        }
        if pos < r.len() && r[pos].0 == port {
            proof {
                lemma_port_seen(rv, ev.take(n as int), ev[n as int], pos as int);
            }
        } else {
            let e = (es[n].0, es[n].1.clone());
            r.insert(pos, e);
            assert(port_views(r@) =~= rv.insert(pos as int, ev[n as int]));
            proof {
                lemma_port_new(rv, ev.take(n as int), ev[n as int], pos as int);
            }
        }
        n += 1;
    }
    assert(ev.take(n as int) =~= ev);
    r
}

/// Reads one line of a listening-socket report.
pub fn parse_listen_line(line: &Vec<char>, tool: PortTool) -> (r: Option<(u16, String)>)
    ensures
        match listen_entry(line@, tool) {
            Some(e) => r matches Some(x) && x.0 == e.0 && x.1@ == e.1,
            None => r is None,
        },
{
    let parts = split_words(line);
    let ghost pv = views(parts@);
    match tool {
        PortTool::Ss => {
            if parts.len() < 5 {
                return None;
            }
            assert(pv[3] == parts@[3]@);
            let fields = split_chars(&parts[3], ':');
            proof {
                lemma_split_on_nonempty(parts@[3]@, ':');
            }
            let port_text = &fields[fields.len() - 1];
            assert(port_text@ == views(fields@).last());
            match parse_unsigned_chars(port_text, 65535) {
                None => None,
                Some(p) => {
                    let last = &parts[parts.len() - 1];
                    assert(last@ == pv.last());
                    let q = split_chars(last, '"');
                    let name = if q.len() >= 2 {
                        assert(q@[1]@ == views(q@)[1]);
                        string_of(&q[1])
                    } else {
                        unknown_string()
                    };
                    Some((p as u16, name))
                },
            }
        },
        PortTool::Lsof => {
            if parts.len() < 9 {
                return None;
            }
            assert(pv[8] == parts@[8]@);
            assert(pv[0] == parts@[0]@);
            let fields = split_chars(&parts[8], ':');
            proof {
                lemma_split_on_nonempty(parts@[8]@, ':');
            }
            let port_text = &fields[fields.len() - 1];
            assert(port_text@ == views(fields@).last());
            match parse_unsigned_chars(port_text, 65535) {
                None => None,
                Some(p) => Some((p as u16, string_of(&parts[0]))),
            }
        },
    }
}

/// The listening ports that a report of `tool` lists, sorted by port, each
/// port once with the process named on its first line.
pub fn listening_ports(report: &str, tool: PortTool) -> (r: Vec<(u16, String)>)
    ensures
        one_per_port(port_views(r@), listen_report(report@, tool)),
{
    let chars = chars_of(report);
    let ls = split_lines(&chars);
    let ghost lv = views(ls@);
    let mut es: Vec<(u16, String)> = Vec::new();
    if ls.len() > 0 {
        assert(lv.subrange(1, 1) =~= Seq::<Seq<char>>::empty());
        assert(port_views(es@) =~= listen_entries(lv.subrange(1, 1), tool));
        for i in 1..ls.len()
            invariant
                lv == views(ls@),
                lv == lines(report@),
                1 <= ls.len(),
                port_views(es@) == listen_entries(lv.subrange(1, i as int), tool),
        {
            assert(lv.subrange(1, i + 1).drop_last() =~= lv.subrange(1, i as int));
            assert(lv.subrange(1, i + 1).last() == ls@[i as int]@);
            match parse_listen_line(&ls[i], tool) {
                Some(e) => {
                    let ghost before = port_views(es@);
                    es.push(e);
                    assert(port_views(es@) =~= before.push((e.0, e.1@)));
                },
                None => {},
            }
        }
        assert(lv.subrange(1, lv.len() as int) =~= lv.drop_first());
    } else {
        assert(port_views(es@) =~= Seq::<(u16, Seq<char>)>::empty());
    }
    sort_dedup_by_port(es)
}

/// The text that precedes a process id in `ss -p` output.
pub open spec fn pid_key() -> Seq<char> {
    seq!['p', 'i', 'd', '=']
}

/// The process id that one line of `ss -tlnp` names: the digits after the
/// first `pid=`, up to the next `,` or `pid=`.
pub open spec fn ss_line_pid(line: Seq<char>) -> Option<u32> {
    match find(line, pid_key()) {
        None => None,
        Some(k) => {
            let rest = line.skip((k + 4) as int);
            let seg = match find(rest, pid_key()) {
                Some(j) => rest.take(j as int),
                None => rest,
            };
            match parse_unsigned(split_on(seg, ',')[0], u32::MAX as nat) {
                Some(v) => Some(v as u32),
                None => None,
            }
        },
    }
}

/// The process id named by the first line of `ls` that names one.
pub open spec fn first_line_pid(ls: Seq<Seq<char>>) -> Option<u32>
    decreases ls.len(),
{
    if ls.len() == 0 {
        None
    } else {
        match ss_line_pid(ls[0]) {
            Some(p) => Some(p),
            None => first_line_pid(ls.drop_first()),
        }
    }
}

/// The process that `ss -tlnp 'sport = :PORT'` reports listening: the first
/// line after the header that names a process id.
pub open spec fn ss_port_pid(out: Seq<char>) -> Option<u32> {
    let ls = lines(out);
    if ls.len() == 0 {
        None
    } else {
        first_line_pid(ls.drop_first())
    }
}

/// The process that `lsof -t` reports listening: its whole output, trimmed, as a number.
pub open spec fn lsof_port_pid(out: Seq<char>) -> Option<u32> {
    match parse_unsigned(trim(out), u32::MAX as nat) {
        Some(v) => Some(v as u32),
        None => None,
    }
}

/// The process that the per-port report of `tool` names as listening.
pub open spec fn port_pid(out: Seq<char>, tool: PortTool) -> Option<u32> {
    match tool {
        PortTool::Ss => ss_port_pid(out),
        PortTool::Lsof => lsof_port_pid(out),
    }
}

fn pid_pattern() -> (v: Vec<char>)
    ensures
        v@ == pid_key(),
{
    let v = vec!['p', 'i', 'd', '='];
    assert(v@ =~= pid_key());
    v
}

/// The process id that one line of `ss -tlnp` names.
pub fn parse_ss_line_pid(line: &Vec<char>) -> (r: Option<u32>)
    ensures
        r == ss_line_pid(line@),
{
    let pat = pid_pattern();
    match find_chars(line, &pat) {
        None => None,
        Some(k) => {
            proof {
                lemma_find_found(line@, pat@);
            }
            assert(pat@.len() == 4);
            let n = line.len();
            assert(k + 4 <= n);
            let rest = copy_range(line, k + 4, n);
            assert(rest@ =~= line@.skip(k + 4));
            proof {
                lemma_find_found(rest@, pat@);
            }
            let seg = match find_chars(&rest, &pat) {
                Some(j) => copy_range(&rest, 0, j),
                None => rest,
            };
            let pieces = split_chars(&seg, ',');
            proof {
                lemma_split_on_nonempty(seg@, ',');
            }
            assert(pieces@[0]@ == views(pieces@)[0]);
            match parse_unsigned_chars(&pieces[0], 4294967295) {
                Some(v) => Some(v as u32),
                None => None,
            }
        },
    }
}

/// The process that a per-port report of `tool` names as listening.
pub fn parse_port_pid(report: &str, tool: PortTool) -> (r: Option<u32>)
    ensures
        r == port_pid(report@, tool),
{
    let chars = chars_of(report);
    match tool {
        PortTool::Lsof => {
            let t = trim_chars(&chars);
            match parse_unsigned_chars(&t, 4294967295) {
                Some(v) => Some(v as u32),
                None => None,
            }
        },
        PortTool::Ss => {
            let ls = split_lines(&chars);
            let ghost lv = views(ls@);
            if ls.len() == 0 {
                return None;
            }
            assert(lv.subrange(1, lv.len() as int) =~= lv.drop_first());
            let mut i: usize = 1;
            while i < ls.len()
                invariant
                    lv == views(ls@),
                    lv == lines(report@),
                    tool is Ss,
                    1 <= i <= ls.len(),
                    first_line_pid(lv.drop_first()) == first_line_pid(
                        lv.subrange(i as int, lv.len() as int),
                    ),
                decreases ls.len() - i,
            {
                let ghost rest = lv.subrange(i as int, lv.len() as int);
                assert(rest[0] == ls@[i as int]@);
                assert(rest.drop_first() =~= lv.subrange(i + 1, lv.len() as int));
                match parse_ss_line_pid(&ls[i]) {
                    Some(p) => {
                        assert(rest.len() > 0);
                        assert(first_line_pid(rest) == Some(p));
                        return Some(p);
                    },
                    None => {},
                }
                i += 1;
            }
            assert(lv.subrange(i as int, lv.len() as int) =~= Seq::<Seq<char>>::empty());
            None
        },
    }
}

} // verus!
