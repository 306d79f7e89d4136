//! The lock file of a performance session: what a relaunched front end needs to
//! reattach to a runtime that outlived the one before it.
//!
//! Everything here fails closed. A file that is not complete is no lock, and a
//! process whose start time cannot be read is not the one that was recorded.

use crate::number::{
    decimal, decimal_int, i32_from, int_text, is_digit, law_decimal_reads_back,
    law_nat_round_trip, law_signed_round_trip, nat_from, nat_text, parse_nat, parse_signed,
};
use crate::pathname::{join_path, path_join};
use crate::ports::Ports;
use crate::table::{
    distinct_keys, law_lines_of_terminated, law_pair_line_reads_back, lemma_joined_is_terminated,
    lemma_pairs_lookup, lemma_pairs_of_lines, line_safe, pair_line, pairs_map, pairs_of_text,
    parse_pairs, storable, Table,
};
use crate::text::{
    after_last, chars_of, is_word, join, joined, lacks, last_index_of, law_words_of_join,
    lemma_join_lacks, lemma_last_index_of, string_views, trim_start, views, words, words_in,
};
use vstd::prelude::*;
use vstd::slice::slice_subrange;
use vstd::string::*;

verus! {

/// What is recorded of a running session.
#[derive(Debug, Clone, Copy, PartialEq, Eq, Structural)]
pub struct SessionLock {
    pub token: i32,
    pub spider_pid: u32,
    pub spider_started: u64,
    pub supersonic_pid: u32,
    pub supersonic_started: u64,
    pub daemon_port: u16,
    pub gui_listen: u16,
    pub gui_send: u16,
    pub scsynth: u16,
    pub osc_cues: u16,
}

/// The fields of a lock, by name, as they are written.
pub open spec fn lock_pairs(l: SessionLock) -> Seq<(Seq<char>, Seq<char>)> {
    seq![
        ("token"@, decimal_int(l.token as int)),
        ("spider_pid"@, decimal(l.spider_pid as nat)),
        ("spider_started"@, decimal(l.spider_started as nat)),
        ("supersonic_pid"@, decimal(l.supersonic_pid as nat)),
        ("supersonic_started"@, decimal(l.supersonic_started as nat)),
        ("daemon_port"@, decimal(l.daemon_port as nat)),
        ("gui_listen"@, decimal(l.gui_listen as nat)),
        ("gui_send"@, decimal(l.gui_send as nat)),
        ("scsynth"@, decimal(l.scsynth as nat)),
        ("osc_cues"@, decimal(l.osc_cues as nat)),
    ]
}

pub open spec fn lock_lines(l: SessionLock) -> Seq<Seq<char>> {
    lock_pairs(l).map_values(|p: (Seq<char>, Seq<char>)| pair_line(p.0, p.1))
}

/// The text of a lock file.
pub open spec fn lock_text(l: SessionLock) -> Seq<char> {
    join(lock_lines(l), "\n"@) + "\n"@
}

/// The number in a field, if the field is there and its value is a number up to
/// `max`.
pub open spec fn nat_field(m: Map<Seq<char>, Seq<char>>, key: Seq<char>, max: nat) -> Option<nat> {
    if m.dom().contains(key) {
        parse_nat(m[key], max)
    } else {
        None
    }
}

/// The token, if it is there and a number.
pub open spec fn token_field(m: Map<Seq<char>, Seq<char>>) -> Option<int> {
    if m.dom().contains("token"@) {
        parse_signed(m["token"@])
    } else {
        None
    }
}

/// The lock that a table of fields holds: `None` unless every field is there and
/// in range.
pub open spec fn lock_of(m: Map<Seq<char>, Seq<char>>) -> Option<SessionLock> {
    match (
        token_field(m),
        nat_field(m, "spider_pid"@, u32::MAX as nat),
        nat_field(m, "spider_started"@, u64::MAX as nat),
        nat_field(m, "supersonic_pid"@, u32::MAX as nat),
        nat_field(m, "supersonic_started"@, u64::MAX as nat),
        nat_field(m, "daemon_port"@, u16::MAX as nat),
        nat_field(m, "gui_listen"@, u16::MAX as nat),
        nat_field(m, "gui_send"@, u16::MAX as nat),
        nat_field(m, "scsynth"@, u16::MAX as nat),
        nat_field(m, "osc_cues"@, u16::MAX as nat),
    ) {
        (
            Some(token),
            Some(spider_pid),
            Some(spider_started),
            Some(supersonic_pid),
            Some(supersonic_started),
            Some(daemon_port),
            Some(gui_listen),
            Some(gui_send),
            Some(scsynth),
            Some(osc_cues),
        ) => Some(
            SessionLock {
                token: token as i32,
                spider_pid: spider_pid as u32,
                spider_started: spider_started as u64,
                supersonic_pid: supersonic_pid as u32,
                supersonic_started: supersonic_started as u64,
                daemon_port: daemon_port as u16,
                gui_listen: gui_listen as u16,
                gui_send: gui_send as u16,
                scsynth: scsynth as u16,
                osc_cues: osc_cues as u16,
            },
        ),
        _ => None,
    }
}

fn number_field(t: &Table, key: &str, max: u64) -> (r: Option<u64>)
    ensures
        match r {
            Some(n) => nat_field(t@, key@, max as nat) == Some(n as nat) && n <= max,
            None => nat_field(t@, key@, max as nat) is None,
        },
{
    match t.get(key) {
        Some(v) => {
            let cs: Vec<char> = chars_of(v.as_str());
            nat_from(cs.as_slice(), max)
        },
        None => None,
    }
}

fn field_line(key: &str, value: String) -> (r: String)
    ensures
        r@ == pair_line(key@, value@),
{
    let mut out: String = String::from_str(key);
    out.append(" = ");
    out.append(value.as_str());
    out
}

/// The ports of the recorded session.
pub open spec fn lock_ports(l: SessionLock) -> Ports {
    Ports {
        daemon: l.daemon_port,
        gui_listen: l.gui_listen,
        gui_send: l.gui_send,
        scsynth: l.scsynth,
        osc_cues: l.osc_cues,
        token: l.token,
    }
}

impl SessionLock {
    /// The ports of the recorded session.
    pub fn to_ports(&self) -> (r: Ports)
        ensures
            r == lock_ports(*self),
    {
        Ports::from_parts(
            self.daemon_port,
            self.gui_listen,
            self.gui_send,
            self.scsynth,
            self.osc_cues,
            self.token,
        )
    }

    /// The text of the lock file: one `key = value` line for each field.
    pub fn serialize(&self) -> (r: String)
        ensures
            r@ == lock_text(*self),
    {
        let mut fields: Vec<String> = Vec::new();
        fields.push(field_line("token", int_text(self.token as i64)));
        fields.push(field_line("spider_pid", nat_text(self.spider_pid as u64)));
        fields.push(field_line("spider_started", nat_text(self.spider_started)));
        fields.push(field_line("supersonic_pid", nat_text(self.supersonic_pid as u64)));
        fields.push(field_line("supersonic_started", nat_text(self.supersonic_started)));
        fields.push(field_line("daemon_port", nat_text(self.daemon_port as u64)));
        fields.push(field_line("gui_listen", nat_text(self.gui_listen as u64)));
        fields.push(field_line("gui_send", nat_text(self.gui_send as u64)));
        fields.push(field_line("scsynth", nat_text(self.scsynth as u64)));
        fields.push(field_line("osc_cues", nat_text(self.osc_cues as u64)));
        assert(string_views(fields@) =~= lock_lines(*self));
        let mut out: String = joined(&fields, "\n");
        out.append("\n");
        out
    }

    /// Reads a lock file. `None` for anything short of a complete lock.
    pub fn parse(text: &str) -> (r: Option<SessionLock>)
        ensures
            r == lock_of(pairs_map(pairs_of_text(text@))),
    {
        let t: Table = parse_pairs(text);
        let token: Option<i32> = match t.get("token") {
            Some(v) => {
                let cs: Vec<char> = chars_of(v.as_str());
                i32_from(cs.as_slice())
            },
            None => None,
        };
        match (
            token,
            number_field(&t, "spider_pid", u32::MAX as u64),
            number_field(&t, "spider_started", u64::MAX),
            number_field(&t, "supersonic_pid", u32::MAX as u64),
            number_field(&t, "supersonic_started", u64::MAX),
            number_field(&t, "daemon_port", u16::MAX as u64),
            number_field(&t, "gui_listen", u16::MAX as u64),
            number_field(&t, "gui_send", u16::MAX as u64),
            number_field(&t, "scsynth", u16::MAX as u64),
            number_field(&t, "osc_cues", u16::MAX as u64),
        ) {
            (
                Some(token),
                Some(spider_pid),
                Some(spider_started),
                Some(supersonic_pid),
                Some(supersonic_started),
                Some(daemon_port),
                Some(gui_listen),
                Some(gui_send),
                Some(scsynth),
                Some(osc_cues),
            ) => Some(
                SessionLock {
                    token,
                    spider_pid: spider_pid as u32,
                    spider_started,
                    supersonic_pid: supersonic_pid as u32,
                    supersonic_started,
                    daemon_port: daemon_port as u16,
                    gui_listen: gui_listen as u16,
                    gui_send: gui_send as u16,
                    scsynth: scsynth as u16,
                    osc_cues: osc_cues as u16,
                },
            ),
            _ => None,
        }
    }
}

/// What the kernel's process table showed: for each process that could be read,
/// its identifier and its `stat` line.
pub struct ProcessTable {
    pub stats: Vec<(u32, String)>,
}

pub open spec fn stat_views(v: Seq<(u32, String)>) -> Seq<(u32, Seq<char>)> {
    Seq::new(v.len(), |i: int| (v[i].0, v[i].1@))
}

/// The `stat` line of a process, if it could be read.
pub open spec fn stat_of(stats: Seq<(u32, Seq<char>)>, pid: u32) -> Option<Seq<char>>
    decreases stats.len(),
{
    if stats.len() == 0 {
        None
    } else if stats[0].0 == pid {
        Some(stats[0].1)
    } else {
        stat_of(stats.drop_first(), pid)
    }
}

/// The start time in a `stat` line: the twentieth word after the last closing
/// bracket, which ends the process name.
pub open spec fn start_time_in(stat: Seq<char>) -> Option<nat> {
    let d = last_index_of(stat, ')');
    let w = words(stat.skip(d + 1));
    if d >= 0 && w.len() > 19 {
        parse_nat(w[19], u64::MAX as nat)
    } else {
        None
    }
}

/// The start time of a process; `None` when it cannot be told.
pub open spec fn start_time(stats: Seq<(u32, Seq<char>)>, pid: u32) -> Option<nat> {
    match stat_of(stats, pid) {
        Some(stat) => start_time_in(stat),
        None => None,
    }
}

/// Whether the process that now has this identifier is the one that started then.
pub open spec fn same_process(stats: Seq<(u32, Seq<char>)>, pid: u32, expected: u64) -> bool {
    start_time(stats, pid) == Some(expected as nat)
}

/// The start time of a process, in clock ticks since boot; `None` when it cannot be
/// told.
pub fn pid_start_time(pid: u32, table: &ProcessTable) -> (r: Option<u64>)
    ensures
        match r {
            Some(t) => start_time(stat_views(table.stats@), pid) == Some(t as nat),
            None => start_time(stat_views(table.stats@), pid) is None,
        },
{
    let ghost all = stat_views(table.stats@);
    let mut i: usize = 0;
    assert(all.skip(0) =~= all);
    while i < table.stats.len()
        invariant
            i <= table.stats@.len(),
            all == stat_views(table.stats@),
            stat_of(all, pid) == stat_of(all.skip(i as int), pid),
        decreases table.stats@.len() - i,
    {
        assert(all.skip(i as int).drop_first() =~= all.skip(i + 1));
        if table.stats[i].0 == pid {
            let cs: Vec<char> = chars_of(table.stats[i].1.as_str());
            let n: usize = after_last(cs.as_slice(), ')');
            if n == 0 {
                return None;
            }
            let rest: &[char] = slice_subrange(cs.as_slice(), n, cs.len());
            assert(rest@ =~= cs@.skip(n as int));
            let w: Vec<&[char]> = words_in(rest);
            assert(views(w@).len() == w@.len());
            if w.len() <= 19 {
                return None;
            }
            assert(views(w@)[19] == w@[19]@);
            return nat_from(w[19], u64::MAX);
        }
        i = i + 1;
    }
    None
}

/// Whether a process is running now and started at the expected time.
pub fn is_same_process(pid: u32, expected_start: u64, table: &ProcessTable) -> (r: bool)
    ensures
        r == same_process(stat_views(table.stats@), pid, expected_start),
{
    match pid_start_time(pid, table) {
        Some(t) => t == expected_start,
        None => false,
    }
}

impl SessionLock {
    /// Whether both recorded processes are still the same processes. A front end
    /// must not reattach otherwise.
    pub fn still_live(&self, table: &ProcessTable) -> (r: bool)
        ensures
            r == (same_process(stat_views(table.stats@), self.spider_pid, self.spider_started)
                && same_process(
                stat_views(table.stats@),
                self.supersonic_pid,
                self.supersonic_started,
            )),
    {
        is_same_process(self.spider_pid, self.spider_started, table) && is_same_process(
            self.supersonic_pid,
            self.supersonic_started,
            table,
        )
    }
}

/// Where the lock file lives in a store directory.
pub fn lock_path(store_dir: &str) -> (r: String)
    ensures
        r@ == path_join(store_dir@, "session.lock"@),
{
    join_path(store_dir, "session.lock")
}

proof fn lemma_digits_storable(k: Seq<char>, n: nat)
    requires
        storable(k, Seq::empty()),
    ensures
        storable(k, decimal(n)),
{
    law_decimal_reads_back(n);
    let v = decimal(n);
    assert(is_digit(v[0]) && is_digit(v[v.len() - 1]));
    assert forall|i: int| 0 <= i < v.len() implies #[trigger] v[i] != '\n' by {
        assert(is_digit(v[i]));
    }
}

proof fn lemma_token_storable(n: int)
    ensures
        storable("token"@, decimal_int(n)),
{
    reveal_strlit("token");
    assert(storable("token"@, Seq::empty()));
    if n < 0 {
        let d = decimal((-n) as nat);
        let v = decimal_int(n);
        law_decimal_reads_back((-n) as nat);
        assert(is_digit(d[d.len() - 1]));
        assert(v.last() == d.last());
        assert forall|i: int| 0 <= i < v.len() implies #[trigger] v[i] != '\n' by {
            if i > 0 {
                assert(v[i] == d[i - 1]);
                assert(is_digit(d[i - 1]));
            }
        }
    } else {
        lemma_digits_storable("token"@, n as nat);
    }
}

proof fn lemma_names_storable()
    ensures
        storable("spider_pid"@, Seq::empty()),
        storable("spider_started"@, Seq::empty()),
        storable("supersonic_pid"@, Seq::empty()),
        storable("supersonic_started"@, Seq::empty()),
        storable("daemon_port"@, Seq::empty()),
        storable("gui_listen"@, Seq::empty()),
        storable("gui_send"@, Seq::empty()),
        storable("scsynth"@, Seq::empty()),
        storable("osc_cues"@, Seq::empty()),
{
    reveal_strlit("spider_pid");
    reveal_strlit("spider_started");
    reveal_strlit("supersonic_pid");
    reveal_strlit("supersonic_started");
    reveal_strlit("daemon_port");
    reveal_strlit("gui_listen");
    reveal_strlit("gui_send");
    reveal_strlit("scsynth");
    reveal_strlit("osc_cues");
}

proof fn lemma_names_distinct(l: SessionLock)
    ensures
        distinct_keys(lock_pairs(l)),
{
    reveal_strlit("token");
    reveal_strlit("spider_pid");
    reveal_strlit("spider_started");
    reveal_strlit("supersonic_pid");
    reveal_strlit("supersonic_started");
    reveal_strlit("daemon_port");
    reveal_strlit("gui_listen");
    reveal_strlit("gui_send");
    reveal_strlit("scsynth");
    reveal_strlit("osc_cues");
    // Names of one length differ in their second letter.
    assert("spider_pid"@[1] == 'p' && "gui_listen"@[1] == 'u');
    assert("gui_send"@[1] == 'u' && "osc_cues"@[1] == 's');
    assert("spider_started"@[1] == 'p' && "supersonic_pid"@[1] == 'u');
    let s = lock_pairs(l);
    assert forall|i: int, j: int| 0 <= i < j < s.len() implies (#[trigger] s[i]).0 != (
    #[trigger] s[j]).0 by {
        assert(s[i].0.len() == s[j].0.len() ==> s[i].0[1] != s[j].0[1]);
    }
}

/// A lock reads back from the file it is written to.
pub proof fn law_lock_round_trip(l: SessionLock)
    ensures
        lock_of(pairs_map(pairs_of_text(lock_text(l)))) == Some(l),
{
    let ps = lock_pairs(l);
    let ls = lock_lines(l);
    lemma_token_storable(l.token as int);
    lemma_names_storable();
    lemma_digits_storable("spider_pid"@, l.spider_pid as nat);
    lemma_digits_storable("spider_started"@, l.spider_started as nat);
    lemma_digits_storable("supersonic_pid"@, l.supersonic_pid as nat);
    lemma_digits_storable("supersonic_started"@, l.supersonic_started as nat);
    lemma_digits_storable("daemon_port"@, l.daemon_port as nat);
    lemma_digits_storable("gui_listen"@, l.gui_listen as nat);
    lemma_digits_storable("gui_send"@, l.gui_send as nat);
    lemma_digits_storable("scsynth"@, l.scsynth as nat);
    lemma_digits_storable("osc_cues"@, l.osc_cues as nat);
    assert forall|i: int| 0 <= i < ps.len() implies storable((#[trigger] ps[i]).0, ps[i].1) by {}
    assert forall|i: int| 0 <= i < ls.len() implies line_safe(#[trigger] ls[i]) by {
        assert(storable(ps[i].0, ps[i].1));
        law_pair_line_reads_back(ps[i].0, ps[i].1);
    }
    lemma_joined_is_terminated(ls);
    law_lines_of_terminated(ls);
    lemma_pairs_of_lines(ps);
    assert(pairs_of_text(lock_text(l)) == ps);
    lemma_names_distinct(l);
    lemma_pairs_lookup(ps, 0);
    lemma_pairs_lookup(ps, 1);
    lemma_pairs_lookup(ps, 2);
    lemma_pairs_lookup(ps, 3);
    lemma_pairs_lookup(ps, 4);
    lemma_pairs_lookup(ps, 5);
    lemma_pairs_lookup(ps, 6);
    lemma_pairs_lookup(ps, 7);
    lemma_pairs_lookup(ps, 8);
    lemma_pairs_lookup(ps, 9);
    law_signed_round_trip(l.token as int);
    law_nat_round_trip(l.spider_pid as nat, u32::MAX as nat);
    law_nat_round_trip(l.spider_started as nat, u64::MAX as nat);
    law_nat_round_trip(l.supersonic_pid as nat, u32::MAX as nat);
    law_nat_round_trip(l.supersonic_started as nat, u64::MAX as nat);
    law_nat_round_trip(l.daemon_port as nat, u16::MAX as nat);
    law_nat_round_trip(l.gui_listen as nat, u16::MAX as nat);
    law_nat_round_trip(l.gui_send as nat, u16::MAX as nat);
    law_nat_round_trip(l.scsynth as nat, u16::MAX as nat);
    law_nat_round_trip(l.osc_cues as nat, u16::MAX as nat);
}

/// A process that cannot be read is never taken for the recorded one.
pub proof fn law_unreadable_is_not_live(stats: Seq<(u32, Seq<char>)>, pid: u32, expected: u64)
    requires
        stat_of(stats, pid) is None,
    ensures
        !same_process(stats, pid, expected),
{
}

/// A process that took over an identifier with another start time is never taken
/// for the recorded one.
pub proof fn law_reused_pid_is_not_live(
    stats: Seq<(u32, Seq<char>)>,
    pid: u32,
    started: u64,
    expected: u64,
)
    requires
        start_time(stats, pid) == Some(started as nat),
        started != expected,
    ensures
        !same_process(stats, pid, expected),
{
}

/// A lock is read from its fields by their names: a table that holds a lock holds
/// each of its numbers under the name of that number.
pub proof fn law_lock_is_read_by_name(m: Map<Seq<char>, Seq<char>>)
    ensures
        lock_of(m) matches Some(l) ==> {
            &&& parse_signed(m["token"@]) == Some(l.token as int)
            &&& parse_nat(m["spider_pid"@], 0xffff_ffff) == Some(l.spider_pid as nat)
            &&& parse_nat(m["spider_started"@], 0xffff_ffff_ffff_ffff) == Some(
                l.spider_started as nat,
            )
            &&& parse_nat(m["supersonic_pid"@], 0xffff_ffff) == Some(l.supersonic_pid as nat)
            &&& parse_nat(m["supersonic_started"@], 0xffff_ffff_ffff_ffff) == Some(
                l.supersonic_started as nat,
            )
            &&& parse_nat(m["daemon_port"@], 0xffff) == Some(l.daemon_port as nat)
            &&& parse_nat(m["gui_listen"@], 0xffff) == Some(l.gui_listen as nat)
            &&& parse_nat(m["gui_send"@], 0xffff) == Some(l.gui_send as nat)
            &&& parse_nat(m["scsynth"@], 0xffff) == Some(l.scsynth as nat)
            &&& parse_nat(m["osc_cues"@], 0xffff) == Some(l.osc_cues as nat)
        },
{
}

/// A table that lacks a field, or holds something else than a number in it, is no
/// lock.
pub proof fn law_incomplete_lock_is_no_lock(m: Map<Seq<char>, Seq<char>>, key: Seq<char>)
    requires
        key == "token"@ || key == "spider_pid"@ || key == "spider_started"@ || key
            == "supersonic_pid"@ || key == "supersonic_started"@ || key == "daemon_port"@ || key
            == "gui_listen"@ || key == "gui_send"@ || key == "scsynth"@ || key == "osc_cues"@,
        !m.dom().contains(key) || (parse_nat(m[key], 0xffff_ffff_ffff_ffff) is None
            && parse_signed(m[key]) is None),
    ensures
        lock_of(m) is None,
{
    lemma_wider_bound(m[key]);
}

proof fn lemma_wider_bound(s: Seq<char>)
    ensures
        parse_nat(s, 0xffff_ffff_ffff_ffff) is None ==> parse_nat(s, 0xffff_ffff) is None
            && parse_nat(s, 0xffff) is None,
{
}

/// The ports of a lock are those that it records, each under its own name.
pub proof fn law_lock_gives_its_ports(l: SessionLock)
    ensures
        ({
            let p = lock_ports(l);
            &&& p.daemon == l.daemon_port
            &&& p.gui_listen == l.gui_listen
            &&& p.gui_send == l.gui_send
            &&& p.scsynth == l.scsynth
            &&& p.osc_cues == l.osc_cues
            &&& p.token == l.token
        }),
{
}

/// The start time of a process is the twentieth of the words behind its name,
/// whatever brackets the name itself holds.
pub proof fn law_start_time_stands_behind_the_name(
    name: Seq<char>,
    ws: Seq<Seq<char>>,
    started: u64,
)
    requires
        ws.len() > 19,
        ws[19] == decimal(started as nat),
        forall|i: int|
            0 <= i < ws.len() ==> is_word(#[trigger] ws[i]) && lacks(ws[i], ')'),
    ensures
        start_time_in(name + seq![')', ' '] + join(ws, " "@)) == Some(started as nat),
{
    reveal_strlit(" ");
    let tail = join(ws, " "@);
    let stat = name + seq![')', ' '] + tail;
    lemma_join_lacks(ws, " "@, ')');
    lemma_last_index_of(stat, ')');
    let d = name.len() as int;
    assert(stat[d] == ')');
    assert forall|j: int| d < j < stat.len() implies stat[j] != ')' by {
        if j > d + 1 {
            assert(stat[j] == tail[j - d - 2]);
        }
    }
    assert(last_index_of(stat, ')') == d);
    let after = stat.skip(d + 1);
    assert(after =~= seq![' '] + tail);
    assert(trim_start(after) == trim_start(tail)) by {
        assert(after.drop_first() =~= tail);
    }
    assert(words(after) == words(tail));
    law_words_of_join(ws);
    law_nat_round_trip(started as nat, u64::MAX as nat);
}

/// A process is looked up by its identifier: the first line of that identifier is
/// its own, and where none is there nothing is known of it.
pub proof fn law_process_is_looked_up_by_its_id(stats: Seq<(u32, Seq<char>)>, pid: u32, i: int)
    requires
        0 <= i <= stats.len(),
        i < stats.len() ==> stats[i].0 == pid,
        forall|j: int| 0 <= j < i ==> (#[trigger] stats[j]).0 != pid,
    ensures
        i < stats.len() ==> stat_of(stats, pid) == Some(stats[i].1),
        i == stats.len() ==> stat_of(stats, pid) is None,
    decreases i,
{
    if i > 0 {
        let rest = stats.drop_first();
        assert(stats[0].0 != pid);
        assert forall|j: int| 0 <= j < i - 1 implies (#[trigger] rest[j]).0 != pid by {
            assert(rest[j] == stats[j + 1]);
        }
        law_process_is_looked_up_by_its_id(rest, pid, i - 1);
    }
}

} // verus!
