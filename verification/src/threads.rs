//! Thread dump parsing, the per-thread CPU delta cache, and the thread
//! state census.
//!
//! A dump is split into blank-line-separated blocks; a block whose first
//! row is quote-delimited describes one thread. A `#`-token in the header
//! remainder marks a managed (application) thread; a block without one is
//! an internal (JVM) thread. Each record's cumulative CPU time is turned
//! into a delta against the last poll through the name-keyed cache.

use vstd::prelude::*;

use crate::model::{app_threads_view, entries_view, jvm_threads_view, lemma_app_threads_view_push,
    lemma_entries_view_push, lemma_jvm_threads_view_push, ApplicationThread, ApplicationThreadV,
    JvmThread, JvmThreadV, MetricsCache, NamedMetricV, ThreadCacheEntry, ThreadCacheEntryV,
    ThreadCountMetricValue, Threads};
use crate::numeric;
use crate::text;

verus! {

/// The process-wide cache of last-seen cumulative CPU time per thread name.
/// Keyed by name: two live threads sharing a name collide, last write wins
/// (names are the dump's only stable handle). Entries are never evicted.
#[derive(Clone, Debug)]
pub struct ThreadCache {
    pub entries: Vec<ThreadCacheEntry>,
}

impl View for ThreadCache {
    type V = Seq<ThreadCacheEntryV>;

    open spec fn view(&self) -> Seq<ThreadCacheEntryV> {
        entries_view(self.entries@)
    }
}

impl ThreadCache {
    /// A fresh, empty cache.
    pub fn new() -> (r: ThreadCache)
        ensures
            r@ == Seq::<ThreadCacheEntryV>::empty(),
    {
        let r = ThreadCache { entries: Vec::new() };
        proof {
            assert(entries_view(r.entries@) =~= Seq::<ThreadCacheEntryV>::empty());
        }
        r
    }
}

/// Position of the first cache entry with the given name.
pub open spec fn spec_find_entry(entries: Seq<ThreadCacheEntryV>, name: Seq<char>) -> Option<int>
    decreases entries.len(),
{
    if entries.len() == 0 {
        None
    } else if entries[0].name == name {
        Some(0)
    } else {
        match spec_find_entry(entries.skip(1), name) {
            Some(i) => Some(i + 1),
            None => None,
        }
    }
}

/// `spec_find_entry` returns the first entry with the name, or `None`
/// exactly when no entry has it.
pub proof fn lemma_find_entry_first(entries: Seq<ThreadCacheEntryV>, name: Seq<char>)
    ensures
        match spec_find_entry(entries, name) {
            Some(i) => 0 <= i < entries.len() && entries[i].name == name && forall|k: int|
                0 <= k < i ==> entries[k].name != name,
            None => forall|k: int| 0 <= k < entries.len() ==> entries[k].name != name,
        },
    decreases entries.len(),
{
    if entries.len() == 0 {
    } else if entries[0].name == name {
    } else {
        lemma_find_entry_first(entries.skip(1), name);
        assert(forall|k: int|
            1 <= k < entries.len() ==> entries.skip(1)[k - 1] == entries[k]);
    }
}

/// Absolute difference of two cumulative counts.
pub open spec fn spec_abs_diff(a: u64, b: u64) -> u64 {
    if a >= b {
        (a - b) as u64
    } else {
        (b - a) as u64
    }
}

/// Effect of one observation on the cache, and the reported delta: the
/// first observation of a name stores it and reports `0`; a later one
/// reports the absolute difference against the stored count and overwrites
/// it (the stored kind flag stays).
pub open spec fn spec_update_thread_cache(
    entries: Seq<ThreadCacheEntryV>,
    name: Seq<char>,
    jvm_thread: bool,
    cpu: u64,
) -> (Seq<ThreadCacheEntryV>, u64) {
    match spec_find_entry(entries, name) {
        Some(i) => (
            entries.update(
                i,
                ThreadCacheEntryV {
                    name: entries[i].name,
                    jvm_thread: entries[i].jvm_thread,
                    cpu_nanos: cpu,
                },
            ),
            spec_abs_diff(cpu, entries[i].cpu_nanos),
        ),
        None => (entries.push(ThreadCacheEntryV { name, jvm_thread, cpu_nanos: cpu }), 0),
    }
}

/// Record one observation of a thread's cumulative CPU time and report the
/// delta since the last poll.
pub fn update_thread_cache(cache: &mut ThreadCache, cpu: u64, name: String, jvm_thread: bool) -> (r:
    u64)
    ensures
        (final(cache)@, r) == spec_update_thread_cache(old(cache)@, name@, jvm_thread, cpu),
{
    let ghost ev = entries_view(cache.entries@);
    let mut j: usize = 0;
    while j < cache.entries.len()
        invariant
            ev == entries_view(cache.entries@),
            ev == old(cache)@,
            j <= cache.entries@.len(),
            forall|k: int| 0 <= k < j ==> ev[k].name != name@,
        decreases cache.entries@.len() - j,
    {
        if cache.entries[j].name == name {
            proof {
                lemma_find_entry_first(ev, name@);
                assert(ev[j as int].name == name@);
                if let Some(w) = spec_find_entry(ev, name@) {
                    if w < j {
                        assert(ev[w].name != name@);
                    }
                    if j < w {
                        assert(ev[j as int].name != name@);
                    }
                } else {
                    assert(ev[j as int].name != name@);
                }
            }
            let existing = cache.entries[j].cpu_nanos;
            let delta = if cpu >= existing {
                cpu - existing
            } else {
                existing - cpu
            };
            let mut entry = cache.entries.remove(j);
            entry.cpu_nanos = cpu;
            cache.entries.insert(j, entry);
            proof {
                assert(entries_view(cache.entries@) =~= spec_update_thread_cache(
                    ev,
                    name@,
                    jvm_thread,
                    cpu,
                ).0);
            }
            return delta;
        }
        j += 1;
    }
    proof {
        lemma_find_entry_first(ev, name@);
        if let Some(w) = spec_find_entry(ev, name@) {
            assert(ev[w].name != name@);
        }
    }
    let ghost old_entries = cache.entries@;
    cache.entries.push(ThreadCacheEntry { name, jvm_thread, cpu_nanos: cpu });
    proof {
        lemma_entries_view_push(
            old_entries,
            ThreadCacheEntry { name, jvm_thread, cpu_nanos: cpu },
        );
        assert(entries_view(cache.entries@) =~= spec_update_thread_cache(
            ev,
            name@,
            jvm_thread,
            cpu,
        ).0);
    }
    0
}

/// Index of the last quote character in `s`, if any.
fn last_quote_index(s: &str) -> (r: Option<usize>)
    ensures
        match r {
            Some(i) => s@.index_of_last('"') == Some(i as int),
            None => s@.index_of_last('"') is None,
        },
{
    proof {
        s@.index_of_last_ensures('"');
    }
    let n = s.unicode_len();
    let mut i: usize = n;
    while i > 0
        invariant
            n == s@.len(),
            i <= n,
            forall|k: int| i <= k < n ==> s@[k] != '"',
        decreases i,
    {
        i -= 1;
        if s.get_char(i) == '"' {
            proof {
                s@.index_of_last_ensures('"');
                assert(s@[i as int] == '"');
                assert(s@.contains('"'));
                if let Some(w) = s@.index_of_last('"') {
                    if w < i {
                        assert(s@[i as int] != '"');
                    }
                    if i < w {
                        assert(s@[w] != '"');
                    }
                } else {
                    assert(!s@.contains('"'));
                }
            }
            return Some(i);
        }
    }
    proof {
        s@.index_of_last_ensures('"');
        if let Some(w) = s@.index_of_last('"') {
            assert(s@[w] != '"');
        }
    }
    None
}

/// The token list with empty tokens removed.
pub open spec fn spec_nonempty_parts(parts: Seq<Seq<char>>) -> Seq<Seq<char>>
    decreases parts.len(),
{
    if parts.len() == 0 {
        Seq::empty()
    } else if parts[0].len() == 0 {
        spec_nonempty_parts(parts.skip(1))
    } else {
        seq![parts[0]] + spec_nonempty_parts(parts.skip(1))
    }
}

/// The status written by a state row: the `java.lang.Thread.State:` label
/// removed, then the remaining whitespace-separated words joined with
/// single spaces.
pub open spec fn spec_state_line(row: Seq<char>) -> Seq<char> {
    text::spec_join(
        spec_nonempty_parts(
            text::spec_split(text::spec_remove_all(row, "java.lang.Thread.State:"@), " "@),
        ),
        " "@,
    )
}

/// Decode the status from a state row.
fn state_line(row: &str) -> (r: String)
    ensures
        r@ == spec_state_line(row@),
{
    proof {
        reveal_strlit("java.lang.Thread.State:");
        reveal_strlit(" ");
    }
    let removed = text::remove_all(row, "java.lang.Thread.State:");
    let parts = text::split_str(removed.as_str(), " ");
    let ghost pv = text::views_of(parts@);
    let mut kept: Vec<&str> = Vec::new();
    let mut i: usize = 0;
    proof {
        assert(pv.skip(0) =~= pv);
        assert(text::views_of(kept@) + spec_nonempty_parts(pv) =~= spec_nonempty_parts(pv));
    }
    while i < parts.len()
        invariant
            pv == text::views_of(parts@),
            i <= parts@.len(),
            text::views_of(kept@) + spec_nonempty_parts(pv.skip(i as int)) == spec_nonempty_parts(
                pv,
            ),
        decreases parts@.len() - i,
    {
        let part = parts[i];
        proof {
            assert(pv.skip(i as int)[0] == pv[i as int]);
            assert(pv.skip(i as int).skip(1) =~= pv.skip(i + 1));
            assert(pv[i as int] == part@);
        }
        if part.unicode_len() > 0 {
            let ghost old_kept = kept@;
            kept.push(part);
            proof {
                assert(text::views_of(kept@) =~= text::views_of(old_kept).push(pv[i as int]));
                assert(text::views_of(old_kept).push(pv[i as int]) + spec_nonempty_parts(
                    pv.skip(i + 1),
                ) =~= text::views_of(old_kept) + (seq![pv[i as int]] + spec_nonempty_parts(
                    pv.skip(i + 1),
                )));
            }
        }
        i += 1;
    }
    proof {
        assert(pv.skip(pv.len() as int) =~= Seq::<Seq<char>>::empty());
        assert(text::views_of(kept@) + Seq::<Seq<char>>::empty() =~= text::views_of(kept@));
    }
    text::join_strs(&kept, " ")
}

/// `spec_parse_u64`, narrowed to what a `u32` can hold.
pub open spec fn spec_parse_u32(s: Seq<char>) -> Option<u32> {
    match numeric::spec_parse_u64(s) {
        Some(v) => if v <= u32::MAX {
            Some(v as u32)
        } else {
            None
        },
        None => None,
    }
}

/// `spec_parse_u64`, narrowed to what a `u16` can hold.
pub open spec fn spec_parse_u16(s: Seq<char>) -> Option<u16> {
    match numeric::spec_parse_u64(s) {
        Some(v) => if v <= u16::MAX {
            Some(v as u16)
        } else {
            None
        },
        None => None,
    }
}

/// Decode a digit run as a `u32`.
fn parse_u32(s: &str) -> (r: Option<u32>)
    ensures
        r == spec_parse_u32(s@),
{
    match numeric::parse_u64(s) {
        Some(v) => if v <= u32::MAX as u64 {
            Some(v as u32)
        } else {
            None
        },
        None => None,
    }
}

/// Decode a digit run as a `u16`.
fn parse_u16(s: &str) -> (r: Option<u16>)
    ensures
        r == spec_parse_u16(s@),
{
    match numeric::parse_u64(s) {
        Some(v) => if v <= u16::MAX as u64 {
            Some(v as u16)
        } else {
            None
        },
        None => None,
    }
}

/// Effect of one header-remainder token on an application thread record.
/// A token whose field does not decode leaves the field as it was.
pub open spec fn spec_app_token_step(t: ApplicationThreadV, e: Seq<char>) -> ApplicationThreadV {
    if text::match_at(e, "#"@, 0) {
        match spec_parse_u32(text::spec_remove_chars(e, "#"@)) {
            Some(v) => ApplicationThreadV { id: v, ..t },
            None => t,
        }
    } else if e == "daemon"@ {
        ApplicationThreadV { daemon: true, ..t }
    } else if text::match_at(e, "prio="@, 0) {
        match spec_parse_u16(e.skip("prio="@.len() as int)) {
            Some(v) => ApplicationThreadV { prio: v, ..t },
            None => t,
        }
    } else if text::match_at(e, "cpu="@, 0) {
        match numeric::spec_duration_nanos(e, "cpu="@) {
            Some(v) => ApplicationThreadV { cpu_nanos: v, ..t },
            None => t,
        }
    } else if text::match_at(e, "elapsed="@, 0) {
        match numeric::spec_duration_nanos(e, "elapsed="@) {
            Some(v) => ApplicationThreadV { elapsed_nanos: v, ..t },
            None => t,
        }
    } else if text::match_at(e, "allocated="@, 0) {
        ApplicationThreadV { allocated: e.skip("allocated="@.len() as int), ..t }
    } else if text::match_at(e, "defined_classes="@, 0) {
        match spec_parse_u16(e.skip("defined_classes="@.len() as int)) {
            Some(v) => ApplicationThreadV { defined_classes: v, ..t },
            None => t,
        }
    } else if text::match_at(e, "os_prio="@, 0) {
        match spec_parse_u16(e.skip("os_prio="@.len() as int)) {
            Some(v) => ApplicationThreadV { os_thread_prio: v, ..t },
            None => t,
        }
    } else if text::match_at(e, "tid="@, 0) {
        ApplicationThreadV { thread_id: e.skip("tid="@.len() as int), ..t }
    } else if text::match_at(e, "nid="@, 0) {
        ApplicationThreadV { os_thread_id: e.skip("nid="@.len() as int), ..t }
    } else if t.os_thread_id.len() > 0 && !text::match_at(e, "["@, 0) {
        t
    } else if text::match_at(e, "["@, 0) {
        ApplicationThreadV {
            last_known_java_stack_pointer: text::spec_remove_chars(e, "[]"@),
            ..t
        }
    } else {
        t
    }
}

/// Fold `spec_app_token_step` over the tokens.
pub open spec fn spec_app_token_fold(
    tokens: Seq<Seq<char>>,
    t: ApplicationThreadV,
) -> ApplicationThreadV
    decreases tokens.len(),
{
    if tokens.len() == 0 {
        t
    } else {
        spec_app_token_fold(tokens.skip(1), spec_app_token_step(t, tokens[0]))
    }
}

/// The application thread record written by one header remainder, before
/// the CPU delta is applied: the tokens folded over a record holding only
/// the name and the state-row status.
pub open spec fn spec_block_app_thread(
    name: Seq<char>,
    status: Seq<char>,
    rest: Seq<char>,
) -> ApplicationThreadV {
    spec_app_token_fold(
        text::spec_split(rest, " "@),
        ApplicationThreadV {
            name,
            id: 0,
            daemon: false,
            prio: 0,
            os_thread_prio: 0,
            cpu_nanos: 0,
            elapsed_nanos: 0,
            allocated: Seq::empty(),
            defined_classes: 0,
            thread_id: Seq::empty(),
            os_thread_id: Seq::empty(),
            status,
            last_known_java_stack_pointer: Seq::empty(),
        },
    )
}

/// Effect of one header-remainder token on a JVM thread record and its
/// pending status tokens: once the `nid=` field is known, bare tokens (not
/// bracketed) accumulate into the status.
pub open spec fn spec_jvm_token_step(
    acc: (JvmThreadV, Seq<Seq<char>>),
    e: Seq<char>,
) -> (JvmThreadV, Seq<Seq<char>>) {
    let t = acc.0;
    let st = acc.1;
    if text::match_at(e, "os_prio="@, 0) {
        match spec_parse_u16(e.skip("os_prio="@.len() as int)) {
            Some(v) => (JvmThreadV { os_thread_prio: v, ..t }, st),
            None => (t, st),
        }
    } else if text::match_at(e, "cpu="@, 0) {
        match numeric::spec_duration_nanos(e, "cpu="@) {
            Some(v) => (JvmThreadV { cpu_nanos: v, ..t }, st),
            None => (t, st),
        }
    } else if text::match_at(e, "elapsed="@, 0) {
        match numeric::spec_duration_nanos(e, "elapsed="@) {
            Some(v) => (JvmThreadV { elapsed_nanos: v, ..t }, st),
            None => (t, st),
        }
    } else if text::match_at(e, "tid="@, 0) {
        (JvmThreadV { thread_id: e.skip("tid="@.len() as int), ..t }, st)
    } else if text::match_at(e, "nid="@, 0) {
        (JvmThreadV { os_thread_id: e.skip("nid="@.len() as int), ..t }, st)
    } else if t.os_thread_id.len() > 0 && !text::match_at(e, "["@, 0) {
        (t, st.push(e))
    } else {
        (t, st)
    }
}

/// Fold `spec_jvm_token_step` over the tokens.
pub open spec fn spec_jvm_token_fold(
    tokens: Seq<Seq<char>>,
    acc: (JvmThreadV, Seq<Seq<char>>),
) -> (JvmThreadV, Seq<Seq<char>>)
    decreases tokens.len(),
{
    if tokens.len() == 0 {
        acc
    } else {
        spec_jvm_token_fold(tokens.skip(1), spec_jvm_token_step(acc, tokens[0]))
    }
}

/// The JVM thread record written by one header remainder, before the CPU
/// delta is applied: the tokens folded over a record holding only the name,
/// the trailing bare tokens joined with spaces as the status.
pub open spec fn spec_block_jvm_thread(name: Seq<char>, rest: Seq<char>) -> JvmThreadV {
    let folded = spec_jvm_token_fold(
        text::spec_split(rest, " "@),
        (
            JvmThreadV {
                name,
                os_thread_prio: 0,
                cpu_nanos: 0,
                elapsed_nanos: 0,
                thread_id: Seq::empty(),
                os_thread_id: Seq::empty(),
                status: Seq::empty(),
            },
            Seq::empty(),
        ),
    );
    JvmThreadV { status: text::spec_join(folded.1, " "@), ..folded.0 }
}

/// The token fold never touches the name or the status.
pub proof fn lemma_app_fold_keeps(tokens: Seq<Seq<char>>, t: ApplicationThreadV)
    ensures
        spec_app_token_fold(tokens, t).name == t.name,
        spec_app_token_fold(tokens, t).status == t.status,
    decreases tokens.len(),
{
    if tokens.len() > 0 {
        lemma_app_fold_keeps(tokens.skip(1), spec_app_token_step(t, tokens[0]));
    }
}

/// The record built from a header remainder keeps the given name and
/// status.
pub proof fn lemma_block_app_thread_fields(name: Seq<char>, status: Seq<char>, rest: Seq<char>)
    ensures
        spec_block_app_thread(name, status, rest).name == name,
        spec_block_app_thread(name, status, rest).status == status,
{
    lemma_app_fold_keeps(
        text::spec_split(rest, " "@),
        ApplicationThreadV {
            name,
            id: 0,
            daemon: false,
            prio: 0,
            os_thread_prio: 0,
            cpu_nanos: 0,
            elapsed_nanos: 0,
            allocated: Seq::empty(),
            defined_classes: 0,
            thread_id: Seq::empty(),
            os_thread_id: Seq::empty(),
            status,
            last_known_java_stack_pointer: Seq::empty(),
        },
    );
}

/// The token fold never touches the name.
pub proof fn lemma_jvm_fold_keeps(tokens: Seq<Seq<char>>, acc: (JvmThreadV, Seq<Seq<char>>))
    ensures
        spec_jvm_token_fold(tokens, acc).0.name == acc.0.name,
    decreases tokens.len(),
{
    if tokens.len() > 0 {
        lemma_jvm_fold_keeps(tokens.skip(1), spec_jvm_token_step(acc, tokens[0]));
    }
}

/// The record built from a header remainder keeps the given name.
pub proof fn lemma_block_jvm_thread_fields(name: Seq<char>, rest: Seq<char>)
    ensures
        spec_block_jvm_thread(name, rest).name == name,
{
    lemma_jvm_fold_keeps(
        text::spec_split(rest, " "@),
        (
            JvmThreadV {
                name,
                os_thread_prio: 0,
                cpu_nanos: 0,
                elapsed_nanos: 0,
                thread_id: Seq::empty(),
                os_thread_id: Seq::empty(),
                status: Seq::empty(),
            },
            Seq::empty(),
        ),
    );
}

/// Build an application thread record from one header remainder.
fn build_app_thread(rest: &str, name: String, status: String) -> (t: ApplicationThread)
    ensures
        t@ == spec_block_app_thread(name@, status@, rest@),
{
    proof {
        reveal_strlit(" ");
    }
    let tokens = text::split_str(rest, " ");
    let ghost tv = text::views_of(tokens@);
    let mut t = ApplicationThread {
        name,
        id: 0,
        daemon: false,
        prio: 0,
        os_thread_prio: 0,
        cpu_nanos: 0,
        elapsed_nanos: 0,
        allocated: String::new(),
        defined_classes: 0,
        thread_id: String::new(),
        os_thread_id: String::new(),
        status,
        last_known_java_stack_pointer: String::new(),
    };
    let ghost init = t@;
    let mut i: usize = 0;
    proof {
        assert(tv.skip(0) =~= tv);
    }
    while i < tokens.len()
        invariant
            tv == text::views_of(tokens@),
            i <= tokens@.len(),
            spec_app_token_fold(tv.skip(i as int), t@) == spec_app_token_fold(tv, init),
        decreases tokens@.len() - i,
    {
        let e = tokens[i];
        proof {
            assert(tv.skip(i as int)[0] == tv[i as int]);
            assert(tv.skip(i as int).skip(1) =~= tv.skip(i + 1));
            assert(tv[i as int] == e@);
        }
        if text::starts_with(e, "#") {
            if let Some(v) = parse_u32(text::remove_chars(e, "#").as_str()) {
                t.id = v;
            }
        } else if text::str_eq(e, "daemon") {
            t.daemon = true;
        } else if text::starts_with(e, "prio=") {
            if let Some(v) = parse_u16(text::strip_prefix(e, "prio=")) {
                t.prio = v;
            }
        } else if text::starts_with(e, "cpu=") {
            if let Some(v) = numeric::calculate_thread_time(e, "cpu=") {
                t.cpu_nanos = v;
            }
        } else if text::starts_with(e, "elapsed=") {
            if let Some(v) = numeric::calculate_thread_time(e, "elapsed=") {
                t.elapsed_nanos = v;
            }
        } else if text::starts_with(e, "allocated=") {
            t.allocated = text::strip_prefix(e, "allocated=").to_owned();
        } else if text::starts_with(e, "defined_classes=") {
            if let Some(v) = parse_u16(text::strip_prefix(e, "defined_classes=")) {
                t.defined_classes = v;
            }
        } else if text::starts_with(e, "os_prio=") {
            if let Some(v) = parse_u16(text::strip_prefix(e, "os_prio=")) {
                t.os_thread_prio = v;
            }
        } else if text::starts_with(e, "tid=") {
            t.thread_id = text::strip_prefix(e, "tid=").to_owned();
        } else if text::starts_with(e, "nid=") {
            t.os_thread_id = text::strip_prefix(e, "nid=").to_owned();
        } else if t.os_thread_id.unicode_len() > 0 && !text::starts_with(e, "[") {
        } else if text::starts_with(e, "[") {
            t.last_known_java_stack_pointer = text::remove_chars(e, "[]");
        }
        i += 1;
    }
    proof {
        assert(tv.skip(tv.len() as int) =~= Seq::<Seq<char>>::empty());
    }
    t
}

/// Build a JVM thread record from one header remainder.
fn build_jvm_thread(rest: &str, name: String) -> (t: JvmThread)
    ensures
        t@ == spec_block_jvm_thread(name@, rest@),
{
    proof {
        reveal_strlit(" ");
    }
    let tokens = text::split_str(rest, " ");
    let ghost tv = text::views_of(tokens@);
    let mut t = JvmThread {
        name,
        os_thread_prio: 0,
        cpu_nanos: 0,
        elapsed_nanos: 0,
        thread_id: String::new(),
        os_thread_id: String::new(),
        status: String::new(),
    };
    let mut status_parts: Vec<&str> = Vec::new();
    let ghost init = (t@, Seq::<Seq<char>>::empty());
    let mut i: usize = 0;
    proof {
        assert(tv.skip(0) =~= tv);
        assert(text::views_of(status_parts@) =~= Seq::<Seq<char>>::empty());
    }
    while i < tokens.len()
        invariant
            tv == text::views_of(tokens@),
            i <= tokens@.len(),
            t@.status == Seq::<char>::empty(),
            spec_jvm_token_fold(tv.skip(i as int), (t@, text::views_of(status_parts@)))
                == spec_jvm_token_fold(tv, init),
        decreases tokens@.len() - i,
    {
        let e = tokens[i];
        proof {
            assert(tv.skip(i as int)[0] == tv[i as int]);
            assert(tv.skip(i as int).skip(1) =~= tv.skip(i + 1));
            assert(tv[i as int] == e@);
        }
        if text::starts_with(e, "os_prio=") {
            if let Some(v) = parse_u16(text::strip_prefix(e, "os_prio=")) {
                t.os_thread_prio = v;
            }
        } else if text::starts_with(e, "cpu=") {
            if let Some(v) = numeric::calculate_thread_time(e, "cpu=") {
                t.cpu_nanos = v;
            }
        } else if text::starts_with(e, "elapsed=") {
            if let Some(v) = numeric::calculate_thread_time(e, "elapsed=") {
                t.elapsed_nanos = v;
            }
        } else if text::starts_with(e, "tid=") {
            t.thread_id = text::strip_prefix(e, "tid=").to_owned();
        } else if text::starts_with(e, "nid=") {
            t.os_thread_id = text::strip_prefix(e, "nid=").to_owned();
        } else if t.os_thread_id.unicode_len() > 0 && !text::starts_with(e, "[") {
            let ghost old_parts = status_parts@;
            status_parts.push(e);
            proof {
                assert(text::views_of(status_parts@) =~= text::views_of(old_parts).push(e@));
            }
        }
        i += 1;
    }
    proof {
        assert(tv.skip(tv.len() as int) =~= Seq::<Seq<char>>::empty());
    }
    t.status = text::join_strs(&status_parts, " ");
    t
}

/// A counter bumped by one, capped at what a `u32` can hold.
pub open spec fn spec_bump(c: u32) -> u32 {
    if c == u32::MAX {
        c
    } else {
        (c + 1) as u32
    }
}

/// The census bucket of an application thread status: `0` NEW, `1`
/// RUNNABLE, `2` TIMED_WAITING, `3` WAITING, `4` BLOCKED, `5` none of
/// these, judged by the status prefix in that order.
pub open spec fn spec_app_bucket(status: Seq<char>) -> int {
    if text::match_at(status, "NEW"@, 0) {
        0
    } else if text::match_at(status, "RUNNABLE"@, 0) {
        1
    } else if text::match_at(status, "TIMED_WAITING"@, 0) {
        2
    } else if text::match_at(status, "WAITING"@, 0) {
        3
    } else if text::match_at(status, "BLOCKED"@, 0) {
        4
    } else {
        5
    }
}

/// The census bucket of a JVM thread status: `0` new, `1` runnable, `2`
/// waiting on condition, `3` blocked, `4` none of these. JVM threads have
/// no separate timed-waiting bucket.
pub open spec fn spec_jvm_bucket(status: Seq<char>) -> int {
    if text::match_at(status, "new"@, 0) {
        0
    } else if text::match_at(status, "runnable"@, 0) {
        1
    } else if text::match_at(status, "waiting on condition"@, 0) {
        2
    } else if text::match_at(status, "blocked"@, 0) {
        3
    } else {
        4
    }
}

/// The running state of a thread dump scan: the CPU cache, the records so
/// far, and the census counters.
pub struct ThreadScanV {
    pub cache: Seq<ThreadCacheEntryV>,
    pub apps: Seq<ApplicationThreadV>,
    pub jvms: Seq<JvmThreadV>,
    pub new_app: u32,
    pub runnable_app: u32,
    pub timed_waiting_app: u32,
    pub waiting_app: u32,
    pub blocked_app: u32,
    pub new_jvm: u32,
    pub runnable_jvm: u32,
    pub waiting_jvm: u32,
    pub blocked_jvm: u32,
}

/// Effect of one blank-line-separated block on the scan. A block whose
/// first row is not quote-delimited is skipped. Otherwise the thread name
/// is the text between the first and the last quote of that row, the
/// remainder starts two characters after the last quote, and a `#` in the
/// remainder marks an application thread. The record's cumulative CPU time
/// runs through the cache and the delta is reported on the record; the
/// record's status decides its census bucket.
pub open spec fn spec_thread_block_step(st: ThreadScanV, block: Seq<char>) -> ThreadScanV {
    let rows = text::spec_split(block, "\n"@);
    let first = rows[0];
    if !text::match_at(first, "\""@, 0) {
        st
    } else {
        match first.index_of_last('"') {
            None => st,
            Some(q) => {
                let name = if q >= 1 {
                    first.subrange(1, q)
                } else {
                    Seq::empty()
                };
                let rest = if q + 2 <= first.len() {
                    first.skip(q + 2)
                } else {
                    Seq::empty()
                };
                let status = if rows.len() > 1 {
                    spec_state_line(rows[1])
                } else {
                    Seq::empty()
                };
                if rest.contains('#') {
                    let t0 = spec_block_app_thread(name, status, rest);
                    let upd = spec_update_thread_cache(st.cache, name, false, t0.cpu_nanos);
                    let t = ApplicationThreadV { cpu_nanos: upd.1, ..t0 };
                    let b = spec_app_bucket(status);
                    ThreadScanV {
                        cache: upd.0,
                        apps: st.apps.push(t),
                        new_app: if b == 0 {
                            spec_bump(st.new_app)
                        } else {
                            st.new_app
                        },
                        runnable_app: if b == 1 {
                            spec_bump(st.runnable_app)
                        } else {
                            st.runnable_app
                        },
                        timed_waiting_app: if b == 2 {
                            spec_bump(st.timed_waiting_app)
                        } else {
                            st.timed_waiting_app
                        },
                        waiting_app: if b == 3 {
                            spec_bump(st.waiting_app)
                        } else {
                            st.waiting_app
                        },
                        blocked_app: if b == 4 {
                            spec_bump(st.blocked_app)
                        } else {
                            st.blocked_app
                        },
                        ..st
                    }
                } else {
                    let t0 = spec_block_jvm_thread(name, rest);
                    let upd = spec_update_thread_cache(st.cache, name, true, t0.cpu_nanos);
                    let t = JvmThreadV { cpu_nanos: upd.1, ..t0 };
                    let b = spec_jvm_bucket(t0.status);
                    ThreadScanV {
                        cache: upd.0,
                        jvms: st.jvms.push(t),
                        new_jvm: if b == 0 {
                            spec_bump(st.new_jvm)
                        } else {
                            st.new_jvm
                        },
                        runnable_jvm: if b == 1 {
                            spec_bump(st.runnable_jvm)
                        } else {
                            st.runnable_jvm
                        },
                        waiting_jvm: if b == 2 {
                            spec_bump(st.waiting_jvm)
                        } else {
                            st.waiting_jvm
                        },
                        blocked_jvm: if b == 3 {
                            spec_bump(st.blocked_jvm)
                        } else {
                            st.blocked_jvm
                        },
                        ..st
                    }
                }
            },
        }
    }
}

/// Fold `spec_thread_block_step` over the blocks.
pub open spec fn spec_scan_fold(blocks: Seq<Seq<char>>, st: ThreadScanV) -> ThreadScanV
    decreases blocks.len(),
{
    if blocks.len() == 0 {
        st
    } else {
        spec_scan_fold(blocks.skip(1), spec_thread_block_step(st, blocks[0]))
    }
}

/// The scan written by a full thread dump, starting from the given CPU
/// cache and no records.
pub open spec fn spec_scan_threads(output: Seq<char>, cache0: Seq<ThreadCacheEntryV>) -> ThreadScanV {
    spec_scan_fold(
        text::spec_split(output, "\n\n"@),
        ThreadScanV {
            cache: cache0,
            apps: Seq::empty(),
            jvms: Seq::empty(),
            new_app: 0,
            runnable_app: 0,
            timed_waiting_app: 0,
            waiting_app: 0,
            blocked_app: 0,
            new_jvm: 0,
            runnable_jvm: 0,
            waiting_jvm: 0,
            blocked_jvm: 0,
        },
    )
}

/// The census entry an application scan writes at one poll time.
pub open spec fn spec_app_census(st: ThreadScanV, time: u128) -> ThreadCountMetricValue {
    ThreadCountMetricValue {
        time,
        new_count: st.new_app,
        runnable_count: st.runnable_app,
        waiting_count: st.waiting_app,
        timed_waiting_count: st.timed_waiting_app,
        blocked_count: st.blocked_app,
    }
}

/// The census entry a JVM scan writes at one poll time. JVM threads have no
/// timed-waiting bucket: that count is always zero.
pub open spec fn spec_jvm_census(st: ThreadScanV, time: u128) -> ThreadCountMetricValue {
    ThreadCountMetricValue {
        time,
        new_count: st.new_jvm,
        runnable_count: st.runnable_jvm,
        waiting_count: st.waiting_jvm,
        timed_waiting_count: 0,
        blocked_count: st.blocked_jvm,
    }
}

/// Decode a thread dump, run every record's cumulative CPU time through
/// the delta cache, append one census entry to each of the two thread-count
/// series, and return the fresh records with the accumulated census
/// histories.
pub fn parse_threads(
    metrics: &mut MetricsCache,
    cache: &mut ThreadCache,
    output: &str,
    time: u128,
) -> (r: Threads)
    ensures
        ({
            let scan = spec_scan_threads(output@, old(cache)@);
            &&& final(cache)@ == scan.cache
            &&& final(metrics)@ == (crate::model::MetricsCacheV {
                thread_count_metrics_application: NamedMetricV {
                    name: old(metrics)@.thread_count_metrics_application.name,
                    values: old(metrics)@.thread_count_metrics_application.values.push(
                        spec_app_census(scan, time),
                    ),
                },
                thread_count_metrics_jvm: NamedMetricV {
                    name: old(metrics)@.thread_count_metrics_jvm.name,
                    values: old(metrics)@.thread_count_metrics_jvm.values.push(
                        spec_jvm_census(scan, time),
                    ),
                },
                ..old(metrics)@
            })
            &&& r@.application_threads == scan.apps
            &&& r@.jvm_threads == scan.jvms
            &&& r@.thread_count_application == final(metrics)@.thread_count_metrics_application
            &&& r@.thread_count_jvm == final(metrics)@.thread_count_metrics_jvm
        }),
{
    proof {
        reveal_strlit("\n\n");
    }
    let blocks = text::split_str(output, "\n\n");
    let ghost bv = text::views_of(blocks@);
    let ghost init = ThreadScanV {
        cache: old(cache)@,
        apps: Seq::empty(),
        jvms: Seq::empty(),
        new_app: 0,
        runnable_app: 0,
        timed_waiting_app: 0,
        waiting_app: 0,
        blocked_app: 0,
        new_jvm: 0,
        runnable_jvm: 0,
        waiting_jvm: 0,
        blocked_jvm: 0,
    };
    let ghost target = spec_scan_fold(bv, init);
    let mut apps: Vec<ApplicationThread> = Vec::new();
    let mut jvms: Vec<JvmThread> = Vec::new();
    let mut new_app: u32 = 0;
    let mut runnable_app: u32 = 0;
    let mut timed_waiting_app: u32 = 0;
    let mut waiting_app: u32 = 0;
    let mut blocked_app: u32 = 0;
    let mut new_jvm: u32 = 0;
    let mut runnable_jvm: u32 = 0;
    let mut waiting_jvm: u32 = 0;
    let mut blocked_jvm: u32 = 0;
    let mut i: usize = 0;
    proof {
        assert(bv.skip(0) =~= bv);
        assert(app_threads_view(apps@) =~= Seq::<ApplicationThreadV>::empty());
        assert(jvm_threads_view(jvms@) =~= Seq::<JvmThreadV>::empty());
    }
    while i < blocks.len()
        invariant
            bv == text::views_of(blocks@),
            i <= blocks@.len(),
            spec_scan_fold(
                bv.skip(i as int),
                ThreadScanV {
                    cache: cache@,
                    apps: app_threads_view(apps@),
                    jvms: jvm_threads_view(jvms@),
                    new_app,
                    runnable_app,
                    timed_waiting_app,
                    waiting_app,
                    blocked_app,
                    new_jvm,
                    runnable_jvm,
                    waiting_jvm,
                    blocked_jvm,
                },
            ) == target,
        decreases blocks@.len() - i,
    {
        let block = blocks[i];
        let ghost st0 = ThreadScanV {
            cache: cache@,
            apps: app_threads_view(apps@),
            jvms: jvm_threads_view(jvms@),
            new_app,
            runnable_app,
            timed_waiting_app,
            waiting_app,
            blocked_app,
            new_jvm,
            runnable_jvm,
            waiting_jvm,
            blocked_jvm,
        };
        proof {
            reveal_strlit("\n");
            reveal_strlit("\"");
            assert(bv.skip(i as int)[0] == bv[i as int]);
            assert(bv.skip(i as int).skip(1) =~= bv.skip(i + 1));
            assert(bv[i as int] == block@);
        }
        let rows = text::split_str(block, "\n");
        proof {
            assert(text::views_of(rows@)[0] == rows@[0]@);
        }
        let first = rows[0];
        if text::starts_with(first, "\"") {
            proof {
                assert(first@.subrange(0, 1) == "\""@);
                assert(first@[0] == first@.subrange(0, 1)[0]);
                assert(first@[0] == '"');
            }
            match last_quote_index(first) {
                None => {
                    proof {
                        first@.index_of_last_ensures('"');
                        assert(first@.contains('"')) by {
                            assert(first@[0] == '"');
                        }
                        assert(false);
                    }
                },
                Some(q) => {
                    proof {
                        first@.index_of_last_ensures('"');
                    }
                    let n = first.unicode_len();
                    let name_s: String = if q >= 1 {
                        text::substring(first, 1, q).to_owned()
                    } else {
                        String::new()
                    };
                    let ghost name_v = name_s@;
                    let rest: &str = if n >= 2 && q <= n - 2 {
                        text::substring(first, q + 2, n)
                    } else {
                        text::substring(first, n, n)
                    };
                    proof {
                        if q + 2 <= first@.len() {
                            assert(rest@ =~= first@.skip(q + 2));
                        } else {
                            assert(rest@ =~= Seq::<char>::empty());
                        }
                    }
                    let status_s: String = if rows.len() > 1 {
                        state_line(rows[1])
                    } else {
                        String::new()
                    };
                    let ghost status_v = status_s@;
                    proof {
                        assert(text::views_of(rows@) == text::spec_split(block@, "\n"@));
                        if rows@.len() > 1 {
                            assert(text::views_of(rows@)[1] == rows@[1]@);
                        }
                    }
                    if text::contains_char(rest, '#') {
                        let mut t = build_app_thread(rest, name_s, status_s);
                        proof {
                            lemma_block_app_thread_fields(name_v, status_v, rest@);
                        }
                        let delta = update_thread_cache(cache, t.cpu_nanos, t.name.clone(), false);
                        t.cpu_nanos = delta;
                        if text::starts_with(t.status.as_str(), "NEW") {
                            if new_app < u32::MAX {
                                new_app = new_app + 1;
                            }
                        } else if text::starts_with(t.status.as_str(), "RUNNABLE") {
                            if runnable_app < u32::MAX {
                                runnable_app = runnable_app + 1;
                            }
                        } else if text::starts_with(t.status.as_str(), "TIMED_WAITING") {
                            if timed_waiting_app < u32::MAX {
                                timed_waiting_app = timed_waiting_app + 1;
                            }
                        } else if text::starts_with(t.status.as_str(), "WAITING") {
                            if waiting_app < u32::MAX {
                                waiting_app = waiting_app + 1;
                            }
                        } else if text::starts_with(t.status.as_str(), "BLOCKED") {
                            if blocked_app < u32::MAX {
                                blocked_app = blocked_app + 1;
                            }
                        }
                        let ghost old_apps = apps@;
                        apps.push(t);
                        proof {
                            lemma_app_threads_view_push(old_apps, t);
                            assert(ThreadScanV {
                                cache: cache@,
                                apps: app_threads_view(apps@),
                                jvms: jvm_threads_view(jvms@),
                                new_app,
                                runnable_app,
                                timed_waiting_app,
                                waiting_app,
                                blocked_app,
                                new_jvm,
                                runnable_jvm,
                                waiting_jvm,
                                blocked_jvm,
                            } == spec_thread_block_step(st0, bv[i as int]));
                        }
                    } else {
                        let mut t = build_jvm_thread(rest, name_s);
                        proof {
                            lemma_block_jvm_thread_fields(name_v, rest@);
                        }
                        let delta = update_thread_cache(cache, t.cpu_nanos, t.name.clone(), true);
                        t.cpu_nanos = delta;
                        if text::starts_with(t.status.as_str(), "new") {
                            if new_jvm < u32::MAX {
                                new_jvm = new_jvm + 1;
                            }
                        } else if text::starts_with(t.status.as_str(), "runnable") {
                            if runnable_jvm < u32::MAX {
                                runnable_jvm = runnable_jvm + 1;
                            }
                        } else if text::starts_with(t.status.as_str(), "waiting on condition") {
                            if waiting_jvm < u32::MAX {
                                waiting_jvm = waiting_jvm + 1;
                            }
                        } else if text::starts_with(t.status.as_str(), "blocked") {
                            if blocked_jvm < u32::MAX {
                                blocked_jvm = blocked_jvm + 1;
                            }
                        }
                        let ghost old_jvms = jvms@;
                        jvms.push(t);
                        proof {
                            lemma_jvm_threads_view_push(old_jvms, t);
                            assert(ThreadScanV {
                                cache: cache@,
                                apps: app_threads_view(apps@),
                                jvms: jvm_threads_view(jvms@),
                                new_app,
                                runnable_app,
                                timed_waiting_app,
                                waiting_app,
                                blocked_app,
                                new_jvm,
                                runnable_jvm,
                                waiting_jvm,
                                blocked_jvm,
                            } == spec_thread_block_step(st0, bv[i as int]));
                        }
                    }
                },
            }
        }
        i += 1;
    }
    proof {
        assert(bv.skip(bv.len() as int) =~= Seq::<Seq<char>>::empty());
    }
    let ghost scan = target;
    metrics.thread_count_metrics_application.values.push(
        ThreadCountMetricValue {
            time,
            new_count: new_app,
            runnable_count: runnable_app,
            waiting_count: waiting_app,
            timed_waiting_count: timed_waiting_app,
            blocked_count: blocked_app,
        },
    );
    metrics.thread_count_metrics_jvm.values.push(
        ThreadCountMetricValue {
            time,
            new_count: new_jvm,
            runnable_count: runnable_jvm,
            waiting_count: waiting_jvm,
            timed_waiting_count: 0,
            blocked_count: blocked_jvm,
        },
    );
    Threads {
        application_threads: apps,
        jvm_threads: jvms,
        thread_count_application: crate::metrics::dup_named(
            &metrics.thread_count_metrics_application,
        ),
        thread_count_jvm: crate::metrics::dup_named(&metrics.thread_count_metrics_jvm),
    }
}

} // verus!
