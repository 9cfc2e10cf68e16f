//! Heap and native-memory parsing, and the merge of one metrics poll into
//! the process-wide series cache.
//!
//! A metrics poll reads two diagnostic outputs: the heap summary, whose
//! collector-dependent layout yields used/committed/reserved figures for
//! heap, metaspace and class space, and the native-memory breakdown, whose
//! blank-line-delimited record groups yield one new entry per memory
//! category. The heap figures must be parsed first: the merge consumes them
//! for the `used` fields that the native-memory output does not carry.

use vstd::prelude::*;

use crate::model::{lemma_generics_view_push, generics_view, GenericMemoryMetric,
    GenericMemoryMetricV, GenericMemoryMetricValue, ClassMemoryMetricValue,
    HeapMemoryMetricValue, JvmMetrics, JvmMetricsV, MetaspaceMemoryMetricValue, MetricsCache,
    MetricsCacheV, NamedMetric, NamedMetricV, ThreadMemoryMetricValue,
    TotalMemoryMetricValue};
use crate::numeric;
use crate::text;

verus! {

/// Why a poll failed, as far as the library can see it in the tool's output.
/// Spawn failures and non-zero exits are judged by the host application
/// before the text reaches the library.
#[derive(Clone, Copy, Debug, PartialEq, Eq)]
pub enum PollError {
    /// The output carries the tool's no-such-process marker: the target
    /// exited between directory listing and query.
    TargetNotFound,
    /// The output says native memory tracking is not enabled on the target.
    NmtDisabled,
}

impl PollError {
    /// The message the host application surfaces for this error.
    pub fn message(&self) -> (r: String)
        ensures
            *self is TargetNotFound ==> r@ == "No such process"@,
            *self is NmtDisabled ==> r@
                == "Native memory tracking not activated. Start application with java -XX:NativeMemoryTracking=summary -jar ..."@,
    {
        match self {
            PollError::TargetNotFound => "No such process".to_owned(),
            PollError::NmtDisabled => "Native memory tracking not activated. Start application with java -XX:NativeMemoryTracking=summary -jar ...".to_owned(),
        }
    }
}

/// The figures a heap summary yields: heap used, and the three metaspace and
/// class-space figures. A field the summary does not carry stays `None`.
#[derive(Clone, Copy, Debug, PartialEq, Eq)]
pub struct HeapFigures {
    pub heap_used: Option<u64>,
    pub metaspace_used: Option<u64>,
    pub metaspace_committed: Option<u64>,
    pub metaspace_reserved: Option<u64>,
    pub class_space_used: Option<u64>,
    pub class_space_committed: Option<u64>,
    pub class_space_reserved: Option<u64>,
}

impl HeapFigures {
    /// Figures with every field absent.
    pub fn empty() -> (r: HeapFigures)
        ensures
            r == (HeapFigures {
                heap_used: None,
                metaspace_used: None,
                metaspace_committed: None,
                metaspace_reserved: None,
                class_space_used: None,
                class_space_committed: None,
                class_space_reserved: None,
            }),
    {
        HeapFigures {
            heap_used: None,
            metaspace_used: None,
            metaspace_committed: None,
            metaspace_reserved: None,
            class_space_used: None,
            class_space_committed: None,
            class_space_reserved: None,
        }
    }
}

/// The size written next to the token `memory_type` in a heap summary row:
/// the row is split on spaces, the first token equal to `memory_type` is
/// found, and the token after it (before it when `reversed`) is decoded as
/// a size. `None` when the token or its neighbour is missing or the
/// neighbour does not decode.
pub open spec fn spec_parse_memory_from_heap_info(
    row: Seq<char>,
    memory_type: Seq<char>,
    reversed: bool,
) -> Option<u64> {
    let parts = text::spec_split(row, " "@);
    match parts.index_of_first(memory_type) {
        None => None,
        Some(i) => {
            let j = if reversed {
                i - 1
            } else {
                i + 1
            };
            if 0 <= j < parts.len() {
                numeric::spec_decode_size(parts[j])
            } else {
                None
            }
        },
    }
}

/// Decode the size written next to the token `memory_type` in a heap
/// summary row.
pub fn parse_memory_from_heap_info(row: &str, memory_type: &str, reversed: bool) -> (r: Option<
    u64,
>)
    ensures
        r == spec_parse_memory_from_heap_info(row@, memory_type@, reversed),
{
    proof {
        reveal_strlit(" ");
    }
    let parts = text::split_str(row, " ");
    let ghost pv = text::views_of(parts@);
    proof {
        pv.index_of_first_ensures(memory_type@);
    }
    let mut i: usize = 0;
    while i < parts.len()
        invariant
            pv == text::views_of(parts@),
            pv == text::spec_split(row@, " "@),
            i <= parts@.len(),
            forall|k: int| 0 <= k < i ==> pv[k] != memory_type@,
        decreases parts@.len() - i,
    {
        if text::str_eq(parts[i], memory_type) {
            proof {
                pv.index_of_first_ensures(memory_type@);
                assert(pv[i as int] == memory_type@);
                assert(pv.contains(memory_type@));
                if let Some(j) = pv.index_of_first(memory_type@) {
                    if j < i {
                        assert(pv[j] == memory_type@);
                    }
                    if i < j {
                        assert(pv[i as int] != memory_type@);
                    }
                } else {
                    assert(!pv.contains(memory_type@));
                }
                assert(pv.index_of_first(memory_type@) == Some(i as int));
            }
            if reversed {
                if i == 0 {
                    return None;
                }
                return numeric::decode_size(parts[i - 1]);
            } else {
                if i + 1 >= parts.len() {
                    return None;
                }
                return numeric::decode_size(parts[i + 1]);
            }
        }
        i += 1;
    }
    proof {
        if pv.contains(memory_type@) {
            let w = choose|w: int| 0 <= w < pv.len() && pv[w] == memory_type@;
            assert(pv[w] != memory_type@);
        }
    }
    None
}

/// Effect of one `reserved=` / `committed=` token on the scanned pair:
/// a token with either prefix sets its side to the decoded remainder,
/// later tokens winning; other tokens change nothing.
pub open spec fn spec_rc_step(
    acc: (Option<u64>, Option<u64>),
    part: Seq<char>,
) -> (Option<u64>, Option<u64>) {
    if text::match_at(part, "reserved="@, 0) {
        (numeric::spec_decode_size(part.skip("reserved="@.len() as int)), acc.1)
    } else if text::match_at(part, "committed="@, 0) {
        (acc.0, numeric::spec_decode_size(part.skip("committed="@.len() as int)))
    } else {
        acc
    }
}

/// Fold `spec_rc_step` over the tokens.
pub open spec fn spec_rc_fold(
    parts: Seq<Seq<char>>,
    acc: (Option<u64>, Option<u64>),
) -> (Option<u64>, Option<u64>)
    decreases parts.len(),
{
    if parts.len() == 0 {
        acc
    } else {
        spec_rc_fold(parts.skip(1), spec_rc_step(acc, parts[0]))
    }
}

/// The reserved/committed pair written by a token list.
pub open spec fn spec_reserved_committed(parts: Seq<Seq<char>>) -> (Option<u64>, Option<u64>) {
    spec_rc_fold(parts, (None, None))
}

/// Scan a token list for `reserved=` and `committed=` figures.
pub fn parse_reserved_committed(parts: Vec<&str>) -> (r: (Option<u64>, Option<u64>))
    ensures
        r == spec_reserved_committed(text::views_of(parts@)),
{
    let ghost pv = text::views_of(parts@);
    let mut reserved: Option<u64> = None;
    let mut committed: Option<u64> = None;
    let mut i: usize = 0;
    proof {
        assert(pv.skip(0) =~= pv);
    }
    while i < parts.len()
        invariant
            pv == text::views_of(parts@),
            i <= parts@.len(),
            spec_rc_fold(pv.skip(i as int), (reserved, committed)) == spec_rc_fold(
                pv,
                (None, None),
            ),
        decreases parts@.len() - i,
    {
        let part = parts[i];
        proof {
            assert(pv.skip(i as int)[0] == pv[i as int]);
            assert(pv.skip(i as int).skip(1) =~= pv.skip(i + 1));
            assert(pv[i as int] == part@);
        }
        if text::starts_with(part, "reserved=") {
            reserved = numeric::decode_size(text::strip_prefix(part, "reserved="));
        } else if text::starts_with(part, "committed=") {
            committed = numeric::decode_size(text::strip_prefix(part, "committed="));
        }
        i += 1;
    }
    proof {
        assert(pv.skip(pv.len() as int) =~= Seq::<Seq<char>>::empty());
    }
    (reserved, committed)
}

/// The region name written by a token list: the tokens before the first one
/// starting with `reserved`, each trimmed, empty tokens skipped, joined with
/// single spaces.
pub open spec fn spec_name_tokens(parts: Seq<Seq<char>>) -> Seq<Seq<char>>
    decreases parts.len(),
{
    if parts.len() == 0 {
        Seq::empty()
    } else if text::match_at(parts[0], "reserved"@, 0) {
        Seq::empty()
    } else if parts[0].len() == 0 {
        spec_name_tokens(parts.skip(1))
    } else {
        seq![text::spec_trim(parts[0])] + spec_name_tokens(parts.skip(1))
    }
}

/// The name and the reserved/committed pair written by a region token list.
pub open spec fn spec_name_reserved_committed(parts: Seq<Seq<char>>) -> (
    Option<Seq<char>>,
    Option<u64>,
    Option<u64>,
) {
    let rc = spec_reserved_committed(parts);
    (Some(text::spec_join(spec_name_tokens(parts), " "@)), rc.0, rc.1)
}

/// Scan a region token list for its name and its `reserved=` / `committed=`
/// figures.
pub fn parse_name_reserved_committed(parts: Vec<&str>) -> (r: (
    Option<String>,
    Option<u64>,
    Option<u64>,
))
    ensures
        crate::model::opt_view(r.0) == spec_name_reserved_committed(text::views_of(parts@)).0,
        r.1 == spec_name_reserved_committed(text::views_of(parts@)).1,
        r.2 == spec_name_reserved_committed(text::views_of(parts@)).2,
{
    let ghost pv = text::views_of(parts@);
    let mut name_buffer: Vec<&str> = Vec::new();
    let mut i: usize = 0;
    let mut stopped = false;
    proof {
        assert(text::views_of(name_buffer@) + spec_name_tokens(pv.skip(0)) =~= spec_name_tokens(
            pv.skip(0),
        ));
        assert(pv.skip(0) =~= pv);
    }
    while i < parts.len() && !stopped
        invariant
            pv == text::views_of(parts@),
            i <= parts@.len(),
            !stopped ==> text::views_of(name_buffer@) + spec_name_tokens(pv.skip(i as int))
                == spec_name_tokens(pv),
            stopped ==> text::views_of(name_buffer@) == spec_name_tokens(pv),
        decreases parts@.len() - i + (if stopped { 0int } else { 1int }),
    {
        let part = parts[i];
        proof {
            assert(pv.skip(i as int)[0] == pv[i as int]);
            assert(pv.skip(i as int).skip(1) =~= pv.skip(i + 1));
            assert(pv[i as int] == part@);
        }
        if text::starts_with(part, "reserved") {
            stopped = true;
            proof {
                assert(spec_name_tokens(pv.skip(i as int)) =~= Seq::<Seq<char>>::empty());
                assert(text::views_of(name_buffer@) + Seq::<Seq<char>>::empty() =~= text::views_of(
                    name_buffer@,
                ));
            }
        } else {
            if part.unicode_len() > 0 {
                let ghost old_buf = name_buffer@;
                name_buffer.push(text::trim(part));
                proof {
                    assert(text::views_of(name_buffer@) =~= text::views_of(old_buf).push(
                        text::spec_trim(pv[i as int]),
                    ));
                    assert(text::views_of(old_buf).push(text::spec_trim(pv[i as int]))
                        + spec_name_tokens(pv.skip(i + 1)) =~= text::views_of(old_buf) + (seq![
                        text::spec_trim(pv[i as int]),
                    ] + spec_name_tokens(pv.skip(i + 1))));
                }
            }
            i += 1;
        }
    }
    proof {
        if !stopped {
            assert(pv.skip(pv.len() as int) =~= Seq::<Seq<char>>::empty());
            assert(text::views_of(name_buffer@) + Seq::<Seq<char>>::empty() =~= text::views_of(
                name_buffer@,
            ));
        }
    }
    let name = text::join_strs(&name_buffer, " ");
    let rc = parse_reserved_committed(parts);
    (Some(name), rc.0, rc.1)
}

/// Sum of two byte counts, capped at what a `u64` can hold.
pub open spec fn spec_sat_sum(a: u64, b: u64) -> u64 {
    if a + b > u64::MAX {
        u64::MAX
    } else {
        (a + b) as u64
    }
}

/// Effect of one heap summary row on the scanned figures and the
/// Shenandoah flag. A `Shenandoah` header row arms the flag; while armed and
/// no heap figure is known yet, the row itself is scanned for a trailing
/// `used` figure. `ZHeap`, `garbage-first` and `def new generation` rows set
/// the heap figure; `tenured generation` and `ParOldGen` rows add the old
/// generation to an already known young figure; `PSYoungGen` sets it.
/// `Metaspace` and nested `class space` rows carry their three figures.
pub open spec fn spec_heap_step(f: HeapFigures, shen: bool, row: Seq<char>) -> (HeapFigures, bool) {
    if text::match_at(row, "Shenandoah"@, 0) {
        (f, true)
    } else if shen && f.heap_used is None {
        (
            HeapFigures { heap_used: spec_parse_memory_from_heap_info(row, "used"@, true), ..f },
            shen,
        )
    } else if text::match_at(row, " ZHeap"@, 0) || text::match_at(row, " garbage-first"@, 0)
        || text::match_at(row, " def new generation"@, 0) {
        (
            HeapFigures { heap_used: spec_parse_memory_from_heap_info(row, "used"@, false), ..f },
            shen,
        )
    } else if text::match_at(row, " tenured generation"@, 0) && f.heap_used is Some {
        match (f.heap_used, spec_parse_memory_from_heap_info(row, "used"@, false)) {
            (Some(h), Some(o)) => (HeapFigures { heap_used: Some(spec_sat_sum(h, o)), ..f }, shen),
            _ => (f, shen),
        }
    } else if text::match_at(row, " PSYoungGen"@, 0) {
        (
            HeapFigures { heap_used: spec_parse_memory_from_heap_info(row, "used"@, false), ..f },
            shen,
        )
    } else if text::match_at(row, " ParOldGen"@, 0) && f.heap_used is Some {
        match (f.heap_used, spec_parse_memory_from_heap_info(row, "used"@, false)) {
            (Some(h), Some(o)) => (HeapFigures { heap_used: Some(spec_sat_sum(h, o)), ..f }, shen),
            _ => (f, shen),
        }
    } else if text::match_at(row, " Metaspace"@, 0) {
        (
            HeapFigures {
                metaspace_used: spec_parse_memory_from_heap_info(row, "used"@, false),
                metaspace_committed: spec_parse_memory_from_heap_info(row, "committed"@, false),
                metaspace_reserved: spec_parse_memory_from_heap_info(row, "reserved"@, false),
                ..f
            },
            shen,
        )
    } else if text::match_at(row, "  class space"@, 0) {
        (
            HeapFigures {
                class_space_used: spec_parse_memory_from_heap_info(row, "used"@, false),
                class_space_committed: spec_parse_memory_from_heap_info(row, "committed"@, false),
                class_space_reserved: spec_parse_memory_from_heap_info(row, "reserved"@, false),
                ..f
            },
            shen,
        )
    } else {
        (f, shen)
    }
}

/// Fold `spec_heap_step` over the rows.
pub open spec fn spec_heap_fold(
    rows: Seq<Seq<char>>,
    f: HeapFigures,
    shen: bool,
) -> (HeapFigures, bool)
    decreases rows.len(),
{
    if rows.len() == 0 {
        (f, shen)
    } else {
        let next = spec_heap_step(f, shen, rows[0]);
        spec_heap_fold(rows.skip(1), next.0, next.1)
    }
}

/// The figures written by a heap summary output: its rows folded over empty
/// figures.
pub open spec fn spec_parse_heap_figures(output: Seq<char>) -> HeapFigures {
    spec_heap_fold(
        text::spec_split(output, "\n"@),
        HeapFigures {
            heap_used: None,
            metaspace_used: None,
            metaspace_committed: None,
            metaspace_reserved: None,
            class_space_used: None,
            class_space_committed: None,
            class_space_reserved: None,
        },
        false,
    ).0
}

/// Decode the used/committed/reserved figures from a heap summary output.
/// Succeeds exactly when the output does not carry the tool's
/// no-such-process marker.
pub fn parse_heap_figures(output: &str) -> (r: Result<HeapFigures, PollError>)
    ensures
        r is Ok <==> !text::contains_seq(output@, "IOException: No such process"@),
        r matches Ok(f) ==> f == spec_parse_heap_figures(output@),
        r matches Err(e) ==> e == PollError::TargetNotFound,
{
    if text::contains_sub(output, "IOException: No such process") {
        return Err(PollError::TargetNotFound);
    }
    proof {
        reveal_strlit("\n");
    }
    let rows = text::split_str(output, "\n");
    let ghost rv = text::views_of(rows@);
    let mut f = HeapFigures::empty();
    let mut shen = false;
    let ghost init = f;
    let mut i: usize = 0;
    proof {
        assert(rv.skip(0) =~= rv);
    }
    while i < rows.len()
        invariant
            rv == text::views_of(rows@),
            i <= rows@.len(),
            spec_heap_fold(rv.skip(i as int), f, shen) == spec_heap_fold(rv, init, false),
        decreases rows@.len() - i,
    {
        let row = rows[i];
        proof {
            assert(rv.skip(i as int)[0] == rv[i as int]);
            assert(rv.skip(i as int).skip(1) =~= rv.skip(i + 1));
            assert(rv[i as int] == row@);
        }
        if text::starts_with(row, "Shenandoah") {
            shen = true;
        } else if shen && f.heap_used.is_none() {
            f.heap_used = parse_memory_from_heap_info(row, "used", true);
        } else if text::starts_with(row, " ZHeap") || text::starts_with(row, " garbage-first")
            || text::starts_with(row, " def new generation") {
            f.heap_used = parse_memory_from_heap_info(row, "used", false);
        } else if text::starts_with(row, " tenured generation") && f.heap_used.is_some() {
            if let (Some(h), Some(o)) = (f.heap_used, parse_memory_from_heap_info(
                row,
                "used",
                false,
            )) {
                f.heap_used = Some(if h > u64::MAX - o {
                    u64::MAX
                } else {
                    h + o
                });
            }
        } else if text::starts_with(row, " PSYoungGen") {
            f.heap_used = parse_memory_from_heap_info(row, "used", false);
        } else if text::starts_with(row, " ParOldGen") && f.heap_used.is_some() {
            if let (Some(h), Some(o)) = (f.heap_used, parse_memory_from_heap_info(
                row,
                "used",
                false,
            )) {
                f.heap_used = Some(if h > u64::MAX - o {
                    u64::MAX
                } else {
                    h + o
                });
            }
        } else if text::starts_with(row, " Metaspace") {
            f.metaspace_used = parse_memory_from_heap_info(row, "used", false);
            f.metaspace_committed = parse_memory_from_heap_info(row, "committed", false);
            f.metaspace_reserved = parse_memory_from_heap_info(row, "reserved", false);
        } else if text::starts_with(row, "  class space") {
            f.class_space_used = parse_memory_from_heap_info(row, "used", false);
            f.class_space_committed = parse_memory_from_heap_info(row, "committed", false);
            f.class_space_reserved = parse_memory_from_heap_info(row, "reserved", false);
        }
        i += 1;
    }
    proof {
        assert(rv.skip(rv.len() as int) =~= Seq::<Seq<char>>::empty());
    }
    Ok(f)
}

/// Position of the first discovered-region series with the given name.
pub open spec fn spec_find_series(
    others: Seq<GenericMemoryMetricV>,
    name: Seq<char>,
) -> Option<int>
    decreases others.len(),
{
    if others.len() == 0 {
        None
    } else if others[0].name == name {
        Some(0)
    } else {
        match spec_find_series(others.skip(1), name) {
            Some(i) => Some(i + 1),
            None => None,
        }
    }
}

/// `spec_find_series` returns the first series with the name, or `None`
/// exactly when no series has it.
pub proof fn lemma_find_series_first(others: Seq<GenericMemoryMetricV>, name: Seq<char>)
    ensures
        match spec_find_series(others, name) {
            Some(i) => 0 <= i < others.len() && others[i].name == name && forall|k: int|
                0 <= k < i ==> others[k].name != name,
            None => forall|k: int| 0 <= k < others.len() ==> others[k].name != name,
        },
    decreases others.len(),
{
    if others.len() == 0 {
    } else if others[0].name == name {
    } else {
        lemma_find_series_first(others.skip(1), name);
        assert(forall|k: int|
            1 <= k < others.len() ==> others.skip(1)[k - 1] == others[k]);
    }
}

/// Append `v` to the series named `name`, creating the series at the end on
/// first sight of the name.
pub open spec fn spec_other_insert(
    others: Seq<GenericMemoryMetricV>,
    name: Seq<char>,
    v: GenericMemoryMetricValue,
) -> Seq<GenericMemoryMetricV> {
    match spec_find_series(others, name) {
        Some(i) => others.update(
            i,
            GenericMemoryMetricV { name: others[i].name, values: others[i].values.push(v) },
        ),
        None => others.push(GenericMemoryMetricV { name: name, values: seq![v] }),
    }
}

/// Effect of one buffered record row on the cache: a `Total:` row appends a
/// total-memory entry; region-header rows (starting `-`) naming `Class`,
/// `Thread`, `Java Heap` or `Metaspace` append to their dedicated series,
/// the `used` figures coming from the heap summary; any other region-header
/// row appends to the discovered-region series named by its leading tokens.
/// Other rows change nothing.
pub open spec fn spec_nmt_row(
    c: MetricsCacheV,
    row: Seq<char>,
    fig: HeapFigures,
    time: u128,
) -> MetricsCacheV {
    if text::match_at(row, "Total:"@, 0) {
        let rc = spec_reserved_committed(text::spec_split(row, " "@));
        MetricsCacheV {
            total_memory: NamedMetricV {
                name: c.total_memory.name,
                values: c.total_memory.values.push(
                    TotalMemoryMetricValue { time, reserved: rc.0, committed: rc.1 },
                ),
            },
            ..c
        }
    } else if text::match_at(row, "-"@, 0) && text::contains_seq(row, "Class"@) {
        MetricsCacheV {
            class_metrics: NamedMetricV {
                name: c.class_metrics.name,
                values: c.class_metrics.values.push(
                    ClassMemoryMetricValue {
                        time,
                        class_count: 0,
                        reserved: fig.class_space_reserved,
                        committed: fig.class_space_committed,
                        used: fig.class_space_used,
                    },
                ),
            },
            ..c
        }
    } else if text::match_at(row, "-"@, 0) && text::contains_seq(row, "Thread"@) {
        let rc = spec_reserved_committed(
            text::spec_split(text::spec_remove_chars(row, "(),"@), " "@),
        );
        MetricsCacheV {
            thread_metrics: NamedMetricV {
                name: c.thread_metrics.name,
                values: c.thread_metrics.values.push(
                    ThreadMemoryMetricValue {
                        time,
                        thread_count: 0,
                        reserved: rc.0,
                        committed: rc.1,
                    },
                ),
            },
            ..c
        }
    } else if text::match_at(row, "-"@, 0) && text::contains_seq(row, "Java Heap"@) {
        let rc = spec_reserved_committed(
            text::spec_split(text::spec_remove_chars(row, "(),"@), " "@),
        );
        MetricsCacheV {
            heap_metrics: NamedMetricV {
                name: c.heap_metrics.name,
                values: c.heap_metrics.values.push(
                    HeapMemoryMetricValue {
                        time,
                        reserved: rc.0,
                        committed: rc.1,
                        used: fig.heap_used,
                    },
                ),
            },
            ..c
        }
    } else if text::match_at(row, "-"@, 0) && text::contains_seq(row, "Metaspace"@) {
        MetricsCacheV {
            metaspace_metrics: NamedMetricV {
                name: c.metaspace_metrics.name,
                values: c.metaspace_metrics.values.push(
                    MetaspaceMemoryMetricValue {
                        time,
                        reserved: fig.metaspace_reserved,
                        committed: fig.metaspace_committed,
                        used: fig.metaspace_used,
                    },
                ),
            },
            ..c
        }
    } else if text::match_at(row, "-"@, 0) {
        let parts = text::spec_split(text::spec_remove_chars(row, "-(),"@), " "@);
        let nrc = spec_name_reserved_committed(parts);
        let v = GenericMemoryMetricValue { time, reserved: nrc.1, committed: nrc.2 };
        match nrc.0 {
            Some(name) => MetricsCacheV {
                other_metrics: spec_other_insert(c.other_metrics, name, v),
                ..c
            },
            None => c,
        }
    } else {
        c
    }
}

/// Fold `spec_nmt_row` over the rows of one flushed record group.
pub open spec fn spec_flush(
    buffer: Seq<Seq<char>>,
    c: MetricsCacheV,
    fig: HeapFigures,
    time: u128,
) -> MetricsCacheV
    decreases buffer.len(),
{
    if buffer.len() == 0 {
        c
    } else {
        spec_flush(buffer.skip(1), spec_nmt_row(c, buffer[0], fig, time), fig, time)
    }
}

/// Fold over the output rows: rows are buffered until a blank row flushes
/// the group into the cache; a group not followed by a blank row is
/// dropped.
pub open spec fn spec_nmt_fold(
    rows: Seq<Seq<char>>,
    buffer: Seq<Seq<char>>,
    c: MetricsCacheV,
    fig: HeapFigures,
    time: u128,
) -> MetricsCacheV
    decreases rows.len(),
{
    if rows.len() == 0 {
        c
    } else if text::spec_trim(rows[0]).len() == 0 {
        spec_nmt_fold(rows.skip(1), Seq::empty(), spec_flush(buffer, c, fig, time), fig, time)
    } else {
        spec_nmt_fold(rows.skip(1), buffer.push(rows[0]), c, fig, time)
    }
}

/// The cache after merging one native-memory output at one poll time.
pub open spec fn spec_merge_native_memory(
    c: MetricsCacheV,
    output: Seq<char>,
    fig: HeapFigures,
    time: u128,
) -> MetricsCacheV {
    spec_nmt_fold(text::spec_split(output, "\n"@), Seq::empty(), c, fig, time)
}

/// First discovered-region series with the given name, by position.
fn find_series(others: &Vec<GenericMemoryMetric>, name: &String) -> (r: Option<usize>)
    ensures
        match r {
            Some(j) => spec_find_series(generics_view(others@), name@) == Some(j as int),
            None => spec_find_series(generics_view(others@), name@) is None,
        },
{
    let ghost ov = generics_view(others@);
    let mut j: usize = 0;
    while j < others.len()
        invariant
            ov == generics_view(others@),
            j <= others@.len(),
            forall|k: int| 0 <= k < j ==> ov[k].name != name@,
        decreases others@.len() - j,
    {
        if others[j].name == *name {
            proof {
                lemma_find_series_first(ov, name@);
                assert(ov[j as int].name == name@);
                if let Some(w) = spec_find_series(ov, name@) {
                    if w < j {
                        assert(ov[w].name != name@);
                    }
                    if j < w {
                        assert(ov[j as int].name != name@);
                    }
                } else {
                    assert(ov[j as int].name != name@);
                }
            }
            return Some(j);
        }
        j += 1;
    }
    proof {
        lemma_find_series_first(ov, name@);
        if let Some(w) = spec_find_series(ov, name@) {
            assert(ov[w].name != name@);
        }
    }
    None
}

/// Apply one buffered record row to the cache, as `spec_nmt_row` says.
fn apply_nmt_row(cache: &mut MetricsCache, row: &str, fig: HeapFigures, time: u128)
    ensures
        final(cache)@ == spec_nmt_row(old(cache)@, row@, fig, time),
{
    proof {
        reveal_strlit(" ");
    }
    if text::starts_with(row, "Total:") {
        let parts = text::split_str(row, " ");
        let rc = parse_reserved_committed(parts);
        cache.total_memory.values.push(
            TotalMemoryMetricValue { time, reserved: rc.0, committed: rc.1 },
        );
    } else if text::starts_with(row, "-") && text::contains_sub(row, "Class") {
        cache.class_metrics.values.push(
            ClassMemoryMetricValue {
                time,
                class_count: 0,
                reserved: fig.class_space_reserved,
                committed: fig.class_space_committed,
                used: fig.class_space_used,
            },
        );
    } else if text::starts_with(row, "-") && text::contains_sub(row, "Thread") {
        let cleaned = text::remove_chars(row, "(),");
        let parts = text::split_str(cleaned.as_str(), " ");
        let rc = parse_reserved_committed(parts);
        cache.thread_metrics.values.push(
            ThreadMemoryMetricValue { time, thread_count: 0, reserved: rc.0, committed: rc.1 },
        );
    } else if text::starts_with(row, "-") && text::contains_sub(row, "Java Heap") {
        let cleaned = text::remove_chars(row, "(),");
        let parts = text::split_str(cleaned.as_str(), " ");
        let rc = parse_reserved_committed(parts);
        cache.heap_metrics.values.push(
            HeapMemoryMetricValue { time, reserved: rc.0, committed: rc.1, used: fig.heap_used },
        );
    } else if text::starts_with(row, "-") && text::contains_sub(row, "Metaspace") {
        cache.metaspace_metrics.values.push(
            MetaspaceMemoryMetricValue {
                time,
                reserved: fig.metaspace_reserved,
                committed: fig.metaspace_committed,
                used: fig.metaspace_used,
            },
        );
    } else if text::starts_with(row, "-") {
        let cleaned = text::remove_chars(row, "-(),");
        let parts = text::split_str(cleaned.as_str(), " ");
        let nrc = parse_name_reserved_committed(parts);
        let v = GenericMemoryMetricValue { time, reserved: nrc.1, committed: nrc.2 };
        let name = match nrc.0 {
            Some(n) => n,
            None => {
                proof {
                    assert(false);
                }
                String::new()
            },
        };
        let ghost ov = generics_view(cache.other_metrics@);
        match find_series(&cache.other_metrics, &name) {
            Some(j) => {
                proof {
                    lemma_find_series_first(ov, name@);
                }
                let mut entry = cache.other_metrics.remove(j);
                entry.values.push(v);
                cache.other_metrics.insert(j, entry);
                proof {
                    assert(generics_view(cache.other_metrics@) =~= spec_other_insert(
                        ov,
                        name@,
                        v,
                    ));
                }
            },
            None => {
                let mut vals: Vec<GenericMemoryMetricValue> = Vec::new();
                vals.push(v);
                cache.other_metrics.push(GenericMemoryMetric { name, values: vals });
                proof {
                    assert(generics_view(cache.other_metrics@) =~= spec_other_insert(
                        ov,
                        name@,
                        v,
                    ));
                }
            },
        }
    }
}

/// Copy a vector of plain values.
fn copy_values<T: Copy>(v: &Vec<T>) -> (r: Vec<T>)
    ensures
        r@ == v@,
{
    let mut r: Vec<T> = Vec::new();
    let mut i: usize = 0;
    while i < v.len()
        invariant
            i <= v@.len(),
            r@ == v@.take(i as int),
        decreases v@.len() - i,
    {
        r.push(v[i]);
        proof {
            assert(v@.take(i + 1) =~= v@.take(i as int).push(v@[i as int]));
        }
        i += 1;
    }
    proof {
        assert(v@.take(v@.len() as int) =~= v@);
    }
    r
}

/// Copy a named series of plain values.
pub(crate) fn dup_named<T: Copy>(m: &NamedMetric<T>) -> (r: NamedMetric<T>)
    ensures
        r@ == m@,
{
    NamedMetric { name: m.name.clone(), values: copy_values(&m.values) }
}

/// Copy the discovered-region series.
fn dup_generics(v: &Vec<GenericMemoryMetric>) -> (r: Vec<GenericMemoryMetric>)
    ensures
        generics_view(r@) == generics_view(v@),
{
    let ghost gv = generics_view(v@);
    let mut r: Vec<GenericMemoryMetric> = Vec::new();
    let mut i: usize = 0;
    proof {
        assert(generics_view(r@) =~= gv.take(0));
    }
    while i < v.len()
        invariant
            gv == generics_view(v@),
            i <= v@.len(),
            generics_view(r@) == gv.take(i as int),
        decreases v@.len() - i,
    {
        let ghost old_r = r@;
        let g = GenericMemoryMetric {
            name: v[i].name.clone(),
            values: copy_values(&v[i].values),
        };
        r.push(g);
        proof {
            lemma_generics_view_push(old_r, g);
            assert(gv.take(i + 1) =~= gv.take(i as int).push(gv[i as int]));
            assert(g@ == gv[i as int]);
        }
        i += 1;
    }
    proof {
        assert(gv.take(v@.len() as int) =~= gv);
    }
    r
}

/// The full metric history the cache currently holds, as a fresh value.
pub fn snapshot_metrics(cache: &MetricsCache) -> (m: JvmMetrics)
    ensures
        m@ == spec_cache_metrics(cache@),
{
    JvmMetrics {
        total_memory: dup_named(&cache.total_memory),
        class: dup_named(&cache.class_metrics),
        heap: dup_named(&cache.heap_metrics),
        metaspace: dup_named(&cache.metaspace_metrics),
        thread: dup_named(&cache.thread_metrics),
        other: dup_generics(&cache.other_metrics),
    }
}

/// Merge one native-memory output into the cache at one poll time and
/// return the accumulated history. The `used` figures come from the heap
/// summary parsed just before (`parse_heap_figures`). Fails, leaving the
/// cache untouched, exactly when the output carries the no-such-process
/// marker or the native-memory-tracking-disabled marker.
pub fn merge_native_memory(
    cache: &mut MetricsCache,
    output: &str,
    figures: HeapFigures,
    time: u128,
) -> (r: Result<JvmMetrics, PollError>)
    ensures
        text::contains_seq(output@, "IOException: No such process"@) ==> r == Err::<
            JvmMetrics,
            PollError,
        >(PollError::TargetNotFound) && final(cache)@ == old(cache)@,
        !text::contains_seq(output@, "IOException: No such process"@) && text::contains_seq(
            output@,
            "Native memory tracking is not enabled"@,
        ) ==> r == Err::<JvmMetrics, PollError>(PollError::NmtDisabled) && final(cache)@ == old(
            cache,
        )@,
        !text::contains_seq(output@, "IOException: No such process"@) && !text::contains_seq(
            output@,
            "Native memory tracking is not enabled"@,
        ) ==> {
            &&& final(cache)@ == spec_merge_native_memory(old(cache)@, output@, figures, time)
            &&& r matches Ok(m) && m@ == spec_cache_metrics(final(cache)@)
        },
{
    if text::contains_sub(output, "IOException: No such process") {
        return Err(PollError::TargetNotFound);
    }
    if text::contains_sub(output, "Native memory tracking is not enabled") {
        return Err(PollError::NmtDisabled);
    }
    proof {
        reveal_strlit("\n");
    }
    let rows = text::split_str(output, "\n");
    let ghost rv = text::views_of(rows@);
    let ghost target = spec_nmt_fold(rv, Seq::empty(), old(cache)@, figures, time);
    let mut buffer: Vec<&str> = Vec::new();
    let mut i: usize = 0;
    proof {
        assert(rv.skip(0) =~= rv);
        assert(text::views_of(buffer@) =~= Seq::<Seq<char>>::empty());
    }
    while i < rows.len()
        invariant
            rv == text::views_of(rows@),
            i <= rows@.len(),
            spec_nmt_fold(rv.skip(i as int), text::views_of(buffer@), cache@, figures, time)
                == target,
        decreases rows@.len() - i,
    {
        let row = rows[i];
        proof {
            assert(rv.skip(i as int)[0] == rv[i as int]);
            assert(rv.skip(i as int).skip(1) =~= rv.skip(i + 1));
            assert(rv[i as int] == row@);
        }
        if text::is_blank(row) {
            let ghost bv = text::views_of(buffer@);
            let ghost flush_target = spec_flush(bv, cache@, figures, time);
            let ghost rest_fact = spec_nmt_fold(
                rv.skip(i + 1),
                Seq::empty(),
                flush_target,
                figures,
                time,
            ) == target;
            proof {
                assert(rest_fact);
            }
            let mut j: usize = 0;
            proof {
                assert(bv.skip(0) =~= bv);
            }
            while j < buffer.len()
                invariant
                    bv == text::views_of(buffer@),
                    j <= buffer@.len(),
                    spec_flush(bv.skip(j as int), cache@, figures, time) == flush_target,
                decreases buffer@.len() - j,
            {
                proof {
                    assert(bv.skip(j as int)[0] == bv[j as int]);
                    assert(bv.skip(j as int).skip(1) =~= bv.skip(j + 1));
                    assert(bv[j as int] == buffer@[j as int]@);
                }
                apply_nmt_row(cache, buffer[j], figures, time);
                j += 1;
            }
            proof {
                assert(bv.skip(bv.len() as int) =~= Seq::<Seq<char>>::empty());
                assert(cache@ == flush_target);
            }
            buffer = Vec::new();
            proof {
                assert(text::views_of(buffer@) =~= Seq::<Seq<char>>::empty());
                assert(rest_fact);
            }
        } else {
            let ghost old_buf = buffer@;
            buffer.push(row);
            proof {
                assert(text::views_of(buffer@) =~= text::views_of(old_buf).push(row@));
            }
        }
        i += 1;
    }
    proof {
        assert(rv.skip(rv.len() as int) =~= Seq::<Seq<char>>::empty());
    }
    Ok(snapshot_metrics(cache))
}

/// The metric history that a cache holds.
pub open spec fn spec_cache_metrics(c: MetricsCacheV) -> JvmMetricsV {
    JvmMetricsV {
        total_memory: c.total_memory,
        class: c.class_metrics,
        heap: c.heap_metrics,
        metaspace: c.metaspace_metrics,
        thread: c.thread_metrics,
        other: c.other_metrics,
    }
}

} // verus!
