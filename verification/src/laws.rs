//! Library-wide laws: statements that relate several functions or hold of
//! every poll, proved once and for all.

use vstd::prelude::*;

use crate::metrics::{spec_flush, spec_merge_native_memory, spec_nmt_fold, spec_nmt_row,
    HeapFigures};
use crate::model::{GenericMemoryMetricV, MetricsCacheV, VmInformationV};
use crate::processes::spec_line_process;
use crate::text;
use crate::threads::{spec_thread_block_step, ThreadScanV};
use crate::vm_info::{spec_info_fold, spec_info_step, spec_parse_vm_information};

verus! {

/// Idempotence of the read-only VM information parse: the snapshot is a
/// pure function of the output text, so two parses of identical text yield
/// identical snapshots. `parse_vm_information` ensures its result equals
/// this function of its input, and no cache is involved.
pub proof fn lemma_vm_information_idempotent(a: Seq<char>, b: Seq<char>)
    requires
        a == b,
    ensures
        spec_parse_vm_information(a) == spec_parse_vm_information(b),
{
}

/// A directory line that names the monitoring tool's own launcher class
/// yields no process reference, whatever else it holds.
pub proof fn lemma_directory_excludes_own_tool(line: Seq<char>)
    requires
        text::contains_seq(line, "jdk.jcmd"@),
    ensures
        spec_line_process(line) is None,
{
}

/// A VM information output none of whose blocks opens with
/// `GC Precious Log:` leaves the resource fields exactly as they started;
/// the argument fields are still read from their own block.
pub proof fn lemma_info_fold_missing_gc_block(blocks: Seq<Seq<char>>, acc: VmInformationV)
    requires
        forall|k: int|
            0 <= k < blocks.len() ==> !text::match_at(
                #[trigger] text::spec_split(blocks[k], "\n"@)[0],
                "GC Precious Log:"@,
                0,
            ),
    ensures
        spec_info_fold(blocks, acc).vm_resources == acc.vm_resources,
    decreases blocks.len(),
{
    if blocks.len() > 0 {
        assert(spec_info_step(acc, blocks[0]).vm_resources == acc.vm_resources);
        assert(forall|k: int|
            0 <= k < blocks.skip(1).len() ==> blocks.skip(1)[k] == blocks[k + 1]);
        lemma_info_fold_missing_gc_block(blocks.skip(1), spec_info_step(acc, blocks[0]));
    }
}

/// Missing-block tolerance: a VM information output with no
/// `GC Precious Log:` block yields no resources.
pub proof fn lemma_vm_information_missing_gc_block(output: Seq<char>)
    requires
        forall|k: int|
            0 <= k < text::spec_split(output, "\n\n"@).len() ==> !text::match_at(
                #[trigger] text::spec_split(
                    text::spec_split(output, "\n\n"@)[k],
                    "\n"@,
                )[0],
                "GC Precious Log:"@,
                0,
            ),
    ensures
        spec_parse_vm_information(output).vm_resources is None,
{
    lemma_info_fold_missing_gc_block(
        text::spec_split(output, "\n\n"@),
        VmInformationV { vm_arguments: None, vm_resources: None },
    );
}

/// Thread shape discrimination: a quote-delimited block whose header
/// remainder holds a `#` token becomes an application thread record and
/// leaves the JVM records and the JVM census untouched; one without
/// becomes a JVM thread record and leaves the application records and the
/// application census untouched.
pub proof fn lemma_thread_shape_discrimination(st: ThreadScanV, block: Seq<char>, q: int)
    requires
        text::match_at(text::spec_split(block, "\n"@)[0], "\""@, 0),
        text::spec_split(block, "\n"@)[0].index_of_last('"') == Some(q),
    ensures
        ({
            let first = text::spec_split(block, "\n"@)[0];
            let rest = if q + 2 <= first.len() {
                first.skip(q + 2)
            } else {
                Seq::<char>::empty()
            };
            let step = spec_thread_block_step(st, block);
            &&& rest.contains('#') ==> step.apps.len() == st.apps.len() + 1 && step.jvms
                == st.jvms && step.new_jvm == st.new_jvm && step.runnable_jvm == st.runnable_jvm
                && step.waiting_jvm == st.waiting_jvm && step.blocked_jvm == st.blocked_jvm
            &&& !rest.contains('#') ==> step.jvms.len() == st.jvms.len() + 1 && step.apps
                == st.apps && step.new_app == st.new_app && step.runnable_app == st.runnable_app
                && step.timed_waiting_app == st.timed_waiting_app && step.waiting_app
                == st.waiting_app && step.blocked_app == st.blocked_app
        }),
{
}

/// One series has grown from another only by new entries at the end.
pub open spec fn series_extends<T>(older: Seq<T>, newer: Seq<T>) -> bool {
    older.len() <= newer.len() && forall|k: int| 0 <= k < older.len() ==> newer[k] == older[k]
}

/// Every entry of a discovered-region series from position `from` on
/// carries the given poll time.
pub open spec fn generic_series_stamped(g: GenericMemoryMetricV, from: int, time: u128) -> bool {
    forall|k: int| from <= k < g.values.len() ==> (#[trigger] g.values[k]).time == time
}

/// Append-only growth of the cache within one poll at time `time`: every
/// fixed-category series keeps its name and its old entries and gains only
/// entries stamped `time`; every already discovered region likewise; newly
/// discovered regions hold only entries stamped `time`.
pub open spec fn spec_extends(c1: MetricsCacheV, c2: MetricsCacheV, time: u128) -> bool {
    &&& c2.total_memory.name == c1.total_memory.name
    &&& series_extends(c1.total_memory.values, c2.total_memory.values)
    &&& forall|k: int|
        c1.total_memory.values.len() <= k < c2.total_memory.values.len() ==> (
        #[trigger] c2.total_memory.values[k]).time == time
    &&& c2.class_metrics.name == c1.class_metrics.name
    &&& series_extends(c1.class_metrics.values, c2.class_metrics.values)
    &&& forall|k: int|
        c1.class_metrics.values.len() <= k < c2.class_metrics.values.len() ==> (
        #[trigger] c2.class_metrics.values[k]).time == time
    &&& c2.heap_metrics.name == c1.heap_metrics.name
    &&& series_extends(c1.heap_metrics.values, c2.heap_metrics.values)
    &&& forall|k: int|
        c1.heap_metrics.values.len() <= k < c2.heap_metrics.values.len() ==> (
        #[trigger] c2.heap_metrics.values[k]).time == time
    &&& c2.metaspace_metrics.name == c1.metaspace_metrics.name
    &&& series_extends(c1.metaspace_metrics.values, c2.metaspace_metrics.values)
    &&& forall|k: int|
        c1.metaspace_metrics.values.len() <= k < c2.metaspace_metrics.values.len() ==> (
        #[trigger] c2.metaspace_metrics.values[k]).time == time
    &&& c2.thread_metrics.name == c1.thread_metrics.name
    &&& series_extends(c1.thread_metrics.values, c2.thread_metrics.values)
    &&& forall|k: int|
        c1.thread_metrics.values.len() <= k < c2.thread_metrics.values.len() ==> (
        #[trigger] c2.thread_metrics.values[k]).time == time
    &&& c2.thread_count_metrics_application.name == c1.thread_count_metrics_application.name
    &&& series_extends(
        c1.thread_count_metrics_application.values,
        c2.thread_count_metrics_application.values,
    )
    &&& forall|k: int|
        c1.thread_count_metrics_application.values.len() <= k
            < c2.thread_count_metrics_application.values.len() ==> (
        #[trigger] c2.thread_count_metrics_application.values[k]).time == time
    &&& c2.thread_count_metrics_jvm.name == c1.thread_count_metrics_jvm.name
    &&& series_extends(c1.thread_count_metrics_jvm.values, c2.thread_count_metrics_jvm.values)
    &&& forall|k: int|
        c1.thread_count_metrics_jvm.values.len() <= k < c2.thread_count_metrics_jvm.values.len()
            ==> (#[trigger] c2.thread_count_metrics_jvm.values[k]).time == time
    &&& c1.other_metrics.len() <= c2.other_metrics.len()
    &&& forall|j: int|
        0 <= j < c1.other_metrics.len() ==> {
            &&& (#[trigger] c2.other_metrics[j]).name == c1.other_metrics[j].name
            &&& series_extends(c1.other_metrics[j].values, c2.other_metrics[j].values)
            &&& generic_series_stamped(
                c2.other_metrics[j],
                c1.other_metrics[j].values.len() as int,
                time,
            )
        }
    &&& forall|j: int|
        c1.other_metrics.len() <= j < c2.other_metrics.len() ==> generic_series_stamped(
            #[trigger] c2.other_metrics[j],
            0,
            time,
        )
}

/// `spec_extends` is reflexive.
pub proof fn lemma_extends_refl(c: MetricsCacheV, time: u128)
    ensures
        spec_extends(c, c, time),
{
}

/// `spec_extends` composes.
pub proof fn lemma_extends_trans(c1: MetricsCacheV, c2: MetricsCacheV, c3: MetricsCacheV, time: u128)
    requires
        spec_extends(c1, c2, time),
        spec_extends(c2, c3, time),
    ensures
        spec_extends(c1, c3, time),
{
    assert forall|j: int| 0 <= j < c1.other_metrics.len() implies {
        &&& (#[trigger] c3.other_metrics[j]).name == c1.other_metrics[j].name
        &&& series_extends(c1.other_metrics[j].values, c3.other_metrics[j].values)
        &&& generic_series_stamped(
            c3.other_metrics[j],
            c1.other_metrics[j].values.len() as int,
            time,
        )
    } by {
        assert(c2.other_metrics[j].name == c1.other_metrics[j].name);
        assert(series_extends(c2.other_metrics[j].values, c3.other_metrics[j].values));
        assert(generic_series_stamped(
            c3.other_metrics[j],
            c2.other_metrics[j].values.len() as int,
            time,
        ));
        assert forall|k: int|
            c1.other_metrics[j].values.len() <= k < c3.other_metrics[j].values.len() implies (
        #[trigger] c3.other_metrics[j].values[k]).time == time by {
            if k < c2.other_metrics[j].values.len() {
                assert(c3.other_metrics[j].values[k] == c2.other_metrics[j].values[k]);
                assert(c2.other_metrics[j].values[k].time == time);
            }
        }
    }
    assert forall|k: int|
        c1.total_memory.values.len() <= k < c3.total_memory.values.len() implies (
    #[trigger] c3.total_memory.values[k]).time == time by {
        if k < c2.total_memory.values.len() {
            assert(c3.total_memory.values[k] == c2.total_memory.values[k]);
        }
    }
    assert forall|k: int|
        c1.class_metrics.values.len() <= k < c3.class_metrics.values.len() implies (
    #[trigger] c3.class_metrics.values[k]).time == time by {
        if k < c2.class_metrics.values.len() {
            assert(c3.class_metrics.values[k] == c2.class_metrics.values[k]);
        }
    }
    assert forall|k: int|
        c1.heap_metrics.values.len() <= k < c3.heap_metrics.values.len() implies (
    #[trigger] c3.heap_metrics.values[k]).time == time by {
        if k < c2.heap_metrics.values.len() {
            assert(c3.heap_metrics.values[k] == c2.heap_metrics.values[k]);
        }
    }
    assert forall|k: int|
        c1.metaspace_metrics.values.len() <= k < c3.metaspace_metrics.values.len() implies (
    #[trigger] c3.metaspace_metrics.values[k]).time == time by {
        if k < c2.metaspace_metrics.values.len() {
            assert(c3.metaspace_metrics.values[k] == c2.metaspace_metrics.values[k]);
        }
    }
    assert forall|k: int|
        c1.thread_metrics.values.len() <= k < c3.thread_metrics.values.len() implies (
    #[trigger] c3.thread_metrics.values[k]).time == time by {
        if k < c2.thread_metrics.values.len() {
            assert(c3.thread_metrics.values[k] == c2.thread_metrics.values[k]);
        }
    }
    assert forall|k: int|
        c1.thread_count_metrics_application.values.len() <= k
            < c3.thread_count_metrics_application.values.len() implies (
    #[trigger] c3.thread_count_metrics_application.values[k]).time == time by {
        if k < c2.thread_count_metrics_application.values.len() {
            assert(c3.thread_count_metrics_application.values[k]
                == c2.thread_count_metrics_application.values[k]);
        }
    }
    assert forall|k: int|
        c1.thread_count_metrics_jvm.values.len() <= k < c3.thread_count_metrics_jvm.values.len()
            implies (#[trigger] c3.thread_count_metrics_jvm.values[k]).time == time by {
        if k < c2.thread_count_metrics_jvm.values.len() {
            assert(c3.thread_count_metrics_jvm.values[k] == c2.thread_count_metrics_jvm.values[k]);
        }
    }
}

/// One buffered record row only appends entries stamped with the poll
/// time.
pub proof fn lemma_nmt_row_extends(c: MetricsCacheV, row: Seq<char>, fig: HeapFigures, time: u128)
    ensures
        spec_extends(c, spec_nmt_row(c, row, fig, time), time),
{
    let c2 = spec_nmt_row(c, row, fig, time);
    if text::match_at(row, "-"@, 0) && !text::contains_seq(row, "Class"@) && !text::contains_seq(
        row,
        "Thread"@,
    ) && !text::contains_seq(row, "Java Heap"@) && !text::contains_seq(row, "Metaspace"@)
        && !text::match_at(row, "Total:"@, 0) {
        let parts = text::spec_split(text::spec_remove_chars(row, "-(),"@), " "@);
        let nrc = crate::metrics::spec_name_reserved_committed(parts);
        if let Some(name) = nrc.0 {
            crate::metrics::lemma_find_series_first(c.other_metrics, name);
        }
    }
}

/// One flushed record group only appends entries stamped with the poll
/// time.
pub proof fn lemma_flush_extends(
    buffer: Seq<Seq<char>>,
    c: MetricsCacheV,
    fig: HeapFigures,
    time: u128,
)
    ensures
        spec_extends(c, spec_flush(buffer, c, fig, time), time),
    decreases buffer.len(),
{
    if buffer.len() == 0 {
        lemma_extends_refl(c, time);
    } else {
        let c2 = spec_nmt_row(c, buffer[0], fig, time);
        lemma_nmt_row_extends(c, buffer[0], fig, time);
        lemma_flush_extends(buffer.skip(1), c2, fig, time);
        lemma_extends_trans(c, c2, spec_flush(buffer.skip(1), c2, fig, time), time);
    }
}

/// The buffered fold over the rows only appends entries stamped with the
/// poll time.
pub proof fn lemma_nmt_fold_extends(
    rows: Seq<Seq<char>>,
    buffer: Seq<Seq<char>>,
    c: MetricsCacheV,
    fig: HeapFigures,
    time: u128,
)
    ensures
        spec_extends(c, spec_nmt_fold(rows, buffer, c, fig, time), time),
    decreases rows.len(),
{
    if rows.len() == 0 {
        lemma_extends_refl(c, time);
    } else if text::spec_trim(rows[0]).len() == 0 {
        let c2 = spec_flush(buffer, c, fig, time);
        lemma_flush_extends(buffer, c, fig, time);
        lemma_nmt_fold_extends(rows.skip(1), Seq::empty(), c2, fig, time);
        lemma_extends_trans(c, c2, spec_nmt_fold(rows.skip(1), Seq::empty(), c2, fig, time), time);
    } else {
        lemma_nmt_fold_extends(rows.skip(1), buffer.push(rows[0]), c, fig, time);
    }
}

/// Append-only growth: merging one native-memory output at time `time`
/// keeps every existing series entry and series name, and every entry it
/// appends — to fixed categories, to known regions and to newly discovered
/// regions alike — is stamped `time`.
pub proof fn lemma_merge_native_memory_append_only(
    c: MetricsCacheV,
    output: Seq<char>,
    fig: HeapFigures,
    time: u128,
)
    ensures
        spec_extends(c, spec_merge_native_memory(c, output, fig, time), time),
{
    lemma_nmt_fold_extends(text::spec_split(output, "\n"@), Seq::empty(), c, fig, time);
}

/// A thread poll at time `time` — which appends one census entry stamped
/// `time` to each of the two thread-count series and touches nothing else —
/// is append-only growth in the sense of `spec_extends`.
pub proof fn lemma_census_push_extends(
    c: MetricsCacheV,
    app: crate::model::ThreadCountMetricValue,
    jvm: crate::model::ThreadCountMetricValue,
    time: u128,
)
    requires
        app.time == time,
        jvm.time == time,
    ensures
        spec_extends(
            c,
            MetricsCacheV {
                thread_count_metrics_application: crate::model::NamedMetricV {
                    name: c.thread_count_metrics_application.name,
                    values: c.thread_count_metrics_application.values.push(app),
                },
                thread_count_metrics_jvm: crate::model::NamedMetricV {
                    name: c.thread_count_metrics_jvm.name,
                    values: c.thread_count_metrics_jvm.values.push(jvm),
                },
                ..c
            },
            time,
        ),
{
}

/// Every series of `c1` survives unchanged at the front of its series in
/// `c2`, under the same name; `c2` may only have more entries and more
/// discovered regions.
pub open spec fn cache_prefix_of(c1: MetricsCacheV, c2: MetricsCacheV) -> bool {
    &&& c2.total_memory.name == c1.total_memory.name
    &&& series_extends(c1.total_memory.values, c2.total_memory.values)
    &&& c2.class_metrics.name == c1.class_metrics.name
    &&& series_extends(c1.class_metrics.values, c2.class_metrics.values)
    &&& c2.heap_metrics.name == c1.heap_metrics.name
    &&& series_extends(c1.heap_metrics.values, c2.heap_metrics.values)
    &&& c2.metaspace_metrics.name == c1.metaspace_metrics.name
    &&& series_extends(c1.metaspace_metrics.values, c2.metaspace_metrics.values)
    &&& c2.thread_metrics.name == c1.thread_metrics.name
    &&& series_extends(c1.thread_metrics.values, c2.thread_metrics.values)
    &&& c2.thread_count_metrics_application.name == c1.thread_count_metrics_application.name
    &&& series_extends(
        c1.thread_count_metrics_application.values,
        c2.thread_count_metrics_application.values,
    )
    &&& c2.thread_count_metrics_jvm.name == c1.thread_count_metrics_jvm.name
    &&& series_extends(c1.thread_count_metrics_jvm.values, c2.thread_count_metrics_jvm.values)
    &&& c1.other_metrics.len() <= c2.other_metrics.len()
    &&& forall|j: int|
        0 <= j < c1.other_metrics.len() ==> (#[trigger] c2.other_metrics[j]).name
            == c1.other_metrics[j].name && series_extends(
            c1.other_metrics[j].values,
            c2.other_metrics[j].values,
        )
}

/// Append-only growth within one poll is append-only growth.
pub proof fn lemma_extends_is_prefix(c1: MetricsCacheV, c2: MetricsCacheV, time: u128)
    requires
        spec_extends(c1, c2, time),
    ensures
        cache_prefix_of(c1, c2),
{
}

/// `cache_prefix_of` composes.
pub proof fn lemma_prefix_trans(c1: MetricsCacheV, c2: MetricsCacheV, c3: MetricsCacheV)
    requires
        cache_prefix_of(c1, c2),
        cache_prefix_of(c2, c3),
    ensures
        cache_prefix_of(c1, c3),
{
    assert forall|j: int| 0 <= j < c1.other_metrics.len() implies (
    #[trigger] c3.other_metrics[j]).name == c1.other_metrics[j].name && series_extends(
        c1.other_metrics[j].values,
        c3.other_metrics[j].values,
    ) by {
        assert(c2.other_metrics[j].name == c1.other_metrics[j].name);
        assert(series_extends(c2.other_metrics[j].values, c3.other_metrics[j].values));
    }
}

/// One metrics poll per element: the cache after merging each output in
/// turn, each with its heap figures and its poll time.
pub open spec fn spec_cache_after_polls(
    c: MetricsCacheV,
    polls: Seq<(Seq<char>, HeapFigures, u128)>,
) -> MetricsCacheV
    decreases polls.len(),
{
    if polls.len() == 0 {
        c
    } else {
        spec_cache_after_polls(
            spec_merge_native_memory(c, polls[0].0, polls[0].1, polls[0].2),
            polls.skip(1),
        )
    }
}

/// Append-only growth across any number of successful metrics polls: no
/// poll ever removes or rewrites an entry, renames a series, or drops a
/// discovered region.
pub proof fn lemma_polls_append_only(c: MetricsCacheV, polls: Seq<(Seq<char>, HeapFigures, u128)>)
    ensures
        cache_prefix_of(c, spec_cache_after_polls(c, polls)),
    decreases polls.len(),
{
    if polls.len() == 0 {
    } else {
        let c1 = spec_merge_native_memory(c, polls[0].0, polls[0].1, polls[0].2);
        lemma_merge_native_memory_append_only(c, polls[0].0, polls[0].1, polls[0].2);
        lemma_extends_is_prefix(c, c1, polls[0].2);
        lemma_polls_append_only(c1, polls.skip(1));
        lemma_prefix_trans(c, c1, spec_cache_after_polls(c1, polls.skip(1)));
    }
}

/// No two discovered-region series share a name: the region map is truly
/// keyed by name.
pub open spec fn other_names_unique(others: Seq<GenericMemoryMetricV>) -> bool {
    forall|a: int, b: int|
        0 <= a < b < others.len() ==> (#[trigger] others[a]).name != (#[trigger] others[b]).name
}

/// Inserting an entry under a name keeps the region names unique.
pub proof fn lemma_other_insert_keeps_unique_names(
    others: Seq<GenericMemoryMetricV>,
    name: Seq<char>,
    v: crate::model::GenericMemoryMetricValue,
)
    requires
        other_names_unique(others),
    ensures
        other_names_unique(crate::metrics::spec_other_insert(others, name, v)),
{
    crate::metrics::lemma_find_series_first(others, name);
}

/// One buffered record row keeps the region names unique.
pub proof fn lemma_nmt_row_keeps_unique_names(
    c: MetricsCacheV,
    row: Seq<char>,
    fig: HeapFigures,
    time: u128,
)
    requires
        other_names_unique(c.other_metrics),
    ensures
        other_names_unique(spec_nmt_row(c, row, fig, time).other_metrics),
{
    if text::match_at(row, "-"@, 0) && !text::contains_seq(row, "Class"@) && !text::contains_seq(
        row,
        "Thread"@,
    ) && !text::contains_seq(row, "Java Heap"@) && !text::contains_seq(row, "Metaspace"@)
        && !text::match_at(row, "Total:"@, 0) {
        let parts = text::spec_split(text::spec_remove_chars(row, "-(),"@), " "@);
        let nrc = crate::metrics::spec_name_reserved_committed(parts);
        if let Some(name) = nrc.0 {
            let v = crate::model::GenericMemoryMetricValue {
                time,
                reserved: nrc.1,
                committed: nrc.2,
            };
            lemma_other_insert_keeps_unique_names(c.other_metrics, name, v);
        }
    }
}

/// A flushed record group keeps the region names unique.
pub proof fn lemma_flush_keeps_unique_names(
    buffer: Seq<Seq<char>>,
    c: MetricsCacheV,
    fig: HeapFigures,
    time: u128,
)
    requires
        other_names_unique(c.other_metrics),
    ensures
        other_names_unique(spec_flush(buffer, c, fig, time).other_metrics),
    decreases buffer.len(),
{
    if buffer.len() > 0 {
        lemma_nmt_row_keeps_unique_names(c, buffer[0], fig, time);
        lemma_flush_keeps_unique_names(
            buffer.skip(1),
            spec_nmt_row(c, buffer[0], fig, time),
            fig,
            time,
        );
    }
}

/// The buffered fold keeps the region names unique.
pub proof fn lemma_nmt_fold_keeps_unique_names(
    rows: Seq<Seq<char>>,
    buffer: Seq<Seq<char>>,
    c: MetricsCacheV,
    fig: HeapFigures,
    time: u128,
)
    requires
        other_names_unique(c.other_metrics),
    ensures
        other_names_unique(spec_nmt_fold(rows, buffer, c, fig, time).other_metrics),
    decreases rows.len(),
{
    if rows.len() > 0 {
        if text::spec_trim(rows[0]).len() == 0 {
            lemma_flush_keeps_unique_names(buffer, c, fig, time);
            lemma_nmt_fold_keeps_unique_names(
                rows.skip(1),
                Seq::empty(),
                spec_flush(buffer, c, fig, time),
                fig,
                time,
            );
        } else {
            lemma_nmt_fold_keeps_unique_names(rows.skip(1), buffer.push(rows[0]), c, fig, time);
        }
    }
}

/// The region map stays keyed by name: a merge never creates two series
/// with the same name.
pub proof fn lemma_merge_keeps_unique_names(
    c: MetricsCacheV,
    output: Seq<char>,
    fig: HeapFigures,
    time: u128,
)
    requires
        other_names_unique(c.other_metrics),
    ensures
        other_names_unique(spec_merge_native_memory(c, output, fig, time).other_metrics),
{
    lemma_nmt_fold_keeps_unique_names(text::spec_split(output, "\n"@), Seq::empty(), c, fig, time);
}

/// No two CPU-cache entries share a thread name.
pub open spec fn cache_names_unique(entries: Seq<crate::model::ThreadCacheEntryV>) -> bool {
    forall|a: int, b: int|
        0 <= a < b < entries.len() ==> (#[trigger] entries[a]).name != (
        #[trigger] entries[b]).name
}

/// The CPU delta cache stays keyed by thread name: recording an
/// observation never creates two entries with the same name.
pub proof fn lemma_thread_cache_update_keeps_unique_names(
    entries: Seq<crate::model::ThreadCacheEntryV>,
    name: Seq<char>,
    jvm_thread: bool,
    cpu: u64,
)
    requires
        cache_names_unique(entries),
    ensures
        cache_names_unique(
            crate::threads::spec_update_thread_cache(entries, name, jvm_thread, cpu).0,
        ),
{
    crate::threads::lemma_find_entry_first(entries, name);
}

/// Every series of the cache is sorted by time and bounded by `t`.
pub open spec fn cache_times_sorted_upto(c: MetricsCacheV, t: u128) -> bool {
    &&& forall|a: int, b: int|
        0 <= a <= b < c.total_memory.values.len() ==> (#[trigger] c.total_memory.values[a]).time
            <= (#[trigger] c.total_memory.values[b]).time
    &&& forall|k: int|
        0 <= k < c.total_memory.values.len() ==> (#[trigger] c.total_memory.values[k]).time <= t
    &&& forall|a: int, b: int|
        0 <= a <= b < c.class_metrics.values.len() ==> (#[trigger] c.class_metrics.values[a]).time
            <= (#[trigger] c.class_metrics.values[b]).time
    &&& forall|k: int|
        0 <= k < c.class_metrics.values.len() ==> (#[trigger] c.class_metrics.values[k]).time <= t
    &&& forall|a: int, b: int|
        0 <= a <= b < c.heap_metrics.values.len() ==> (#[trigger] c.heap_metrics.values[a]).time
            <= (#[trigger] c.heap_metrics.values[b]).time
    &&& forall|k: int|
        0 <= k < c.heap_metrics.values.len() ==> (#[trigger] c.heap_metrics.values[k]).time <= t
    &&& forall|a: int, b: int|
        0 <= a <= b < c.metaspace_metrics.values.len() ==> (
        #[trigger] c.metaspace_metrics.values[a]).time <= (
        #[trigger] c.metaspace_metrics.values[b]).time
    &&& forall|k: int|
        0 <= k < c.metaspace_metrics.values.len() ==> (#[trigger] c.metaspace_metrics.values[k]).time
            <= t
    &&& forall|a: int, b: int|
        0 <= a <= b < c.thread_metrics.values.len() ==> (
        #[trigger] c.thread_metrics.values[a]).time <= (#[trigger] c.thread_metrics.values[b]).time
    &&& forall|k: int|
        0 <= k < c.thread_metrics.values.len() ==> (#[trigger] c.thread_metrics.values[k]).time
            <= t
    &&& forall|a: int, b: int|
        0 <= a <= b < c.thread_count_metrics_application.values.len() ==> (
        #[trigger] c.thread_count_metrics_application.values[a]).time <= (
        #[trigger] c.thread_count_metrics_application.values[b]).time
    &&& forall|k: int|
        0 <= k < c.thread_count_metrics_application.values.len() ==> (
        #[trigger] c.thread_count_metrics_application.values[k]).time <= t
    &&& forall|a: int, b: int|
        0 <= a <= b < c.thread_count_metrics_jvm.values.len() ==> (
        #[trigger] c.thread_count_metrics_jvm.values[a]).time <= (
        #[trigger] c.thread_count_metrics_jvm.values[b]).time
    &&& forall|k: int|
        0 <= k < c.thread_count_metrics_jvm.values.len() ==> (
        #[trigger] c.thread_count_metrics_jvm.values[k]).time <= t
    &&& forall|j: int, a: int, b: int|
        0 <= j < c.other_metrics.len() && 0 <= a <= b < (#[trigger] c.other_metrics[j]).values.len()
            ==> (#[trigger] c.other_metrics[j].values[a]).time <= (
        #[trigger] c.other_metrics[j].values[b]).time
    &&& forall|j: int, k: int|
        0 <= j < c.other_metrics.len() && 0 <= k < (#[trigger] c.other_metrics[j]).values.len()
            ==> (#[trigger] c.other_metrics[j].values[k]).time <= t
}

/// Time monotonicity across polls: if the cache is sorted by time and
/// bounded by an earlier poll time `t0`, then after a poll at `time >= t0`
/// that only appends entries stamped `time`, it is sorted and bounded by
/// `time`.
pub proof fn lemma_extends_keeps_times_sorted(
    c1: MetricsCacheV,
    c2: MetricsCacheV,
    t0: u128,
    time: u128,
)
    requires
        cache_times_sorted_upto(c1, t0),
        t0 <= time,
        spec_extends(c1, c2, time),
    ensures
        cache_times_sorted_upto(c2, time),
{
    assert forall|a: int, b: int|
        0 <= a <= b < c2.total_memory.values.len() implies (
    #[trigger] c2.total_memory.values[a]).time <= (#[trigger] c2.total_memory.values[b]).time by {
        if b < c1.total_memory.values.len() {
            assert(c2.total_memory.values[a] == c1.total_memory.values[a]);
            assert(c2.total_memory.values[b] == c1.total_memory.values[b]);
        } else if a < c1.total_memory.values.len() {
            assert(c2.total_memory.values[a] == c1.total_memory.values[a]);
        }
    }
    assert forall|a: int, b: int|
        0 <= a <= b < c2.class_metrics.values.len() implies (
    #[trigger] c2.class_metrics.values[a]).time <= (#[trigger] c2.class_metrics.values[b]).time by {
        if b < c1.class_metrics.values.len() {
            assert(c2.class_metrics.values[a] == c1.class_metrics.values[a]);
            assert(c2.class_metrics.values[b] == c1.class_metrics.values[b]);
        } else if a < c1.class_metrics.values.len() {
            assert(c2.class_metrics.values[a] == c1.class_metrics.values[a]);
        }
    }
    assert forall|a: int, b: int|
        0 <= a <= b < c2.heap_metrics.values.len() implies (
    #[trigger] c2.heap_metrics.values[a]).time <= (#[trigger] c2.heap_metrics.values[b]).time by {
        if b < c1.heap_metrics.values.len() {
            assert(c2.heap_metrics.values[a] == c1.heap_metrics.values[a]);
            assert(c2.heap_metrics.values[b] == c1.heap_metrics.values[b]);
        } else if a < c1.heap_metrics.values.len() {
            assert(c2.heap_metrics.values[a] == c1.heap_metrics.values[a]);
        }
    }
    assert forall|a: int, b: int|
        0 <= a <= b < c2.metaspace_metrics.values.len() implies (
    #[trigger] c2.metaspace_metrics.values[a]).time <= (
    #[trigger] c2.metaspace_metrics.values[b]).time by {
        if b < c1.metaspace_metrics.values.len() {
            assert(c2.metaspace_metrics.values[a] == c1.metaspace_metrics.values[a]);
            assert(c2.metaspace_metrics.values[b] == c1.metaspace_metrics.values[b]);
        } else if a < c1.metaspace_metrics.values.len() {
            assert(c2.metaspace_metrics.values[a] == c1.metaspace_metrics.values[a]);
        }
    }
    assert forall|a: int, b: int|
        0 <= a <= b < c2.thread_metrics.values.len() implies (
    #[trigger] c2.thread_metrics.values[a]).time <= (
    #[trigger] c2.thread_metrics.values[b]).time by {
        if b < c1.thread_metrics.values.len() {
            assert(c2.thread_metrics.values[a] == c1.thread_metrics.values[a]);
            assert(c2.thread_metrics.values[b] == c1.thread_metrics.values[b]);
        } else if a < c1.thread_metrics.values.len() {
            assert(c2.thread_metrics.values[a] == c1.thread_metrics.values[a]);
        }
    }
    assert forall|a: int, b: int|
        0 <= a <= b < c2.thread_count_metrics_application.values.len() implies (
    #[trigger] c2.thread_count_metrics_application.values[a]).time <= (
    #[trigger] c2.thread_count_metrics_application.values[b]).time by {
        if b < c1.thread_count_metrics_application.values.len() {
            assert(c2.thread_count_metrics_application.values[a]
                == c1.thread_count_metrics_application.values[a]);
            assert(c2.thread_count_metrics_application.values[b]
                == c1.thread_count_metrics_application.values[b]);
        } else if a < c1.thread_count_metrics_application.values.len() {
            assert(c2.thread_count_metrics_application.values[a]
                == c1.thread_count_metrics_application.values[a]);
        }
    }
    assert forall|a: int, b: int|
        0 <= a <= b < c2.thread_count_metrics_jvm.values.len() implies (
    #[trigger] c2.thread_count_metrics_jvm.values[a]).time <= (
    #[trigger] c2.thread_count_metrics_jvm.values[b]).time by {
        if b < c1.thread_count_metrics_jvm.values.len() {
            assert(c2.thread_count_metrics_jvm.values[a] == c1.thread_count_metrics_jvm.values[a]);
            assert(c2.thread_count_metrics_jvm.values[b] == c1.thread_count_metrics_jvm.values[b]);
        } else if a < c1.thread_count_metrics_jvm.values.len() {
            assert(c2.thread_count_metrics_jvm.values[a] == c1.thread_count_metrics_jvm.values[a]);
        }
    }
    assert forall|j: int, a: int, b: int|
        0 <= j < c2.other_metrics.len() && 0 <= a <= b < (
    #[trigger] c2.other_metrics[j]).values.len() implies (
    #[trigger] c2.other_metrics[j].values[a]).time <= (
    #[trigger] c2.other_metrics[j].values[b]).time by {
        if j < c1.other_metrics.len() {
            if b < c1.other_metrics[j].values.len() {
                assert(c2.other_metrics[j].values[a] == c1.other_metrics[j].values[a]);
                assert(c2.other_metrics[j].values[b] == c1.other_metrics[j].values[b]);
            } else if a < c1.other_metrics[j].values.len() {
                assert(c2.other_metrics[j].values[a] == c1.other_metrics[j].values[a]);
            } else {
                assert(c2.other_metrics[j].values[a].time == time);
                assert(c2.other_metrics[j].values[b].time == time);
            }
        } else {
            assert(generic_series_stamped(c2.other_metrics[j], 0, time));
            assert(c2.other_metrics[j].values[a].time == time);
            assert(c2.other_metrics[j].values[b].time == time);
        }
    }
    assert forall|j: int, k: int|
        0 <= j < c2.other_metrics.len() && 0 <= k < (#[trigger] c2.other_metrics[j]).values.len()
            implies (#[trigger] c2.other_metrics[j].values[k]).time <= time by {
        if j < c1.other_metrics.len() {
            if k < c1.other_metrics[j].values.len() {
                assert(c2.other_metrics[j].values[k] == c1.other_metrics[j].values[k]);
                assert(c1.other_metrics[j].values[k].time <= t0);
            } else {
                assert(c2.other_metrics[j].values[k].time == time);
            }
        } else {
            assert(generic_series_stamped(c2.other_metrics[j], 0, time));
            assert(c2.other_metrics[j].values[k].time == time);
        }
    }
    assert forall|k: int|
        0 <= k < c2.total_memory.values.len() implies (
    #[trigger] c2.total_memory.values[k]).time <= time by {
        if k < c1.total_memory.values.len() {
            assert(c2.total_memory.values[k] == c1.total_memory.values[k]);
        }
    }
    assert forall|k: int|
        0 <= k < c2.class_metrics.values.len() implies (
    #[trigger] c2.class_metrics.values[k]).time <= time by {
        if k < c1.class_metrics.values.len() {
            assert(c2.class_metrics.values[k] == c1.class_metrics.values[k]);
        }
    }
    assert forall|k: int|
        0 <= k < c2.heap_metrics.values.len() implies (
    #[trigger] c2.heap_metrics.values[k]).time <= time by {
        if k < c1.heap_metrics.values.len() {
            assert(c2.heap_metrics.values[k] == c1.heap_metrics.values[k]);
        }
    }
    assert forall|k: int|
        0 <= k < c2.metaspace_metrics.values.len() implies (
    #[trigger] c2.metaspace_metrics.values[k]).time <= time by {
        if k < c1.metaspace_metrics.values.len() {
            assert(c2.metaspace_metrics.values[k] == c1.metaspace_metrics.values[k]);
        }
    }
    assert forall|k: int|
        0 <= k < c2.thread_metrics.values.len() implies (
    #[trigger] c2.thread_metrics.values[k]).time <= time by {
        if k < c1.thread_metrics.values.len() {
            assert(c2.thread_metrics.values[k] == c1.thread_metrics.values[k]);
        }
    }
    assert forall|k: int|
        0 <= k < c2.thread_count_metrics_application.values.len() implies (
    #[trigger] c2.thread_count_metrics_application.values[k]).time <= time by {
        if k < c1.thread_count_metrics_application.values.len() {
            assert(c2.thread_count_metrics_application.values[k]
                == c1.thread_count_metrics_application.values[k]);
        }
    }
    assert forall|k: int|
        0 <= k < c2.thread_count_metrics_jvm.values.len() implies (
    #[trigger] c2.thread_count_metrics_jvm.values[k]).time <= time by {
        if k < c1.thread_count_metrics_jvm.values.len() {
            assert(c2.thread_count_metrics_jvm.values[k] == c1.thread_count_metrics_jvm.values[k]);
        }
    }
}

/// Time monotonicity across any number of successful metrics polls: when
/// the polls come with non-decreasing poll times, every series stays sorted
/// by time, bounded by the last poll time.
pub proof fn lemma_polls_keep_times_sorted(
    c: MetricsCacheV,
    polls: Seq<(Seq<char>, HeapFigures, u128)>,
    t0: u128,
)
    requires
        cache_times_sorted_upto(c, t0),
        polls.len() > 0 ==> t0 <= polls[0].2,
        forall|i: int| 0 <= i < polls.len() - 1 ==> (#[trigger] polls[i].2) <= polls[i + 1].2,
    ensures
        cache_times_sorted_upto(
            spec_cache_after_polls(c, polls),
            if polls.len() == 0 {
                t0
            } else {
                polls[polls.len() - 1].2
            },
        ),
    decreases polls.len(),
{
    if polls.len() > 0 {
        let t1 = polls[0].2;
        let c1 = spec_merge_native_memory(c, polls[0].0, polls[0].1, t1);
        lemma_merge_native_memory_append_only(c, polls[0].0, polls[0].1, t1);
        lemma_extends_keeps_times_sorted(c, c1, t0, t1);
        assert(forall|i: int|
            0 <= i < polls.skip(1).len() ==> polls.skip(1)[i] == polls[i + 1]);
        lemma_polls_keep_times_sorted(c1, polls.skip(1), t1);
        if polls.len() > 1 {
            assert(polls.skip(1)[polls.skip(1).len() - 1] == polls[polls.len() - 1]);
        }
    }
}

} // verus!
