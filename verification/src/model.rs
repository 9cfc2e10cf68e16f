//! The data model: snapshots, metric values, series and caches.
//!
//! Each type that carries text also has a spec-level view (`...V`) in which
//! every `String` appears as its character sequence; contracts are stated
//! over those views.

use vstd::prelude::*;

verus! {

/// JVM argument lines of a VM snapshot.
#[derive(Clone, Debug, PartialEq, Eq)]
pub struct VmArguments {
    pub jvm_args: Option<String>,
    pub java_command: Option<String>,
}

/// Spec view of `VmArguments`.
pub struct VmArgumentsV {
    pub jvm_args: Option<Seq<char>>,
    pub java_command: Option<Seq<char>>,
}

/// The view of an optional string: the characters, if present.
pub open spec fn opt_view(o: Option<String>) -> Option<Seq<char>> {
    match o {
        Some(s) => Some(s@),
        None => None,
    }
}

impl View for VmArguments {
    type V = VmArgumentsV;

    open spec fn view(&self) -> VmArgumentsV {
        VmArgumentsV { jvm_args: opt_view(self.jvm_args), java_command: opt_view(self.java_command) }
    }
}

/// Resource figures of a VM snapshot.
#[derive(Clone, Debug, PartialEq, Eq)]
pub struct VmResources {
    pub cpus: Option<String>,
    pub memory: Option<String>,
    pub heap_size_min: Option<String>,
    pub heap_size_init: Option<String>,
    pub heap_size_max: Option<String>,
}

/// Spec view of `VmResources`.
pub struct VmResourcesV {
    pub cpus: Option<Seq<char>>,
    pub memory: Option<Seq<char>>,
    pub heap_size_min: Option<Seq<char>>,
    pub heap_size_init: Option<Seq<char>>,
    pub heap_size_max: Option<Seq<char>>,
}

impl View for VmResources {
    type V = VmResourcesV;

    open spec fn view(&self) -> VmResourcesV {
        VmResourcesV {
            cpus: opt_view(self.cpus),
            memory: opt_view(self.memory),
            heap_size_min: opt_view(self.heap_size_min),
            heap_size_init: opt_view(self.heap_size_init),
            heap_size_max: opt_view(self.heap_size_max),
        }
    }
}

/// One VM information snapshot.
#[derive(Clone, Debug, PartialEq, Eq)]
pub struct VmInformation {
    pub vm_arguments: Option<VmArguments>,
    pub vm_resources: Option<VmResources>,
}

/// Spec view of `VmInformation`.
pub struct VmInformationV {
    pub vm_arguments: Option<VmArgumentsV>,
    pub vm_resources: Option<VmResourcesV>,
}

impl View for VmInformation {
    type V = VmInformationV;

    open spec fn view(&self) -> VmInformationV {
        VmInformationV {
            vm_arguments: match self.vm_arguments {
                Some(a) => Some(a@),
                None => None,
            },
            vm_resources: match self.vm_resources {
                Some(r) => Some(r@),
                None => None,
            },
        }
    }
}

/// One candidate target process.
#[derive(Clone, Debug, PartialEq, Eq)]
pub struct JvmProcessRef {
    pub id: String,
    pub name: String,
    pub path: Option<String>,
}

/// Spec view of `JvmProcessRef`.
pub struct JvmProcessRefV {
    pub id: Seq<char>,
    pub name: Seq<char>,
    pub path: Option<Seq<char>>,
}

impl View for JvmProcessRef {
    type V = JvmProcessRefV;

    open spec fn view(&self) -> JvmProcessRefV {
        JvmProcessRefV { id: self.id@, name: self.name@, path: opt_view(self.path) }
    }
}

/// The process directory listing.
#[derive(Clone, Debug, PartialEq, Eq)]
pub struct JvmProcesses {
    pub processes: Vec<JvmProcessRef>,
}

/// Views of a sequence of process references.
pub open spec fn procs_view(ps: Seq<JvmProcessRef>) -> Seq<JvmProcessRefV> {
    ps.map_values(|p: JvmProcessRef| p@)
}

/// Appending a process reference appends its view.
pub proof fn lemma_procs_view_push(ps: Seq<JvmProcessRef>, p: JvmProcessRef)
    ensures
        procs_view(ps.push(p)) == procs_view(ps).push(p@),
{
    assert(procs_view(ps.push(p)) =~= procs_view(ps).push(p@));
}

impl View for JvmProcesses {
    type V = Seq<JvmProcessRefV>;

    open spec fn view(&self) -> Seq<JvmProcessRefV> {
        procs_view(self.processes@)
    }
}

/// Entry of the total-memory series.
#[derive(Clone, Copy, Debug, PartialEq, Eq)]
pub struct TotalMemoryMetricValue {
    pub time: u128,
    pub reserved: Option<u64>,
    pub committed: Option<u64>,
}

/// Entry of the class-memory series.
#[derive(Clone, Copy, Debug, PartialEq, Eq)]
pub struct ClassMemoryMetricValue {
    pub time: u128,
    pub class_count: u32,
    pub reserved: Option<u64>,
    pub committed: Option<u64>,
    pub used: Option<u64>,
}

/// Entry of the metaspace-memory series.
#[derive(Clone, Copy, Debug, PartialEq, Eq)]
pub struct MetaspaceMemoryMetricValue {
    pub time: u128,
    pub reserved: Option<u64>,
    pub committed: Option<u64>,
    pub used: Option<u64>,
}

/// Entry of the heap-memory series.
#[derive(Clone, Copy, Debug, PartialEq, Eq)]
pub struct HeapMemoryMetricValue {
    pub time: u128,
    pub reserved: Option<u64>,
    pub committed: Option<u64>,
    pub used: Option<u64>,
}

/// Entry of a thread state census series.
#[derive(Clone, Copy, Debug, PartialEq, Eq)]
pub struct ThreadCountMetricValue {
    pub time: u128,
    pub new_count: u32,
    pub runnable_count: u32,
    pub waiting_count: u32,
    pub timed_waiting_count: u32,
    pub blocked_count: u32,
}

/// Entry of the thread-memory series.
#[derive(Clone, Copy, Debug, PartialEq, Eq)]
pub struct ThreadMemoryMetricValue {
    pub time: u128,
    pub thread_count: u32,
    pub reserved: Option<u64>,
    pub committed: Option<u64>,
}

/// Entry of a dynamically discovered memory-region series.
#[derive(Clone, Copy, Debug, PartialEq, Eq)]
pub struct GenericMemoryMetricValue {
    pub time: u128,
    pub reserved: Option<u64>,
    pub committed: Option<u64>,
}

/// A named, append-only series of metric values.
#[derive(Clone, Debug)]
pub struct NamedMetric<T> {
    pub name: String,
    pub values: Vec<T>,
}

/// Spec view of `NamedMetric`.
pub struct NamedMetricV<T> {
    pub name: Seq<char>,
    pub values: Seq<T>,
}

impl<T> View for NamedMetric<T> {
    type V = NamedMetricV<T>;

    open spec fn view(&self) -> NamedMetricV<T> {
        NamedMetricV { name: self.name@, values: self.values@ }
    }
}

impl<T> NamedMetric<T> {
    /// An empty series under the given name.
    pub fn new(name: String) -> (r: NamedMetric<T>)
        ensures
            r@.name == name@,
            r@.values == Seq::<T>::empty(),
    {
        let r = NamedMetric { name, values: Vec::new() };
        proof {
            assert(r.values@ =~= Seq::<T>::empty());
        }
        r
    }
}

/// The series of a dynamically discovered memory region.
#[derive(Clone, Debug)]
pub struct GenericMemoryMetric {
    pub name: String,
    pub values: Vec<GenericMemoryMetricValue>,
}

/// Spec view of `GenericMemoryMetric`.
pub struct GenericMemoryMetricV {
    pub name: Seq<char>,
    pub values: Seq<GenericMemoryMetricValue>,
}

impl View for GenericMemoryMetric {
    type V = GenericMemoryMetricV;

    open spec fn view(&self) -> GenericMemoryMetricV {
        GenericMemoryMetricV { name: self.name@, values: self.values@ }
    }
}

/// The full metric history returned by a metrics poll.
#[derive(Clone, Debug)]
pub struct JvmMetrics {
    pub total_memory: NamedMetric<TotalMemoryMetricValue>,
    pub class: NamedMetric<ClassMemoryMetricValue>,
    pub heap: NamedMetric<HeapMemoryMetricValue>,
    pub metaspace: NamedMetric<MetaspaceMemoryMetricValue>,
    pub thread: NamedMetric<ThreadMemoryMetricValue>,
    pub other: Vec<GenericMemoryMetric>,
}

/// Spec view of `JvmMetrics`.
pub struct JvmMetricsV {
    pub total_memory: NamedMetricV<TotalMemoryMetricValue>,
    pub class: NamedMetricV<ClassMemoryMetricValue>,
    pub heap: NamedMetricV<HeapMemoryMetricValue>,
    pub metaspace: NamedMetricV<MetaspaceMemoryMetricValue>,
    pub thread: NamedMetricV<ThreadMemoryMetricValue>,
    pub other: Seq<GenericMemoryMetricV>,
}

/// Views of a sequence of generic region series.
pub open spec fn generics_view(gs: Seq<GenericMemoryMetric>) -> Seq<GenericMemoryMetricV> {
    gs.map_values(|g: GenericMemoryMetric| g@)
}

/// Appending a generic region series appends its view.
pub proof fn lemma_generics_view_push(gs: Seq<GenericMemoryMetric>, g: GenericMemoryMetric)
    ensures
        generics_view(gs.push(g)) == generics_view(gs).push(g@),
{
    assert(generics_view(gs.push(g)) =~= generics_view(gs).push(g@));
}

impl View for JvmMetrics {
    type V = JvmMetricsV;

    open spec fn view(&self) -> JvmMetricsV {
        JvmMetricsV {
            total_memory: self.total_memory@,
            class: self.class@,
            heap: self.heap@,
            metaspace: self.metaspace@,
            thread: self.thread@,
            other: generics_view(self.other@),
        }
    }
}

/// One managed (application) thread record.
#[derive(Clone, Debug)]
pub struct ApplicationThread {
    pub name: String,
    pub id: u32,
    pub daemon: bool,
    pub prio: u16,
    pub os_thread_prio: u16,
    pub cpu_nanos: u64,
    pub elapsed_nanos: u64,
    pub allocated: String,
    pub defined_classes: u16,
    pub thread_id: String,
    pub os_thread_id: String,
    pub status: String,
    pub last_known_java_stack_pointer: String,
}

/// Spec view of `ApplicationThread`.
pub struct ApplicationThreadV {
    pub name: Seq<char>,
    pub id: u32,
    pub daemon: bool,
    pub prio: u16,
    pub os_thread_prio: u16,
    pub cpu_nanos: u64,
    pub elapsed_nanos: u64,
    pub allocated: Seq<char>,
    pub defined_classes: u16,
    pub thread_id: Seq<char>,
    pub os_thread_id: Seq<char>,
    pub status: Seq<char>,
    pub last_known_java_stack_pointer: Seq<char>,
}

impl View for ApplicationThread {
    type V = ApplicationThreadV;

    open spec fn view(&self) -> ApplicationThreadV {
        ApplicationThreadV {
            name: self.name@,
            id: self.id,
            daemon: self.daemon,
            prio: self.prio,
            os_thread_prio: self.os_thread_prio,
            cpu_nanos: self.cpu_nanos,
            elapsed_nanos: self.elapsed_nanos,
            allocated: self.allocated@,
            defined_classes: self.defined_classes,
            thread_id: self.thread_id@,
            os_thread_id: self.os_thread_id@,
            status: self.status@,
            last_known_java_stack_pointer: self.last_known_java_stack_pointer@,
        }
    }
}

/// One internal (JVM) thread record.
#[derive(Clone, Debug)]
pub struct JvmThread {
    pub name: String,
    pub os_thread_prio: u16,
    pub cpu_nanos: u64,
    pub elapsed_nanos: u64,
    pub thread_id: String,
    pub os_thread_id: String,
    pub status: String,
}

/// Spec view of `JvmThread`.
pub struct JvmThreadV {
    pub name: Seq<char>,
    pub os_thread_prio: u16,
    pub cpu_nanos: u64,
    pub elapsed_nanos: u64,
    pub thread_id: Seq<char>,
    pub os_thread_id: Seq<char>,
    pub status: Seq<char>,
}

impl View for JvmThread {
    type V = JvmThreadV;

    open spec fn view(&self) -> JvmThreadV {
        JvmThreadV {
            name: self.name@,
            os_thread_prio: self.os_thread_prio,
            cpu_nanos: self.cpu_nanos,
            elapsed_nanos: self.elapsed_nanos,
            thread_id: self.thread_id@,
            os_thread_id: self.os_thread_id@,
            status: self.status@,
        }
    }
}

/// The result of a thread poll: fresh records plus the census histories.
#[derive(Clone, Debug)]
pub struct Threads {
    pub application_threads: Vec<ApplicationThread>,
    pub jvm_threads: Vec<JvmThread>,
    pub thread_count_application: NamedMetric<ThreadCountMetricValue>,
    pub thread_count_jvm: NamedMetric<ThreadCountMetricValue>,
}

/// Spec view of `Threads`.
pub struct ThreadsV {
    pub application_threads: Seq<ApplicationThreadV>,
    pub jvm_threads: Seq<JvmThreadV>,
    pub thread_count_application: NamedMetricV<ThreadCountMetricValue>,
    pub thread_count_jvm: NamedMetricV<ThreadCountMetricValue>,
}

/// Views of a sequence of application thread records.
pub open spec fn app_threads_view(ts: Seq<ApplicationThread>) -> Seq<ApplicationThreadV> {
    ts.map_values(|t: ApplicationThread| t@)
}

/// Appending an application thread record appends its view.
pub proof fn lemma_app_threads_view_push(ts: Seq<ApplicationThread>, t: ApplicationThread)
    ensures
        app_threads_view(ts.push(t)) == app_threads_view(ts).push(t@),
{
    assert(app_threads_view(ts.push(t)) =~= app_threads_view(ts).push(t@));
}

/// Views of a sequence of JVM thread records.
pub open spec fn jvm_threads_view(ts: Seq<JvmThread>) -> Seq<JvmThreadV> {
    ts.map_values(|t: JvmThread| t@)
}

/// Appending a JVM thread record appends its view.
pub proof fn lemma_jvm_threads_view_push(ts: Seq<JvmThread>, t: JvmThread)
    ensures
        jvm_threads_view(ts.push(t)) == jvm_threads_view(ts).push(t@),
{
    assert(jvm_threads_view(ts.push(t)) =~= jvm_threads_view(ts).push(t@));
}

impl View for Threads {
    type V = ThreadsV;

    open spec fn view(&self) -> ThreadsV {
        ThreadsV {
            application_threads: app_threads_view(self.application_threads@),
            jvm_threads: jvm_threads_view(self.jvm_threads@),
            thread_count_application: self.thread_count_application@,
            thread_count_jvm: self.thread_count_jvm@,
        }
    }
}

/// One entry of the per-thread cumulative CPU cache.
#[derive(Clone, Debug)]
pub struct ThreadCacheEntry {
    pub name: String,
    pub jvm_thread: bool,
    pub cpu_nanos: u64,
}

/// Spec view of `ThreadCacheEntry`.
pub struct ThreadCacheEntryV {
    pub name: Seq<char>,
    pub jvm_thread: bool,
    pub cpu_nanos: u64,
}

impl View for ThreadCacheEntry {
    type V = ThreadCacheEntryV;

    open spec fn view(&self) -> ThreadCacheEntryV {
        ThreadCacheEntryV { name: self.name@, jvm_thread: self.jvm_thread, cpu_nanos: self.cpu_nanos }
    }
}

/// The process-wide metric history: one long-lived series per fixed
/// category plus the series of dynamically discovered memory regions,
/// ordered by discovery. Owned by the host application and passed into
/// every poll; cleared only by `reset`.
#[derive(Clone, Debug)]
pub struct MetricsCache {
    pub total_memory: NamedMetric<TotalMemoryMetricValue>,
    pub class_metrics: NamedMetric<ClassMemoryMetricValue>,
    pub heap_metrics: NamedMetric<HeapMemoryMetricValue>,
    pub metaspace_metrics: NamedMetric<MetaspaceMemoryMetricValue>,
    pub thread_metrics: NamedMetric<ThreadMemoryMetricValue>,
    pub thread_count_metrics_application: NamedMetric<ThreadCountMetricValue>,
    pub thread_count_metrics_jvm: NamedMetric<ThreadCountMetricValue>,
    pub other_metrics: Vec<GenericMemoryMetric>,
}

/// Spec view of `MetricsCache`.
pub struct MetricsCacheV {
    pub total_memory: NamedMetricV<TotalMemoryMetricValue>,
    pub class_metrics: NamedMetricV<ClassMemoryMetricValue>,
    pub heap_metrics: NamedMetricV<HeapMemoryMetricValue>,
    pub metaspace_metrics: NamedMetricV<MetaspaceMemoryMetricValue>,
    pub thread_metrics: NamedMetricV<ThreadMemoryMetricValue>,
    pub thread_count_metrics_application: NamedMetricV<ThreadCountMetricValue>,
    pub thread_count_metrics_jvm: NamedMetricV<ThreadCountMetricValue>,
    pub other_metrics: Seq<GenericMemoryMetricV>,
}

impl View for MetricsCache {
    type V = MetricsCacheV;

    open spec fn view(&self) -> MetricsCacheV {
        MetricsCacheV {
            total_memory: self.total_memory@,
            class_metrics: self.class_metrics@,
            heap_metrics: self.heap_metrics@,
            metaspace_metrics: self.metaspace_metrics@,
            thread_metrics: self.thread_metrics@,
            thread_count_metrics_application: self.thread_count_metrics_application@,
            thread_count_metrics_jvm: self.thread_count_metrics_jvm@,
            other_metrics: generics_view(self.other_metrics@),
        }
    }
}

impl MetricsCache {
    /// All series of the cache are empty.
    pub open spec fn is_empty(self) -> bool {
        &&& self@.total_memory.values.len() == 0
        &&& self@.class_metrics.values.len() == 0
        &&& self@.heap_metrics.values.len() == 0
        &&& self@.metaspace_metrics.values.len() == 0
        &&& self@.thread_metrics.values.len() == 0
        &&& self@.thread_count_metrics_application.values.len() == 0
        &&& self@.thread_count_metrics_jvm.values.len() == 0
        &&& self@.other_metrics.len() == 0
    }

    /// A fresh cache: every fixed-category series empty under its fixed
    /// name, and no discovered regions.
    pub fn new() -> (r: MetricsCache)
        ensures
            r.is_empty(),
            r@.total_memory.name == "Total"@,
            r@.class_metrics.name == "Class"@,
            r@.heap_metrics.name == "Heap"@,
            r@.metaspace_metrics.name == "Metaspace"@,
            r@.thread_metrics.name == "Thread"@,
            r@.thread_count_metrics_application.name == "ThreadCountApplication"@,
            r@.thread_count_metrics_jvm.name == "ThreadCountJvm"@,
    {
        let r = MetricsCache {
            total_memory: NamedMetric::new("Total".to_owned()),
            class_metrics: NamedMetric::new("Class".to_owned()),
            heap_metrics: NamedMetric::new("Heap".to_owned()),
            metaspace_metrics: NamedMetric::new("Metaspace".to_owned()),
            thread_metrics: NamedMetric::new("Thread".to_owned()),
            thread_count_metrics_application: NamedMetric::new(
                "ThreadCountApplication".to_owned(),
            ),
            thread_count_metrics_jvm: NamedMetric::new("ThreadCountJvm".to_owned()),
            other_metrics: Vec::new(),
        };
        proof {
            assert(generics_view(r.other_metrics@) =~= Seq::<GenericMemoryMetricV>::empty());
        }
        r
    }
}

/// Clear every series and forget every discovered region; the series keep
/// their names. The per-thread CPU cache is not touched.
pub fn reset(cache: &mut MetricsCache)
    ensures
        final(cache).is_empty(),
        final(cache)@.total_memory.name == old(cache)@.total_memory.name,
        final(cache)@.class_metrics.name == old(cache)@.class_metrics.name,
        final(cache)@.heap_metrics.name == old(cache)@.heap_metrics.name,
        final(cache)@.metaspace_metrics.name == old(cache)@.metaspace_metrics.name,
        final(cache)@.thread_metrics.name == old(cache)@.thread_metrics.name,
        final(cache)@.thread_count_metrics_application.name == old(
            cache,
        )@.thread_count_metrics_application.name,
        final(cache)@.thread_count_metrics_jvm.name == old(cache)@.thread_count_metrics_jvm.name,
{
    cache.class_metrics.values.clear();
    cache.heap_metrics.values.clear();
    cache.metaspace_metrics.values.clear();
    cache.other_metrics.clear();
    cache.total_memory.values.clear();
    cache.thread_count_metrics_application.values.clear();
    cache.thread_count_metrics_jvm.values.clear();
    cache.thread_metrics.values.clear();
    proof {
        assert(generics_view(cache.other_metrics@) =~= Seq::<GenericMemoryMetricV>::empty());
    }
}

/// Views of a sequence of CPU-cache entries.
pub open spec fn entries_view(es: Seq<ThreadCacheEntry>) -> Seq<ThreadCacheEntryV> {
    es.map_values(|e: ThreadCacheEntry| e@)
}

/// Appending a cache entry appends its view.
pub proof fn lemma_entries_view_push(es: Seq<ThreadCacheEntry>, e: ThreadCacheEntry)
    ensures
        entries_view(es.push(e)) == entries_view(es).push(e@),
{
    assert(entries_view(es.push(e)) =~= entries_view(es).push(e@));
}

} // verus!
