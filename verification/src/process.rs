//! Per-process operating-system statistics for the process ids a
//! snapshot reports, and their sums. The operating-system lookups go
//! through procfs and may fail at any moment — a process can exit
//! between listing and lookup — so every lookup result is optional and
//! a failed id simply contributes nothing.

use vstd::prelude::*;
use std::collections::HashMap;

verus! {

broadcast use vstd::std_specs::hash::group_hash_axioms;

/// Statistics for one process, zero where a sub-lookup failed.
#[derive(Clone, Copy, PartialEq, Eq, Structural, Debug)]
pub struct SmbdProcessStats {
    pub utime: u64,
    pub stime: u64,
    pub virtual_memory_bytes: u64,
    pub thread_count: u64,
    pub open_fds: u64,
    pub read_bytes: u64,
    pub write_bytes: u64,
}

/// CPU and memory figures read from a process' stat file.
#[derive(Clone, Copy, PartialEq, Eq, Structural, Debug)]
pub struct CpuMemSample {
    pub utime: u64,
    pub stime: u64,
    pub vsize: u64,
    pub num_threads: i64,
}

/// Byte counters read from a process' io file.
#[derive(Clone, Copy, PartialEq, Eq, Structural, Debug)]
pub struct IoSample {
    pub read_bytes: u64,
    pub write_bytes: u64,
}

/// One process' lookup outcomes. The three sub-lookups are
/// independent: any of them may fail without blocking the others.
#[derive(Clone, Copy, PartialEq, Eq, Structural, Debug)]
pub struct ProcSample {
    pub cpu_mem: Option<CpuMemSample>,
    pub io: Option<IoSample>,
    pub fd_count: Option<u64>,
}

/// The statistics a sample stands for: each failed sub-lookup reads
/// as zero, and the thread count is taken as an unsigned number.
pub open spec fn spec_stats_of(s: ProcSample) -> SmbdProcessStats {
    SmbdProcessStats {
        utime: match s.cpu_mem {
            Some(c) => c.utime,
            None => 0,
        },
        stime: match s.cpu_mem {
            Some(c) => c.stime,
            None => 0,
        },
        virtual_memory_bytes: match s.cpu_mem {
            Some(c) => c.vsize,
            None => 0,
        },
        thread_count: match s.cpu_mem {
            Some(c) => c.num_threads as u64,
            None => 0,
        },
        open_fds: match s.fd_count {
            Some(n) => n,
            None => 0,
        },
        read_bytes: match s.io {
            Some(io) => io.read_bytes,
            None => 0,
        },
        write_bytes: match s.io {
            Some(io) => io.write_bytes,
            None => 0,
        },
    }
}

/// Builds the per-process statistics a sample stands for.
pub fn stats_of(s: &ProcSample) -> (r: SmbdProcessStats)
    ensures
        r == spec_stats_of(*s),
{
    let (ut, st, vm, th): (u64, u64, u64, u64) = match s.cpu_mem {
        Some(c) => (c.utime, c.stime, c.vsize, c.num_threads as u64),
        None => (0, 0, 0, 0),
    };
    let (rd, wr): (u64, u64) = match s.io {
        Some(io) => (io.read_bytes, io.write_bytes),
        None => (0, 0),
    };
    let fds: u64 = match s.fd_count {
        Some(n) => n,
        None => 0,
    };
    SmbdProcessStats {
        utime: ut,
        stime: st,
        virtual_memory_bytes: vm,
        thread_count: th,
        open_fds: fds,
        read_bytes: rd,
        write_bytes: wr,
    }
}

/// Sums of all looked-up processes' statistics, plus the per-id table.
pub struct AggregatedStats {
    pub processes: HashMap<i32, SmbdProcessStats>,
    pub total_cpu_time: u64,
    pub total_memory: u64,
    pub total_threads: u64,
    pub total_fds: u64,
    pub total_read: u64,
    pub total_write: u64,
}

/// The mathematical content of an [`AggregatedStats`].
#[verifier::ext_equal]
pub struct AggregatedStatsView {
    pub processes: Map<i32, SmbdProcessStats>,
    pub total_cpu_time: int,
    pub total_memory: int,
    pub total_threads: int,
    pub total_fds: int,
    pub total_read: int,
    pub total_write: int,
}

impl View for AggregatedStats {
    type V = AggregatedStatsView;

    open spec fn view(&self) -> AggregatedStatsView {
        AggregatedStatsView {
            processes: self.processes@,
            total_cpu_time: self.total_cpu_time as int,
            total_memory: self.total_memory as int,
            total_threads: self.total_threads as int,
            total_fds: self.total_fds as int,
            total_read: self.total_read as int,
            total_write: self.total_write as int,
        }
    }
}

/// No process recorded, every sum zero.
pub open spec fn empty_agg_view() -> AggregatedStatsView {
    AggregatedStatsView {
        processes: Map::empty(),
        total_cpu_time: 0,
        total_memory: 0,
        total_threads: 0,
        total_fds: 0,
        total_read: 0,
        total_write: 0,
    }
}

impl AggregatedStats {
    /// The empty aggregation a scrape starts from.
    pub fn empty() -> (r: AggregatedStats)
        ensures
            r@ == empty_agg_view(),
    {
        let r = AggregatedStats {
            processes: HashMap::new(),
            total_cpu_time: 0,
            total_memory: 0,
            total_threads: 0,
            total_fds: 0,
            total_read: 0,
            total_write: 0,
        };
        proof {
            assert(r@ =~= empty_agg_view());
        }
        r
    }
}

/// Saturating sum: a total that would pass the counter's ceiling
/// sticks at the ceiling instead of wrapping.
pub open spec fn sat_add64(a: int, b: int) -> int {
    if a + b > u64::MAX as int {
        u64::MAX as int
    } else {
        a + b
    }
}

/// Adds with saturation at the counter's ceiling.
pub fn sat_add(a: u64, b: u64) -> (r: u64)
    ensures
        r as int == sat_add64(a as int, b as int),
{
    if a > u64::MAX - b {
        u64::MAX
    } else {
        a + b
    }
}

/// One id's contribution to the aggregation: a failed lookup changes
/// nothing; a successful one records the id's statistics and adds
/// each figure into the running sums.
pub open spec fn spec_record(
    a: AggregatedStatsView,
    pid: i32,
    sample: Option<ProcSample>,
) -> AggregatedStatsView {
    match sample {
        None => a,
        Some(s) => {
            let st = spec_stats_of(s);
            AggregatedStatsView {
                processes: a.processes.insert(pid, st),
                total_cpu_time: sat_add64(a.total_cpu_time, sat_add64(st.utime as int, st.stime as int)),
                total_memory: sat_add64(a.total_memory, st.virtual_memory_bytes as int),
                total_threads: sat_add64(a.total_threads, st.thread_count as int),
                total_fds: sat_add64(a.total_fds, st.open_fds as int),
                total_read: sat_add64(a.total_read, st.read_bytes as int),
                total_write: sat_add64(a.total_write, st.write_bytes as int),
            }
        },
    }
}

/// The ids' contributions folded in, first id first.
pub open spec fn spec_aggregate(
    a: AggregatedStatsView,
    entries: Seq<(i32, Option<ProcSample>)>,
) -> AggregatedStatsView
    decreases entries.len(),
{
    if entries.len() == 0 {
        a
    } else {
        spec_aggregate(spec_record(a, entries[0].0, entries[0].1), entries.skip(1))
    }
}

/// Records one successfully looked-up id.
pub fn record_sample(agg: &mut AggregatedStats, pid: i32, sample: &ProcSample)
    ensures
        final(agg)@ == spec_record(old(agg)@, pid, Some(*sample)),
{
    let st: SmbdProcessStats = stats_of(sample);
    let cpu: u64 = sat_add(st.utime, st.stime);
    agg.total_cpu_time = sat_add(agg.total_cpu_time, cpu);
    agg.total_memory = sat_add(agg.total_memory, st.virtual_memory_bytes);
    agg.total_threads = sat_add(agg.total_threads, st.thread_count);
    agg.total_fds = sat_add(agg.total_fds, st.open_fds);
    agg.total_read = sat_add(agg.total_read, st.read_bytes);
    agg.total_write = sat_add(agg.total_write, st.write_bytes);
    agg.processes.insert(pid, st);
    proof {
        assert(final(agg)@ =~= spec_record(old(agg)@, pid, Some(*sample)));
    }
}

/// Aggregates a list of lookup outcomes, one per id: sums reflect
/// exactly the ids whose lookup succeeded, and only those ids appear
/// in the per-id table.
pub fn aggregate_samples(entries: &Vec<(i32, Option<ProcSample>)>) -> (r: AggregatedStats)
    ensures
        r@ == spec_aggregate(empty_agg_view(), entries@),
{
    let mut agg: AggregatedStats = AggregatedStats::empty();
    let n: usize = entries.len();
    let mut i: usize = 0;
    proof {
        assert(entries@.skip(0) =~= entries@);
    }
    while i < n
        invariant
            i <= n,
            n == entries@.len(),
            spec_aggregate(agg@, entries@.skip(i as int)) == spec_aggregate(
                empty_agg_view(),
                entries@,
            ),
        decreases n - i,
    {
        let ghost rest: Seq<(i32, Option<ProcSample>)> = entries@.skip(i as int);
        let (pid, sample): (i32, Option<ProcSample>) = entries[i];
        match sample {
            Some(s) => {
                record_sample(&mut agg, pid, &s);
            },
            None => {},
        }
        proof {
            assert(rest[0] == entries@[i as int]);
            assert(rest.skip(1) =~= entries@.skip(i + 1));
        }
        i = i + 1;
    }
    proof {
        assert(entries@.skip(n as int) =~= Seq::<(i32, Option<ProcSample>)>::empty());
    }
    agg
}

#[verifier::external_type_specification]
#[verifier::external_body]
pub struct ExProcess(procfs::process::Process);

/// Relies on procfs' `Process::new`: opens the `/proc` entry of the
/// id, failing when no such process exists or it cannot be read. The
/// outcome depends on the machine's state, so nothing is promised of it.
#[verifier::external_body]
fn probe_process(pid: i32) -> (r: Option<procfs::process::Process>) {
    procfs::process::Process::new(pid).ok()
}

/// Relies on procfs' `Process::stat`: reads CPU ticks in user and
/// system mode, virtual memory size and thread count from the
/// process' stat file. Machine state; nothing is promised.
#[verifier::external_body]
fn probe_cpu_mem(p: &procfs::process::Process) -> (r: Option<CpuMemSample>) {
    match p.stat() {
        Ok(st) => Some(
            CpuMemSample {
                utime: st.utime,
                stime: st.stime,
                vsize: st.vsize,
                num_threads: st.num_threads,
            },
        ),
        Err(_) => None,
    }
}

/// Relies on procfs' `Process::io`: reads the process' storage read
/// and write byte counters. Machine state; nothing is promised.
#[verifier::external_body]
fn probe_io(p: &procfs::process::Process) -> (r: Option<IoSample>) {
    match p.io() {
        Ok(io) => Some(IoSample { read_bytes: io.read_bytes, write_bytes: io.write_bytes }),
        Err(_) => None,
    }
}

/// Relies on procfs' `Process::fd_count`: counts the process' open
/// file descriptors. Machine state; nothing is promised.
#[verifier::external_body]
fn probe_fd_count(p: &procfs::process::Process) -> (r: Option<usize>) {
    p.fd_count().ok()
}

/// One id's lookup: nothing when the process is gone, otherwise the
/// three independent sub-lookups' outcomes.
fn collect_sample(pid: i32) -> (r: Option<ProcSample>) {
    match probe_process(pid) {
        None => None,
        Some(p) => {
            let cpu_mem: Option<CpuMemSample> = probe_cpu_mem(&p);
            let io: Option<IoSample> = probe_io(&p);
            let fd_count: Option<u64> = match probe_fd_count(&p) {
                Some(n) => Some(n as u64),
                None => None,
            };
            Some(ProcSample { cpu_mem, io, fd_count })
        },
    }
}

pub proof fn lemma_aggregate_keys(
    a: AggregatedStatsView,
    entries: Seq<(i32, Option<ProcSample>)>,
    q: i32,
)
    requires
        spec_aggregate(a, entries).processes.contains_key(q),
    ensures
        a.processes.contains_key(q) || exists|i: int| 0 <= i < entries.len() && entries[i].0 == q,
    decreases entries.len(),
{
    if entries.len() > 0 {
        lemma_aggregate_keys(spec_record(a, entries[0].0, entries[0].1), entries.skip(1), q);
        if spec_record(a, entries[0].0, entries[0].1).processes.contains_key(q) {
            if !a.processes.contains_key(q) {
                assert(entries[0].0 == q);
            }
        } else {
            let i = choose|i: int|
                0 <= i < entries.skip(1).len() && entries.skip(1)[i].0 == q;
            assert(entries.skip(1)[i] == entries[i + 1]);
        }
    }
}

/// Looks each reported id up in the operating system and sums what was
/// found. Whatever the lookups returned, the whole result — per-id
/// table and all six totals — is the fold of one optional sample per
/// given id, in order; with no ids nothing is looked up and the
/// aggregation is empty; and a failed lookup leaves no trace, so only
/// ids from the given list can appear in the per-id table.
pub fn get_process_metrics(pids: &Vec<i32>) -> (r: AggregatedStats)
    ensures
        pids@.len() == 0 ==> r@ == empty_agg_view(),
        exists|samples: Seq<Option<ProcSample>>|
            #[trigger] samples.len() == pids@.len() && r@ == spec_aggregate(
                empty_agg_view(),
                Seq::new(pids@.len(), |i: int| (pids@[i], samples[i])),
            ),
        forall|q: i32| r@.processes.contains_key(q) ==> pids@.contains(q),
{
    let mut entries: Vec<(i32, Option<ProcSample>)> = Vec::new();
    let ghost mut samples: Seq<Option<ProcSample>> = Seq::empty();
    let n: usize = pids.len();
    let mut i: usize = 0;
    while i < n
        invariant
            i <= n,
            n == pids@.len(),
            entries@.len() == i,
            samples.len() == i,
            forall|k: int| 0 <= k < i ==> entries@[k] == (pids@[k], samples[k]),
        decreases n - i,
    {
        let pid: i32 = pids[i];
        let sample: Option<ProcSample> = collect_sample(pid);
        entries.push((pid, sample));
        proof {
            samples = samples.push(sample);
        }
        i = i + 1;
    }
    let r: AggregatedStats = aggregate_samples(&entries);
    proof {
        assert(entries@ =~= Seq::new(pids@.len(), |k: int| (pids@[k], samples[k])));
        if pids@.len() == 0 {
            assert(entries@ =~= Seq::<(i32, Option<ProcSample>)>::empty());
        }
        assert forall|q: i32| r@.processes.contains_key(q) implies pids@.contains(q) by {
            lemma_aggregate_keys(empty_agg_view(), entries@, q);
            let k = choose|k: int| 0 <= k < entries@.len() && entries@[k].0 == q;
            assert(pids@[k] == q);
        }
    }
    r
}

} // verus!
