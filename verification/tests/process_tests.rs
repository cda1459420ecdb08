use samba_exporter::process::{
    aggregate_samples, get_process_metrics, record_sample, stats_of, AggregatedStats,
    CpuMemSample, IoSample, ProcSample,
};

fn full_sample() -> ProcSample {
    ProcSample {
        cpu_mem: Some(CpuMemSample { utime: 10, stime: 5, vsize: 1000, num_threads: 3 }),
        io: Some(IoSample { read_bytes: 100, write_bytes: 200 }),
        fd_count: Some(7),
    }
}

#[test]
fn sums_reflect_only_the_successful_id() {
    let entries = vec![(11, Some(full_sample())), (22, None)];
    let agg = aggregate_samples(&entries);
    assert_eq!(agg.total_cpu_time, 15);
    assert_eq!(agg.total_memory, 1000);
    assert_eq!(agg.total_threads, 3);
    assert_eq!(agg.total_fds, 7);
    assert_eq!(agg.total_read, 100);
    assert_eq!(agg.total_write, 200);
    assert!(agg.processes.contains_key(&11));
    assert!(!agg.processes.contains_key(&22));
    assert_eq!(agg.processes.len(), 1);
}

#[test]
fn failed_sub_lookups_read_as_zero() {
    let sample = ProcSample {
        cpu_mem: None,
        io: Some(IoSample { read_bytes: 40, write_bytes: 2 }),
        fd_count: None,
    };
    let stats = stats_of(&sample);
    assert_eq!(stats.utime, 0);
    assert_eq!(stats.stime, 0);
    assert_eq!(stats.virtual_memory_bytes, 0);
    assert_eq!(stats.thread_count, 0);
    assert_eq!(stats.open_fds, 0);
    assert_eq!(stats.read_bytes, 40);
    assert_eq!(stats.write_bytes, 2);
}

#[test]
fn recording_accumulates_and_keeps_the_table() {
    let mut agg = AggregatedStats::empty();
    record_sample(&mut agg, 1, &full_sample());
    record_sample(&mut agg, 2, &full_sample());
    assert_eq!(agg.total_cpu_time, 30);
    assert_eq!(agg.total_memory, 2000);
    assert_eq!(agg.total_fds, 14);
    assert_eq!(agg.processes.len(), 2);
    assert_eq!(agg.processes.get(&1), Some(&stats_of(&full_sample())));
}

#[test]
fn sums_saturate_instead_of_wrapping() {
    let big = ProcSample {
        cpu_mem: Some(CpuMemSample { utime: u64::MAX, stime: 5, vsize: u64::MAX, num_threads: 1 }),
        io: None,
        fd_count: None,
    };
    let entries = vec![(1, Some(big)), (2, Some(big))];
    let agg = aggregate_samples(&entries);
    assert_eq!(agg.total_cpu_time, u64::MAX);
    assert_eq!(agg.total_memory, u64::MAX);
    assert_eq!(agg.total_threads, 2);
}

#[test]
fn empty_id_list_gives_the_empty_aggregation() {
    let agg = get_process_metrics(&Vec::new());
    assert!(agg.processes.is_empty());
    assert_eq!(agg.total_cpu_time, 0);
    assert_eq!(agg.total_memory, 0);
    assert_eq!(agg.total_threads, 0);
    assert_eq!(agg.total_fds, 0);
    assert_eq!(agg.total_read, 0);
    assert_eq!(agg.total_write, 0);
}

#[test]
fn lookup_of_an_impossible_id_leaves_no_trace() {
    let agg = get_process_metrics(&vec![-1]);
    assert!(agg.processes.is_empty());
    assert_eq!(agg.total_cpu_time, 0);
    assert_eq!(agg.total_memory, 0);
    assert_eq!(agg.total_threads, 0);
    assert_eq!(agg.total_fds, 0);
    assert_eq!(agg.total_read, 0);
    assert_eq!(agg.total_write, 0);
}
