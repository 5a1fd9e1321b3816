use io_thread_controller::backends::BackendClientError;
use io_thread_controller::cgroup::{CgroupSample, CpuQuota};
use io_thread_controller::cpu::{
    collect_cpu_sample, compute_per_worker_util, CpuSample, CpuSampleError, Share, TaskCpuSample,
    TaskReading, TaskStat,
};
use io_thread_controller::engines::eligible_members;
use io_thread_controller::instance::{
    Applied, Instance, InstancePerfSample, InstanceStatus, LatencySummary, Readings, ReadingsDue,
    Refreshed, RollingFeed, ThreadPoolSnapshot, UTIL_UNIT,
};
use io_thread_controller::thread_filter::{name_included, InstanceError, ThreadNameFilter};
use io_thread_controller::util::Path;

const SECOND: u64 = 1_000_000_000;

fn vm(id: &str) -> Instance<()> {
    Instance::new(id.to_string(), Path::new("/", ""), 7, ())
}

fn pool(threads: u32, util: Option<i64>) -> ThreadPoolSnapshot {
    ThreadPoolSnapshot {
        thread_count: threads,
        vcpu_count: 2,
        perf: None,
        per_thread_util: util,
    }
}

fn nothing_read(now: u64) -> Readings {
    Readings {
        cpu: None,
        cgroup: None,
        managed: true,
        now,
        ticks_per_second: 100,
    }
}

/// A successful snapshot updates the alive flag and the thread count.
#[test]
fn refresh_state_applies_successful_snapshot() {
    let mut instance = vm("vm-ok");
    let outcome = instance.refresh_state(Ok(pool(3, None)), nothing_read(SECOND), false);
    assert!(matches!(outcome, Refreshed::Usable(_)));
    assert!(instance.status.alive);
    assert_eq!(instance.status.thread_count, 3);
}

/// A client error marks the instance dead and asks for the client to be closed.
#[test]
fn refresh_state_marks_failed_instances_dead_and_closes() {
    let mut instance = vm("vm-bad");
    let outcome = instance.refresh_state(
        Err(BackendClientError::Disconnected("gone".into())),
        nothing_read(SECOND),
        false,
    );
    match outcome {
        Refreshed::Broken(error) => assert_eq!(error.to_string(), "disconnected: gone"),
        Refreshed::Usable(_) => panic!("expected a broken client"),
    }
    assert!(!instance.status.alive);
}

/// The text of an instance is the bare VM id.
#[test]
fn display_trims_instance_id() {
    assert_eq!(vm("  vm-1  ").to_string(), "vm-1");
}

/// An empty pattern includes every task not on the ignore list.
#[test]
fn empty_match_list_includes_nonignored_tasks() {
    let filter = ThreadNameFilter::new("", &vec!["helper".to_string()]).unwrap();
    assert!(filter.matches("worker"));
    assert!(!filter.matches("helper"));
}

/// An ignored name wins over a matching pattern.
#[test]
fn exact_ignore_takes_precedence_over_regex_match() {
    let filter = ThreadNameFilter::new("worker[0-9]+", &vec!["worker0".to_string()]).unwrap();
    assert!(!filter.matches("worker0"));
    assert!(filter.matches("worker1-helper"));
    assert!(!filter.matches("backend-main"));
}

#[test]
fn patterns_that_do_not_compile_are_refused() {
    match ThreadNameFilter::new("worker[", &Vec::new()) {
        Err(InstanceError::Regex(error)) => assert!(error.to_string().contains("worker[")),
        Ok(_) => panic!("expected an error"),
    }
}

#[test]
fn patterns_are_grouped_before_they_are_compiled() {
    let filter = ThreadNameFilter::new("a|b", &Vec::new()).unwrap();
    assert!(filter.matches("xbx"));
    assert!(!filter.matches("x"));
    assert!(ThreadNameFilter::default().matches("anything"));
}

#[test]
fn verdicts_count_only_for_names_that_are_not_ignored() {
    assert!(name_included(false, None));
    assert!(name_included(false, Some(true)));
    assert!(!name_included(false, Some(false)));
    assert!(!name_included(true, Some(true)));
    assert!(!name_included(true, None));
}

fn task(tid: i32, name: &str, cpu_ticks: u64) -> TaskCpuSample {
    TaskCpuSample {
        tid,
        name: name.to_string(),
        cpu_ticks,
    }
}

fn fraction(share: Share) -> f64 {
    share.part as f64 / share.whole as f64
}

/// Two workers sharing a name still get independent samples.
#[test]
fn duplicate_worker_names_keep_independent_deltas() {
    let previous = vec![task(10, "worker", 100), task(11, "worker", 200)];
    let current = vec![task(11, "worker", 400), task(10, "worker", 200)];

    let util = compute_per_worker_util(&previous, &current, 5 * SECOND, 100);
    assert_eq!(util.len(), 2);
    assert!((fraction(util[0].1) - 0.4).abs() < f64::EPSILON);
    assert!((fraction(util[1].1) - 0.2).abs() < f64::EPSILON);
}

/// A newly appeared worker does not spike from lifetime counters.
#[test]
fn new_worker_starts_without_a_lifetime_spike() {
    let previous = vec![task(10, "worker0", 100)];
    let current = vec![task(10, "worker0", 200), task(11, "worker1", 900_000)];

    let util = compute_per_worker_util(&previous, &current, 5 * SECOND, 100);
    assert_eq!(util.len(), 1);
    assert!((fraction(util[0].1) - 0.2).abs() < f64::EPSILON);
}

#[test]
fn worker_shares_are_exact_and_bounded() {
    let previous = vec![task(1, "w", 0), task(2, "x", 50), task(3, "y", 10)];
    let current = vec![task(1, "w", 1_000_000), task(2, "renamed", 60), task(3, "y", 9)];
    let util = compute_per_worker_util(&previous, &current, SECOND, 100);
    assert_eq!(util.len(), 1);
    assert_eq!(util[0].0, "w");
    let whole = 100_000_000_000u128;
    assert_eq!(util[0].1, Share { part: whole, whole });
}

#[test]
fn the_last_sample_of_a_task_counts() {
    let previous = vec![task(1, "w", 0), task(1, "w", 90)];
    let current = vec![task(1, "w", 100)];
    let util = compute_per_worker_util(&previous, &current, SECOND, 100);
    assert_eq!(util[0].1, Share { part: 10_000_000_000, whole: 100_000_000_000 });
}

fn stat(pid: i32, comm: &str, utime: u64, stime: u64) -> TaskReading {
    TaskReading::Read(TaskStat {
        pid,
        comm: comm.to_string(),
        utime,
        stime,
    })
}

#[test]
fn cpu_samples_collect_the_selected_tasks() {
    let filter = ThreadNameFilter::new("^worker", &vec!["worker9".to_string()]).unwrap();
    let readings = vec![
        stat(1, "main", 1000, 1000),
        stat(2, "worker0", 30, 12),
        TaskReading::NotListed("gone".to_string()),
        TaskReading::NotReadable("denied".to_string()),
        stat(3, "worker9", 5, 5),
        stat(4, "worker1", u64::MAX, 1),
    ];
    let sample = collect_cpu_sample(readings, &filter, 99).unwrap();
    assert_eq!(sample.thread_count, 2);
    assert_eq!(sample.sampled_at, 99);
    assert_eq!(sample.cpu_ticks, u64::MAX);
    assert_eq!(sample.per_worker.len(), 2);
    assert_eq!(sample.per_worker[0].tid, 2);
    assert_eq!(sample.per_worker[0].name, "worker0");
    assert_eq!(sample.per_worker[0].cpu_ticks, 42);
    assert_eq!(sample.per_worker[1].cpu_ticks, u64::MAX);
}

#[test]
fn without_a_selected_task_there_is_no_sample() {
    let filter = ThreadNameFilter::new("^worker", &Vec::new()).unwrap();
    let outcome = collect_cpu_sample(vec![stat(1, "main", 1, 1)], &filter, 0);
    match outcome {
        Err(error) => assert_eq!(error.to_string(), "no usable backend task CPU samples"),
        Ok(_) => panic!("expected an error"),
    }
    assert_eq!(CpuSampleError::Proc("no such process".to_string()).to_string(), "no such process");
}

fn perf(reads: u64, writes: u64, other: u64, bytes: u64) -> InstancePerfSample {
    InstancePerfSample {
        read_io_count: reads,
        write_io_count: writes,
        other_io_count: other,
        read_bytes_total: bytes,
        write_bytes_total: 2 * bytes,
        ..InstancePerfSample::default()
    }
}

#[test]
fn rates_follow_the_counters() {
    let mut status = InstanceStatus::default();
    status.update_perf_rates(&Some(perf(100, 200, 300, 4096)), 10 * SECOND);
    assert_eq!(status.read_iops, 0);
    assert_eq!(status.previous_perf_time, Some(10 * SECOND));
    status.update_perf_rates(&Some(perf(1100, 150, 301, 8192)), 12 * SECOND);
    assert_eq!(status.read_iops, 500);
    assert_eq!(status.write_iops, 0);
    assert_eq!(status.other_iops, 0);
    assert_eq!(status.read_bytes_per_second, 2048);
    assert_eq!(status.write_bytes_per_second, 4096);
    assert_eq!(status.previous_read_io_count, 1100);
    // No time has passed: the rates stay, the counters move on.
    status.update_perf_rates(&None, 12 * SECOND);
    assert_eq!(status.read_iops, 500);
    assert_eq!(status.previous_read_io_count, 0);
}

#[test]
fn totals_are_capped() {
    assert_eq!(perf(1, 2, 3, 0).total_io_count(), 6);
    assert_eq!(perf(u64::MAX, 2, 3, 0).total_io_count(), u64::MAX);
}

#[test]
fn new_instances_are_blank_but_scalable() {
    let instance = vm("vm");
    assert!(instance.status.scaling_allowed);
    assert!(!instance.status.scaling_allowed());
    assert!(!instance.status.alive);
    assert_eq!(instance.pid, 7);
    assert_eq!(instance.status.per_thread_util, Share { part: 0, whole: 1 });
    let filter = ThreadNameFilter::new("x", &Vec::new()).unwrap();
    let instance = instance.with_thread_name_filter(filter);
    assert!(!instance.thread_name_filter.matches("y"));
    assert_eq!(eligible_members(&vec![instance.member()]), vec![0]);
}

#[test]
fn readings_are_taken_when_they_are_due() {
    let mut status = InstanceStatus::default();
    assert_eq!(
        status.readings_due(&pool(1, None), false),
        ReadingsDue { cpu: true, cgroup: true, ownership: true }
    );
    status.ownership_classification = Some(false);
    status.cgroup = Some(cgroup(5));
    assert_eq!(
        status.readings_due(&pool(1, Some(0)), false),
        ReadingsDue { cpu: false, cgroup: false, ownership: false }
    );
    assert!(status.readings_due(&pool(1, None), true).cgroup);
}

fn cgroup(throttled: u64) -> CgroupSample {
    CgroupSample {
        quota: CpuQuota::Unlimited,
        nr_throttled: 1,
        throttled_usec: throttled,
    }
}

fn cpu_sample(at: u64, tasks: Vec<TaskCpuSample>) -> CpuSample {
    CpuSample {
        cpu_ticks: tasks.iter().map(|t| t.cpu_ticks).sum(),
        sampled_at: at,
        thread_count: tasks.len() as u32,
        per_worker: tasks,
    }
}

fn read(now: u64, cpu: CpuSample, throttled: u64) -> Readings {
    Readings {
        cpu: Some(cpu),
        cgroup: Some(cgroup(throttled)),
        managed: false,
        now,
        ticks_per_second: 100,
    }
}

#[test]
fn two_cpu_samples_give_the_utilisation() {
    let mut status = InstanceStatus::default();
    let first = cpu_sample(SECOND, vec![task(1, "b", 0), task(2, "a", 0)]);
    let applied = status.apply_thread_pool_snapshot(&pool(2, None), read(SECOND, first, 10), false);
    assert_eq!(
        applied.feed,
        RollingFeed::ProcfsDelta {
            now: SECOND,
            io_ops_total: 0,
            cpu_ticks: 0,
            ticks_per_second: 100,
        }
    );
    assert!(!applied.roster_changed);
    assert_eq!(status.ownership_classification, Some(false));
    assert!(status.per_worker_util.is_empty());

    let second = cpu_sample(3 * SECOND, vec![task(1, "b", 100), task(2, "a", 50)]);
    let applied =
        status.apply_thread_pool_snapshot(&pool(2, None), read(3 * SECOND, second, 25), true);
    assert!(applied.roster_changed);
    assert_eq!(status.last_worker_names, Some(vec!["a".to_string(), "b".to_string()]));
    assert_eq!(status.per_worker_util.len(), 2);
    assert!((fraction(status.per_worker_util[0]) - 0.5).abs() < 1e-12);
    assert!((fraction(status.per_thread_util) - 0.375).abs() < 1e-12);
    assert_eq!(status.throttled_usec_delta, 15);
    assert_eq!(status.cgroup.as_ref().map(|c| c.throttled_usec), Some(25));

    // A known cgroup sample stays unless a fresh one is asked for.
    let third = cpu_sample(4 * SECOND, vec![task(1, "b", 100), task(2, "a", 50)]);
    let applied =
        status.apply_thread_pool_snapshot(&pool(2, None), read(4 * SECOND, third, 99), false);
    assert!(!applied.roster_changed);
    assert_eq!(status.cgroup.as_ref().map(|c| c.throttled_usec), Some(25));
    assert_eq!(status.throttled_usec_delta, 0);
    assert_eq!(status.ownership_classification, Some(false));
}

#[test]
fn backend_utilisation_replaces_the_samples() {
    let mut status = InstanceStatus::default();
    let first = cpu_sample(SECOND, vec![task(1, "w", 0)]);
    status.apply_thread_pool_snapshot(&pool(1, None), read(SECOND, first, 0), false);
    let snapshot = ThreadPoolSnapshot {
        perf: Some(InstancePerfSample {
            read_latency_us: Some(LatencySummary { p50: 1, p95: 2, p99: 3, avg: 1 }),
            ..perf(1, 2, 3, 4)
        }),
        ..pool(4, Some(2 * UTIL_UNIT as i64))
    };
    let ignored = cpu_sample(2 * SECOND, vec![task(1, "w", 100)]);
    let applied =
        status.apply_thread_pool_snapshot(&snapshot, read(2 * SECOND, ignored, 0), false);
    let full = Share { part: UTIL_UNIT as u128, whole: UTIL_UNIT as u128 };
    assert_eq!(
        applied,
        Applied {
            roster_changed: false,
            feed: RollingFeed::BackendUtil {
                now: 2 * SECOND,
                io_ops_total: 6,
                per_thread_util: full,
                thread_count: 4,
            },
        }
    );
    assert_eq!(status.per_thread_util, full);
    assert!(status.last_cpu_sample.is_none());
    assert!(status.last_worker_names.is_none());
    assert_eq!(status.read_latency_us.map(|l| l.p99), Some(3));
    assert_eq!(status.write_latency_us, None);
    let mut status = InstanceStatus::default();
    let applied =
        status.apply_thread_pool_snapshot(&pool(4, Some(-5)), nothing_read(SECOND), false);
    assert_eq!(status.per_thread_util, Share { part: 0, whole: UTIL_UNIT as u128 });
    assert!(matches!(applied.feed, RollingFeed::BackendUtil { .. }));
}

#[test]
fn without_any_sample_nothing_is_fed() {
    let mut status = InstanceStatus::default();
    let applied = status.apply_thread_pool_snapshot(&pool(1, None), nothing_read(1), false);
    assert_eq!(applied.feed, RollingFeed::Nothing);
    assert_eq!(status.ownership_classification, Some(true));
    assert!(status.scaling_allowed());
}

#[test]
fn workers_can_vanish_from_the_utilisation() {
    let mut status = InstanceStatus::default();
    assert!(status.update_worker_utilisation(Vec::new()));
    assert_eq!(status.per_thread_util, Share { part: 0, whole: 1 });
    assert!(!status.update_worker_utilisation(Vec::new()));
}
