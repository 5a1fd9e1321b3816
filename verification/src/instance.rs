//! Backend-neutral data model for one VM and its backend-owned client.
//!
//! [`Instance`] is a record, not a backend abstraction: it holds identity,
//! current state, and one client that controls exactly that VM. Times are
//! nanoseconds on a monotonic clock.
use vstd::prelude::*;
use vstd::string::*;

use crate::backends::BackendClientError;
use crate::cgroup::CgroupSample;
use crate::cpu::{
    capped_sum, compute_per_worker_util, lemma_at_most_one_share_per_task, lemma_wall_fits,
    no_share, share_models, task_models, worker_shares, worker_shares_are_fractions, CpuSample,
    Share, NANOS_PER_SECOND,
};
use crate::engines::FleetMember;
use crate::order::{sorted_texts, sorts};
use crate::sums::{at_most, sum, sums_grow_by_what_is_appended};
use crate::text::{same_texts, texts, trim, trimmed};
use crate::thread_filter::ThreadNameFilter;
use crate::util::Path;

verus! {

/// Backend utilisation is given in units of this fraction of one thread.
pub const UTIL_UNIT: u64 = 9_007_199_254_740_992;

/// Backend-neutral latency histogram digest in microseconds.
#[derive(Debug, Clone, Copy, PartialEq, Eq, Structural)]
pub struct LatencySummary {
    /// Median latency.
    pub p50: u64,
    /// 95th-percentile latency.
    pub p95: u64,
    /// 99th-percentile latency.
    pub p99: u64,
    /// Histogram-derived arithmetic mean.
    pub avg: u64,
}

impl Default for LatencySummary {
    fn default() -> (r: Self)
        ensures
            r == (LatencySummary { p50: 0, p95: 0, p99: 0, avg: 0 }),
    {
        LatencySummary { p50: 0, p95: 0, p99: 0, avg: 0 }
    }
}

/// Backend-neutral performance counters from one snapshot.
#[derive(Debug, Clone, Copy)]
pub struct InstancePerfSample {
    /// Cumulative completed reads.
    pub read_io_count: u64,
    /// Cumulative completed writes.
    pub write_io_count: u64,
    /// Cumulative completed non-read/write operations.
    pub other_io_count: u64,
    /// Cumulative bytes read.
    pub read_bytes_total: u64,
    /// Cumulative bytes written.
    pub write_bytes_total: u64,
    /// Cumulative sequential-read operations.
    pub read_seq_ops: u64,
    /// Cumulative random-read operations.
    pub read_rand_ops: u64,
    /// Cumulative sequential-write operations.
    pub write_seq_ops: u64,
    /// Cumulative random-write operations.
    pub write_rand_ops: u64,
    /// Cumulative operations smaller than the backend's small-I/O cutoff.
    pub small_ops: u64,
    /// Cumulative operations at least as large as the backend's cutoff.
    pub large_ops: u64,
    /// Read-latency digest, when the backend has read samples.
    pub read_latency_us: Option<LatencySummary>,
    /// Write-latency digest, when the backend has write samples.
    pub write_latency_us: Option<LatencySummary>,
}

/// The counters before any I/O.
pub open spec fn no_io() -> InstancePerfSample {
    InstancePerfSample {
        read_io_count: 0,
        write_io_count: 0,
        other_io_count: 0,
        read_bytes_total: 0,
        write_bytes_total: 0,
        read_seq_ops: 0,
        read_rand_ops: 0,
        write_seq_ops: 0,
        write_rand_ops: 0,
        small_ops: 0,
        large_ops: 0,
        read_latency_us: None,
        write_latency_us: None,
    }
}

impl Default for InstancePerfSample {
    fn default() -> (r: Self)
        ensures
            r == no_io(),
    {
        InstancePerfSample {
            read_io_count: 0,
            write_io_count: 0,
            other_io_count: 0,
            read_bytes_total: 0,
            write_bytes_total: 0,
            read_seq_ops: 0,
            read_rand_ops: 0,
            write_seq_ops: 0,
            write_rand_ops: 0,
            small_ops: 0,
            large_ops: 0,
            read_latency_us: None,
            write_latency_us: None,
        }
    }
}

impl InstancePerfSample {
    /// All completed operations, capped at the largest counter value.
    pub open spec fn io_total(&self) -> u64 {
        capped_sum(capped_sum(self.read_io_count, self.write_io_count), self.other_io_count)
    }

    /// All completed operations, capped at the largest counter value.
    pub fn total_io_count(&self) -> (r: u64)
        ensures
            r == self.io_total(),
            r as int == if self.read_io_count + self.write_io_count + self.other_io_count
                <= u64::MAX {
                self.read_io_count + self.write_io_count + self.other_io_count
            } else {
                u64::MAX as int
            },
    {
        self.read_io_count.saturating_add(self.write_io_count).saturating_add(self.other_io_count)
    }
}

/// One backend snapshot consumed by the controller and engine.
#[derive(Debug, Clone, Copy)]
pub struct ThreadPoolSnapshot {
    /// Number of active I/O workers.
    pub thread_count: u32,
    /// Current backend-reported vCPU count.
    pub vcpu_count: u32,
    /// Performance counters captured with the current worker count.
    pub perf: Option<InstancePerfSample>,
    /// Backend-computed per-thread CPU utilisation, in [`UTIL_UNIT`]ths.
    ///
    /// `None` asks the controller to sample the backend process through
    /// `/proc` using [`Instance::thread_name_filter`].
    pub per_thread_util: Option<i64>,
}

/// Most recent mutable state for one VM.
#[derive(Debug, Clone)]
pub struct InstanceStatus {
    /// Current backend worker count.
    pub thread_count: u32,
    /// Current backend-reported vCPU count.
    pub vcpu_count: u32,
    /// Whether the last refresh succeeded.
    pub alive: bool,
    /// Whether backend ownership policy permits automatic scaling.
    pub scaling_allowed: bool,
    /// Persisted ownership classification, or `None` before the first usable
    /// snapshot of a previously unknown VM.
    pub ownership_classification: Option<bool>,
    /// Earliest time at which another ordinary scale action may be applied.
    pub cooldown_until: Option<u64>,
    /// Process-local debug override suppressing automatic scaling.
    ///
    /// The override is deliberately cleared when the daemon restarts.
    pub manual_scaling_sticky: bool,
    /// Latest backend performance counters, [`None`] if the backend didn't
    /// provide any.
    pub perf: Option<InstancePerfSample>,
    /// Latest average CPU utilisation per backend task.
    pub per_thread_util: Share,
    /// Previous cumulative CPU sample used to compute a delta.
    pub last_cpu_sample: Option<CpuSample>,
    /// Latest comparable utilisation fraction for each sampled worker.
    pub per_worker_util: Vec<Share>,
    /// Sorted names from the latest worker sample, for roster-change logging.
    pub last_worker_names: Option<Vec<String>>,
    /// Latest cgroup v2 CPU quota and throttle counters.
    pub cgroup: Option<CgroupSample>,
    /// Increase in throttled CPU time since the preceding cgroup sample.
    pub throttled_usec_delta: u64,
    /// Time of the previous backend performance snapshot.
    pub previous_perf_time: Option<u64>,
    /// Previous cumulative read count.
    pub previous_read_io_count: u64,
    /// Previous cumulative write count.
    pub previous_write_io_count: u64,
    /// Previous cumulative other-operation count.
    pub previous_other_io_count: u64,
    /// Previous cumulative read-byte count.
    pub previous_read_bytes_total: u64,
    /// Previous cumulative write-byte count.
    pub previous_write_bytes_total: u64,
    /// Latest read rate in operations per second.
    pub read_iops: u64,
    /// Latest write rate in operations per second.
    pub write_iops: u64,
    /// Latest other-operation rate per second.
    pub other_iops: u64,
    /// Latest read-latency histogram digest.
    pub read_latency_us: Option<LatencySummary>,
    /// Latest write-latency histogram digest.
    pub write_latency_us: Option<LatencySummary>,
    /// Latest read bandwidth in bytes per second.
    pub read_bytes_per_second: u64,
    /// Latest write bandwidth in bytes per second.
    pub write_bytes_per_second: u64,
}

impl Default for InstanceStatus {
    fn default() -> (r: Self)
        ensures
            r.is_blank(false),
            r.wf(),
    {
        InstanceStatus {
            thread_count: 0,
            vcpu_count: 0,
            alive: false,
            scaling_allowed: false,
            ownership_classification: None,
            cooldown_until: None,
            manual_scaling_sticky: false,
            perf: None,
            per_thread_util: Share { part: 0, whole: 1 },
            last_cpu_sample: None,
            per_worker_util: Vec::new(),
            last_worker_names: None,
            cgroup: None,
            throttled_usec_delta: 0,
            previous_perf_time: None,
            previous_read_io_count: 0,
            previous_write_io_count: 0,
            previous_other_io_count: 0,
            previous_read_bytes_total: 0,
            previous_write_bytes_total: 0,
            read_iops: 0,
            write_iops: 0,
            other_iops: 0,
            read_latency_us: None,
            write_latency_us: None,
            read_bytes_per_second: 0,
            write_bytes_per_second: 0,
        }
    }
}

/// The growth of a counter over the elapsed time, per second, in 64 bits. A
/// counter that went back has not grown.
pub open spec fn rate(current: u64, previous: u64, elapsed_ns: u64) -> u64 {
    let delta = if previous <= current {
        (current - previous) as nat
    } else {
        0
    };
    ((delta * NANOS_PER_SECOND) as nat / elapsed_ns as nat % 0x1_0000_0000_0000_0000) as u64
}

/// Compute [`rate`].
fn rate_per_second(current: u64, previous: u64, elapsed_ns: u64) -> (r: u64)
    requires
        0 < elapsed_ns,
    ensures
        r == rate(current, previous, elapsed_ns),
{
    let delta: u64 = current.saturating_sub(previous);
    let scaled: u128 = delta as u128 * NANOS_PER_SECOND as u128;
    let whole: u128 = scaled / elapsed_ns as u128;
    assert(whole as u64 == whole % 0x1_0000_0000_0000_0000) by (bit_vector);
    #[verifier::truncate] (whole as u64)
}

/// The counters of a snapshot; none count as no I/O.
pub open spec fn counters(perf: Option<InstancePerfSample>) -> InstancePerfSample {
    match perf {
        Some(sample) => sample,
        None => no_io(),
    }
}

/// The time between two snapshots, if the later one is indeed later.
pub open spec fn elapsed_since(previous: Option<u64>, now: u64) -> Option<u64> {
    match previous {
        Some(then) => if then < now {
            Some((now - then) as u64)
        } else {
            None
        },
        None => None,
    }
}

impl InstanceStatus {
    /// The utilisation is a fraction and the previous CPU sample is consistent.
    pub open spec fn wf(&self) -> bool {
        &&& self.per_thread_util.wf()
        &&& forall|i: int|
            0 <= i < self.per_worker_util@.len() ==> (#[trigger] self.per_worker_util@[i]).wf()
        &&& self.last_cpu_sample matches Some(sample) ==> sample.wf()
    }

    /// Nothing is known yet, but whether the ownership policy permits scaling.
    pub open spec fn is_blank(&self, scaling_allowed: bool) -> bool {
        &&& *self == (InstanceStatus {
            per_worker_util: self.per_worker_util,
            thread_count: 0,
            vcpu_count: 0,
            alive: false,
            scaling_allowed: scaling_allowed,
            ownership_classification: None,
            cooldown_until: None,
            manual_scaling_sticky: false,
            perf: None,
            per_thread_util: no_share(),
            last_cpu_sample: None,
            last_worker_names: None,
            cgroup: None,
            throttled_usec_delta: 0,
            previous_perf_time: None,
            previous_read_io_count: 0,
            previous_write_io_count: 0,
            previous_other_io_count: 0,
            previous_read_bytes_total: 0,
            previous_write_bytes_total: 0,
            read_iops: 0,
            write_iops: 0,
            other_iops: 0,
            read_latency_us: None,
            write_latency_us: None,
            read_bytes_per_second: 0,
            write_bytes_per_second: 0,
        })
        &&& self.per_worker_util@.len() == 0
    }

    /// Whether the recorded classification lets automatic scaling act.
    pub fn scaling_allowed(&self) -> (r: bool)
        ensures
            r == (self.ownership_classification == Some(true)),
    {
        match self.ownership_classification {
            Some(managed) => managed,
            None => false,
        }
    }

    /// The status after taking up the counters of a snapshot: the rates since the
    /// previous snapshot, where time has passed, and the new counters.
    pub open spec fn with_perf_rates(
        self,
        perf: Option<InstancePerfSample>,
        now: u64,
    ) -> InstanceStatus {
        let sample = counters(perf);
        let timed = match elapsed_since(self.previous_perf_time, now) {
            Some(elapsed) => InstanceStatus {
                read_iops: rate(sample.read_io_count, self.previous_read_io_count, elapsed),
                write_iops: rate(sample.write_io_count, self.previous_write_io_count, elapsed),
                other_iops: rate(sample.other_io_count, self.previous_other_io_count, elapsed),
                read_bytes_per_second: rate(
                    sample.read_bytes_total,
                    self.previous_read_bytes_total,
                    elapsed,
                ),
                write_bytes_per_second: rate(
                    sample.write_bytes_total,
                    self.previous_write_bytes_total,
                    elapsed,
                ),
                ..self
            },
            None => self,
        };
        InstanceStatus {
            previous_perf_time: Some(now),
            previous_read_io_count: sample.read_io_count,
            previous_write_io_count: sample.write_io_count,
            previous_other_io_count: sample.other_io_count,
            previous_read_bytes_total: sample.read_bytes_total,
            previous_write_bytes_total: sample.write_bytes_total,
            ..timed
        }
    }

    /// Refresh per-tick rates from cumulative backend counters.
    pub fn update_perf_rates(&mut self, perf: &Option<InstancePerfSample>, now: u64)
        ensures
            *final(self) == old(self).with_perf_rates(*perf, now),
    {
        let sample: InstancePerfSample = match perf {
            Some(sample) => *sample,
            None => InstancePerfSample::default(),
        };
        if let Some(previous_time) = self.previous_perf_time {
            if previous_time < now {
                let elapsed: u64 = now - previous_time;
                self.read_iops =
                rate_per_second(sample.read_io_count, self.previous_read_io_count, elapsed);
                self.write_iops =
                rate_per_second(sample.write_io_count, self.previous_write_io_count, elapsed);
                self.other_iops =
                rate_per_second(sample.other_io_count, self.previous_other_io_count, elapsed);
                self.read_bytes_per_second =
                rate_per_second(sample.read_bytes_total, self.previous_read_bytes_total, elapsed);
                self.write_bytes_per_second =
                rate_per_second(
                    sample.write_bytes_total,
                    self.previous_write_bytes_total,
                    elapsed,
                );
            }
        }
        self.previous_perf_time = Some(now);
        self.previous_read_io_count = sample.read_io_count;
        self.previous_write_io_count = sample.write_io_count;
        self.previous_other_io_count = sample.other_io_count;
        self.previous_read_bytes_total = sample.read_bytes_total;
        self.previous_write_bytes_total = sample.write_bytes_total;
    }

    /// Store one set of per-worker utilisation samples. Returns whether the names
    /// of the workers changed.
    pub fn update_worker_utilisation(&mut self, worker_util: Vec<(String, Share)>) -> (changed:
        bool)
        requires
            comparable(worker_util@),
        ensures
            *final(self) == (InstanceStatus {
                per_thread_util: mean_share(shares(worker_util@)),
                per_worker_util: final(self).per_worker_util,
                last_worker_names: final(self).last_worker_names,
                ..*old(self)
            }),
            final(self).per_worker_util@ == shares(worker_util@),
            final(self).last_worker_names matches Some(names) && sorts(
                worker_names(worker_util@),
                texts(names@),
            ) && changed == !(old(self).last_worker_names matches Some(before) && texts(before@)
                == texts(names@)),
    {
        let mut names: Vec<String> = Vec::new();
        let mut utils: Vec<Share> = Vec::new();
        let mut sum: u128 = 0;
        let n: usize = worker_util.len();
        let mut i: usize = 0;
        let ghost all = shares(worker_util@);
        assert(texts(names@) == worker_names(worker_util@.take(0)));
        while i < n
            invariant
                i <= n,
                n == worker_util@.len(),
                comparable(worker_util@),
                all == shares(worker_util@),
                utils@ == all.take(i as int),
                texts(names@) == worker_names(worker_util@.take(i as int)),
                sum == sum_parts(all.take(i as int)),
                n > 0 ==> sum <= i * all[0].whole,
            decreases n - i,
        {
            let ghost named = names@;
            proof {
                assert(all[i as int] == worker_util@[i as int].1);
                assert(all[0] == worker_util@[0].1);
                assert(all.take(i + 1).drop_last() == all.take(i as int));
                assert(all.take(i + 1) == all.take(i as int).push(all[i as int]));
                assert(worker_util@.take(i + 1) == worker_util@.take(i as int).push(
                    worker_util@[i as int],
                ));
                assert((i + 1) * all[0].whole == i * all[0].whole + all[0].whole)
                    by (nonlinear_arith);
                lemma_fits(i + 1, all[0].whole);
            }
            names.push(worker_util[i].0.clone());
            let share: Share = worker_util[i].1;
            utils.push(share);
            sum = sum + share.part;
            i += 1;
            assert(texts(names@) == texts(named).push(worker_util@[i - 1].0@));
            assert(worker_names(worker_util@.take(i as int)) == worker_names(
                worker_util@.take(i - 1),
            ).push(worker_util@[i - 1].0@));
        }
        assert(all.take(n as int) == all);
        assert(worker_util@.take(n as int) == worker_util@);
        self.per_thread_util =
        if n == 0 {
            Share { part: 0, whole: 1 }
        } else {
            proof {
                assert(all[0] == worker_util@[0].1);
                lemma_fits(n as int, all[0].whole);
            }
            Share { part: sum, whole: n as u128 * utils[0].whole }
        };
        self.per_worker_util = utils;
        let sorted = sorted_texts(&names);
        let changed: bool = match &self.last_worker_names {
            Some(before) => !same_texts(before, &sorted),
            None => true,
        };
        if changed {
            self.last_worker_names = Some(sorted);
        }
        changed
    }
}

/// Which readings a snapshot calls for.
#[derive(Debug, Clone, Copy, PartialEq, Eq, Structural)]
pub struct ReadingsDue {
    /// Sample the CPU counters of the backend tasks.
    pub cpu: bool,
    /// Read the cgroup counters.
    pub cgroup: bool,
    /// Ask the client whether automatic scaling owns the pool.
    pub ownership: bool,
}

/// What was read from the host for one snapshot.
#[derive(Debug)]
pub struct Readings {
    /// CPU counters, if they could be sampled.
    pub cpu: Option<CpuSample>,
    /// Cgroup counters, if they could be read.
    pub cgroup: Option<CgroupSample>,
    /// Whether the client regards the pool as managed.
    pub managed: bool,
    /// The time after these readings.
    pub now: u64,
    /// Scheduler ticks per second.
    pub ticks_per_second: u32,
}

impl Readings {
    /// There are ticks, and the CPU sample is consistent.
    pub open spec fn wf(&self) -> bool {
        &&& 0 < self.ticks_per_second
        &&& self.cpu matches Some(sample) ==> sample.wf()
    }
}

/// What a snapshot adds to the rolling I/O and CPU history.
#[derive(Debug, Clone, Copy, PartialEq, Eq, Structural)]
pub enum RollingFeed {
    /// Nothing.
    Nothing,
    /// A utilisation reported by the backend.
    BackendUtil {
        /// Time of the snapshot.
        now: u64,
        /// All completed operations.
        io_ops_total: u64,
        /// Utilisation of one thread.
        per_thread_util: Share,
        /// Number of threads.
        thread_count: u32,
    },
    /// Cumulative ticks of the backend tasks.
    ProcfsDelta {
        /// Time of the snapshot.
        now: u64,
        /// All completed operations.
        io_ops_total: u64,
        /// Ticks of all sampled tasks.
        cpu_ticks: u64,
        /// Scheduler ticks per second.
        ticks_per_second: u32,
    },
}

/// What applying a snapshot gives besides the new status.
#[derive(Debug, Clone, Copy, PartialEq, Eq, Structural)]
pub struct Applied {
    /// Whether the names of the sampled workers changed.
    pub roster_changed: bool,
    /// The addition to the rolling history.
    pub feed: RollingFeed,
}

/// The outcome of refreshing one VM.
#[derive(Debug)]
pub enum Refreshed {
    /// The snapshot was applied.
    Usable(Applied),
    /// The client failed: it is to be closed and the VM to be dropped.
    Broken(BackendClientError),
}

/// A backend utilisation as a fraction, clamped to what one thread can do.
pub open spec fn backend_share(util: i64) -> Share {
    Share {
        part: (if util < 0 {
            0
        } else if util > UTIL_UNIT {
            UTIL_UNIT as int
        } else {
            util as int
        }) as u128,
        whole: UTIL_UNIT as u128,
    }
}

/// Compute [`backend_share`].
fn clamp_backend_util(util: i64) -> (r: Share)
    ensures
        r == backend_share(util),
        r.wf(),
{
    let unit: u128 = UTIL_UNIT as u128;
    if util < 0 {
        Share { part: 0, whole: unit }
    } else if util as u128 > unit {
        Share { part: unit, whole: unit }
    } else {
        Share { part: util as u128, whole: unit }
    }
}

/// The time between two CPU samples that can be compared.
pub open spec fn sampling_interval(
    previous: Option<CpuSample>,
    current: Option<CpuSample>,
) -> Option<u64> {
    match (previous, current) {
        (Some(then), Some(now)) => elapsed_since(Some(then.sampled_at), now.sampled_at),
        _ => None,
    }
}

/// The completed operations of a snapshot; none if it has no counters.
pub open spec fn io_ops(perf: Option<InstancePerfSample>) -> u64 {
    match perf {
        Some(sample) => sample.io_total(),
        None => 0,
    }
}

/// The read-latency digest of a snapshot.
pub open spec fn read_latency(perf: Option<InstancePerfSample>) -> Option<LatencySummary> {
    match perf {
        Some(sample) => sample.read_latency_us,
        None => None,
    }
}

/// The write-latency digest of a snapshot.
pub open spec fn write_latency(perf: Option<InstancePerfSample>) -> Option<LatencySummary> {
    match perf {
        Some(sample) => sample.write_latency_us,
        None => None,
    }
}

/// The cgroup counters that hold after a refresh: fresh ones where they are due,
/// else the ones before.
pub open spec fn cgroup_after(
    before: Option<CgroupSample>,
    read: Option<CgroupSample>,
    refresh_cgroup: bool,
) -> Option<CgroupSample> {
    if refresh_cgroup || before is None {
        read
    } else {
        before
    }
}

/// The increase in throttled time between two cgroup samples.
pub open spec fn throttled_increase(
    before: Option<CgroupSample>,
    after: Option<CgroupSample>,
) -> u64 {
    match (before, after) {
        (Some(then), Some(now)) => if then.throttled_usec <= now.throttled_usec {
            (now.throttled_usec - then.throttled_usec) as u64
        } else {
            0
        },
        _ => 0,
    }
}

/// The addition to the rolling history that a snapshot makes.
pub open spec fn feed_of(snapshot: ThreadPoolSnapshot, readings: Readings) -> RollingFeed {
    match (snapshot.per_thread_util, readings.cpu) {
        (Some(util), _) => RollingFeed::BackendUtil {
            now: readings.now,
            io_ops_total: io_ops(snapshot.perf),
            per_thread_util: backend_share(util),
            thread_count: snapshot.thread_count,
        },
        (None, Some(sample)) => RollingFeed::ProcfsDelta {
            now: readings.now,
            io_ops_total: io_ops(snapshot.perf),
            cpu_ticks: sample.cpu_ticks,
            ticks_per_second: readings.ticks_per_second,
        },
        (None, None) => RollingFeed::Nothing,
    }
}

/// How the utilisation fields follow from a snapshot. A backend utilisation
/// replaces them; otherwise two comparable CPU samples give the utilisation of
/// each worker; otherwise they stay.
pub open spec fn utilisation_follows(
    before: InstanceStatus,
    snapshot: ThreadPoolSnapshot,
    readings: Readings,
    after: InstanceStatus,
    roster_changed: bool,
) -> bool {
    match (snapshot.per_thread_util, sampling_interval(before.last_cpu_sample, readings.cpu)) {
        (Some(util), _) => {
            &&& after.per_thread_util == backend_share(util)
            &&& after.per_worker_util@.len() == 0
            &&& after.last_worker_names is None
            &&& !roster_changed
        },
        (None, Some(elapsed)) => {
            let workers = worker_shares(
                task_models(before.last_cpu_sample->0.per_worker@),
                task_models(readings.cpu->0.per_worker@),
                (elapsed * readings.ticks_per_second) as nat,
            );
            let utils = workers.map_values(|worker: (Seq<char>, Share)| worker.1);
            let names = workers.map_values(|worker: (Seq<char>, Share)| worker.0);
            &&& after.per_worker_util@ == utils
            &&& after.per_thread_util == mean_share(utils)
            &&& after.last_worker_names matches Some(sorted) && sorts(names, texts(sorted@))
                && roster_changed == !(before.last_worker_names matches Some(listed) && texts(
                listed@,
            ) == texts(sorted@))
        },
        (None, None) => {
            &&& after.per_thread_util == before.per_thread_util
            &&& after.per_worker_util == before.per_worker_util
            &&& after.last_worker_names == before.last_worker_names
            &&& !roster_changed
        },
    }
}

impl InstanceStatus {
    /// Which readings to take before a snapshot is applied.
    pub fn readings_due(&self, snapshot: &ThreadPoolSnapshot, refresh_cgroup: bool) -> (r:
        ReadingsDue)
        ensures
            r == (ReadingsDue {
                cpu: snapshot.per_thread_util is None,
                cgroup: refresh_cgroup || self.cgroup is None,
                ownership: self.ownership_classification is None,
            }),
    {
        ReadingsDue {
            cpu: snapshot.per_thread_util.is_none(),
            cgroup: refresh_cgroup || self.cgroup.is_none(),
            ownership: self.ownership_classification.is_none(),
        }
    }

    /// The status after a snapshot, but for the utilisation fields, which are
    /// taken from `after`.
    pub open spec fn with_snapshot(
        self,
        snapshot: ThreadPoolSnapshot,
        readings: Readings,
        refresh_cgroup: bool,
        after: InstanceStatus,
    ) -> InstanceStatus {
        let cgroup = cgroup_after(self.cgroup, readings.cgroup, refresh_cgroup);
        InstanceStatus {
            ownership_classification: match self.ownership_classification {
                Some(known) => Some(known),
                None => Some(readings.managed),
            },
            thread_count: snapshot.thread_count,
            vcpu_count: snapshot.vcpu_count,
            perf: snapshot.perf,
            read_latency_us: read_latency(snapshot.perf),
            write_latency_us: write_latency(snapshot.perf),
            alive: true,
            last_cpu_sample: if snapshot.per_thread_util is None {
                readings.cpu
            } else {
                None
            },
            throttled_usec_delta: throttled_increase(self.cgroup, cgroup),
            cgroup: cgroup,
            per_thread_util: after.per_thread_util,
            per_worker_util: after.per_worker_util,
            last_worker_names: after.last_worker_names,
            ..self.with_perf_rates(snapshot.perf, readings.now)
        }
    }

    /// Apply one successful thread-pool snapshot.
    pub fn apply_thread_pool_snapshot(
        &mut self,
        snapshot: &ThreadPoolSnapshot,
        readings: Readings,
        refresh_cgroup: bool,
    ) -> (r: Applied)
        requires
            old(self).wf(),
            readings.wf(),
        ensures
            final(self).wf(),
            *final(self) == old(self).with_snapshot(
                *snapshot,
                readings,
                refresh_cgroup,
                *final(self),
            ),
            utilisation_follows(*old(self), *snapshot, readings, *final(self), r.roster_changed),
            r.feed == feed_of(*snapshot, readings),
    {
        let due = self.readings_due(snapshot, refresh_cgroup);
        if due.ownership {
            self.ownership_classification = Some(readings.managed);
        }
        self.update_perf_rates(&snapshot.perf, readings.now);
        self.thread_count = snapshot.thread_count;
        self.vcpu_count = snapshot.vcpu_count;
        self.perf = snapshot.perf;
        self.read_latency_us =
        match snapshot.perf {
            Some(perf) => perf.read_latency_us,
            None => None,
        };
        self.write_latency_us =
        match snapshot.perf {
            Some(perf) => perf.write_latency_us,
            None => None,
        };
        self.alive = true;
        let io_ops_total: u64 = match snapshot.perf {
            Some(perf) => perf.total_io_count(),
            None => 0,
        };
        let mut roster_changed: bool = false;
        let mut feed: RollingFeed = RollingFeed::Nothing;
        if let Some(util) = snapshot.per_thread_util {
            let share: Share = clamp_backend_util(util);
            self.per_worker_util.clear();
            self.last_worker_names = None;
            self.per_thread_util = share;
            feed =
            RollingFeed::BackendUtil {
                now: readings.now,
                io_ops_total,
                per_thread_util: share,
                thread_count: snapshot.thread_count,
            };
        } else if let Some(current) = &readings.cpu {
            let mut workers: Option<Vec<(String, Share)>> = None;
            if let Some(previous) = &self.last_cpu_sample {
                if previous.sampled_at < current.sampled_at {
                    let elapsed: u64 = current.sampled_at - previous.sampled_at;
                    workers =
                    Some(
                        compute_per_worker_util(
                            &previous.per_worker,
                            &current.per_worker,
                            elapsed,
                            readings.ticks_per_second,
                        ),
                    );
                }
            }
            if let Some(worker_util) = workers {
                proof {
                    let then = task_models(self.last_cpu_sample->0.per_worker@);
                    let now = task_models(current.per_worker@);
                    let elapsed = (current.sampled_at - self.last_cpu_sample->0.sampled_at) as u64;
                    lemma_models_of_shares(worker_util@);
                    lemma_shares_comparable(
                        then,
                        now,
                        elapsed,
                        readings.ticks_per_second,
                        worker_util@,
                    );
                }
                roster_changed = self.update_worker_utilisation(worker_util);
                proof {
                    lemma_mean_wf(worker_util@);
                }
            }
            feed =
            RollingFeed::ProcfsDelta {
                now: readings.now,
                io_ops_total,
                cpu_ticks: current.cpu_ticks,
                ticks_per_second: readings.ticks_per_second,
            };
        }
        self.last_cpu_sample =
        if due.cpu {
            readings.cpu
        } else {
            None
        };
        if due.cgroup {
            self.throttled_usec_delta =
            match (&self.cgroup, &readings.cgroup) {
                (Some(previous), Some(current)) => current.throttled_usec.saturating_sub(
                    previous.throttled_usec,
                ),
                _ => 0,
            };
            self.cgroup = readings.cgroup;
        } else {
            self.throttled_usec_delta = 0;
        }
        Applied { roster_changed, feed }
    }
}

/// The names and shares of a utilisation list are those of its model.
proof fn lemma_models_of_shares(workers: Seq<(String, Share)>)
    ensures
        shares(workers) == share_models(workers).map_values(
            |worker: (Seq<char>, Share)| worker.1,
        ),
        worker_names(workers) == share_models(workers).map_values(
            |worker: (Seq<char>, Share)| worker.0,
        ),
{
}

/// The shares of one comparison can be averaged.
proof fn lemma_shares_comparable(
    previous: Seq<crate::cpu::TaskModel>,
    current: Seq<crate::cpu::TaskModel>,
    elapsed_ns: u64,
    ticks_per_second: u32,
    workers: Seq<(String, Share)>,
)
    requires
        0 < elapsed_ns,
        0 < ticks_per_second,
        current.len() <= u32::MAX,
        share_models(workers) == worker_shares(
            previous,
            current,
            (elapsed_ns * ticks_per_second) as nat,
        ),
    ensures
        comparable(workers),
{
    lemma_wall_fits(elapsed_ns, ticks_per_second);
    lemma_at_most_one_share_per_task(
        previous,
        current,
        (elapsed_ns * ticks_per_second) as nat,
    );
    assert(share_models(workers).len() == workers.len());
    assert forall|i: int| 0 <= i < workers.len() implies {
        &&& (#[trigger] workers[i]).1.wf()
        &&& workers[i].1.whole == workers[0].1.whole
        &&& workers[i].1.whole < 0x1_0000_0000_0000_0000_0000_0000
    } by {
        assert(share_models(workers)[i].1 == workers[i].1);
        assert(share_models(workers)[0].1 == workers[0].1);
        worker_shares_are_fractions(previous, current, elapsed_ns, ticks_per_second, i);
        worker_shares_are_fractions(previous, current, elapsed_ns, ticks_per_second, 0);
    }
}

/// The mean of fractions of the same whole is such a fraction.
proof fn lemma_mean_wf(workers: Seq<(String, Share)>)
    requires
        comparable(workers),
    ensures
        mean_share(shares(workers)).wf(),
        forall|i: int| 0 <= i < workers.len() ==> (#[trigger] shares(workers)[i]).wf(),
{
    let all = shares(workers);
    assert forall|i: int| 0 <= i < workers.len() implies (#[trigger] all[i]).wf() by {
        assert(all[i] == workers[i].1);
    }
    if all.len() > 0 {
        let whole = workers[0].1.whole;
        assert(all[0] == workers[0].1);
        assert forall|i: int| 0 <= i < all.len() implies (#[trigger] all[i]).part <= whole by {
            assert(all[i] == workers[i].1);
        }
        lemma_sum_bounded(all, whole);
        lemma_fits(all.len() as int, whole);
        assert(0 < all.len() * whole) by (nonlinear_arith)
            requires
                0 < all.len(),
                0 < whole,
        ;
    }
}

proof fn lemma_sum_bounded(all: Seq<Share>, whole: u128)
    requires
        forall|i: int| 0 <= i < all.len() ==> (#[trigger] all[i]).part <= whole,
    ensures
        sum_parts(all) <= all.len() * whole,
    decreases all.len(),
{
    if all.len() > 0 {
        let rest = all.drop_last();
        assert forall|i: int| 0 <= i < rest.len() implies (#[trigger] rest[i]).part <= whole by {
            assert(rest[i] == all[i]);
        }
        lemma_sum_bounded(rest, whole);
        assert(all.last() == all[all.len() - 1]);
        assert(all.len() * whole == rest.len() * whole + whole) by (nonlinear_arith)
            requires
                all.len() == rest.len() + 1,
        ;
    }
}

/// What refreshing one VM leaves: the snapshot is applied, or the VM is marked broken
/// and the client's error handed on.
pub open spec fn refreshed(
    before: InstanceStatus,
    reply: Result<ThreadPoolSnapshot, BackendClientError>,
    readings: Readings,
    refresh_cgroup: bool,
    after: InstanceStatus,
    r: Refreshed,
) -> bool {
    match reply {
        Ok(snapshot) => {
            &&& r matches Refreshed::Usable(applied)
            &&& after == before.with_snapshot(
                snapshot,
                readings,
                refresh_cgroup,
                after,
            )
            &&& utilisation_follows(
                before,
                snapshot,
                readings,
                after,
                applied.roster_changed,
            )
            &&& applied.feed == feed_of(snapshot, readings)
        },
        Err(error) => {
            &&& r matches Refreshed::Broken(why) && why == error
            &&& after == (InstanceStatus {
                alive: false,
                ..before
            })
        },
    }
}

/// The shares of a utilisation list.
pub open spec fn shares(workers: Seq<(String, Share)>) -> Seq<Share> {
    workers.map_values(|worker: (String, Share)| worker.1)
}

/// The names of a utilisation list.
pub open spec fn worker_names(workers: Seq<(String, Share)>) -> Seq<Seq<char>> {
    workers.map_values(|worker: (String, Share)| worker.0@)
}

/// The shares are fractions of the same whole, and their sum fits.
pub open spec fn comparable(workers: Seq<(String, Share)>) -> bool {
    &&& workers.len() <= u32::MAX
    &&& forall|i: int|
        0 <= i < workers.len() ==> {
            &&& (#[trigger] workers[i]).1.wf()
            &&& workers[i].1.whole == workers[0].1.whole
            &&& workers[i].1.whole < 0x1_0000_0000_0000_0000_0000_0000
        }
}

/// The sum of the numerators.
pub open spec fn sum_parts(all: Seq<Share>) -> nat
    decreases all.len(),
{
    if all.len() == 0 {
        0
    } else {
        sum_parts(all.drop_last()) + all.last().part as nat
    }
}

/// The mean of fractions of the same whole; nothing if there are none.
pub open spec fn mean_share(all: Seq<Share>) -> Share {
    if all.len() == 0 {
        no_share()
    } else {
        Share { part: sum_parts(all) as u128, whole: (all.len() * all[0].whole) as u128 }
    }
}

proof fn lemma_fits(n: int, whole: u128)
    requires
        0 <= n <= 0xffff_ffff,
        whole < 0x1_0000_0000_0000_0000_0000_0000,
    ensures
        0 <= n * whole <= u128::MAX,
{
    assert(0 <= n * whole <= 0xffff_ffff * 0x1_0000_0000_0000_0000_0000_0000) by (nonlinear_arith)
        requires
            0 <= n <= 0xffff_ffff,
            0 <= whole < 0x1_0000_0000_0000_0000_0000_0000,
    ;
}

/// One VM tracked by the controller.
pub struct Instance<C> {
    /// Stable identifier used by inventory, logs, and engine plans.
    pub id: String,
    /// Backend-owned path or URI identifying this VM's transport.
    pub sock_path: Path,
    /// Backend process ID.
    pub pid: i32,
    /// Backend-selected task names included in fallback CPU sampling.
    pub thread_name_filter: ThreadNameFilter,
    /// Per-VM backend implementation.
    pub client: C,
    /// Latest snapshot shared by refresh, evaluation, and status output.
    pub status: InstanceStatus,
}

impl<C> Instance<C> {
    /// Construct a VM record with an empty initial status.
    ///
    /// id: the VM ID
    /// sock_path: /path/to/sock
    /// pid: PID of the storage backend
    /// client: the client handling this instance
    pub fn new(id: String, sock_path: Path, pid: i32, client: C) -> (r: Self)
        ensures
            r.id == id,
            r.sock_path == sock_path,
            r.pid == pid,
            r.client == client,
            r.thread_name_filter.pattern() is None,
            r.thread_name_filter.ignored() == Set::<Seq<char>>::empty(),
            r.status.wf(),
            r.status.is_blank(true),
    {
        let mut status = InstanceStatus::default();
        status.scaling_allowed = true;
        Instance {
            id,
            sock_path,
            pid,
            thread_name_filter: ThreadNameFilter::default(),
            client,
            status,
        }
    }

    /// Replace the default all-task CPU sampling filter.
    pub fn with_thread_name_filter(self, filter: ThreadNameFilter) -> (r: Self)
        ensures
            r == (Instance { thread_name_filter: filter, ..self }),
    {
        Instance {
            id: self.id,
            sock_path: self.sock_path,
            pid: self.pid,
            thread_name_filter: filter,
            client: self.client,
            status: self.status,
        }
    }

    /// Refresh one VM with the client's reply and the readings taken for it, or
    /// mark it broken when the client failed.
    pub fn refresh_state(
        &mut self,
        reply: Result<ThreadPoolSnapshot, BackendClientError>,
        readings: Readings,
        refresh_cgroup: bool,
    ) -> (r: Refreshed)
        requires
            old(self).status.wf(),
            readings.wf(),
        ensures
            final(self).status.wf(),
            *final(self) == (Instance { status: final(self).status, ..*old(self) }),
            refreshed(old(self).status, reply, readings, refresh_cgroup, final(self).status, r),
    {
        match reply {
            Ok(snapshot) => Refreshed::Usable(
                self.status.apply_thread_pool_snapshot(&snapshot, readings, refresh_cgroup),
            ),
            Err(error) => {
                self.status.alive = false;
                Refreshed::Broken(error)
            },
        }
    }

    /// What fleet evaluation reads of this VM.
    pub fn member(&self) -> (r: FleetMember)
        ensures
            r.id@ == self.id@,
            r.manual_scaling_sticky == self.status.manual_scaling_sticky,
            r.scaling_allowed == self.status.scaling_allowed,
    {
        FleetMember {
            id: self.id.clone(),
            manual_scaling_sticky: self.status.manual_scaling_sticky,
            scaling_allowed: self.status.scaling_allowed,
        }
    }

    /// The bare VM id.
    pub fn to_string(&self) -> (r: String)
        ensures
            r@ == trimmed(self.id@),
    {
        trim(self.id.as_str())
    }
}

/// A known ownership classification is never replaced by a refresh.
pub proof fn classification_survives_refreshes(
    before: InstanceStatus,
    snapshot: ThreadPoolSnapshot,
    readings: Readings,
    refresh_cgroup: bool,
    after: InstanceStatus,
)
    requires
        before.ownership_classification is Some,
    ensures
        before.with_snapshot(
            snapshot,
            readings,
            refresh_cgroup,
            after,
        ).ownership_classification == before.ownership_classification,
{
}

/// A counter that did not grow, or that started over, has no rate.
pub proof fn restarted_counters_have_no_rate(current: u64, previous: u64, elapsed_ns: u64)
    requires
        0 < elapsed_ns,
        current <= previous,
    ensures
        rate(current, previous, elapsed_ns) == 0,
{
    assert(0nat / elapsed_ns as nat == 0) by (nonlinear_arith)
        requires
            0 < elapsed_ns,
    ;
}

/// Whether `rate` is the growth of a counter per second, rounded down: it is
/// reached in the elapsed time, and one more would not be.
pub open spec fn is_rate(rate: u64, current: u64, previous: u64, elapsed_ns: u64) -> bool {
    rate * elapsed_ns <= (current - previous) * 1_000_000_000 < (rate + 1) * elapsed_ns
}

proof fn lemma_is_rate(current: u64, previous: u64, elapsed_ns: u64)
    requires
        0 < elapsed_ns,
        previous <= current,
        (current - previous) * 1_000_000_000 < 0x1_0000_0000_0000_0000 * elapsed_ns,
    ensures
        is_rate(rate(current, previous, elapsed_ns), current, previous, elapsed_ns),
{
    let n = (current - previous) * 1_000_000_000;
    let d = elapsed_ns as int;
    let q = n / d;
    vstd::arithmetic::div_mod::lemma_fundamental_div_mod(n, d);
    assert(d * q <= n < d * (q + 1)) by (nonlinear_arith)
        requires
            n == d * q + n % d,
            0 <= n % d < d,
    ;
    assert(0 <= q < 0x1_0000_0000_0000_0000) by (nonlinear_arith)
        requires
            0 <= n < 0x1_0000_0000_0000_0000 * d,
            d * q <= n < d * (q + 1),
            0 < d,
    ;
    vstd::arithmetic::div_mod::lemma_small_mod(q as nat, 0x1_0000_0000_0000_0000);
    assert(rate(current, previous, elapsed_ns) == q);
    assert(q * d == d * q && (q + 1) * d == d * (q + 1)) by (nonlinear_arith);
}

/// When time has passed, each rate is the growth of its own counter per second,
/// rounded down, as long as that can be counted in 64 bits. A counter that went
/// back has no rate.
pub proof fn rates_follow_their_own_counters(
    before: InstanceStatus,
    sample: InstancePerfSample,
    then: u64,
    now: u64,
)
    requires
        before.previous_perf_time == Some(then),
        then < now,
    ensures
        ({
            let after = before.with_perf_rates(Some(sample), now);
            let elapsed = (now - then) as u64;
            let countable = |current: u64, previous: u64|
                previous <= current && (current - previous) * 1_000_000_000
                    < 0x1_0000_0000_0000_0000 * elapsed;
            &&& countable(sample.read_io_count, before.previous_read_io_count) ==> is_rate(
                after.read_iops,
                sample.read_io_count,
                before.previous_read_io_count,
                elapsed,
            )
            &&& countable(sample.write_io_count, before.previous_write_io_count) ==> is_rate(
                after.write_iops,
                sample.write_io_count,
                before.previous_write_io_count,
                elapsed,
            )
            &&& countable(sample.other_io_count, before.previous_other_io_count) ==> is_rate(
                after.other_iops,
                sample.other_io_count,
                before.previous_other_io_count,
                elapsed,
            )
            &&& countable(sample.read_bytes_total, before.previous_read_bytes_total) ==> is_rate(
                after.read_bytes_per_second,
                sample.read_bytes_total,
                before.previous_read_bytes_total,
                elapsed,
            )
            &&& countable(sample.write_bytes_total, before.previous_write_bytes_total) ==> is_rate(
                after.write_bytes_per_second,
                sample.write_bytes_total,
                before.previous_write_bytes_total,
                elapsed,
            )
            &&& sample.read_io_count <= before.previous_read_io_count ==> after.read_iops == 0
            &&& sample.write_io_count <= before.previous_write_io_count ==> after.write_iops == 0
            &&& sample.other_io_count <= before.previous_other_io_count ==> after.other_iops == 0
            &&& sample.read_bytes_total <= before.previous_read_bytes_total
                ==> after.read_bytes_per_second == 0
            &&& sample.write_bytes_total <= before.previous_write_bytes_total
                ==> after.write_bytes_per_second == 0
        }),
{
    let elapsed = (now - then) as u64;
    let after = before.with_perf_rates(Some(sample), now);
    let pairs = seq![
        (sample.read_io_count, before.previous_read_io_count),
        (sample.write_io_count, before.previous_write_io_count),
        (sample.other_io_count, before.previous_other_io_count),
        (sample.read_bytes_total, before.previous_read_bytes_total),
        (sample.write_bytes_total, before.previous_write_bytes_total),
    ];
    assert forall|i: int| 0 <= i < 5 implies {
        let (current, previous) = #[trigger] pairs[i];
        &&& previous <= current && (current - previous) * 1_000_000_000 < 0x1_0000_0000_0000_0000
            * elapsed ==> is_rate(rate(current, previous, elapsed), current, previous, elapsed)
        &&& current <= previous ==> rate(current, previous, elapsed) == 0
    } by {
        let (current, previous) = pairs[i];
        if previous <= current && (current - previous) * 1_000_000_000 < 0x1_0000_0000_0000_0000
            * elapsed {
            lemma_is_rate(current, previous, elapsed);
        }
        if current <= previous {
            restarted_counters_have_no_rate(current, previous, elapsed);
        }
    }
    assert(pairs[0] == (sample.read_io_count, before.previous_read_io_count));
    assert(pairs[1] == (sample.write_io_count, before.previous_write_io_count));
    assert(pairs[2] == (sample.other_io_count, before.previous_other_io_count));
    assert(pairs[3] == (sample.read_bytes_total, before.previous_read_bytes_total));
    assert(pairs[4] == (sample.write_bytes_total, before.previous_write_bytes_total));
}

/// Without an earlier snapshot, or when no time has passed since it, the rates
/// stay as they are.
pub proof fn rates_need_elapsed_time(
    before: InstanceStatus,
    perf: Option<InstancePerfSample>,
    now: u64,
)
    requires
        before.previous_perf_time matches Some(then) ==> now <= then,
    ensures
        ({
            let after = before.with_perf_rates(perf, now);
            &&& after.read_iops == before.read_iops
            &&& after.write_iops == before.write_iops
            &&& after.other_iops == before.other_iops
            &&& after.read_bytes_per_second == before.read_bytes_per_second
            &&& after.write_bytes_per_second == before.write_bytes_per_second
        }),
{
}

/// The counters of a snapshot are what the next one is compared with; a snapshot
/// without counters counts as one with none.
pub proof fn counters_are_kept_for_the_next_snapshot(
    before: InstanceStatus,
    perf: Option<InstancePerfSample>,
    now: u64,
)
    ensures
        ({
            let after = before.with_perf_rates(perf, now);
            &&& after.previous_perf_time == Some(now)
            &&& perf matches Some(sample) ==> {
                &&& after.previous_read_io_count == sample.read_io_count
                &&& after.previous_write_io_count == sample.write_io_count
                &&& after.previous_other_io_count == sample.other_io_count
                &&& after.previous_read_bytes_total == sample.read_bytes_total
                &&& after.previous_write_bytes_total == sample.write_bytes_total
            }
            &&& perf is None ==> {
                &&& after.previous_read_io_count == 0
                &&& after.previous_write_io_count == 0
                &&& after.previous_other_io_count == 0
                &&& after.previous_read_bytes_total == 0
                &&& after.previous_write_bytes_total == 0
            }
        }),
{
}

/// A snapshot's own figures are taken up as they are, and its time and rates as
/// [`InstanceStatus::update_perf_rates`] has them.
pub proof fn snapshots_are_taken_up(
    before: InstanceStatus,
    snapshot: ThreadPoolSnapshot,
    readings: Readings,
    refresh_cgroup: bool,
    after: InstanceStatus,
)
    requires
        after == before.with_snapshot(snapshot, readings, refresh_cgroup, after),
    ensures
        after.alive,
        after.thread_count == snapshot.thread_count,
        after.vcpu_count == snapshot.vcpu_count,
        after.perf == snapshot.perf,
        snapshot.perf matches Some(sample) ==> after.read_latency_us == sample.read_latency_us
            && after.write_latency_us == sample.write_latency_us,
        snapshot.perf is None ==> after.read_latency_us is None && after.write_latency_us is None,
        ({
            let rated = before.with_perf_rates(snapshot.perf, readings.now);
            &&& after.previous_perf_time == Some(readings.now)
            &&& after.read_iops == rated.read_iops
            &&& after.write_iops == rated.write_iops
            &&& after.other_iops == rated.other_iops
            &&& after.read_bytes_per_second == rated.read_bytes_per_second
            &&& after.write_bytes_per_second == rated.write_bytes_per_second
            &&& after.previous_read_io_count == rated.previous_read_io_count
            &&& after.previous_write_io_count == rated.previous_write_io_count
            &&& after.previous_other_io_count == rated.previous_other_io_count
            &&& after.previous_read_bytes_total == rated.previous_read_bytes_total
            &&& after.previous_write_bytes_total == rated.previous_write_bytes_total
        }),
        before.ownership_classification is None ==> after.ownership_classification == Some(
            readings.managed,
        ),
        before.ownership_classification is Some ==> after.ownership_classification
            == before.ownership_classification,
        after.scaling_allowed == before.scaling_allowed,
        after.manual_scaling_sticky == before.manual_scaling_sticky,
        after.cooldown_until == before.cooldown_until,
        snapshot.per_thread_util is None ==> after.last_cpu_sample == readings.cpu,
        snapshot.per_thread_util is Some ==> after.last_cpu_sample is None,
{
}

/// Cgroup counters are read again when asked for or when there are none, and kept
/// otherwise. The throttled time grew by the difference of the two readings; it
/// did not without two of them, nor where the counter went back.
pub proof fn throttling_is_the_difference_of_two_readings(
    before: InstanceStatus,
    snapshot: ThreadPoolSnapshot,
    readings: Readings,
    refresh_cgroup: bool,
    after: InstanceStatus,
)
    requires
        after == before.with_snapshot(snapshot, readings, refresh_cgroup, after),
    ensures
        refresh_cgroup || before.cgroup is None ==> after.cgroup == readings.cgroup,
        !refresh_cgroup && before.cgroup is Some ==> after.cgroup == before.cgroup
            && after.throttled_usec_delta == 0,
        before.cgroup is None || after.cgroup is None ==> after.throttled_usec_delta == 0,
        before.cgroup matches Some(then) ==> (after.cgroup matches Some(now)
            ==> after.throttled_usec_delta as int == if now.throttled_usec
            >= then.throttled_usec {
            now.throttled_usec - then.throttled_usec
        } else {
            0
        }),
{
}

/// A backend's own utilisation counts as it is, within nothing and one whole
/// thread, and leaves no per-worker figures.
pub proof fn backend_utilisation_is_clamped(
    before: InstanceStatus,
    snapshot: ThreadPoolSnapshot,
    readings: Readings,
    after: InstanceStatus,
    roster_changed: bool,
    util: i64,
)
    requires
        utilisation_follows(before, snapshot, readings, after, roster_changed),
        snapshot.per_thread_util == Some(util),
    ensures
        after.per_thread_util.whole == 0x20_0000_0000_0000,
        after.per_thread_util.part as int == if util < 0 {
            0
        } else if util > 0x20_0000_0000_0000 {
            0x20_0000_0000_0000
        } else {
            util as int
        },
        after.per_worker_util@.len() == 0,
        after.last_worker_names is None,
        !roster_changed,
{
}

/// Two CPU samples, the later taken after the earlier, give the utilisation of
/// each worker over the time between them; the pool's utilisation is their mean:
/// its numerator is the sum of theirs, and its denominator is theirs times their
/// number. Without two such samples the figures stay.
pub proof fn sampled_utilisation_is_the_mean_of_the_workers(
    before: InstanceStatus,
    snapshot: ThreadPoolSnapshot,
    readings: Readings,
    after: InstanceStatus,
    roster_changed: bool,
)
    requires
        utilisation_follows(before, snapshot, readings, after, roster_changed),
        snapshot.per_thread_util is None,
        readings.wf(),
    ensures
        before.last_cpu_sample matches Some(then) ==> (readings.cpu matches Some(now) ==> (
        then.sampled_at < now.sampled_at ==> {
            let wall = (now.sampled_at - then.sampled_at) * readings.ticks_per_second;
            let workers = worker_shares(
                task_models(then.per_worker@),
                task_models(now.per_worker@),
                wall as nat,
            );
            let all = after.per_worker_util@;
            &&& all.len() == workers.len()
            &&& forall|i: int| 0 <= i < all.len() ==> #[trigger] all[i] == workers[i].1
            &&& all.len() == 0 ==> after.per_thread_util.part == 0
            &&& all.len() > 0 ==> {
                &&& after.per_thread_util.part == sum(all.map_values(|s: Share| s.part as nat))
                &&& after.per_thread_util.whole == all.len() * wall
            }
        })),
        !(before.last_cpu_sample matches Some(then) && (readings.cpu matches Some(now)
            && then.sampled_at < now.sampled_at)) ==> {
            &&& after.per_thread_util == before.per_thread_util
            &&& after.per_worker_util == before.per_worker_util
            &&& after.last_worker_names == before.last_worker_names
            &&& !roster_changed
        },
{
    if let (Some(then), Some(now)) = (before.last_cpu_sample, readings.cpu) {
        if then.sampled_at < now.sampled_at {
            let elapsed = (now.sampled_at - then.sampled_at) as u64;
            let wall = elapsed * readings.ticks_per_second;
            let previous = task_models(then.per_worker@);
            let current = task_models(now.per_worker@);
            let workers = worker_shares(previous, current, wall as nat);
            let all = after.per_worker_util@;
            lemma_sum_parts(all);
            lemma_wall_fits(elapsed, readings.ticks_per_second);
            lemma_at_most_one_share_per_task(previous, current, wall as nat);
            if all.len() > 0 {
                worker_shares_are_fractions(
                    previous,
                    current,
                    elapsed,
                    readings.ticks_per_second,
                    0,
                );
                assert(all[0].whole == wall);
                assert forall|i: int| 0 <= i < all.len() implies (#[trigger] all[i]).part
                    <= wall by {
                    worker_shares_are_fractions(
                        previous,
                        current,
                        elapsed,
                        readings.ticks_per_second,
                        i,
                    );
                }
                lemma_sum_bounded(all, wall as u128);
                lemma_fits(all.len() as int, wall as u128);
            }
        }
    }
}

proof fn lemma_sum_parts(all: Seq<Share>)
    ensures
        sum_parts(all) == sum(all.map_values(|s: Share| s.part as nat)),
    decreases all.len(),
{
    let part = |s: Share| s.part as nat;
    if all.len() > 0 {
        let rest = all.drop_last();
        lemma_sum_parts(rest);
        sums_grow_by_what_is_appended(rest.map_values(part), all.last().part as nat);
        assert(all.map_values(part) == rest.map_values(part).push(all.last().part as nat));
    }
}

/// The rolling history is fed with the time of the readings, all completed
/// operations, and either the backend's utilisation and its threads or the
/// sampled ticks and their rate.
pub proof fn the_history_is_fed_what_was_measured(snapshot: ThreadPoolSnapshot, readings: Readings)
    ensures
        ({
            let ops = match snapshot.perf {
                Some(sample) => at_most(
                    (sample.read_io_count + sample.write_io_count + sample.other_io_count) as nat,
                    u64::MAX as nat,
                ),
                None => 0,
            };
            match feed_of(snapshot, readings) {
                RollingFeed::Nothing => snapshot.per_thread_util is None && readings.cpu is None,
                RollingFeed::BackendUtil { now, io_ops_total, per_thread_util, thread_count } => {
                    &&& snapshot.per_thread_util matches Some(util)
                    &&& now == readings.now
                    &&& io_ops_total == ops
                    &&& per_thread_util.whole == 0x20_0000_0000_0000
                    &&& 0 <= util <= 0x20_0000_0000_0000 ==> per_thread_util.part == util
                    &&& util < 0 ==> per_thread_util.part == 0
                    &&& util > 0x20_0000_0000_0000 ==> per_thread_util.part
                        == 0x20_0000_0000_0000
                    &&& thread_count == snapshot.thread_count
                },
                RollingFeed::ProcfsDelta { now, io_ops_total, cpu_ticks, ticks_per_second } => {
                    &&& snapshot.per_thread_util is None
                    &&& readings.cpu matches Some(sample)
                    &&& now == readings.now
                    &&& io_ops_total == ops
                    &&& cpu_ticks == sample.cpu_ticks
                    &&& ticks_per_second == readings.ticks_per_second
                },
            }
        }),
{
}

/// The names kept for logging are those of the measured workers in ascending
/// order, and the roster counts as changed exactly when they are not the ones kept
/// before.
pub proof fn worker_names_are_compared_in_order(
    before: InstanceStatus,
    snapshot: ThreadPoolSnapshot,
    readings: Readings,
    after: InstanceStatus,
    roster_changed: bool,
    then: CpuSample,
    now: CpuSample,
)
    requires
        utilisation_follows(before, snapshot, readings, after, roster_changed),
        snapshot.per_thread_util is None,
        before.last_cpu_sample == Some(then),
        readings.cpu == Some(now),
        then.sampled_at < now.sampled_at,
    ensures
        ({
            let workers = worker_shares(
                task_models(then.per_worker@),
                task_models(now.per_worker@),
                ((now.sampled_at - then.sampled_at) * readings.ticks_per_second) as nat,
            );
            &&& after.last_worker_names matches Some(names)
            &&& sorts(workers.map_values(|w: (Seq<char>, Share)| w.0), texts(names@))
            &&& before.last_worker_names is None ==> roster_changed
            &&& before.last_worker_names matches Some(listed) ==> (roster_changed <==> texts(
                listed@,
            ) != texts(names@))
        }),
{
}

/// CPU counters are read exactly where the backend reports no utilisation, cgroup
/// counters where they are due or were never read, the classification once.
pub proof fn readings_are_taken_where_due(
    status: InstanceStatus,
    snapshot: ThreadPoolSnapshot,
    refresh_cgroup: bool,
    due: ReadingsDue,
)
    requires
        call_ensures(InstanceStatus::readings_due, (&status, &snapshot, refresh_cgroup), due),
    ensures
        due.cpu <==> snapshot.per_thread_util is None,
        due.cgroup <==> refresh_cgroup || status.cgroup is None,
        due.ownership <==> status.ownership_classification is None,
{
}

/// The engine sees a VM under its own id, with its override and its permission.
pub proof fn members_mirror_their_vm<C>(vm: Instance<C>, member: FleetMember)
    requires
        call_ensures(Instance::<C>::member, (&vm,), member),
    ensures
        member.id@ == vm.id@,
        member.manual_scaling_sticky <==> vm.status.manual_scaling_sticky,
        member.scaling_allowed <==> vm.status.scaling_allowed,
{
}

/// All operations count: the total of a sample is the sum of reads, writes and
/// others, as far as it can be counted.
pub proof fn totals_count_every_operation(sample: InstancePerfSample, total: u64)
    requires
        call_ensures(InstancePerfSample::total_io_count, (&sample,), total),
    ensures
        sample.read_io_count + sample.write_io_count + sample.other_io_count <= u64::MAX ==> total
            == sample.read_io_count + sample.write_io_count + sample.other_io_count,
        sample.read_io_count + sample.write_io_count + sample.other_io_count > u64::MAX ==> total
            == u64::MAX,
{
}

/// A client that fails marks its VM as not alive, keeps everything else that is known
/// of it, and its error is handed on; one that answers marks it alive.
pub proof fn failing_clients_mark_their_vm(
    before: InstanceStatus,
    reply: Result<ThreadPoolSnapshot, BackendClientError>,
    readings: Readings,
    refresh_cgroup: bool,
    after: InstanceStatus,
    r: Refreshed,
)
    requires
        refreshed(before, reply, readings, refresh_cgroup, after, r),
    ensures
        after.alive <==> reply is Ok,
        r is Broken <==> reply is Err,
        reply matches Err(error) ==> r == Refreshed::Broken(error) && after == (InstanceStatus {
            alive: false,
            ..before
        }),
        reply matches Ok(snapshot) ==> after.thread_count == snapshot.thread_count
            && after.vcpu_count == snapshot.vcpu_count && after.perf == snapshot.perf,
{
}

} // verus!
