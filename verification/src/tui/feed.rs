//! One VM's entry in the daemon's snapshot, and the two views derived from it:
//! the sample that the plots consume and the status that the dashboard shows.
//!
//! CPU time is counted in [`UTIL_UNIT`]ths of one core, bandwidth in bytes per
//! second, and times in nanoseconds since start.
use vstd::prelude::*;
use vstd::string::*;

use crate::cpu::capped_sum;
use crate::instance::{backend_share, LatencySummary, UTIL_UNIT};
use crate::sums::at_most;

verus! {

/// Microseconds in one second.
pub const MICROS_PER_SECOND: u128 = 1_000_000;

/// One VM in the daemon's snapshot.
#[derive(Debug)]
pub struct SnapshotVm {
    /// Stable VM identifier.
    pub id: String,
    /// Current worker count.
    pub thread_count: u32,
    /// Guest vCPU count.
    pub vcpu_count: u32,
    /// Reads per second.
    pub read_iops: u64,
    /// Writes per second.
    pub write_iops: u64,
    /// Other operations per second.
    pub other_iops: u64,
    /// Bytes read per second.
    pub read_bw_bps: u64,
    /// Bytes written per second.
    pub write_bw_bps: u64,
    /// Utilisation of one worker, in [`UTIL_UNIT`]ths.
    pub per_thread_util: i64,
    /// Read-latency digest.
    pub read_latency_us: Option<LatencySummary>,
    /// Write-latency digest.
    pub write_latency_us: Option<LatencySummary>,
    /// Inflight depth summed over all queues.
    pub qd_total: Option<u64>,
    /// Average depth per queue, in hundredths.
    pub qd_avg_x100: Option<u64>,
    /// Median depth per queue.
    pub qd_median: Option<u64>,
    /// Number of queues.
    pub num_queues: Option<u32>,
    /// Average worker utilisation in percent.
    pub cpu_pct_avg: Option<u64>,
    /// Median worker utilisation in percent.
    pub cpu_pct_median: Option<u64>,
    /// Utilisation of the whole pool in percent.
    pub cpu_pct_total: Option<u64>,
    /// Whether a manual override suppresses automatic scaling.
    pub manual_scaling_sticky: bool,
    /// Whether the daemon's last refresh of this VM succeeded.
    pub alive: bool,
}

/// One reply of the daemon: the complete live inventory.
#[derive(Debug)]
pub struct SnapshotPayload {
    /// Every VM that the daemon tracks.
    pub vms: Vec<SnapshotVm>,
}

/// One tick's worth of metrics, already in rate form.
#[derive(Debug, Clone, Copy, PartialEq, Eq)]
pub struct Sample {
    /// When the sample was taken.
    pub t: u64,
    /// Operations per second.
    pub iops: u128,
    /// Bytes per second.
    pub bandwidth: u128,
    /// Read-latency median, 95th and 99th percentile.
    pub lat_r: Option<(u64, u64, u64)>,
    /// Write-latency median, 95th and 99th percentile.
    pub lat_w: Option<(u64, u64, u64)>,
    /// Arithmetic-mean read latency (µs).
    pub lat_r_avg: Option<u64>,
    /// Arithmetic-mean write latency (µs).
    pub lat_w_avg: Option<u64>,
    /// CPU time of the whole pool per second, in [`UTIL_UNIT`]ths.
    pub cpu: u128,
    /// Inflight depth.
    pub qd: u128,
    /// Worker count.
    pub thread_count: u32,
    /// CPU microseconds per operation, in [`UTIL_UNIT`]ths; none on an idle tick.
    pub cpu_us_per_iop: Option<u128>,
}

/// Freshest view of one VM, or of the fleet, rendered in the dashboard.
#[derive(Debug, Clone, Copy, PartialEq, Eq)]
pub struct LatestStatus {
    /// Worker count.
    pub thread_count: u32,
    /// Reads per second.
    pub iops_r: u128,
    /// Writes per second.
    pub iops_w: u128,
    /// Other operations per second.
    pub iops_o: u128,
    /// Bytes read per second.
    pub bw_r: u128,
    /// Bytes written per second.
    pub bw_w: u128,
    /// Read-latency median, 95th and 99th percentile.
    pub lat_r_us: Option<(u64, u64, u64)>,
    /// Write-latency median, 95th and 99th percentile.
    pub lat_w_us: Option<(u64, u64, u64)>,
    /// Arithmetic-mean read latency (µs).
    pub lat_r_avg_us: Option<u64>,
    /// Arithmetic-mean write latency (µs).
    pub lat_w_avg_us: Option<u64>,
    /// Inflight depth summed over all queues.
    pub qd_total: Option<u64>,
    /// Average depth per queue, in hundredths.
    pub qd_avg_x100: Option<u64>,
    /// Median depth per queue.
    pub qd_median: Option<u64>,
    /// Number of queues.
    pub num_queues: Option<u32>,
    /// CPU time of the whole pool per second, in [`UTIL_UNIT`]ths.
    pub cpu: u128,
    /// Average worker utilisation in percent.
    pub cpu_pct_avg: Option<u64>,
    /// Median worker utilisation in percent.
    pub cpu_pct_median: Option<u64>,
    /// Utilisation of the whole pool in percent.
    pub cpu_pct_total: Option<u64>,
    /// CPU microseconds per operation, in [`UTIL_UNIT`]ths; none on an idle tick.
    pub cpu_us_per_iop: Option<u128>,
    /// Whether a manual override suppresses automatic scaling.
    pub sticky: bool,
    /// Whether the daemon's last refresh of this VM succeeded.
    pub alive: bool,
}

/// The status of a VM before its first snapshot.
pub open spec fn blank_status() -> LatestStatus {
    LatestStatus {
        thread_count: 0,
        iops_r: 0,
        iops_w: 0,
        iops_o: 0,
        bw_r: 0,
        bw_w: 0,
        lat_r_us: None,
        lat_w_us: None,
        lat_r_avg_us: None,
        lat_w_avg_us: None,
        qd_total: None,
        qd_avg_x100: None,
        qd_median: None,
        num_queues: None,
        cpu: 0,
        cpu_pct_avg: None,
        cpu_pct_median: None,
        cpu_pct_total: None,
        cpu_us_per_iop: Some(0),
        sticky: false,
        alive: false,
    }
}

impl Default for LatestStatus {
    fn default() -> (r: Self)
        ensures
            r == blank_status(),
    {
        LatestStatus {
            thread_count: 0,
            iops_r: 0,
            iops_w: 0,
            iops_o: 0,
            bw_r: 0,
            bw_w: 0,
            lat_r_us: None,
            lat_w_us: None,
            lat_r_avg_us: None,
            lat_w_avg_us: None,
            qd_total: None,
            qd_avg_x100: None,
            qd_median: None,
            num_queues: None,
            cpu: 0,
            cpu_pct_avg: None,
            cpu_pct_median: None,
            cpu_pct_total: None,
            cpu_us_per_iop: Some(0),
            sticky: false,
            alive: false,
        }
    }
}

/// The sum, capped at the largest value.
pub open spec fn capped_total(a: u128, b: u128) -> u128 {
    if a + b > u128::MAX {
        u128::MAX
    } else {
        (a + b) as u128
    }
}

/// CPU microseconds per operation, given the CPU time and the operations of one
/// second; none without operations.
pub open spec fn us_per_iop(cpu: u128, iops: u128) -> Option<u128> {
    if iops == 0 {
        None
    } else if cpu * MICROS_PER_SECOND > u128::MAX {
        Some((u128::MAX / iops) as u128)
    } else {
        Some(((cpu * MICROS_PER_SECOND) / iops as int) as u128)
    }
}

/// Compute [`us_per_iop`].
pub fn cpu_us_per_iop(cpu: u128, iops: u128) -> (r: Option<u128>)
    ensures
        r == us_per_iop(cpu, iops),
{
    if iops == 0 {
        return None;
    }
    match cpu.checked_mul(MICROS_PER_SECOND) {
        Some(scaled) => Some(scaled / iops),
        None => Some(u128::MAX / iops),
    }
}

/// All operations of a VM per second.
pub open spec fn vm_iops(d: SnapshotVm) -> u128 {
    capped_sum(capped_sum(d.read_iops, d.write_iops), d.other_iops) as u128
}

/// The CPU time of a VM's whole pool: a worker's utilisation, between nothing
/// and one core, times the number of workers.
pub open spec fn vm_cpu(d: SnapshotVm) -> u128 {
    (backend_share(d.per_thread_util).part * d.thread_count) as u128
}

/// The percentiles of a digest.
pub open spec fn percentiles(latency: Option<LatencySummary>) -> Option<(u64, u64, u64)> {
    match latency {
        Some(l) => Some((l.p50, l.p95, l.p99)),
        None => None,
    }
}

/// The mean of a digest.
pub open spec fn mean_latency(latency: Option<LatencySummary>) -> Option<u64> {
    match latency {
        Some(l) => Some(l.avg),
        None => None,
    }
}

/// The sample that a snapshot entry gives.
pub open spec fn sample_of(d: SnapshotVm, t: u64) -> Sample {
    Sample {
        t,
        iops: vm_iops(d),
        bandwidth: capped_sum(d.read_bw_bps, d.write_bw_bps) as u128,
        lat_r: percentiles(d.read_latency_us),
        lat_w: percentiles(d.write_latency_us),
        lat_r_avg: mean_latency(d.read_latency_us),
        lat_w_avg: mean_latency(d.write_latency_us),
        cpu: vm_cpu(d),
        qd: match d.qd_total {
            Some(depth) => depth as u128,
            None => 0,
        },
        thread_count: d.thread_count,
        cpu_us_per_iop: us_per_iop(vm_cpu(d), vm_iops(d)),
    }
}

/// The status that a snapshot entry gives.
pub open spec fn status_of(d: SnapshotVm) -> LatestStatus {
    LatestStatus {
        thread_count: d.thread_count,
        iops_r: d.read_iops as u128,
        iops_w: d.write_iops as u128,
        iops_o: d.other_iops as u128,
        bw_r: d.read_bw_bps as u128,
        bw_w: d.write_bw_bps as u128,
        lat_r_us: percentiles(d.read_latency_us),
        lat_w_us: percentiles(d.write_latency_us),
        lat_r_avg_us: mean_latency(d.read_latency_us),
        lat_w_avg_us: mean_latency(d.write_latency_us),
        qd_total: d.qd_total,
        qd_avg_x100: d.qd_avg_x100,
        qd_median: d.qd_median,
        num_queues: d.num_queues,
        cpu: vm_cpu(d),
        cpu_pct_avg: d.cpu_pct_avg,
        cpu_pct_median: d.cpu_pct_median,
        cpu_pct_total: d.cpu_pct_total,
        cpu_us_per_iop: us_per_iop(vm_cpu(d), vm_iops(d)),
        sticky: d.manual_scaling_sticky,
        alive: d.alive,
    }
}

/// All operations of a VM per second.
fn total_iops(d: &SnapshotVm) -> (r: u128)
    ensures
        r == vm_iops(*d),
{
    d.read_iops.saturating_add(d.write_iops).saturating_add(d.other_iops) as u128
}

/// The CPU time of a VM's whole pool.
fn pool_cpu(d: &SnapshotVm) -> (r: u128)
    ensures
        r == vm_cpu(*d),
        r == backend_share(d.per_thread_util).part * d.thread_count,
{
    let unit: u64 = UTIL_UNIT;
    let part: u64 = if d.per_thread_util < 0 {
        0
    } else if d.per_thread_util as u64 > unit {
        unit
    } else {
        d.per_thread_util as u64
    };
    assert(0 <= part * d.thread_count <= 9_007_199_254_740_992 * 0xffff_ffff) by (nonlinear_arith)
        requires
            0 <= part <= 9_007_199_254_740_992,
            0 <= d.thread_count <= 0xffff_ffff,
    ;
    part as u128 * d.thread_count as u128
}

fn percentiles_of(latency: &Option<LatencySummary>) -> (r: Option<(u64, u64, u64)>)
    ensures
        r == percentiles(*latency),
{
    match latency {
        Some(l) => Some((l.p50, l.p95, l.p99)),
        None => None,
    }
}

fn mean_of(latency: &Option<LatencySummary>) -> (r: Option<u64>)
    ensures
        r == mean_latency(*latency),
{
    match latency {
        Some(l) => Some(l.avg),
        None => None,
    }
}

/// Turn one entry of the daemon's snapshot into the [`Sample`] the plots consume.
pub fn snapshot_to_sample(d: &SnapshotVm, t: u64) -> (r: Sample)
    ensures
        r == sample_of(*d, t),
{
    let iops: u128 = total_iops(d);
    let cpu: u128 = pool_cpu(d);
    Sample {
        t,
        iops,
        bandwidth: d.read_bw_bps.saturating_add(d.write_bw_bps) as u128,
        lat_r: percentiles_of(&d.read_latency_us),
        lat_w: percentiles_of(&d.write_latency_us),
        lat_r_avg: mean_of(&d.read_latency_us),
        lat_w_avg: mean_of(&d.write_latency_us),
        cpu,
        qd: match d.qd_total {
            Some(depth) => depth as u128,
            None => 0,
        },
        thread_count: d.thread_count,
        cpu_us_per_iop: cpu_us_per_iop(cpu, iops),
    }
}

/// Turn one entry of the daemon's snapshot into the [`LatestStatus`] the
/// dashboard consumes.
pub fn snapshot_to_status(d: &SnapshotVm) -> (r: LatestStatus)
    ensures
        r == status_of(*d),
{
    let iops: u128 = total_iops(d);
    let cpu: u128 = pool_cpu(d);
    LatestStatus {
        thread_count: d.thread_count,
        iops_r: d.read_iops as u128,
        iops_w: d.write_iops as u128,
        iops_o: d.other_iops as u128,
        bw_r: d.read_bw_bps as u128,
        bw_w: d.write_bw_bps as u128,
        lat_r_us: percentiles_of(&d.read_latency_us),
        lat_w_us: percentiles_of(&d.write_latency_us),
        lat_r_avg_us: mean_of(&d.read_latency_us),
        lat_w_avg_us: mean_of(&d.write_latency_us),
        qd_total: d.qd_total,
        qd_avg_x100: d.qd_avg_x100,
        qd_median: d.qd_median,
        num_queues: d.num_queues,
        cpu,
        cpu_pct_avg: d.cpu_pct_avg,
        cpu_pct_median: d.cpu_pct_median,
        cpu_pct_total: d.cpu_pct_total,
        cpu_us_per_iop: cpu_us_per_iop(cpu, iops),
        sticky: d.manual_scaling_sticky,
        alive: d.alive,
    }
}

/// A fully utilised worker counts as one core: a pool of `n` of them reads as
/// `n` cores.
pub proof fn busy_pools_count_their_workers(d: SnapshotVm)
    requires
        d.per_thread_util >= UTIL_UNIT,
    ensures
        vm_cpu(d) == UTIL_UNIT * d.thread_count,
{
    assert(0 <= UTIL_UNIT * d.thread_count <= 9_007_199_254_740_992 * 0xffff_ffff)
        by (nonlinear_arith)
        requires
            UTIL_UNIT == 9_007_199_254_740_992,
            0 <= d.thread_count <= 0xffff_ffff,
    ;
}

/// The plots and the dashboard agree on a VM's CPU time and on its CPU time per
/// operation.
pub proof fn sample_and_status_agree(d: SnapshotVm, t: u64)
    ensures
        sample_of(d, t).cpu == status_of(d).cpu,
        sample_of(d, t).cpu_us_per_iop == status_of(d).cpu_us_per_iop,
        sample_of(d, t).thread_count == status_of(d).thread_count,
        sample_of(d, t).lat_r == status_of(d).lat_r_us,
        sample_of(d, t).lat_w == status_of(d).lat_w_us,
{
}

/// A sample holds the entry's own figures: all operations and all bytes per
/// second, as far as they can be counted, the busy threads, the depth, the workers
/// and the latencies.
pub proof fn samples_hold_the_entry_s_figures(d: SnapshotVm, t: u64)
    ensures
        ({
            let s = sample_of(d, t);
            &&& s.t == t
            &&& s.iops == at_most(
                (d.read_iops + d.write_iops + d.other_iops) as nat,
                u64::MAX as nat,
            )
            &&& s.bandwidth == at_most((d.read_bw_bps + d.write_bw_bps) as nat, u64::MAX as nat)
            &&& s.thread_count == d.thread_count
            &&& d.per_thread_util < 0 ==> s.cpu == 0
            &&& 0 <= d.per_thread_util <= 0x20_0000_0000_0000 ==> s.cpu == d.per_thread_util
                * d.thread_count
            &&& d.per_thread_util > 0x20_0000_0000_0000 ==> s.cpu == 0x20_0000_0000_0000
                * d.thread_count
            &&& d.qd_total matches Some(depth) ==> s.qd == depth
            &&& d.qd_total is None ==> s.qd == 0
            &&& d.read_latency_us matches Some(l) ==> s.lat_r == Some((l.p50, l.p95, l.p99))
                && s.lat_r_avg == Some(l.avg)
            &&& d.read_latency_us is None ==> s.lat_r is None && s.lat_r_avg is None
            &&& d.write_latency_us matches Some(l) ==> s.lat_w == Some((l.p50, l.p95, l.p99))
                && s.lat_w_avg == Some(l.avg)
            &&& d.write_latency_us is None ==> s.lat_w is None && s.lat_w_avg is None
        }),
{
    lemma_pool_fits(d);
}

proof fn lemma_pool_fits(d: SnapshotVm)
    ensures
        vm_cpu(d) == backend_share(d.per_thread_util).part * d.thread_count,
        d.per_thread_util < 0 ==> vm_cpu(d) == 0,
        0 <= d.per_thread_util <= 0x20_0000_0000_0000 ==> vm_cpu(d) == d.per_thread_util
            * d.thread_count,
        d.per_thread_util > 0x20_0000_0000_0000 ==> vm_cpu(d) == 0x20_0000_0000_0000
            * d.thread_count,
{
    let part = backend_share(d.per_thread_util).part;
    assert(d.per_thread_util < 0 ==> part == 0);
    assert(0 <= d.per_thread_util <= 0x20_0000_0000_0000 ==> part == d.per_thread_util);
    assert(part == 0 ==> part * d.thread_count == 0) by (nonlinear_arith);
    assert(part == d.per_thread_util ==> part * d.thread_count == d.per_thread_util
        * d.thread_count) by (nonlinear_arith);
    assert(0 <= part * d.thread_count <= 0x20_0000_0000_0000 * 0xffff_ffff) by (nonlinear_arith)
        requires
            0 <= part <= 0x20_0000_0000_0000,
            0 <= d.thread_count <= 0xffff_ffff,
    ;
}

/// A status holds the entry's figures direction by direction.
pub proof fn statuses_hold_the_entry_s_figures(d: SnapshotVm)
    ensures
        ({
            let s = status_of(d);
            &&& s.thread_count == d.thread_count
            &&& s.iops_r == d.read_iops
            &&& s.iops_w == d.write_iops
            &&& s.iops_o == d.other_iops
            &&& s.bw_r == d.read_bw_bps
            &&& s.bw_w == d.write_bw_bps
            &&& s.qd_total == d.qd_total
            &&& s.qd_avg_x100 == d.qd_avg_x100
            &&& s.qd_median == d.qd_median
            &&& s.num_queues == d.num_queues
            &&& s.cpu_pct_avg == d.cpu_pct_avg
            &&& s.cpu_pct_median == d.cpu_pct_median
            &&& s.cpu_pct_total == d.cpu_pct_total
            &&& s.sticky == d.manual_scaling_sticky
            &&& s.alive == d.alive
            &&& d.per_thread_util < 0 ==> s.cpu == 0
            &&& 0 <= d.per_thread_util <= 0x20_0000_0000_0000 ==> s.cpu == d.per_thread_util
                * d.thread_count
            &&& d.per_thread_util > 0x20_0000_0000_0000 ==> s.cpu == 0x20_0000_0000_0000
                * d.thread_count
            &&& d.read_latency_us matches Some(l) ==> s.lat_r_us == Some((l.p50, l.p95, l.p99))
                && s.lat_r_avg_us == Some(l.avg)
            &&& d.read_latency_us is None ==> s.lat_r_us is None && s.lat_r_avg_us is None
            &&& d.write_latency_us matches Some(l) ==> s.lat_w_us == Some((l.p50, l.p95, l.p99))
                && s.lat_w_avg_us == Some(l.avg)
            &&& d.write_latency_us is None ==> s.lat_w_us is None && s.lat_w_avg_us is None
        }),
{
    lemma_pool_fits(d);
}

/// The CPU time per operation is the microseconds of busy threads in one second
/// over the operations in it, rounded down; an idle second has none.
pub proof fn cpu_time_is_shared_among_operations(cpu: u128, iops: u128)
    ensures
        iops == 0 <==> us_per_iop(cpu, iops) is None,
        us_per_iop(cpu, iops) matches Some(us) ==> (cpu * 1_000_000 <= u128::MAX ==> us * iops
            <= cpu * 1_000_000 < (us + 1) * iops),
{
    if iops != 0 && cpu * 1_000_000 <= u128::MAX {
        let n = cpu * 1_000_000;
        let d = iops as int;
        let q = n / d;
        vstd::arithmetic::div_mod::lemma_fundamental_div_mod(n, d);
        assert(q * d <= n < (q + 1) * d) by (nonlinear_arith)
            requires
                n == d * q + n % d,
                0 <= n % d < d,
        ;
        assert(0 <= q <= n) by (nonlinear_arith)
            requires
                q * d <= n < (q + 1) * d,
                0 <= n,
                1 <= d,
        ;
    }
}

/// A VM's CPU time per operation follows from its own busy threads and
/// operations, in its samples and in its status.
pub proof fn samples_share_their_own_cpu_time(d: SnapshotVm, t: u64)
    ensures
        sample_of(d, t).cpu_us_per_iop == us_per_iop(sample_of(d, t).cpu, sample_of(d, t).iops),
        status_of(d).cpu_us_per_iop == sample_of(d, t).cpu_us_per_iop,
{
}

} // verus!
