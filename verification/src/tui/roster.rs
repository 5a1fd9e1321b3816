//! The tracked VMs, their bounded histories, and how the daemon's replies change
//! them.
//!
//! Every reply carries the complete live inventory, so discovery is one pass:
//! VMs in the reply that are already tracked stay and are refreshed, new ones are
//! appended, and tracked VMs that several replies in a row omit are dropped.
use std::collections::VecDeque;
use vstd::prelude::*;
use vstd::string::*;

use crate::names::NameSet;
use crate::order::text_order_total;
use crate::sums::{at_most, sum, sums_add_up, sums_grow_by_what_is_appended};
use crate::text::{contains_text, occurs, same, texts};
use crate::tui::feed::{
    blank_status, capped_total, cpu_us_per_iop, sample_of, snapshot_to_sample, snapshot_to_status,
    status_of, us_per_iop, LatestStatus, Sample, SnapshotPayload, SnapshotVm, MICROS_PER_SECOND,
};
use crate::tui::streaks::{below, one_more, streak_of, Streaks};

verus! {

/// Cap on stored history per VM, and on the aggregate.
pub const MAX_HISTORY: usize = 4096;

/// A VM is dropped once this many replies in a row omit it.
pub const MISSING_STREAK_DROP: u32 = 3;

/// Consecutive failed polls that make the daemon count as lost.
pub const DAEMON_LOST_STREAK: u32 = 3;

/// The shortest refresh cadence, in nanoseconds.
pub const MIN_REFRESH_NS: u64 = 50_000_000;

/// Marker on the perf pane for a change of the worker count.
#[derive(Debug, Clone, Copy, PartialEq, Eq, Structural)]
pub struct Annot {
    /// When the change was seen.
    pub t: u64,
    /// Height on the plot, in millionths: the larger of the operation rate and
    /// the rate in megabytes.
    pub y_value: u128,
    /// Worker count before.
    pub old_n: u32,
    /// Worker count after.
    pub new_n: u32,
}

/// History and last-known state of one VM.
#[derive(Debug)]
pub struct VmState {
    /// Stable VM identifier.
    pub id: String,
    /// Slot in the palette of the current theme.
    pub color_idx: usize,
    /// Guest vCPU count as reported by the daemon.
    pub vcpu_count: Option<u32>,
    /// Most recent samples, oldest first.
    pub samples: VecDeque<Sample>,
    /// Most recent changes of the worker count, oldest first.
    pub annots: VecDeque<Annot>,
    /// Freshest status.
    pub status: LatestStatus,
    /// The worker count of the freshest snapshot.
    pub last_thread_count: Option<u32>,
    /// When the freshest snapshot of this VM came.
    pub last_snapshot_at: u64,
}

/// What a VM's state holds.
#[verifier::ext_equal]
pub struct VmModel {
    /// Stable VM identifier.
    pub id: Seq<char>,
    /// Palette slot.
    pub color_idx: usize,
    /// Guest vCPU count.
    pub vcpu_count: Option<u32>,
    /// Samples, oldest first.
    pub samples: Seq<Sample>,
    /// Changes of the worker count, oldest first.
    pub annots: Seq<Annot>,
    /// Freshest status.
    pub status: LatestStatus,
    /// Last worker count.
    pub last_thread_count: Option<u32>,
    /// When the freshest snapshot came.
    pub last_snapshot_at: u64,
}

impl View for VmState {
    type V = VmModel;

    open spec fn view(&self) -> VmModel {
        VmModel {
            id: self.id@,
            color_idx: self.color_idx,
            vcpu_count: self.vcpu_count,
            samples: self.samples@,
            annots: self.annots@,
            status: self.status,
            last_thread_count: self.last_thread_count,
            last_snapshot_at: self.last_snapshot_at,
        }
    }
}

/// The models of a list of VMs.
pub open spec fn vm_models(vms: Seq<VmState>) -> Seq<VmModel> {
    vms.map_values(|vm: VmState| vm@)
}

/// A VM of which nothing is known yet.
pub open spec fn fresh_vm(id: Seq<char>, color_idx: usize, now: u64) -> VmModel {
    VmModel {
        id,
        color_idx,
        vcpu_count: None,
        samples: Seq::empty(),
        annots: Seq::empty(),
        status: blank_status(),
        last_thread_count: None,
        last_snapshot_at: now,
    }
}

/// The most recent part of a history.
pub open spec fn recent<T>(history: Seq<T>) -> Seq<T> {
    if history.len() > MAX_HISTORY {
        history.skip(history.len() - MAX_HISTORY)
    } else {
        history
    }
}

/// Add to a bounded history.
fn remember<T>(history: &mut VecDeque<T>, item: T)
    ensures
        final(history)@ == recent(old(history)@.push(item)),
{
    history.push_back(item);
    let ghost all = history@;
    assert(all.skip(0) == all);
    while history.len() > MAX_HISTORY
        invariant
            history@.len() <= all.len(),
            history@ == all.skip(all.len() - history@.len()),
            all.len() >= MAX_HISTORY ==> history@.len() >= MAX_HISTORY,
            all.len() <= MAX_HISTORY ==> history@ == all,
        decreases history@.len(),
    {
        let ghost before = history@;
        let _ = history.pop_front();
        assert(history@ == before.skip(1));
        assert(history@ == all.skip(all.len() - history@.len()));
    }
}

/// The height of a marker: the larger of the operation rate and the rate in
/// megabytes, in millionths.
pub open spec fn marker_height(sample: Sample) -> u128 {
    if sample.iops * MICROS_PER_SECOND >= sample.bandwidth {
        (sample.iops * MICROS_PER_SECOND) as u128
    } else {
        sample.bandwidth
    }
}

/// The marker that a new worker count gives, if it changed.
pub open spec fn marker(last: Option<u32>, sample: Sample) -> Option<Annot> {
    match last {
        Some(before) => if before != sample.thread_count {
            Some(
                Annot {
                    t: sample.t,
                    y_value: marker_height(sample),
                    old_n: before,
                    new_n: sample.thread_count,
                },
            )
        } else {
            None
        },
        None => None,
    }
}

/// A VM after an entry of the daemon's reply.
pub open spec fn observe(vm: VmModel, d: SnapshotVm, t: u64) -> VmModel {
    let sample = sample_of(d, t);
    VmModel {
        vcpu_count: Some(d.vcpu_count),
        last_thread_count: Some(d.thread_count),
        last_snapshot_at: t,
        samples: recent(vm.samples.push(sample)),
        annots: match marker(vm.last_thread_count, sample) {
            Some(annot) => recent(vm.annots.push(annot)),
            None => vm.annots,
        },
        status: status_of(d),
        ..vm
    }
}

impl VmState {
    /// Start tracking a VM.
    pub fn new(id: String, color_idx: usize, now: u64) -> (r: Self)
        ensures
            r@ == fresh_vm(id@, color_idx, now),
    {
        VmState {
            id,
            color_idx,
            vcpu_count: None,
            samples: VecDeque::new(),
            annots: VecDeque::new(),
            status: LatestStatus::default(),
            last_thread_count: None,
            last_snapshot_at: now,
        }
    }

    /// Take up an entry of the daemon's reply; returns the sample that it gave.
    pub fn observe(&mut self, d: &SnapshotVm, t: u64) -> (r: Sample)
        ensures
            r == sample_of(*d, t),
            final(self)@ == observe(old(self)@, *d, t),
    {
        let sample: Sample = snapshot_to_sample(d, t);
        self.vcpu_count = Some(d.vcpu_count);
        if let Some(before) = self.last_thread_count {
            if before != d.thread_count {
                let ops: u128 = sample.iops * MICROS_PER_SECOND;
                let y_value: u128 = if ops >= sample.bandwidth {
                    ops
                } else {
                    sample.bandwidth
                };
                remember(
                    &mut self.annots,
                    Annot { t, y_value, old_n: before, new_n: d.thread_count },
                );
            }
        }
        self.last_thread_count = Some(d.thread_count);
        self.last_snapshot_at = t;
        remember(&mut self.samples, sample);
        self.status = snapshot_to_status(d);
        sample
    }
}

/// The last entry of a VM in the daemon's reply.
pub open spec fn last_entry(vms: Seq<SnapshotVm>, id: Seq<char>) -> Option<SnapshotVm>
    decreases vms.len(),
{
    if vms.len() == 0 {
        None
    } else if vms.last().id@ == id {
        Some(vms.last())
    } else {
        last_entry(vms.drop_last(), id)
    }
}

/// Find the last entry of a VM.
fn find_entry(payload: &SnapshotPayload, id: &str) -> (r: Option<usize>)
    ensures
        match r {
            Some(i) => i < payload.vms@.len() && last_entry(payload.vms@, id@) == Some(
                payload.vms@[i as int],
            ),
            None => last_entry(payload.vms@, id@) is None,
        },
{
    let mut i: usize = payload.vms.len();
    assert(payload.vms@.take(i as int) == payload.vms@);
    while i > 0
        invariant
            i <= payload.vms@.len(),
            last_entry(payload.vms@.take(i as int), id@) == last_entry(payload.vms@, id@),
        decreases i,
    {
        proof {
            assert(payload.vms@.take(i as int).drop_last() == payload.vms@.take(i - 1));
            assert(payload.vms@.take(i as int).last() == payload.vms@[i - 1]);
        }
        if same(payload.vms[i - 1].id.as_str(), id) {
            return Some(i - 1);
        }
        i -= 1;
    }
    None
}

/// A VM after the daemon's reply; one that the reply omits stays as it is.
pub open spec fn observed(vm: VmModel, vms: Seq<SnapshotVm>, t: u64) -> VmModel {
    match last_entry(vms, vm.id) {
        Some(d) => observe(vm, d, t),
        None => vm,
    }
}

/// The sum over the VMs that a reply lists.
#[verifier::ext_equal]
pub struct FleetSum {
    /// How many there are.
    pub live: nat,
    /// Operations per second.
    pub iops: u128,
    /// Bytes per second.
    pub bandwidth: u128,
    /// CPU time per second.
    pub cpu: u128,
    /// Inflight depth.
    pub qd: u128,
    /// Worker count.
    pub thread_count: u32,
}

/// The sum of two worker counts, capped at the largest one.
pub open spec fn capped_threads(a: u32, b: u32) -> u32 {
    if a + b > u32::MAX {
        u32::MAX
    } else {
        (a + b) as u32
    }
}

/// A sum with one more sample.
pub open spec fn with_sample(sum: FleetSum, sample: Sample) -> FleetSum {
    FleetSum {
        live: sum.live + 1,
        iops: capped_total(sum.iops, sample.iops),
        bandwidth: capped_total(sum.bandwidth, sample.bandwidth),
        cpu: capped_total(sum.cpu, sample.cpu),
        qd: capped_total(sum.qd, sample.qd),
        thread_count: capped_threads(sum.thread_count, sample.thread_count),
    }
}

/// The sum over the tracked VMs that the reply lists.
pub open spec fn fleet_sum(roster: Seq<VmModel>, vms: Seq<SnapshotVm>, t: u64) -> FleetSum
    decreases roster.len(),
{
    if roster.len() == 0 {
        FleetSum { live: 0, iops: 0, bandwidth: 0, cpu: 0, qd: 0, thread_count: 0 }
    } else {
        let rest = fleet_sum(roster.drop_last(), vms, t);
        match last_entry(vms, roster.last().id) {
            Some(d) => with_sample(rest, sample_of(d, t)),
            None => rest,
        }
    }
}

/// The sample of the fleet as a whole. There are no fleet-wide latencies: their
/// percentiles cannot be combined.
pub open spec fn fleet_sample(sum: FleetSum, t: u64) -> Sample {
    Sample {
        t,
        iops: sum.iops,
        bandwidth: sum.bandwidth,
        lat_r: None,
        lat_w: None,
        lat_r_avg: None,
        lat_w_avg: None,
        cpu: sum.cpu,
        qd: sum.qd,
        thread_count: sum.thread_count,
        cpu_us_per_iop: us_per_iop(sum.cpu, sum.iops),
    }
}

/// The aggregate history after a reply: it grows when at least two VMs are live.
pub open spec fn aggregate_after(
    aggregate: Seq<Sample>,
    roster: Seq<VmModel>,
    vms: Seq<SnapshotVm>,
    t: u64,
) -> Seq<Sample> {
    let sum = fleet_sum(roster, vms, t);
    if sum.live >= 2 {
        recent(aggregate.push(fleet_sample(sum, t)))
    } else {
        aggregate
    }
}

/// Whether an id passes the selection: it holds one of the patterns, or there
/// are none.
pub open spec fn selected(id: Seq<char>, select: Seq<Seq<char>>) -> bool {
    select.len() == 0 || exists|i: int| 0 <= i < select.len() && occurs(id, #[trigger] select[i])
}

/// Decide [`selected`].
pub fn is_selected(id: &str, select: &Vec<String>) -> (r: bool)
    ensures
        r == selected(id@, texts(select@)),
{
    if select.len() == 0 {
        return true;
    }
    let ghost patterns = texts(select@);
    let mut i: usize = 0;
    while i < select.len()
        invariant
            i <= select@.len(),
            patterns == texts(select@),
            forall|j: int| 0 <= j < i ==> !occurs(id@, #[trigger] patterns[j]),
        decreases select@.len() - i,
    {
        assert(patterns[i as int] == select@[i as int]@);
        if contains_text(id, select[i].as_str()) {
            return true;
        }
        i += 1;
    }
    false
}

/// The ids in a reply.
pub open spec fn entry_ids(vms: Seq<SnapshotVm>) -> Seq<Seq<char>> {
    vms.map_values(|d: SnapshotVm| d.id@)
}

/// The ids that the roster should hold.
pub open spec fn wanted(ids: Seq<Seq<char>>, select: Seq<Seq<char>>) -> Set<Seq<char>> {
    Set::new(|id: Seq<char>| ids.contains(id) && selected(id, select))
}

/// The ids of a roster.
pub open spec fn roster_ids(roster: Seq<VmModel>) -> Set<Seq<char>> {
    Set::new(|id: Seq<char>| exists|i: int| 0 <= i < roster.len() && (#[trigger] roster[i]).id == id)
}

/// The roster with the wanted ids that it did not hold appended, in the order of
/// the reply; each takes the next palette slot.
pub open spec fn grown(
    roster: Seq<VmModel>,
    ids: Seq<Seq<char>>,
    select: Seq<Seq<char>>,
    existing: Set<Seq<char>>,
    now: u64,
) -> Seq<VmModel>
    decreases ids.len(),
{
    if ids.len() == 0 {
        roster
    } else {
        let rest = grown(roster, ids.drop_last(), select, existing, now);
        if selected(ids.last(), select) && !existing.contains(ids.last()) {
            rest.push(fresh_vm(ids.last(), rest.len() as usize, now))
        } else {
            rest
        }
    }
}

/// The streaks after a reply: a VM that it lists has none, one that it omits has
/// one more.
pub open spec fn counted(
    streaks: Map<Seq<char>, u32>,
    existing: Set<Seq<char>>,
    listed: Set<Seq<char>>,
) -> Map<Seq<char>, u32> {
    Map::new(
        |id: Seq<char>|
            if existing.contains(id) {
                !listed.contains(id)
            } else {
                streaks.dom().contains(id)
            },
        |id: Seq<char>|
            if existing.contains(id) {
                one_more(streak_of(streaks, id))
            } else {
                streaks[id]
            },
    )
}

/// Whether a VM has been missing for too long.
pub open spec fn overdue(streaks: Map<Seq<char>, u32>, id: Seq<char>) -> bool {
    streak_of(streaks, id) >= MISSING_STREAK_DROP
}

/// The roster without the VMs that have been missing for too long.
pub open spec fn pruned(roster: Seq<VmModel>, streaks: Map<Seq<char>, u32>) -> Seq<VmModel> {
    roster.filter(|vm: VmModel| !overdue(streaks, vm.id))
}

/// The streaks once a reply is reconciled, before VMs are dropped.
pub open spec fn streaks_after(
    roster: Seq<VmModel>,
    streaks: Map<Seq<char>, u32>,
    ids: Seq<Seq<char>>,
    select: Seq<Seq<char>>,
) -> Map<Seq<char>, u32> {
    counted(streaks, roster_ids(roster), wanted(ids, select))
}

/// The roster once a reply is reconciled.
pub open spec fn reconciled(
    roster: Seq<VmModel>,
    streaks: Map<Seq<char>, u32>,
    ids: Seq<Seq<char>>,
    select: Seq<Seq<char>>,
    now: u64,
) -> Seq<VmModel> {
    pruned(
        grown(roster, ids, select, roster_ids(roster), now),
        streaks_after(roster, streaks, ids, select),
    )
}

/// The outcome of taking up one reply of the daemon.
#[derive(Debug, Clone, Copy, PartialEq, Eq, Structural)]
pub enum PollOutcome {
    /// The reply was folded in; `recovered` tells whether polls had failed before.
    Folded {
        /// Whether the daemon is reachable again.
        recovered: bool,
    },
    /// The poll failed; the streak of failures so far.
    Failed {
        /// Failures in a row.
        streak: u32,
    },
}

/// The failed polls in a row after one more poll; the count wraps.
pub open spec fn failures_after(failures: u32, failed: bool) -> u32 {
    if !failed || failures == u32::MAX {
        0
    } else {
        (failures + 1) as u32
    }
}

/// The failed polls in a row after a series of polls, from none; each entry
/// tells whether its poll failed.
pub open spec fn failures_after_all(polls: Seq<bool>) -> u32
    decreases polls.len(),
{
    if polls.len() == 0 {
        0
    } else {
        failures_after(failures_after_all(polls.drop_last()), polls.last())
    }
}

/// Whether so many failed polls in a row make the daemon count as lost.
pub open spec fn counts_as_lost(failures: u32) -> bool {
    failures >= DAEMON_LOST_STREAK
}

/// The tracked fleet, shared by the sampler and the display.
#[derive(Debug)]
pub struct Fleet {
    /// The tracked VMs.
    pub vms: Vec<VmState>,
    /// Fleet-wide samples, oldest first.
    pub aggregate: VecDeque<Sample>,
    /// How many replies in a row omitted a tracked VM.
    pub missing: Streaks,
    /// Whether sampling is paused.
    pub paused: bool,
    /// The refresh cadence in nanoseconds.
    pub refresh_ns: u64,
    /// Failed polls in a row.
    pub failed_streak: u32,
    /// The freshest failure.
    pub last_error: Option<String>,
}

impl Fleet {
    /// Track nothing yet.
    pub fn new(refresh_ns: u64) -> (r: Self)
        ensures
            r.vms@.len() == 0,
            r.aggregate@.len() == 0,
            r.missing@ == Map::<Seq<char>, u32>::empty(),
            !r.paused,
            r.refresh_ns == refresh_ns,
            r.failed_streak == 0,
            r.last_error is None,
    {
        Fleet {
            vms: Vec::new(),
            aggregate: VecDeque::new(),
            missing: Streaks::new(),
            paused: false,
            refresh_ns,
            failed_streak: 0,
            last_error: None,
        }
    }

    /// The models of the tracked VMs.
    pub open spec fn roster(&self) -> Seq<VmModel> {
        vm_models(self.vms@)
    }

    /// The refresh cadence, at least [`MIN_REFRESH_NS`].
    pub fn refresh_period(&self) -> (r: u64)
        ensures
            r == if self.refresh_ns < MIN_REFRESH_NS {
                MIN_REFRESH_NS
            } else {
                self.refresh_ns
            },
    {
        if self.refresh_ns < MIN_REFRESH_NS {
            MIN_REFRESH_NS
        } else {
            self.refresh_ns
        }
    }

    /// Whether the sampler polls the daemon on this tick.
    pub fn poll_due(&self) -> (r: bool)
        ensures
            r == !self.paused,
    {
        !self.paused
    }

    /// The failure to show, once the daemon counts as lost.
    pub fn daemon_error(&self) -> (r: Option<String>)
        ensures
            match r {
                Some(why) => counts_as_lost(self.failed_streak) && self.last_error == Some(why),
                None => !counts_as_lost(self.failed_streak) || self.last_error is None,
            },
    {
        if self.failed_streak >= DAEMON_LOST_STREAK {
            match &self.last_error {
                Some(why) => Some(why.clone()),
                None => None,
            }
        } else {
            None
        }
    }

    /// Discard all sample history.
    pub fn reset_autoscale(&mut self)
        ensures
            final(self).roster() == old(self).roster().map_values(
                |vm: VmModel|
                    VmModel { samples: Seq::<Sample>::empty(), annots: Seq::<Annot>::empty(), ..vm },
            ),
            final(self).aggregate@.len() == 0,
            *final(self) == (Fleet {
                vms: final(self).vms,
                aggregate: final(self).aggregate,
                ..*old(self)
            }),
    {
        let ghost before = self.vms@;
        let mut i: usize = 0;
        while i < self.vms.len()
            invariant
                i <= self.vms@.len(),
                self.vms@.len() == before.len(),
                *self == (Fleet { vms: self.vms, ..*old(self) }),
                forall|j: int|
                    0 <= j < i ==> (#[trigger] self.vms@[j])@ == (VmModel {
                        samples: Seq::<Sample>::empty(),
                        annots: Seq::<Annot>::empty(),
                        ..before[j]@
                    }),
                forall|j: int| i <= j < self.vms@.len() ==> self.vms@[j] == before[j],
            decreases self.vms@.len() - i,
        {
            self.vms[i].samples.clear();
            self.vms[i].annots.clear();
            assert(self.vms@[i as int]@ == (VmModel {
                samples: Seq::<Sample>::empty(),
                annots: Seq::<Annot>::empty(),
                ..before[i as int]@
            }));
            i += 1;
        }
        self.aggregate.clear();
    }

    /// The ids of the tracked VMs.
    fn ids(&self) -> (r: NameSet)
        ensures
            r@ == roster_ids(self.roster()),
    {
        let mut out = NameSet::new();
        let ghost roster = self.roster();
        let mut i: usize = 0;
        assert(out@ == roster_ids(roster.take(0)));
        while i < self.vms.len()
            invariant
                i <= self.vms@.len(),
                roster == self.roster(),
                out@ == roster_ids(roster.take(i as int)),
            decreases self.vms@.len() - i,
        {
            out.insert(self.vms[i].id.as_str());
            proof {
                let a = roster.take(i as int);
                let b = roster.take(i + 1);
                assert(b[i as int] == self.vms@[i as int]@);
                assert forall|id: Seq<char>| #[trigger]
                    roster_ids(b).contains(id) == roster_ids(a).insert(
                        self.vms@[i as int].id@,
                    ).contains(id) by {
                    if roster_ids(a).contains(id) {
                        let k = choose|k: int| 0 <= k < a.len() && (#[trigger] a[k]).id == id;
                        assert(b[k].id == id);
                    }
                    if roster_ids(b).contains(id) {
                        let k = choose|k: int| 0 <= k < b.len() && (#[trigger] b[k]).id == id;
                        if k < i {
                            assert(a[k].id == id);
                        }
                    }
                }
                assert(out@ == roster_ids(b));
            }
            i += 1;
        }
        assert(roster.take(self.vms@.len() as int) == roster);
        out
    }

    /// Append the wanted VMs that are not tracked yet.
    fn append_new(
        &mut self,
        payload: &SnapshotPayload,
        select: &Vec<String>,
        existing: &NameSet,
        now: u64,
    )
        ensures
            final(self).roster() == grown(
                old(self).roster(),
                entry_ids(payload.vms@),
                texts(select@),
                existing@,
                now,
            ),
            *final(self) == (Fleet { vms: final(self).vms, ..*old(self) }),
    {
        let ghost ids = entry_ids(payload.vms@);
        let ghost start = self.roster();
        let mut i: usize = 0;
        assert(ids.take(0).len() == 0);
        while i < payload.vms.len()
            invariant
                i <= payload.vms@.len(),
                ids == entry_ids(payload.vms@),
                start == old(self).roster(),
                self.roster() == grown(start, ids.take(i as int), texts(select@), existing@, now),
                *self == (Fleet { vms: self.vms, ..*old(self) }),
            decreases payload.vms@.len() - i,
        {
            proof {
                assert(ids.take(i + 1).drop_last() == ids.take(i as int));
                assert(ids.take(i + 1).last() == payload.vms@[i as int].id@);
            }
            let id = &payload.vms[i].id;
            if is_selected(id.as_str(), select) && !existing.contains(id.as_str()) {
                let color_idx: usize = self.vms.len();
                let ghost before = self.vms@;
                self.vms.push(VmState::new(id.clone(), color_idx, now));
                assert(vm_models(self.vms@) == vm_models(before).push(
                    fresh_vm(id@, color_idx, now),
                ));
            }
            i += 1;
        }
        assert(ids.take(payload.vms@.len() as int) == ids);
    }

    /// Count who is missing.
    fn count_missing(&mut self, existing: &NameSet, listed: &NameSet)
        ensures
            final(self).missing@ == counted(old(self).missing@, existing@, listed@),
            *final(self) == (Fleet { missing: final(self).missing, ..*old(self) }),
    {
        let names = existing.to_vec();
        let ghost keys = texts(names@);
        let ghost start = self.missing@;
        let mut i: usize = 0;
        assert(keys.take(0).to_set() == Set::<Seq<char>>::empty());
        assert(self.missing@ == counted(start, keys.take(0).to_set(), listed@));
        while i < names.len()
            invariant
                i <= names@.len(),
                keys == texts(names@),
                forall|a: int, b: int|
                    0 <= a < b < names@.len() ==> crate::order::text_lt(
                        #[trigger] names@[a]@,
                        #[trigger] names@[b]@,
                    ),
                start == old(self).missing@,
                self.missing@ == counted(start, keys.take(i as int).to_set(), listed@),
                *self == (Fleet { missing: self.missing, ..*old(self) }),
            decreases names@.len() - i,
        {
            let ghost done = keys.take(i as int).to_set();
            let ghost more = keys.take(i + 1).to_set();
            let ghost name = names@[i as int]@;
            proof {
                assert(keys[i as int] == name);
                assert(keys.take(i + 1) == keys.take(i as int).push(name));
                assert forall|id: Seq<char>| #[trigger]
                    more.contains(id) == done.insert(name).contains(id) by {
                    let a = keys.take(i as int);
                    let b = keys.take(i + 1);
                    if done.contains(id) {
                        let k = choose|k: int| 0 <= k < a.len() && a[k] == id;
                        assert(b[k] == id);
                    }
                    if id == name {
                        assert(b[i as int] == id);
                    }
                    if more.contains(id) {
                        let k = choose|k: int| 0 <= k < b.len() && b[k] == id;
                        if k < i {
                            assert(a[k] == id);
                        }
                    }
                }
                assert(!done.contains(name)) by {
                    if done.contains(name) {
                        let a = keys.take(i as int);
                        let k = choose|k: int| 0 <= k < a.len() && a[k] == name;
                        assert(crate::order::text_lt(names@[k]@, names@[i as int]@));
                        text_order_total(name, name);
                    }
                }
            }
            if listed.contains(names[i].as_str()) {
                self.missing.remove(names[i].as_str());
            } else {
                self.missing.bump(names[i].as_str());
            }
            proof {
                assert(self.missing@ == counted(start, more, listed@));
            }
            i += 1;
        }
        assert(keys.take(names@.len() as int) == keys);
    }

    /// Drop the VMs that have been missing for too long.
    fn drop_overdue(&mut self)
        ensures
            final(self).roster() == pruned(old(self).roster(), old(self).missing@),
            final(self).missing@ == below(old(self).missing@, MISSING_STREAK_DROP),
            *final(self) == (Fleet {
                vms: final(self).vms,
                missing: final(self).missing,
                ..*old(self)
            }),
    {
        let ghost full = self.roster();
        let ghost streaks = self.missing@;
        let ghost keep = |vm: VmModel| !overdue(streaks, vm.id);
        let ghost mut seen: int = 0;
        let mut i: usize = 0;
        proof {
            reveal(Seq::filter);
            assert(full.take(0).filter(keep) + full.skip(0) == full);
        }
        while i < self.vms.len()
            invariant
                0 <= seen <= full.len(),
                full == old(self).roster(),
                streaks == old(self).missing@,
                keep == (|vm: VmModel| !overdue(streaks, vm.id)),
                self.roster() == full.take(seen).filter(keep) + full.skip(seen),
                i == full.take(seen).filter(keep).len(),
                *self == (Fleet { vms: self.vms, ..*old(self) }),
            decreases full.len() - seen,
        {
            let ghost left = full.take(seen).filter(keep);
            proof {
                assert(self.roster().len() == self.vms@.len());
                assert(seen < full.len());
                assert(self.roster()[i as int] == full.skip(seen)[0]);
                assert(self.vms@[i as int]@ == full[seen]);
                assert(full.take(seen + 1).drop_last() == full.take(seen));
                assert(full.take(seen + 1).last() == full[seen]);
                reveal(Seq::filter);
            }
            let streak: u32 = self.missing.get(self.vms[i].id.as_str());
            if streak >= MISSING_STREAK_DROP {
                let ghost before = self.vms@;
                let _ = self.vms.remove(i);
                proof {
                    assert(vm_models(self.vms@) == vm_models(before).remove(i as int));
                    assert(self.roster() == left + full.skip(seen + 1));
                }
            } else {
                proof {
                    assert(full.take(seen + 1).filter(keep) == left.push(full[seen]));
                    assert(self.roster() == left.push(full[seen]) + full.skip(seen + 1));
                }
                i += 1;
            }
            proof {
                seen = seen + 1;
            }
        }
        proof {
            assert(self.roster().len() == self.vms@.len());
            assert(seen == full.len());
            assert(full.take(seen) == full);
            assert(full.skip(seen).len() == 0);
            assert(self.roster() == full.filter(keep));
        }
        self.missing.drop_from(MISSING_STREAK_DROP);
    }

    /// Roster reconciliation: append what is new and wanted, and drop what has
    /// been missing for too long.
    pub fn reconcile_with_snapshot(
        &mut self,
        payload: &SnapshotPayload,
        select: &Vec<String>,
        now: u64,
    )
        ensures
            final(self).roster() == reconciled(
                old(self).roster(),
                old(self).missing@,
                entry_ids(payload.vms@),
                texts(select@),
                now,
            ),
            final(self).missing@ == below(
                streaks_after(
                    old(self).roster(),
                    old(self).missing@,
                    entry_ids(payload.vms@),
                    texts(select@),
                ),
                MISSING_STREAK_DROP,
            ),
            *final(self) == (Fleet {
                vms: final(self).vms,
                missing: final(self).missing,
                ..*old(self)
            }),
    {
        let ghost ids = entry_ids(payload.vms@);
        let ghost patterns = texts(select@);
        let mut listed = NameSet::new();
        let mut i: usize = 0;
        assert(listed@ == wanted(ids.take(0), patterns));
        while i < payload.vms.len()
            invariant
                i <= payload.vms@.len(),
                ids == entry_ids(payload.vms@),
                patterns == texts(select@),
                listed@ == wanted(ids.take(i as int), patterns),
            decreases payload.vms@.len() - i,
        {
            let ghost before = listed@;
            let id = &payload.vms[i].id;
            if is_selected(id.as_str(), select) {
                listed.insert(id.as_str());
            }
            proof {
                let a = ids.take(i as int);
                let b = ids.take(i + 1);
                assert(b[i as int] == id@);
                assert forall|s: Seq<char>| #[trigger]
                    wanted(b, patterns).contains(s) == listed@.contains(s) by {
                    if a.contains(s) {
                        let k = choose|k: int| 0 <= k < a.len() && a[k] == s;
                        assert(b[k] == s);
                    }
                    if b.contains(s) {
                        let k = choose|k: int| 0 <= k < b.len() && b[k] == s;
                        if k < i {
                            assert(a[k] == s);
                        }
                    }
                    if s == id@ {
                        assert(b.contains(s));
                    }
                }
                assert(listed@ == wanted(b, patterns));
            }
            i += 1;
        }
        assert(ids.take(payload.vms@.len() as int) == ids);
        let existing = self.ids();
        self.append_new(payload, select, &existing, now);
        self.count_missing(&existing, &listed);
        self.drop_overdue();
    }

    /// Fold the entries of a reply into the histories of the tracked VMs and of
    /// the fleet.
    pub fn fold_snapshot(&mut self, payload: &SnapshotPayload, t: u64)
        ensures
            final(self).roster() == old(self).roster().map_values(
                |vm: VmModel| observed(vm, payload.vms@, t),
            ),
            final(self).aggregate@ == aggregate_after(
                old(self).aggregate@,
                old(self).roster(),
                payload.vms@,
                t,
            ),
            *final(self) == (Fleet {
                vms: final(self).vms,
                aggregate: final(self).aggregate,
                ..*old(self)
            }),
    {
        let ghost before = self.vms@;
        let ghost start = self.roster();
        let mut live: usize = 0;
        let mut iops: u128 = 0;
        let mut bandwidth: u128 = 0;
        let mut cpu: u128 = 0;
        let mut qd: u128 = 0;
        let mut thread_count: u32 = 0;
        let mut i: usize = 0;
        assert(start.take(0).len() == 0);
        while i < self.vms.len()
            invariant
                i <= self.vms@.len(),
                self.vms@.len() == before.len(),
                start == vm_models(before),
                before == old(self).vms@,
                live <= i,
                (FleetSum { live: live as nat, iops, bandwidth, cpu, qd, thread_count })
                    == fleet_sum(start.take(i as int), payload.vms@, t),
                forall|j: int|
                    0 <= j < i ==> (#[trigger] self.vms@[j])@ == observed(
                        before[j]@,
                        payload.vms@,
                        t,
                    ),
                forall|j: int| i <= j < self.vms@.len() ==> self.vms@[j] == before[j],
                *self == (Fleet { vms: self.vms, ..*old(self) }),
            decreases self.vms@.len() - i,
        {
            proof {
                assert(start.take(i + 1).drop_last() == start.take(i as int));
                assert(start.take(i + 1).last() == before[i as int]@);
            }
            if let Some(at) = find_entry(payload, self.vms[i].id.as_str()) {
                let sample: Sample = self.vms[i].observe(&payload.vms[at], t);
                live += 1;
                iops = iops.saturating_add(sample.iops);
                bandwidth = bandwidth.saturating_add(sample.bandwidth);
                cpu = cpu.saturating_add(sample.cpu);
                qd = qd.saturating_add(sample.qd);
                thread_count = thread_count.saturating_add(sample.thread_count);
            }
            i += 1;
        }
        proof {
            assert(start.take(before.len() as int) == start);
            assert(self.roster() == start.map_values(
                |vm: VmModel| observed(vm, payload.vms@, t),
            ));
        }
        if live >= 2 {
            remember(
                &mut self.aggregate,
                Sample {
                    t,
                    iops,
                    bandwidth,
                    lat_r: None,
                    lat_w: None,
                    lat_r_avg: None,
                    lat_w_avg: None,
                    cpu,
                    qd,
                    thread_count,
                    cpu_us_per_iop: cpu_us_per_iop(cpu, iops),
                },
            );
        }
    }

    /// Take up the daemon's answer to one poll. A failure only counts; the first
    /// success after failures clears the error.
    pub fn take_reply(
        &mut self,
        reply: Result<SnapshotPayload, String>,
        select: &Vec<String>,
        t: u64,
    ) -> (r: PollOutcome)
        ensures
            polled(*old(self), reply, texts(select@), t, *final(self), r),
    {
        match reply {
            Ok(payload) => {
                let recovered: bool = self.failed_streak > 0;
                if recovered {
                    self.failed_streak = 0;
                    self.last_error = None;
                }
                self.reconcile_with_snapshot(&payload, select, t);
                self.fold_snapshot(&payload, t);
                PollOutcome::Folded { recovered }
            },
            Err(why) => {
                self.failed_streak = self.failed_streak.wrapping_add(1);
                self.last_error = Some(why);
                PollOutcome::Failed { streak: self.failed_streak }
            },
        }
    }
}

/// What taking up the answer to one poll leaves. A reply is reconciled with the
/// roster and folded in, and ends a series of failures; a failure only counts.
pub open spec fn polled(
    before: Fleet,
    reply: Result<SnapshotPayload, String>,
    select: Seq<Seq<char>>,
    t: u64,
    after: Fleet,
    r: PollOutcome,
) -> bool {
    match reply {
        Ok(payload) => {
            let roster = reconciled(
                before.roster(),
                before.missing@,
                entry_ids(payload.vms@),
                select,
                t,
            );
            &&& r == (PollOutcome::Folded { recovered: before.failed_streak > 0 })
            &&& after.roster() == roster.map_values(
                |vm: VmModel| observed(vm, payload.vms@, t),
            )
            &&& after.aggregate@ == aggregate_after(
                before.aggregate@,
                roster,
                payload.vms@,
                t,
            )
            &&& after.missing@ == below(
                streaks_after(
                    before.roster(),
                    before.missing@,
                    entry_ids(payload.vms@),
                    select,
                ),
                MISSING_STREAK_DROP,
            )
            &&& after == (Fleet {
                vms: after.vms,
                aggregate: after.aggregate,
                missing: after.missing,
                failed_streak: failures_after(before.failed_streak, false),
                last_error: if before.failed_streak > 0 {
                    None
                } else {
                    before.last_error
                },
                ..before
            })
        },
        Err(why) => {
            let streak = failures_after(before.failed_streak, true);
            &&& r == (PollOutcome::Failed { streak })
            &&& after == (Fleet {
                failed_streak: streak,
                last_error: Some(why),
                ..before
            })
        },
    }
}

proof fn lemma_grown(
    roster: Seq<VmModel>,
    ids: Seq<Seq<char>>,
    select: Seq<Seq<char>>,
    existing: Set<Seq<char>>,
    now: u64,
)
    ensures
        roster.len() <= grown(roster, ids, select, existing, now).len(),
        grown(roster, ids, select, existing, now).take(roster.len() as int) == roster,
        forall|i: int|
            roster.len() <= i < grown(roster, ids, select, existing, now).len() ==> {
                let id = (#[trigger] grown(roster, ids, select, existing, now)[i]).id;
                &&& ids.contains(id)
                &&& selected(id, select)
                &&& !existing.contains(id)
            },
        forall|id: Seq<char>|
            ids.contains(id) && selected(id, select) && !existing.contains(id)
                ==> #[trigger] roster_ids(grown(roster, ids, select, existing, now)).contains(id),
    decreases ids.len(),
{
    let all = grown(roster, ids, select, existing, now);
    if ids.len() == 0 {
        assert(all.take(roster.len() as int) == roster);
    } else {
        let rest = grown(roster, ids.drop_last(), select, existing, now);
        lemma_grown(roster, ids.drop_last(), select, existing, now);
        assert(all.take(roster.len() as int) == rest.take(roster.len() as int));
        assert forall|i: int| roster.len() <= i < all.len() implies {
            let id = (#[trigger] all[i]).id;
            &&& ids.contains(id)
            &&& selected(id, select)
            &&& !existing.contains(id)
        } by {
            if i < rest.len() {
                let id = rest[i].id;
                assert(ids.drop_last().contains(id));
                let k = choose|k: int|
                    0 <= k < ids.drop_last().len() && ids.drop_last()[k] == id;
                assert(ids[k] == id);
            } else {
                assert(ids[ids.len() - 1] == all[i].id);
            }
        }
        assert forall|id: Seq<char>|
            ids.contains(id) && selected(id, select) && !existing.contains(
                id,
            ) implies #[trigger] roster_ids(all).contains(id) by {
            if id == ids.last() {
                assert(all[all.len() - 1].id == id);
            } else {
                let k = choose|k: int| 0 <= k < ids.len() && ids[k] == id;
                assert(ids.drop_last()[k] == id);
                assert(roster_ids(rest).contains(id));
                let j = choose|j: int| 0 <= j < rest.len() && (#[trigger] rest[j]).id == id;
                assert(all[j].id == id);
            }
        }
    }
}

proof fn lemma_pruned(roster: Seq<VmModel>, streaks: Map<Seq<char>, u32>, vm: VmModel)
    ensures
        pruned(roster, streaks).contains(vm) <==> roster.contains(vm) && !overdue(streaks, vm.id),
{
    let keep = |vm: VmModel| !overdue(streaks, vm.id);
    let kept = roster.filter(keep);
    if roster.contains(vm) && keep(vm) {
        let i = choose|i: int| 0 <= i < roster.len() && roster[i] == vm;
        roster.lemma_filter_contains(keep, i);
    }
    if kept.contains(vm) {
        let i = choose|i: int| 0 <= i < kept.len() && kept[i] == vm;
        roster.lemma_filter_pred(keep, i);
        roster.lemma_filter_contains_rev(keep, vm);
    }
}

/// A tracked VM that the reply lists stays tracked with all its history, and has
/// no streak any more.
pub proof fn listed_vms_are_kept(
    roster: Seq<VmModel>,
    streaks: Map<Seq<char>, u32>,
    ids: Seq<Seq<char>>,
    select: Seq<Seq<char>>,
    now: u64,
    i: int,
)
    requires
        0 <= i < roster.len(),
        wanted(ids, select).contains(roster[i].id),
    ensures
        reconciled(roster, streaks, ids, select, now).contains(roster[i]),
        !streaks_after(roster, streaks, ids, select).dom().contains(roster[i].id),
{
    let existing = roster_ids(roster);
    let all = grown(roster, ids, select, existing, now);
    lemma_grown(roster, ids, select, existing, now);
    assert(all.take(roster.len() as int)[i] == all[i]);
    assert(all.contains(roster[i]));
    assert(existing.contains(roster[i].id));
    lemma_pruned(all, streaks_after(roster, streaks, ids, select), roster[i]);
}

/// The VMs that stay keep their order, and new ones come behind them: as long as
/// streaks are counted for tracked VMs only, a reply drops none of the VMs that it
/// brings.
pub proof fn reconciling_keeps_the_order(
    roster: Seq<VmModel>,
    streaks: Map<Seq<char>, u32>,
    ids: Seq<Seq<char>>,
    select: Seq<Seq<char>>,
    now: u64,
)
    requires
        streaks.dom().subset_of(roster_ids(roster)),
    ensures
        reconciled(roster, streaks, ids, select, now) == roster.filter(
            |vm: VmModel| !overdue(streaks_after(roster, streaks, ids, select), vm.id),
        ) + grown(roster, ids, select, roster_ids(roster), now).skip(roster.len() as int),
{
    let existing = roster_ids(roster);
    let later = streaks_after(roster, streaks, ids, select);
    let keep = |vm: VmModel| !overdue(later, vm.id);
    let all = grown(roster, ids, select, existing, now);
    let added = all.skip(roster.len() as int);
    lemma_grown(roster, ids, select, existing, now);
    assert(all == roster + added) by {
        assert(all == all.take(roster.len() as int) + added);
    }
    Seq::filter_distributes_over_add(roster, added, keep);
    assert forall|i: int| 0 <= i < added.len() implies keep(#[trigger] added[i]) by {
        assert(added[i] == all[roster.len() + i]);
        assert(!existing.contains(added[i].id));
        assert(!later.dom().contains(added[i].id));
    }
    lemma_filter_all(added, keep);
}

proof fn lemma_filter_all(vms: Seq<VmModel>, keep: spec_fn(VmModel) -> bool)
    requires
        forall|i: int| 0 <= i < vms.len() ==> keep(#[trigger] vms[i]),
    ensures
        vms.filter(keep) == vms,
    decreases vms.len(),
{
    reveal(Seq::filter);
    if vms.len() > 0 {
        let rest = vms.drop_last();
        assert forall|i: int| 0 <= i < rest.len() implies keep(#[trigger] rest[i]) by {
            assert(rest[i] == vms[i]);
        }
        lemma_filter_all(rest, keep);
        assert(vms == rest.push(vms.last()));
    }
}

/// No two VMs of a roster have the same id.
pub open spec fn distinct_ids(roster: Seq<VmModel>) -> bool {
    forall|i: int, j: int|
        0 <= i < j < roster.len() ==> (#[trigger] roster[i]).id != (#[trigger] roster[j]).id
}

proof fn lemma_grown_distinct(
    roster: Seq<VmModel>,
    ids: Seq<Seq<char>>,
    select: Seq<Seq<char>>,
    now: u64,
)
    requires
        distinct_ids(roster),
        ids.no_duplicates(),
    ensures
        distinct_ids(grown(roster, ids, select, roster_ids(roster), now)),
    decreases ids.len(),
{
    if ids.len() > 0 {
        let existing = roster_ids(roster);
        let fewer = ids.drop_last();
        let rest = grown(roster, fewer, select, existing, now);
        let all = grown(roster, ids, select, existing, now);
        assert(fewer.no_duplicates());
        lemma_grown_distinct(roster, fewer, select, now);
        lemma_grown(roster, fewer, select, existing, now);
        assert forall|i: int, j: int| 0 <= i < j < all.len() implies (#[trigger] all[i]).id != (
        #[trigger] all[j]).id by {
            if j < rest.len() {
                assert(all[i] == rest[i] && all[j] == rest[j]);
            } else {
                assert(all[i] == rest[i]);
                if i < roster.len() {
                    assert(rest.take(roster.len() as int)[i] == rest[i]);
                    assert(existing.contains(roster[i].id));
                } else {
                    let k = choose|k: int| 0 <= k < fewer.len() && fewer[k] == rest[i].id;
                    assert(fewer.contains(rest[i].id));
                    assert(ids[k] != ids[ids.len() - 1]);
                }
            }
        }
    }
}

proof fn lemma_filter_distinct(vms: Seq<VmModel>, keep: spec_fn(VmModel) -> bool)
    requires
        distinct_ids(vms),
    ensures
        distinct_ids(vms.filter(keep)),
    decreases vms.len(),
{
    reveal(Seq::filter);
    if vms.len() > 0 {
        let rest = vms.drop_last();
        assert forall|i: int, j: int| 0 <= i < j < rest.len() implies (#[trigger] rest[i]).id != (
        #[trigger] rest[j]).id by {
            assert(rest[i] == vms[i] && rest[j] == vms[j]);
        }
        lemma_filter_distinct(rest, keep);
        let kept = rest.filter(keep);
        let all = vms.filter(keep);
        assert forall|i: int, j: int| 0 <= i < j < all.len() implies (#[trigger] all[i]).id != (
        #[trigger] all[j]).id by {
            assert(all[i] == kept[i]);
            if j < kept.len() {
                assert(all[j] == kept[j]);
            } else {
                assert(kept.contains(kept[i]));
                rest.lemma_filter_contains_rev(keep, kept[i]);
                let k = choose|k: int| 0 <= k < rest.len() && rest[k] == kept[i];
                assert(vms[k].id != vms[vms.len() - 1].id);
            }
        }
    }
}

/// A reply that lists no VM twice leaves the ids of the roster distinct.
pub proof fn ids_stay_distinct(
    roster: Seq<VmModel>,
    streaks: Map<Seq<char>, u32>,
    ids: Seq<Seq<char>>,
    select: Seq<Seq<char>>,
    now: u64,
)
    requires
        distinct_ids(roster),
        ids.no_duplicates(),
    ensures
        distinct_ids(reconciled(roster, streaks, ids, select, now)),
{
    lemma_grown_distinct(roster, ids, select, now);
    lemma_filter_distinct(
        grown(roster, ids, select, roster_ids(roster), now),
        |vm: VmModel| !overdue(streaks_after(roster, streaks, ids, select), vm.id),
    );
}

/// Every id that passes the selection is tracked after a reply that lists it, as
/// long as streaks are counted for tracked VMs only.
pub proof fn wanted_vms_are_tracked(
    roster: Seq<VmModel>,
    streaks: Map<Seq<char>, u32>,
    ids: Seq<Seq<char>>,
    select: Seq<Seq<char>>,
    now: u64,
    id: Seq<char>,
)
    requires
        wanted(ids, select).contains(id),
        streaks.dom().subset_of(roster_ids(roster)),
    ensures
        roster_ids(reconciled(roster, streaks, ids, select, now)).contains(id),
{
    let existing = roster_ids(roster);
    let all = grown(roster, ids, select, existing, now);
    let after = reconciled(roster, streaks, ids, select, now);
    lemma_grown(roster, ids, select, existing, now);
    if existing.contains(id) {
        let i = choose|i: int| 0 <= i < roster.len() && (#[trigger] roster[i]).id == id;
        listed_vms_are_kept(roster, streaks, ids, select, now, i);
        let k = choose|k: int| 0 <= k < after.len() && after[k] == roster[i];
        assert(after[k].id == id);
    } else {
        assert(roster_ids(all).contains(id));
        let i = choose|i: int| 0 <= i < all.len() && (#[trigger] all[i]).id == id;
        assert(all.contains(all[i]));
        assert(!streaks.dom().contains(id));
        lemma_pruned(all, streaks_after(roster, streaks, ids, select), all[i]);
        let k = choose|k: int| 0 <= k < after.len() && after[k] == all[i];
        assert(after[k].id == id);
    }
}

/// A tracked VM that the reply omits stays, with its history, while fewer than
/// [`MISSING_STREAK_DROP`] replies in a row have omitted it; the reply that makes
/// it that many drops it, and its streak with it.
pub proof fn missing_vms_are_dropped_in_time(
    roster: Seq<VmModel>,
    streaks: Map<Seq<char>, u32>,
    ids: Seq<Seq<char>>,
    select: Seq<Seq<char>>,
    now: u64,
    i: int,
)
    requires
        0 <= i < roster.len(),
        !wanted(ids, select).contains(roster[i].id),
    ensures
        streak_of(streaks, roster[i].id) + 1 < MISSING_STREAK_DROP ==> {
            &&& reconciled(roster, streaks, ids, select, now).contains(roster[i])
            &&& streak_of(
                below(streaks_after(roster, streaks, ids, select), MISSING_STREAK_DROP),
                roster[i].id,
            ) == streak_of(streaks, roster[i].id) + 1
        },
        streak_of(streaks, roster[i].id) + 1 >= MISSING_STREAK_DROP ==> {
            &&& !roster_ids(reconciled(roster, streaks, ids, select, now)).contains(roster[i].id)
            &&& !below(
                streaks_after(roster, streaks, ids, select),
                MISSING_STREAK_DROP,
            ).dom().contains(roster[i].id)
        },
{
    let existing = roster_ids(roster);
    let all = grown(roster, ids, select, existing, now);
    let after = reconciled(roster, streaks, ids, select, now);
    let later = streaks_after(roster, streaks, ids, select);
    let id = roster[i].id;
    lemma_grown(roster, ids, select, existing, now);
    assert(all.take(roster.len() as int)[i] == all[i]);
    assert(all.contains(roster[i]));
    assert(existing.contains(id));
    lemma_pruned(all, later, roster[i]);
    if streak_of(streaks, id) + 1 >= MISSING_STREAK_DROP {
        assert(overdue(later, id));
        if roster_ids(after).contains(id) {
            let k = choose|k: int| 0 <= k < after.len() && (#[trigger] after[k]).id == id;
            assert(after.contains(after[k]));
            lemma_pruned(all, later, after[k]);
        }
    }
}

/// Only VMs that were tracked, or that the reply lists and the selection admits,
/// are tracked after it.
pub proof fn nothing_else_is_tracked(
    roster: Seq<VmModel>,
    streaks: Map<Seq<char>, u32>,
    ids: Seq<Seq<char>>,
    select: Seq<Seq<char>>,
    now: u64,
    vm: VmModel,
)
    requires
        reconciled(roster, streaks, ids, select, now).contains(vm),
    ensures
        roster.contains(vm) || wanted(ids, select).contains(vm.id),
{
    let existing = roster_ids(roster);
    let all = grown(roster, ids, select, existing, now);
    lemma_grown(roster, ids, select, existing, now);
    lemma_pruned(all, streaks_after(roster, streaks, ids, select), vm);
    let k = choose|k: int| 0 <= k < all.len() && all[k] == vm;
    if k < roster.len() {
        assert(all.take(roster.len() as int)[k] == all[k]);
        assert(roster[k] == vm);
    }
}

/// Streaks are counted for tracked VMs only, and reconciling keeps it so.
pub proof fn streaks_stay_within_the_roster(
    roster: Seq<VmModel>,
    streaks: Map<Seq<char>, u32>,
    ids: Seq<Seq<char>>,
    select: Seq<Seq<char>>,
    now: u64,
)
    requires
        streaks.dom().subset_of(roster_ids(roster)),
    ensures
        below(streaks_after(roster, streaks, ids, select), MISSING_STREAK_DROP).dom().subset_of(
            roster_ids(reconciled(roster, streaks, ids, select, now)),
        ),
{
    let later = below(streaks_after(roster, streaks, ids, select), MISSING_STREAK_DROP);
    let after = reconciled(roster, streaks, ids, select, now);
    assert forall|id: Seq<char>| later.dom().contains(id) implies #[trigger] roster_ids(
        after,
    ).contains(id) by {
        assert(roster_ids(roster).contains(id));
        let i = choose|i: int| 0 <= i < roster.len() && (#[trigger] roster[i]).id == id;
        missing_vms_are_dropped_in_time(roster, streaks, ids, select, now, i);
        let k = choose|k: int| 0 <= k < after.len() && after[k] == roster[i];
        assert(after[k].id == id);
    }
}

/// No history outgrows [`MAX_HISTORY`], whatever is observed.
pub proof fn histories_stay_bounded(vm: VmModel, vms: Seq<SnapshotVm>, t: u64)
    requires
        vm.samples.len() <= MAX_HISTORY,
        vm.annots.len() <= MAX_HISTORY,
    ensures
        observed(vm, vms, t).samples.len() <= MAX_HISTORY,
        observed(vm, vms, t).annots.len() <= MAX_HISTORY,
{
}

/// A marker is set exactly when the worker count differs from the last one seen.
pub proof fn markers_follow_worker_changes(vm: VmModel, d: SnapshotVm, t: u64)
    requires
        vm.annots.len() < MAX_HISTORY,
    ensures
        observe(vm, d, t).annots != vm.annots <==> (vm.last_thread_count is Some
            && vm.last_thread_count != Some(d.thread_count)),
{
    if let Some(annot) = marker(vm.last_thread_count, sample_of(d, t)) {
        assert(observe(vm, d, t).annots.len() == vm.annots.len() + 1);
    }
}

proof fn lemma_failures_are_counted(polls: Seq<bool>)
    ensures
        failures_after_all(polls) <= polls.len(),
    decreases polls.len(),
{
    if polls.len() > 0 {
        lemma_failures_are_counted(polls.drop_last());
    }
}

/// The daemon counts as lost exactly while at least the last three polls have
/// failed; one success is enough to take that back.
pub proof fn three_failures_lose_the_daemon(polls: Seq<bool>)
    requires
        polls.len() < u32::MAX,
    ensures
        counts_as_lost(failures_after_all(polls)) <==> {
            &&& polls.len() >= 3
            &&& polls[polls.len() - 1]
            &&& polls[polls.len() - 2]
            &&& polls[polls.len() - 3]
        },
{
    if polls.len() >= 1 {
        let one = polls.drop_last();
        lemma_failures_are_counted(one);
        if one.len() >= 1 {
            let two = one.drop_last();
            lemma_failures_are_counted(two);
            if two.len() >= 1 {
                lemma_failures_are_counted(two.drop_last());
            }
        }
        reveal_with_fuel(failures_after_all, 4);
    }
}

/// The figures of the listed VMs of a roster, one per VM that the reply lists.
pub open spec fn listed_figures(
    roster: Seq<VmModel>,
    vms: Seq<SnapshotVm>,
    t: u64,
    figure: spec_fn(Sample) -> nat,
) -> Seq<nat>
    decreases roster.len(),
{
    if roster.len() == 0 {
        Seq::empty()
    } else {
        let rest = listed_figures(roster.drop_last(), vms, t, figure);
        if exists|i: int| 0 <= i < vms.len() && (#[trigger] vms[i]).id@ == roster.last().id {
            let i = latest_of(vms, roster.last().id);
            rest.push(figure(sample_of(vms[i], t)))
        } else {
            rest
        }
    }
}

/// The position of the latest entry of a VM in a reply.
pub open spec fn latest_of(vms: Seq<SnapshotVm>, id: Seq<char>) -> int {
    choose|i: int| #[trigger] is_latest(vms, id, i)
}

/// The entry at `i` is the latest one of a VM in a reply.
pub open spec fn is_latest(vms: Seq<SnapshotVm>, id: Seq<char>, i: int) -> bool {
    &&& 0 <= i < vms.len()
    &&& vms[i].id@ == id
    &&& forall|j: int| i < j < vms.len() ==> (#[trigger] vms[j]).id@ != id
}

/// A VM is observed through its latest entry in a reply, and not at all if there
/// is none.
pub proof fn the_latest_entry_counts(vms: Seq<SnapshotVm>, id: Seq<char>)
    ensures
        forall|i: int| #[trigger]
            is_latest(vms, id, i) ==> last_entry(vms, id) == Some(vms[i]) && latest_of(vms, id)
                == i,
        last_entry(vms, id) is None <==> forall|i: int|
            0 <= i < vms.len() ==> (#[trigger] vms[i]).id@ != id,
        last_entry(vms, id) is Some ==> is_latest(vms, id, latest_of(vms, id)) && last_entry(
            vms,
            id,
        ) == Some(vms[latest_of(vms, id)]),
    decreases vms.len(),
{
    if vms.len() > 0 {
        let rest = vms.drop_last();
        the_latest_entry_counts(rest, id);
        let n = vms.len() - 1;
        if vms[n].id@ == id {
            assert(is_latest(vms, id, n));
            assert forall|i: int| #[trigger] is_latest(vms, id, i) implies i == n by {
                if i < n {
                    assert(vms[n].id@ != id);
                }
            }
        } else {
            assert forall|i: int| #[trigger] is_latest(vms, id, i) implies is_latest(
                rest,
                id,
                i,
            ) by {
                assert(rest[i] == vms[i]);
                assert forall|j: int| i < j < rest.len() implies (#[trigger] rest[j]).id@ != id by {
                    assert(rest[j] == vms[j]);
                }
            }
            if last_entry(rest, id) is Some {
                let i = latest_of(rest, id);
                assert forall|j: int| i < j < vms.len() implies (#[trigger] vms[j]).id@ != id by {
                    if j < n {
                        assert(rest[j] == vms[j]);
                    }
                }
                assert(is_latest(vms, id, i));
                assert(vms[i] == rest[i]);
            } else {
                assert forall|i: int| 0 <= i < vms.len() implies (#[trigger] vms[i]).id@ != id by {
                    if i < n {
                        assert(rest[i] == vms[i]);
                    }
                }
            }
        }
        assert forall|i: int| #[trigger] is_latest(vms, id, i) implies last_entry(vms, id) == Some(
            vms[i],
        ) && latest_of(vms, id) == i by {
            assert(is_latest(vms, id, latest_of(vms, id)));
            let k = latest_of(vms, id);
            if k < i {
                assert(vms[i].id@ != id);
            } else if i < k {
                assert(vms[k].id@ != id);
            }
            if vms[n].id@ != id {
                assert(is_latest(rest, id, i));
                assert(rest[i] == vms[i]);
            }
        }
    }
}

/// The fleet's figures are the sums of its listed VMs' own figures, each as far as
/// it can be counted, and so many VMs were listed.
pub proof fn the_aggregate_is_the_sum_of_the_listed_vms(
    roster: Seq<VmModel>,
    vms: Seq<SnapshotVm>,
    t: u64,
)
    ensures
        ({
            let total = fleet_sample(fleet_sum(roster, vms, t), t);
            let figures = |figure: spec_fn(Sample) -> nat| listed_figures(roster, vms, t, figure);
            &&& total.t == t
            &&& total.iops == at_most(
                sum(figures(|s: Sample| s.iops as nat)),
                u128::MAX as nat,
            )
            &&& total.bandwidth == at_most(
                sum(figures(|s: Sample| s.bandwidth as nat)),
                u128::MAX as nat,
            )
            &&& total.cpu == at_most(sum(figures(|s: Sample| s.cpu as nat)), u128::MAX as nat)
            &&& total.qd == at_most(sum(figures(|s: Sample| s.qd as nat)), u128::MAX as nat)
            &&& total.thread_count == at_most(
                sum(figures(|s: Sample| s.thread_count as nat)),
                u32::MAX as nat,
            )
            &&& fleet_sum(roster, vms, t).live == figures(|s: Sample| 1nat).len()
        }),
    decreases roster.len(),
{
    let iops = |s: Sample| s.iops as nat;
    let bandwidth = |s: Sample| s.bandwidth as nat;
    let cpu = |s: Sample| s.cpu as nat;
    let qd = |s: Sample| s.qd as nat;
    let threads = |s: Sample| s.thread_count as nat;
    let one = |s: Sample| 1nat;
    if roster.len() == 0 {
        sums_grow_by_what_is_appended(Seq::empty(), 0);
    } else {
        let rest = roster.drop_last();
        let id = roster.last().id;
        the_aggregate_is_the_sum_of_the_listed_vms(rest, vms, t);
        the_latest_entry_counts(vms, id);
        if let Some(d) = last_entry(vms, id) {
            let i = latest_of(vms, id);
            assert(vms[i].id@ == id);
            let s = sample_of(vms[i], t);
            sums_grow_by_what_is_appended(listed_figures(rest, vms, t, iops), iops(s));
            sums_grow_by_what_is_appended(listed_figures(rest, vms, t, bandwidth), bandwidth(s));
            sums_grow_by_what_is_appended(listed_figures(rest, vms, t, cpu), cpu(s));
            sums_grow_by_what_is_appended(listed_figures(rest, vms, t, qd), qd(s));
            sums_grow_by_what_is_appended(listed_figures(rest, vms, t, threads), threads(s));
        }
    }
}

/// The fleet's figures are at least those of every listed VM.
pub proof fn the_aggregate_covers_every_listed_vm(
    roster: Seq<VmModel>,
    vms: Seq<SnapshotVm>,
    t: u64,
    at: int,
    i: int,
)
    requires
        0 <= at < roster.len(),
        is_latest(vms, roster[at].id, i),
    ensures
        ({
            let total = fleet_sample(fleet_sum(roster, vms, t), t);
            let own = sample_of(vms[i], t);
            &&& own.iops <= total.iops
            &&& own.bandwidth <= total.bandwidth
            &&& own.cpu <= total.cpu
            &&& own.qd <= total.qd
            &&& own.thread_count <= total.thread_count
        }),
    decreases roster.len(),
{
    the_latest_entry_counts(vms, roster[at].id);
    if at < roster.len() - 1 {
        assert(roster.drop_last()[at] == roster[at]);
        the_aggregate_covers_every_listed_vm(roster.drop_last(), vms, t, at, i);
    }
}

/// The fleet's history gets one sample per reply that lists at least two tracked
/// VMs; its CPU time per operation follows from the sums, and it has no latencies.
pub proof fn two_listed_vms_make_an_aggregate(
    aggregate: Seq<Sample>,
    roster: Seq<VmModel>,
    vms: Seq<SnapshotVm>,
    t: u64,
)
    requires
        aggregate.len() < 4096,
    ensures
        ({
            let after = aggregate_after(aggregate, roster, vms, t);
            let total = fleet_sample(fleet_sum(roster, vms, t), t);
            if listed_figures(roster, vms, t, |s: Sample| 1nat).len() >= 2 {
                &&& after == aggregate.push(total)
                &&& total.cpu_us_per_iop == us_per_iop(total.cpu, total.iops)
                &&& total.lat_r is None && total.lat_w is None
                &&& total.lat_r_avg is None && total.lat_w_avg is None
            } else {
                after == aggregate
            }
        }),
{
    the_aggregate_is_the_sum_of_the_listed_vms(roster, vms, t);
}

/// An entry of the reply becomes the VM's newest sample and its status; the VM
/// keeps its identity and its colour.
pub proof fn observations_are_appended(vm: VmModel, d: SnapshotVm, t: u64)
    requires
        vm.samples.len() < 4096,
    ensures
        ({
            let after = observe(vm, d, t);
            &&& after.id == vm.id
            &&& after.color_idx == vm.color_idx
            &&& after.samples == vm.samples.push(sample_of(d, t))
            &&& after.status == status_of(d)
            &&& after.vcpu_count == Some(d.vcpu_count)
            &&& after.last_thread_count == Some(d.thread_count)
            &&& after.last_snapshot_at == t
        }),
{
}

/// A full history loses its oldest entry for a new one and keeps the others.
pub proof fn full_histories_lose_the_oldest<T>(history: Seq<T>, item: T)
    requires
        history.len() == 4096,
    ensures
        recent(history.push(item)) == history.drop_first().push(item),
{
    assert(history.push(item).skip(1) == history.drop_first().push(item));
}

/// A change of the worker count is marked with both counts, at its time, at the
/// height of the larger of the two rates.
pub proof fn markers_tell_the_change(vm: VmModel, d: SnapshotVm, t: u64, before: u32)
    requires
        vm.last_thread_count == Some(before),
        before != d.thread_count,
        vm.annots.len() < 4096,
    ensures
        ({
            let after = observe(vm, d, t).annots;
            let sample = sample_of(d, t);
            let annot = after.last();
            &&& after == vm.annots.push(annot)
            &&& annot.t == t
            &&& annot.old_n == before
            &&& annot.new_n == d.thread_count
            &&& sample.iops * 1_000_000 >= sample.bandwidth ==> annot.y_value == sample.iops
                * 1_000_000
            &&& sample.iops * 1_000_000 < sample.bandwidth ==> annot.y_value == sample.bandwidth
        }),
{
    crate::tui::feed::samples_hold_the_entry_s_figures(d, t);
}

/// A VM that the reply does not list is not touched.
pub proof fn unlisted_vms_are_not_observed(vm: VmModel, vms: Seq<SnapshotVm>, t: u64)
    requires
        forall|i: int| 0 <= i < vms.len() ==> (#[trigger] vms[i]).id@ != vm.id,
    ensures
        observed(vm, vms, t) == vm,
{
    the_latest_entry_counts(vms, vm.id);
}

/// A listed VM is observed through its latest entry.
pub proof fn listed_vms_are_observed(vm: VmModel, vms: Seq<SnapshotVm>, t: u64, i: int)
    requires
        is_latest(vms, vm.id, i),
    ensures
        observed(vm, vms, t) == observe(vm, vms[i], t),
{
    the_latest_entry_counts(vms, vm.id);
}

/// An id is selected by any pattern that occurs in it, and by the lack of
/// patterns.
pub proof fn any_pattern_selects(id: Seq<char>, select: Seq<Seq<char>>)
    ensures
        select.len() == 0 ==> selected(id, select),
        select.len() > 0 ==> (selected(id, select) <==> exists|i: int|
            0 <= i < select.len() && occurs(id, #[trigger] select[i])),
{
}

/// New VMs are appended one by one in the order of the reply. Each that is wanted
/// and not yet tracked starts blank in the next palette slot; no other entry adds
/// anything.
pub proof fn new_vms_start_blank(
    roster: Seq<VmModel>,
    ids: Seq<Seq<char>>,
    id: Seq<char>,
    select: Seq<Seq<char>>,
    existing: Set<Seq<char>>,
    now: u64,
)
    ensures
        grown(roster, Seq::empty(), select, existing, now) == roster,
        ({
            let before = grown(roster, ids, select, existing, now);
            let after = grown(roster, ids.push(id), select, existing, now);
            if selected(id, select) && !existing.contains(id) {
                let vm = after.last();
                &&& after == before.push(vm)
                &&& vm.id == id
                &&& before.len() <= usize::MAX ==> vm.color_idx == before.len()
                &&& vm.samples.len() == 0
                &&& vm.annots.len() == 0
                &&& vm.last_thread_count is None
                &&& vm.vcpu_count is None
                &&& vm.last_snapshot_at == now
            } else {
                after == before
            }
        }),
{
    assert(ids.push(id).drop_last() == ids);
}

/// A tracked VM that the reply lists has no streak; one that it omits has one more
/// than before.
pub proof fn streaks_count_omissions(
    roster: Seq<VmModel>,
    streaks: Map<Seq<char>, u32>,
    ids: Seq<Seq<char>>,
    select: Seq<Seq<char>>,
    id: Seq<char>,
)
    requires
        roster_ids(roster).contains(id),
        streak_of(streaks, id) < u32::MAX,
    ensures
        ids.contains(id) && selected(id, select) ==> streak_of(
            streaks_after(roster, streaks, ids, select),
            id,
        ) == 0,
        !(ids.contains(id) && selected(id, select)) ==> streak_of(
            streaks_after(roster, streaks, ids, select),
            id,
        ) == streak_of(streaks, id) + 1,
{
}

proof fn lemma_listed_figures_add(
    a: Seq<VmModel>,
    b: Seq<VmModel>,
    vms: Seq<SnapshotVm>,
    t: u64,
    figure: spec_fn(Sample) -> nat,
)
    ensures
        listed_figures(a + b, vms, t, figure) == listed_figures(a, vms, t, figure)
            + listed_figures(b, vms, t, figure),
    decreases b.len(),
{
    if b.len() == 0 {
        assert(a + b == a);
    } else {
        assert((a + b).drop_last() == a + b.drop_last());
        lemma_listed_figures_add(a, b.drop_last(), vms, t, figure);
    }
}

proof fn lemma_sums_swap(
    front: Seq<VmModel>,
    a: Seq<VmModel>,
    b: Seq<VmModel>,
    back: Seq<VmModel>,
    vms: Seq<SnapshotVm>,
    t: u64,
    figure: spec_fn(Sample) -> nat,
)
    ensures
        sum(listed_figures(front + a + b + back, vms, t, figure)) == sum(
            listed_figures(front + b + a + back, vms, t, figure),
        ),
        listed_figures(front + a + b + back, vms, t, figure).len() == listed_figures(
            front + b + a + back,
            vms,
            t,
            figure,
        ).len(),
{
    let f = listed_figures(front, vms, t, figure);
    let x = listed_figures(a, vms, t, figure);
    let y = listed_figures(b, vms, t, figure);
    let g = listed_figures(back, vms, t, figure);
    lemma_listed_figures_add(front, a, vms, t, figure);
    lemma_listed_figures_add(front + a, b, vms, t, figure);
    lemma_listed_figures_add(front + a + b, back, vms, t, figure);
    lemma_listed_figures_add(front, b, vms, t, figure);
    lemma_listed_figures_add(front + b, a, vms, t, figure);
    lemma_listed_figures_add(front + b + a, back, vms, t, figure);
    sums_add_up(f, x);
    sums_add_up(f + x, y);
    sums_add_up(f + x + y, g);
    sums_add_up(f, y);
    sums_add_up(f + y, x);
    sums_add_up(f + y + x, g);
}

/// The fleet's sample does not depend on the order of the roster: two parts of it
/// can change places.
pub proof fn the_aggregate_ignores_the_order(
    front: Seq<VmModel>,
    a: Seq<VmModel>,
    b: Seq<VmModel>,
    back: Seq<VmModel>,
    vms: Seq<SnapshotVm>,
    t: u64,
)
    ensures
        fleet_sample(fleet_sum(front + a + b + back, vms, t), t) == fleet_sample(
            fleet_sum(front + b + a + back, vms, t),
            t,
        ),
        fleet_sum(front + a + b + back, vms, t).live == fleet_sum(
            front + b + a + back,
            vms,
            t,
        ).live,
{
    the_aggregate_is_the_sum_of_the_listed_vms(front + a + b + back, vms, t);
    the_aggregate_is_the_sum_of_the_listed_vms(front + b + a + back, vms, t);
    lemma_sums_swap(front, a, b, back, vms, t, |s: Sample| s.iops as nat);
    lemma_sums_swap(front, a, b, back, vms, t, |s: Sample| s.bandwidth as nat);
    lemma_sums_swap(front, a, b, back, vms, t, |s: Sample| s.cpu as nat);
    lemma_sums_swap(front, a, b, back, vms, t, |s: Sample| s.qd as nat);
    lemma_sums_swap(front, a, b, back, vms, t, |s: Sample| s.thread_count as nat);
    lemma_sums_swap(front, a, b, back, vms, t, |s: Sample| 1nat);
}

/// The sampler polls unless paused, never more often than every 50 milliseconds,
/// and shows the last error from the third failure in a row on.
pub proof fn the_sampler_keeps_its_cadence(
    fleet: Fleet,
    period: u64,
    due: bool,
    error: Option<String>,
)
    requires
        call_ensures(Fleet::refresh_period, (&fleet,), period),
        call_ensures(Fleet::poll_due, (&fleet,), due),
        call_ensures(Fleet::daemon_error, (&fleet,), error),
    ensures
        fleet.refresh_ns <= 50_000_000 ==> period == 50_000_000,
        fleet.refresh_ns >= 50_000_000 ==> period == fleet.refresh_ns,
        due <==> !fleet.paused,
        fleet.failed_streak >= 3 ==> error == fleet.last_error,
        fleet.failed_streak < 3 ==> error is None,
{
}

/// A failed poll counts one failure and keeps the error; nothing else changes.
pub proof fn failed_polls_only_count(
    before: Fleet,
    why: String,
    select: Seq<Seq<char>>,
    t: u64,
    after: Fleet,
    r: PollOutcome,
)
    requires
        polled(before, Err::<SnapshotPayload, String>(why), select, t, after, r),
        before.failed_streak < u32::MAX,
    ensures
        after.failed_streak == before.failed_streak + 1,
        after.last_error == Some(why),
        r == (PollOutcome::Failed { streak: after.failed_streak }),
        after.vms == before.vms,
        after.aggregate == before.aggregate,
        after.missing == before.missing,
        after.paused == before.paused,
        after.refresh_ns == before.refresh_ns,
{
}

/// A reply ends the failures and clears their error, and says whether there were
/// any; each tracked VM that it lists is observed, and the pause and the cadence
/// stay.
pub proof fn replies_end_the_failures(
    before: Fleet,
    payload: SnapshotPayload,
    select: Seq<Seq<char>>,
    t: u64,
    after: Fleet,
    r: PollOutcome,
    i: int,
)
    requires
        polled(before, Ok::<SnapshotPayload, String>(payload), select, t, after, r),
    ensures
        after.failed_streak == 0,
        r matches PollOutcome::Folded { recovered } && (recovered <==> before.failed_streak > 0),
        before.failed_streak > 0 ==> after.last_error is None,
        after.paused == before.paused,
        after.refresh_ns == before.refresh_ns,
        0 <= i < after.roster().len() ==> {
            let vm = after.roster()[i];
            match last_entry(payload.vms@, vm.id) {
                Some(d) => vm.samples.len() > 0 && vm.samples.last() == sample_of(d, t)
                    && vm.status == status_of(d),
                None => true,
            }
        },
{
    if 0 <= i < after.roster().len() {
        let roster = reconciled(
            before.roster(),
            before.missing@,
            entry_ids(payload.vms@),
            select,
            t,
        );
        assert(after.roster()[i] == observed(roster[i], payload.vms@, t));
        if let Some(d) = last_entry(payload.vms@, roster[i].id) {
            let grown = roster[i].samples.push(sample_of(d, t));
            assert(recent(grown).last() == grown.last());
        }
    }
}

/// The third reply in a row that omits a VM drops it; after one or two it is still
/// tracked.
pub proof fn the_third_omission_drops_a_vm(
    roster: Seq<VmModel>,
    streaks: Map<Seq<char>, u32>,
    ids: Seq<Seq<char>>,
    select: Seq<Seq<char>>,
    now: u64,
    i: int,
)
    requires
        0 <= i < roster.len(),
        !ids.contains(roster[i].id),
    ensures
        !streaks.dom().contains(roster[i].id) ==> reconciled(
            roster,
            streaks,
            ids,
            select,
            now,
        ).contains(roster[i]),
        streaks.dom().contains(roster[i].id) && streaks[roster[i].id] <= 1 ==> reconciled(
            roster,
            streaks,
            ids,
            select,
            now,
        ).contains(roster[i]),
        streaks.dom().contains(roster[i].id) && streaks[roster[i].id] >= 2 ==> !roster_ids(
            reconciled(roster, streaks, ids, select, now),
        ).contains(roster[i].id),
{
    missing_vms_are_dropped_in_time(roster, streaks, ids, select, now, i);
}

} // verus!
