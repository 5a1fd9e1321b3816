use io_thread_controller::instance::{LatencySummary, UTIL_UNIT};
use io_thread_controller::tui::feed::{
    cpu_us_per_iop, snapshot_to_sample, snapshot_to_status, LatestStatus, SnapshotPayload,
    SnapshotVm,
};
use io_thread_controller::tui::roster::{is_selected, Fleet, PollOutcome, MAX_HISTORY};
use io_thread_controller::tui::streaks::Streaks;

const UNIT: u128 = UTIL_UNIT as u128;
const SECOND: u64 = 1_000_000_000;

fn entry(id: &str, threads: u32, iops: u64) -> SnapshotVm {
    SnapshotVm {
        id: id.to_string(),
        thread_count: threads,
        vcpu_count: 4,
        read_iops: iops,
        write_iops: 0,
        other_iops: 0,
        read_bw_bps: iops * 4096,
        write_bw_bps: 0,
        per_thread_util: UTIL_UNIT as i64 / 2,
        read_latency_us: None,
        write_latency_us: None,
        qd_total: Some(3),
        qd_avg_x100: None,
        qd_median: None,
        num_queues: None,
        cpu_pct_avg: None,
        cpu_pct_median: None,
        cpu_pct_total: None,
        manual_scaling_sticky: false,
        alive: true,
    }
}

fn reply(vms: Vec<SnapshotVm>) -> Result<SnapshotPayload, String> {
    Ok(SnapshotPayload { vms })
}

fn ids(fleet: &Fleet) -> Vec<&str> {
    fleet.vms.iter().map(|vm| vm.id.as_str()).collect()
}

#[test]
fn samples_are_rates() {
    let mut d = entry("vm", 4, 1000);
    d.write_iops = 500;
    d.other_iops = 1;
    d.write_bw_bps = 9;
    d.read_latency_us = Some(LatencySummary { p50: 1, p95: 2, p99: 3, avg: 4 });
    let sample = snapshot_to_sample(&d, 5);
    assert_eq!(sample.t, 5);
    assert_eq!(sample.iops, 1501);
    assert_eq!(sample.bandwidth, 4_096_009);
    assert_eq!(sample.lat_r, Some((1, 2, 3)));
    assert_eq!(sample.lat_r_avg, Some(4));
    assert_eq!(sample.lat_w, None);
    assert_eq!(sample.cpu, 2 * UNIT);
    assert_eq!(sample.qd, 3);
    assert_eq!(sample.cpu_us_per_iop, Some(2_000_000 * UNIT / 1501));
    let status = snapshot_to_status(&d);
    assert_eq!(status.cpu, sample.cpu);
    assert_eq!(status.cpu_us_per_iop, sample.cpu_us_per_iop);
    assert_eq!(status.iops_w, 500);
    assert_eq!(status.lat_r_us, Some((1, 2, 3)));
    assert!(status.alive);
}

#[test]
fn sums_are_capped_and_idle_ticks_have_no_cost() {
    let mut d = entry("vm", 2, u64::MAX);
    d.write_iops = 7;
    d.read_bw_bps = 0;
    assert_eq!(snapshot_to_sample(&d, 0).iops, u64::MAX as u128);
    let mut idle = entry("vm", 2, 0);
    idle.per_thread_util = 5 * UTIL_UNIT as i64;
    assert_eq!(snapshot_to_sample(&idle, 0).cpu_us_per_iop, None);
    assert_eq!(snapshot_to_sample(&idle, 0).cpu, 2 * UNIT);
    idle.per_thread_util = -1;
    assert_eq!(snapshot_to_sample(&idle, 0).cpu, 0);
    assert_eq!(cpu_us_per_iop(u128::MAX, 2), Some(u128::MAX / 2));
    assert_eq!(LatestStatus::default().cpu_us_per_iop, Some(0));
}

#[test]
fn new_vms_are_appended_in_order() {
    let mut fleet = Fleet::new(SECOND);
    let outcome =
        fleet.take_reply(reply(vec![entry("a", 1, 10), entry("b", 2, 20)]), &Vec::new(), SECOND);
    assert_eq!(outcome, PollOutcome::Folded { recovered: false });
    assert_eq!(ids(&fleet), vec!["a", "b"]);
    assert_eq!(fleet.vms[1].color_idx, 1);
    assert_eq!(fleet.vms[1].vcpu_count, Some(4));
    assert_eq!(fleet.vms[1].samples.len(), 1);
    assert_eq!(fleet.vms[1].last_snapshot_at, SECOND);
    assert_eq!(fleet.aggregate.len(), 1);
    assert_eq!(fleet.aggregate[0].iops, 30);
    assert_eq!(fleet.aggregate[0].cpu, 3 * UNIT / 2);
    assert_eq!(fleet.aggregate[0].thread_count, 3);
    assert_eq!(fleet.aggregate[0].lat_r, None);
    assert_eq!(fleet.aggregate[0].cpu_us_per_iop, Some(1_500_000 * UNIT / 30));
}

#[test]
fn a_single_vm_has_no_aggregate() {
    let mut fleet = Fleet::new(SECOND);
    fleet.take_reply(reply(vec![entry("a", 1, 10)]), &Vec::new(), 1);
    assert!(fleet.aggregate.is_empty());
}

#[test]
fn selection_restricts_what_is_tracked() {
    let mut fleet = Fleet::new(SECOND);
    let select = vec!["161".to_string(), "zz".to_string()];
    fleet.take_reply(reply(vec![entry("1615a", 1, 1), entry("8ac1", 1, 1)]), &select, 1);
    assert_eq!(ids(&fleet), vec!["1615a"]);
    assert!(is_selected("buzz", &select));
    assert!(!is_selected("other", &select));
    assert!(is_selected("other", &Vec::new()));
}

#[test]
fn missing_vms_survive_two_replies() {
    let mut fleet = Fleet::new(SECOND);
    fleet.take_reply(reply(vec![entry("a", 1, 1), entry("b", 1, 1)]), &Vec::new(), 1);
    for t in 2..4 {
        fleet.take_reply(reply(vec![entry("b", 1, 1)]), &Vec::new(), t);
        assert_eq!(ids(&fleet), vec!["a", "b"]);
        assert_eq!(fleet.missing.get("a"), (t - 1) as u32);
        assert_eq!(fleet.vms[0].samples.len(), 1);
    }
    fleet.take_reply(reply(vec![entry("b", 1, 1)]), &Vec::new(), 4);
    assert_eq!(ids(&fleet), vec!["b"]);
    assert_eq!(fleet.missing.get("a"), 0);
    // It comes back as a new VM.
    fleet.take_reply(reply(vec![entry("b", 1, 1), entry("a", 1, 1)]), &Vec::new(), 5);
    assert_eq!(ids(&fleet), vec!["b", "a"]);
    assert_eq!(fleet.vms[1].samples.len(), 1);
}

#[test]
fn the_vms_that_stay_keep_their_order() {
    let mut fleet = Fleet::new(SECOND);
    let all = vec![entry("a", 1, 1), entry("b", 1, 1), entry("c", 1, 1)];
    fleet.take_reply(reply(all), &Vec::new(), 1);
    for t in 2..5 {
        let listed = vec![entry("d", 1, 1), entry("c", 1, 1), entry("a", 1, 1)];
        fleet.take_reply(reply(listed), &Vec::new(), t);
    }
    assert_eq!(ids(&fleet), vec!["a", "c", "d"]);
}

#[test]
fn a_listed_vm_loses_its_streak() {
    let mut fleet = Fleet::new(SECOND);
    fleet.take_reply(reply(vec![entry("a", 1, 1)]), &Vec::new(), 1);
    for t in 2..4 {
        fleet.take_reply(reply(Vec::new()), &Vec::new(), t);
    }
    assert_eq!(fleet.missing.get("a"), 2);
    fleet.take_reply(reply(vec![entry("a", 1, 1)]), &Vec::new(), 4);
    assert_eq!(fleet.missing.get("a"), 0);
    fleet.take_reply(reply(Vec::new()), &Vec::new(), 5);
    assert_eq!(ids(&fleet), vec!["a"]);
}

#[test]
fn worker_changes_leave_markers() {
    let mut fleet = Fleet::new(SECOND);
    fleet.take_reply(reply(vec![entry("a", 4, 100)]), &Vec::new(), 1);
    fleet.take_reply(reply(vec![entry("a", 4, 100)]), &Vec::new(), 2);
    assert!(fleet.vms[0].annots.is_empty());
    fleet.take_reply(reply(vec![entry("a", 5, 100)]), &Vec::new(), 3);
    assert_eq!(fleet.vms[0].annots.len(), 1);
    let annot = fleet.vms[0].annots[0];
    assert_eq!((annot.t, annot.old_n, annot.new_n), (3, 4, 5));
    assert_eq!(annot.y_value, 100_000_000);
    let mut heavy = entry("a", 4, 1);
    heavy.read_bw_bps = 50_000_000;
    fleet.take_reply(reply(vec![heavy]), &Vec::new(), 4);
    assert_eq!(fleet.vms[0].annots[1].y_value, 50_000_000);
}

#[test]
fn histories_are_bounded() {
    let mut fleet = Fleet::new(SECOND);
    for t in 0..(MAX_HISTORY as u64 + 10) {
        fleet.take_reply(
            reply(vec![entry("a", (t % 2) as u32, t), entry("b", 1, 1)]),
            &Vec::new(),
            t,
        );
    }
    assert_eq!(fleet.vms[0].samples.len(), MAX_HISTORY);
    assert_eq!(fleet.vms[0].samples[0].t, 10);
    assert_eq!(fleet.vms[0].annots.len(), MAX_HISTORY);
    assert_eq!(fleet.aggregate.len(), MAX_HISTORY);
    fleet.reset_autoscale();
    assert!(fleet.vms[0].samples.is_empty());
    assert!(fleet.vms[0].annots.is_empty());
    assert!(fleet.aggregate.is_empty());
    assert_eq!(ids(&fleet), vec!["a", "b"]);
}

#[test]
fn the_last_entry_of_an_id_wins() {
    let mut fleet = Fleet::new(SECOND);
    fleet.take_reply(reply(vec![entry("a", 1, 1)]), &Vec::new(), 1);
    fleet.take_reply(reply(vec![entry("a", 2, 2), entry("a", 3, 3)]), &Vec::new(), 2);
    assert_eq!(ids(&fleet), vec!["a"]);
    assert_eq!(fleet.vms[0].status.thread_count, 3);
}

#[test]
fn the_daemon_counts_as_lost_after_three_failures() {
    let mut fleet = Fleet::new(SECOND);
    for n in 1..4 {
        assert_eq!(fleet.daemon_error(), None);
        let outcome = fleet.take_reply(Err(format!("e{n}")), &Vec::new(), 1);
        assert_eq!(outcome, PollOutcome::Failed { streak: n });
    }
    assert_eq!(fleet.daemon_error(), Some("e3".to_string()));
    let outcome = fleet.take_reply(reply(Vec::new()), &Vec::new(), 2);
    assert_eq!(outcome, PollOutcome::Folded { recovered: true });
    assert_eq!(fleet.daemon_error(), None);
    assert_eq!(fleet.last_error, None);
}

#[test]
fn the_cadence_has_a_floor() {
    assert_eq!(Fleet::new(0).refresh_period(), 50_000_000);
    assert_eq!(Fleet::new(30 * SECOND).refresh_period(), 30 * SECOND);
    let mut fleet = Fleet::new(SECOND);
    assert!(fleet.poll_due());
    fleet.paused = true;
    assert!(!fleet.poll_due());
}

#[test]
fn streaks_count_by_name() {
    let mut streaks = Streaks::new();
    streaks.bump("a");
    streaks.bump("b");
    streaks.bump("a");
    assert_eq!((streaks.get("a"), streaks.get("b"), streaks.get("c")), (2, 1, 0));
    streaks.drop_from(2);
    assert_eq!((streaks.get("a"), streaks.get("b")), (0, 1));
    streaks.remove("b");
    streaks.remove("missing");
    assert_eq!(streaks.get("b"), 0);
}
