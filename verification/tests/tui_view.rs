use io_thread_controller::instance::UTIL_UNIT;
use io_thread_controller::tui::axis::{
    heading_marks, marks, pane_heading, pick_x_tick_step, strokes, window, x_label, x_ticks, y_top,
    PaneHeading, Window, YTop,
};
use io_thread_controller::tui::connect::{no_daemon, probe_failure};
use io_thread_controller::tui::dashboard::{dashboard_cell, dashboard_rows, DashCell};
use io_thread_controller::tui::feed::{LatestStatus, SnapshotPayload, SnapshotVm};
use io_thread_controller::tui::labels::{
    fmt_lat, fmt_qd_total, plot_kind_label, shorten_id, DashColumn, PerfMetric, PlotKind,
};
use io_thread_controller::tui::number::Decimal;
use io_thread_controller::tui::overlay::{
    centered, column_picker_overlay, daemon_lost_overlay, dashboard_height, help_overlay,
    input_prompt_overlay, layers, title_bar, Area, Layer, LineRole,
};
use io_thread_controller::tui::plots::{
    cpu_per_iop_plot, cpu_plot, highlight_indices_latency, highlight_indices_perf, is_shown,
    latency_plot, perf_plot, qd_plot,
};
use io_thread_controller::tui::prompt::Key;
use io_thread_controller::tui::roster::Fleet;
use io_thread_controller::tui::theme::Hue;
use io_thread_controller::tui::ui::{Focus, UiState};

const UNIT: u128 = UTIL_UNIT as u128;
const SECOND: u64 = 1_000_000_000;
const WIDE: u128 = 1_000_000_000;

fn entry(id: &str, threads: u32, iops: u64) -> SnapshotVm {
    SnapshotVm {
        id: id.to_string(),
        thread_count: threads,
        vcpu_count: 4,
        read_iops: iops,
        write_iops: 0,
        other_iops: 0,
        read_bw_bps: iops * 1000,
        write_bw_bps: 0,
        per_thread_util: UTIL_UNIT as i64,
        read_latency_us: None,
        write_latency_us: None,
        qd_total: Some(5),
        qd_avg_x100: Some(125),
        qd_median: Some(1),
        num_queues: Some(4),
        cpu_pct_avg: Some(90),
        cpu_pct_median: Some(95),
        cpu_pct_total: Some(180),
        manual_scaling_sticky: false,
        alive: true,
    }
}

fn tick(fleet: &mut Fleet, vms: Vec<SnapshotVm>, t: u64) {
    fleet.take_reply(Ok(SnapshotPayload { vms }), &Vec::new(), t);
}

fn two_vms() -> Fleet {
    let mut fleet = Fleet::new(SECOND);
    tick(&mut fleet, vec![entry("a", 2, 10), entry("b", 1, 4)], 1);
    tick(&mut fleet, vec![entry("a", 3, 20), entry("b", 1, 0)], 2);
    fleet
}

fn ui() -> UiState {
    UiState::new(PerfMetric::Iops, 3_600)
}

#[test]
fn perf_lines_start_with_the_fleet() {
    let fleet = two_vms();
    let plot = perf_plot(&ui(), &fleet, 0);
    assert_eq!(plot.series.len(), 3);
    assert_eq!(plot.series[0].hue, Hue::Gray);
    assert_eq!(plot.series[0].points, vec![(1, 14), (2, 20)]);
    assert_eq!(plot.series[1].hue, Hue::Cyan);
    assert_eq!(plot.series[1].points, vec![(1, 10), (2, 20)]);
    assert_eq!(plot.series[2].points, vec![(1, 4), (2, 0)]);
    assert_eq!(plot.y_max, 20);
    assert_eq!(plot.annots.len(), 2);
    assert_eq!(plot.annots[0].points.len(), 1);
    assert_eq!(plot.annots[0].points[0].y, 20_000_000);
    assert!(plot.annots[1].points.is_empty());
    assert!(plot.highlight.is_empty());
    let late = perf_plot(&ui(), &fleet, 2);
    assert_eq!(late.series[1].points, vec![(2, 20)]);
}

#[test]
fn bandwidth_markers_stay_on_screen() {
    let fleet = two_vms();
    let mut state = ui();
    state.perf_metric = PerfMetric::Bandwidth;
    let plot = perf_plot(&state, &fleet, 0);
    assert_eq!(plot.y_max, 1_000_000);
    assert_eq!(plot.annots[0].points[0].y, 1_000_000);
    assert_eq!(plot.series[1].points[1], (2, 20_000));
}

#[test]
fn focus_hides_the_other_lines() {
    let fleet = two_vms();
    let mut state = ui();
    state.focused = Some(Focus::Vm(1));
    let plot = perf_plot(&state, &fleet, 0);
    assert_eq!(plot.highlight, vec![2]);
    assert!(plot.annots[0].points.is_empty());
    let drawn = strokes(&plot);
    assert_eq!(drawn.len(), 1);
    assert_eq!((drawn[0].from, drawn[0].to), ((1, 4), (2, 0)));
    assert!(marks(&plot).is_empty());
    state.focused = Some(Focus::Total);
    let plot = perf_plot(&state, &fleet, 0);
    assert_eq!(plot.highlight, vec![0]);
    assert!(plot.annots[0].points.is_empty());
    state.focused = Some(Focus::Vm(9));
    assert_eq!(strokes(&perf_plot(&state, &fleet, 0)).len(), 3);
}

#[test]
fn without_an_aggregate_the_vms_come_first() {
    let mut fleet = two_vms();
    fleet.reset_autoscale();
    tick(&mut fleet, vec![entry("a", 3, 7)], 3);
    assert!(fleet.aggregate.is_empty());
    let mut state = ui();
    state.focused = Some(Focus::Vm(0));
    let plot = perf_plot(&state, &fleet, 0);
    assert_eq!(plot.series.len(), 2);
    assert_eq!(plot.highlight, vec![0]);
    assert_eq!(plot.series[0].points, vec![(3, 7)]);
}

#[test]
fn highlights_follow_the_focus() {
    assert_eq!(highlight_indices_perf(Some(Focus::Vm(2)), 3, true), vec![3]);
    assert_eq!(highlight_indices_perf(Some(Focus::Vm(0)), 1, false), vec![0]);
    assert_eq!(highlight_indices_perf(Some(Focus::Total), 1, false), Vec::<usize>::new());
    assert_eq!(highlight_indices_perf(None, 3, true), Vec::<usize>::new());
    assert_eq!(highlight_indices_latency(Some(Focus::Vm(1)), 2), vec![4, 5, 6, 7]);
    assert_eq!(highlight_indices_latency(Some(Focus::Total), 2), Vec::<usize>::new());
    assert!(is_shown(&vec![1], 1));
    assert!(!is_shown(&vec![1], 0));
    assert!(is_shown(&Vec::new(), 0));
}

#[test]
fn latency_has_four_lines_per_vm() {
    let mut fleet = Fleet::new(SECOND);
    let mut d = entry("a", 1, 1);
    let digest = |avg: u64, p99: u64| {
        Some(io_thread_controller::instance::LatencySummary { p50: 0, p95: 0, p99, avg })
    };
    d.read_latency_us = digest(10, 50);
    d.write_latency_us = digest(20, 90);
    tick(&mut fleet, vec![d], 1);
    let plot = latency_plot(&ui(), &fleet, 0);
    assert_eq!(plot.series.len(), 4);
    assert_eq!(plot.series[0].points, vec![(1, 10)]);
    assert_eq!(plot.series[1].points, vec![(1, 50)]);
    assert_eq!(plot.series[2].points, vec![(1, 20)]);
    assert_eq!(plot.series[3].points, vec![(1, 90)]);
    assert_eq!(plot.series[0].hue, Hue::Cyan);
    assert_eq!(plot.series[1].hue, Hue::Blue);
    assert_eq!(plot.series[3].hue, Hue::Blue);
    assert_eq!(plot.y_max, 90);
}

#[test]
fn other_panes_have_one_line_per_vm() {
    let fleet = two_vms();
    let cpu = cpu_plot(&ui(), &fleet, 0);
    assert_eq!(cpu.series.len(), 3);
    assert_eq!(cpu.series[0].points[1], (2, 4 * UNIT));
    assert_eq!(cpu.y_max, 4 * UNIT);
    let qd = qd_plot(&ui(), &fleet, 0);
    assert_eq!(qd.series[0].points[0], (1, 10));
    assert_eq!(qd.y_max, 10);
    let cost = cpu_per_iop_plot(&ui(), &fleet, 0);
    // The second VM is idle on the second tick.
    assert_eq!(cost.series[2].points.len(), 1);
    assert_eq!(cost.series[1].points[0], (1, 2 * UNIT * 1_000_000 / 10));
    let empty = Fleet::new(SECOND);
    assert_eq!(cpu_plot(&ui(), &empty, 0).y_max, UNIT);
    assert_eq!(qd_plot(&ui(), &empty, 0).y_max, 1);
}

#[test]
fn marks_show_the_change() {
    let mut fleet = two_vms();
    tick(&mut fleet, vec![entry("a", 1, 1), entry("b", 1, 1)], 3);
    let printed = marks(&perf_plot(&ui(), &fleet, 0));
    assert_eq!(printed.len(), 2);
    assert_eq!(printed[0].text, "2→3");
    assert!(printed[0].up);
    assert_eq!(printed[1].text, "3→1");
    assert!(!printed[1].up);
    assert_eq!(printed[1].hue, Hue::Cyan);
}

#[test]
fn windows_follow_the_time() {
    let mut state = ui();
    assert_eq!(window(&state, 5 * SECOND, 120), Window { x_lo: 0, x_hi: 120 * WIDE });
    assert_eq!(
        window(&state, 130 * SECOND, 120),
        Window { x_lo: 10 * SECOND, x_hi: 130 * WIDE }
    );
    state.paused = true;
    state.paused_t_frozen = Some(121 * SECOND);
    assert_eq!(
        window(&state, 500 * SECOND, 120),
        Window { x_lo: SECOND, x_hi: 121 * WIDE }
    );
}

#[test]
fn tick_steps_grow_with_the_window() {
    let cases = [
        (1, 1),
        (8, 1),
        (9, 2),
        (60, 10),
        (120, 15),
        (1800, 300),
        (8 * 3600, 3600),
        (100 * 3600, 3600),
    ];
    for (span, step) in cases {
        assert_eq!(pick_x_tick_step(span * WIDE), step);
    }
    assert_eq!(pick_x_tick_step(8 * WIDE + 1), 2);
}

#[test]
fn ticks_fall_on_whole_steps() {
    let ticks = x_ticks(Window { x_lo: 3 * SECOND, x_hi: 123 * WIDE });
    assert_eq!(ticks.first, 15 * WIDE);
    assert_eq!(ticks.step, 15 * WIDE);
    assert_eq!(ticks.count, 8);
    let ticks = x_ticks(Window { x_lo: 0, x_hi: 8 * WIDE - 500 });
    assert_eq!((ticks.first, ticks.count), (0, 9));
    let ticks = x_ticks(Window { x_lo: 0, x_hi: 0 });
    assert_eq!((ticks.first, ticks.step, ticks.count), (0, WIDE, 1));
}

#[test]
fn labels_count_back_from_the_right_edge() {
    let state = ui();
    let hi = 100 * WIDE;
    assert_eq!(x_label(&state, hi, hi), "0s");
    assert_eq!(x_label(&state, hi + 1000, hi), "0s");
    assert_eq!(x_label(&state, hi - 499_999_999, hi), "0s");
    assert_eq!(x_label(&state, 70 * WIDE, hi), "-30s");
    assert_eq!(x_label(&state, hi - 500_000_000, hi), "0s");
    assert_eq!(x_label(&state, hi - 500_000_001, hi), "-1s");
    let minute: Vec<String> = (0..7).map(|i| x_label(&state, i * 10 * WIDE, 60 * WIDE)).collect();
    assert_eq!(minute, ["-60s", "-50s", "-40s", "-30s", "-20s", "-10s", "0s"]);
    for back in [1500u64, 2500, 2501, 59_999] {
        let expected = format!("{:.0}s", -(back as f64) / 1000.0);
        assert_eq!(x_label(&state, hi - back as u128 * 1_000_000, hi), expected);
    }
}

#[test]
fn labels_can_show_the_time_of_day() {
    let mut state = ui();
    state.wall_clock_x = true;
    assert_eq!(x_label(&state, 0, 0), "01:00:00");
    assert_eq!(x_label(&state, 61 * WIDE + 5, 61 * WIDE + 5), "01:01:01");
    assert_eq!(x_label(&state, 86_400 * WIDE, 86_400 * WIDE), "01:00:00");
}

#[test]
fn the_axis_is_locked_or_follows_the_data() {
    let mut state = ui();
    assert_eq!(y_top(&state, PlotKind::Perf, 40), YTop::Auto { y_max: 40, percent: 115 });
    state.y_max_override.set(PlotKind::Perf, Some(Decimal { mantissa: 25, places: 1 }));
    assert_eq!(
        y_top(&state, PlotKind::Perf, 40),
        YTop::Locked(Decimal { mantissa: 25, places: 1 })
    );
    state.y_max_override.set(PlotKind::Perf, Some(Decimal { mantissa: 5, places: 1 }));
    assert_eq!(
        y_top(&state, PlotKind::Perf, 40),
        YTop::Locked(Decimal { mantissa: 1, places: 0 })
    );
}

#[test]
fn panes_have_headings() {
    let mut state = ui();
    let heading = pane_heading(&state, PlotKind::Perf, 4096);
    assert_eq!(heading.title, "perf (IOPS @ 4 KiB)");
    assert!(heading.humanize && !heading.log && !heading.locked);
    assert_eq!(heading_marks(&heading), "");
    state.perf_metric = PerfMetric::Bandwidth;
    state.log_y_scale = true;
    let heading = pane_heading(&state, PlotKind::Perf, 4096);
    assert_eq!(heading.title, "perf (MB/s)");
    assert!(!heading.humanize && heading.log);
    assert_eq!(heading_marks(&heading), "  [log]");
    let locked = PaneHeading { locked: true, ..heading };
    assert_eq!(heading_marks(&locked), "  [log]  [locked]");
    assert_eq!(heading_marks(&PaneHeading { log: false, ..locked }), "  [locked]");
    assert_eq!(pane_heading(&state, PlotKind::Cpu, 0).title, "cpu (%)");
    assert_eq!(plot_kind_label(PlotKind::CpuPerIop), "cpu/iop");
}

#[test]
fn ids_are_shortened() {
    assert_eq!(shorten_id("vm-1", None), "vm-1");
    assert_eq!(shorten_id("vm-1", Some(4)), "vm-1 vc=4");
    assert_eq!(
        shorten_id("1615a59c-0000-1111-2222-33334444dc4a", Some(8)),
        "1615a59c-0000-11…dc4a vc=8"
    );
    assert_eq!(shorten_id("1234567890123456789012", None), "1234567890123456789012");
    assert_eq!(
        shorten_id("1615A59C-0000-1111-2222-33334444DC4A", None),
        "1615A59C-0000-11…DC4A"
    );
    for id in [
        "12345678901234567890123",
        "my-long-virtual-machine-name",
        "1615a59c-0000-1111-2222-33334444dc4",
        "1615a59c-0000-1111-2222-33334444dc4a0",
        "1615a59c00000-1111-2222-33334444dc4a",
        "1615a59g-0000-1111-2222-33334444dc4a",
        "eine-sehr-lange-Bezeichnung-für-äöü-é",
    ] {
        assert_eq!(shorten_id(id, None), id);
        assert_eq!(shorten_id(id, Some(2)), format!("{id} vc=2"));
    }
}

#[test]
fn figures_are_written() {
    assert_eq!(fmt_lat(Some((1, 2, 3))), "1/2/3");
    assert_eq!(fmt_lat(None), "-/-/-");
    assert_eq!(fmt_qd_total(Some(7)), "-/-/7");
    assert_eq!(fmt_qd_total(None), "-");
    assert_eq!(PerfMetric::Iops.axis_label(8191), "IOPS @ 7 KiB");
    assert_eq!(PerfMetric::Iops.toggle(), PerfMetric::Bandwidth);
}

fn text(cell: &DashCell) -> &str {
    match cell {
        DashCell::Text(text) => text.as_str(),
        _ => panic!("not a text"),
    }
}

#[test]
fn columns_have_labels_and_widths() {
    let widths: Vec<u16> = DashColumn::all().into_iter().map(|c| c.width()).collect();
    assert_eq!(widths, vec![28, 5, 22, 20, 18, 8, 20, 20, 16, 8]);
    assert!(DashColumn::Id.required());
    assert!(!DashColumn::Threads.required());
    for column in DashColumn::all() {
        assert!(column.label().len() <= column.width() as usize);
    }
}

#[test]
fn rows_show_the_fleet() {
    let mut fleet = Fleet::new(SECOND);
    let mut sticky = entry("a", 2, 10);
    sticky.manual_scaling_sticky = true;
    let mut dead = entry("b", 1, 0);
    dead.alive = false;
    dead.qd_avg_x100 = None;
    dead.cpu_pct_total = None;
    dead.num_queues = None;
    tick(&mut fleet, vec![sticky, dead], 1);
    let mut state = ui();
    state.columns.set(DashColumn::LatRead, true);
    state.focused = Some(Focus::Vm(0));
    let rows = dashboard_rows(&state, &fleet);
    assert_eq!(rows.len(), 3);
    assert_eq!(text(&rows[0].cells[0]), "a vc=4");
    assert_eq!(text(&rows[0].cells[1]), "2*");
    assert!(matches!(rows[0].cells[2], DashCell::Iops(10, 0, 0)));
    assert!(matches!(rows[0].cells[3], DashCell::Bandwidth(10_000, 0)));
    assert_eq!(text(&rows[0].cells[4]), "90/95/180");
    assert!(matches!(rows[0].cells[5], DashCell::UsPerIop(Some(_))));
    assert_eq!(text(&rows[0].cells[6]), "-/-/-");
    assert!(matches!(rows[0].cells[7], DashCell::Depths(125, 1, 5)));
    assert_eq!(text(&rows[0].cells[8]), "4");
    assert!(rows[0].focused && !rows[0].dim && !rows[0].bold);
    assert!(rows[1].dim && !rows[1].focused);
    assert!(matches!(rows[1].cells[4], DashCell::CpuTotal(cpu) if cpu == UNIT));
    assert!(matches!(rows[1].cells[5], DashCell::UsPerIop(None)));
    assert_eq!(text(&rows[1].cells[7]), "-");
    assert_eq!(text(&rows[1].cells[8]), "-");
    let total = &rows[2];
    assert!(total.bold && !total.focused);
    assert_eq!(total.hue, Hue::Gray);
    assert_eq!(text(&total.cells[0]), "TOTAL");
    assert_eq!(text(&total.cells[1]), "3");
    assert!(matches!(total.cells[2], DashCell::Iops(10, 0, 0)));
    assert!(matches!(total.cells[4], DashCell::CpuTotal(cpu) if cpu == 3 * UNIT));
    assert!(
        matches!(total.cells[5], DashCell::UsPerIop(Some(us)) if us == 3_000_000 * UNIT / 10)
    );
    assert_eq!(text(&total.cells[6]), "-");
    assert_eq!(text(&total.cells[7]), "-/-/10");
    assert_eq!(text(&total.cells[8]), "-");
    assert_eq!(text(&dashboard_cell(DashColumn::Id, &LatestStatus::default())), "");
}

#[test]
fn an_unknown_depth_is_no_zero() {
    let mut fleet = Fleet::new(SECOND);
    let mut a = entry("a", 1, 1);
    a.qd_total = None;
    let mut b = entry("b", 1, 1);
    b.qd_total = None;
    tick(&mut fleet, vec![a, b], 1);
    let state = ui();
    let at = state.visible_columns().iter().position(|c| *c == DashColumn::QueueDepth).unwrap();
    for row in dashboard_rows(&state, &fleet) {
        assert_eq!(text(&row.cells[at]), "-");
    }
    let mut c = entry("a", 1, 1);
    c.qd_total = Some(0);
    tick(&mut fleet, vec![c], 2);
    assert_eq!(text(&dashboard_rows(&state, &fleet)[2].cells[at]), "-/-/0");
}

#[test]
fn a_single_vm_has_no_total_row() {
    let mut fleet = Fleet::new(SECOND);
    tick(&mut fleet, vec![entry("a", 2, 10)], 1);
    assert_eq!(dashboard_rows(&ui(), &fleet).len(), 1);
    assert_eq!(dashboard_height(0), 4);
    assert_eq!(dashboard_height(1), 5);
    assert_eq!(dashboard_height(2), 7);
    assert_eq!(dashboard_height(65_535), u16::MAX);
}

#[test]
fn overlays_are_centred() {
    let full = Area { x: 0, y: 0, width: 100, height: 40 };
    assert_eq!(centered(full, 44, 15), Area { x: 28, y: 12, width: 44, height: 15 });
    assert_eq!(centered(full, 200, 50), full);
    let offset = Area { x: 10, y: 5, width: 11, height: 7 };
    assert_eq!(centered(offset, 4, 4), Area { x: 13, y: 6, width: 4, height: 4 });
}

#[test]
fn the_picker_lists_the_columns() {
    let mut state = ui();
    assert!(column_picker_overlay(&state).is_none());
    state.column_picker = Some(1);
    let overlay = column_picker_overlay(&state).unwrap();
    assert_eq!((overlay.width, overlay.height), (44, 15));
    assert_eq!(overlay.title, "columns");
    assert_eq!(overlay.lines.len(), 14);
    assert_eq!(overlay.lines[2].text, " [·] id");
    assert_eq!(overlay.lines[2].role, LineRole::Faint);
    assert_eq!(overlay.lines[3].text, " [x] thr");
    assert_eq!(overlay.lines[3].role, LineRole::Cursor);
    assert_eq!(overlay.lines[8].text, " [ ] lat_r p50/95/99");
}

#[test]
fn prompts_show_what_was_typed() {
    let mut fleet = two_vms();
    let mut state = ui();
    assert!(input_prompt_overlay(&state).is_none());
    state.handle_key(Key::Char('r'), &mut fleet, 0);
    let overlay = input_prompt_overlay(&state).unwrap();
    assert_eq!((overlay.width, overlay.height, overlay.lines.len()), (60, 7, 6));
    assert_eq!(overlay.lines[1].text, "  refresh cadence (seconds)");
    assert_eq!(overlay.lines[3].text, "  > 1_");
    state.handle_key(Key::Esc, &mut fleet, 0);
    state.handle_key(Key::Char('j'), &mut fleet, 0);
    state.handle_key(Key::Char('n'), &mut fleet, 0);
    state.handle_key(Key::Tab, &mut fleet, 0);
    let overlay = input_prompt_overlay(&state).unwrap();
    assert_eq!((overlay.height, overlay.lines.len()), (9, 8));
    assert_eq!(overlay.lines[5].text, "  [x] sticky   [Tab] toggle");
    assert_eq!(overlay.lines[7].text, "  [Enter] commit    [Tab] sticky    [Esc] cancel");
}

#[test]
fn long_errors_are_cut() {
    let overlay = daemon_lost_overlay("gone", 100);
    assert_eq!((overlay.width, overlay.height), (74, 8));
    assert_eq!(overlay.lines[3].text, "last error: gone");
    assert_eq!(overlay.lines[1].role, LineRole::Alert);
    let overlay = daemon_lost_overlay(&"x".repeat(80), 100);
    assert_eq!(overlay.lines[3].text, format!("last error: {}…", "x".repeat(69)));
    let overlay = daemon_lost_overlay("abcdef", 8);
    assert_eq!(overlay.lines[3].text, "last error: abc…");
    let overlay = daemon_lost_overlay("abcdef", 2);
    assert_eq!(overlay.lines[3].text, "last error: …");
}

#[test]
fn help_names_the_theme() {
    let mut state = ui();
    state.theme_idx = 4;
    let overlay = help_overlay(&state);
    assert_eq!((overlay.lines.len(), overlay.height, overlay.width), (30, 32, 72));
    assert_eq!(overlay.lines[0].text, "hotkeys");
    assert_eq!(overlay.lines[27].text, "theme: gruvbox");
    assert_eq!(overlay.lines[29].text, "press any key to dismiss");
}

#[test]
fn the_title_shows_the_modes() {
    let mut state = ui();
    let title = title_bar(&state, 4096, 3);
    assert_eq!(title.axis, "  IOPS @ 4 KiB");
    assert_eq!(title.fleet, "  vms=3  theme=default-dark");
    assert_eq!((title.paused, title.sticky), ("", ""));
    state.paused = true;
    state.sticky_mode = true;
    let title = title_bar(&state, 4096, 3);
    assert_eq!((title.paused, title.sticky), (" [PAUSED]", " [STICKY]"));
}

#[test]
fn a_lost_daemon_covers_everything() {
    let mut state = ui();
    assert!(layers(&state, false).is_empty());
    state.show_help = true;
    state.column_picker = Some(0);
    assert_eq!(layers(&state, true), vec![Layer::Help, Layer::Columns, Layer::Lost]);
}

#[test]
fn connection_failures_are_explained() {
    assert_eq!(
        probe_failure("timeout"),
        "initial GetSnapshot failed (timeout); is the daemon running?"
    );
    let old = probe_failure("org.freedesktop.DBus.Error.UnknownMethod: x");
    assert!(old.contains("please redeploy the daemon"));
    assert!(old.ends_with("Original error: org.freedesktop.DBus.Error.UnknownMethod: x"));
    assert!(probe_failure("Unknown method GetSnapshot").contains("redeploy"));
    assert_eq!(
        no_daemon("i", "/o", "w"),
        "iothread-tui requires an io-thread-controller daemon on the system bus (i, /o): w"
    );
}
