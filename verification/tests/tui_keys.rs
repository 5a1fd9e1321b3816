use io_thread_controller::tui::feed::{SnapshotPayload, SnapshotVm};
use io_thread_controller::tui::labels::{DashColumn, PerfMetric, PlotKind};
use io_thread_controller::tui::number::{fmt_prompt_secs, read_number, Decimal};
use io_thread_controller::tui::prompt::{InputPromptKind, Key};
use io_thread_controller::tui::roster::Fleet;
use io_thread_controller::tui::theme::{dim, Hue, Theme};
use io_thread_controller::tui::ui::{Focus, KeyAction, UiState};

const SECOND: u64 = 1_000_000_000;

fn entry(id: &str, threads: u32) -> SnapshotVm {
    SnapshotVm {
        id: id.to_string(),
        thread_count: threads,
        vcpu_count: 4,
        read_iops: 0,
        write_iops: 0,
        other_iops: 0,
        read_bw_bps: 0,
        write_bw_bps: 0,
        per_thread_util: 0,
        read_latency_us: None,
        write_latency_us: None,
        qd_total: None,
        qd_avg_x100: None,
        qd_median: None,
        num_queues: None,
        cpu_pct_avg: None,
        cpu_pct_median: None,
        cpu_pct_total: None,
        manual_scaling_sticky: false,
        alive: true,
    }
}

fn fleet(vms: &[(&str, u32)]) -> Fleet {
    let mut fleet = Fleet::new(SECOND);
    let vms = vms.iter().map(|(id, n)| entry(id, *n)).collect();
    fleet.take_reply(Ok(SnapshotPayload { vms }), &Vec::new(), 0);
    fleet
}

fn ui() -> UiState {
    UiState::new(PerfMetric::Iops, 0)
}

fn press(ui: &mut UiState, fleet: &mut Fleet, keys: &str) -> KeyAction {
    let mut last = KeyAction::Stay;
    for c in keys.chars() {
        last = ui.handle_key(Key::Char(c), fleet, 7);
    }
    last
}

fn buffer(ui: &UiState) -> String {
    ui.input_prompt.as_ref().map(|p| p.buffer.clone()).unwrap_or_default()
}

#[test]
fn q_quits_and_escape_undoes_first() {
    let mut fleet = fleet(&[("a", 1), ("b", 1), ("c", 1)]);
    let mut state = ui();
    assert!(matches!(press(&mut state, &mut fleet, "q"), KeyAction::Quit));
    press(&mut state, &mut fleet, "sj");
    assert!(state.sticky_mode);
    assert_eq!(state.focused, Some(Focus::Vm(1)));
    assert!(matches!(state.handle_key(Key::Esc, &mut fleet, 0), KeyAction::Stay));
    assert_eq!(state.focused, None);
    assert!(matches!(state.handle_key(Key::Esc, &mut fleet, 0), KeyAction::Stay));
    assert!(!state.sticky_mode);
    assert!(matches!(state.handle_key(Key::Esc, &mut fleet, 0), KeyAction::Quit));
}

#[test]
fn ctrl_c_is_a_key_of_its_own() {
    assert_eq!(Key::Char('c').pressed(true), Key::Interrupt);
    assert_eq!(Key::Char('c').pressed(false), Key::Char('c'));
    assert_eq!(Key::Char('x').pressed(true), Key::Char('x'));
}

#[test]
fn ctrl_c_quits_with_a_focus_set() {
    let mut fleet = fleet(&[("vm-1", 1)]);
    let mut state = ui();
    state.focused = Some(Focus::Vm(0));
    state.sticky_mode = true;
    assert!(matches!(state.handle_key(Key::Interrupt, &mut fleet, 0), KeyAction::Quit));
    assert_eq!(state.focused, Some(Focus::Vm(0)));
    assert!(matches!(state.handle_key(Key::Esc, &mut fleet, 0), KeyAction::Stay));
    assert_eq!(state.focused, None);
}

#[test]
fn ctrl_c_dismisses_an_open_modal() {
    let mut fleet = fleet(&[]);
    let mut state = ui();
    press(&mut state, &mut fleet, "r");
    assert!(state.input_prompt.is_some());
    assert!(matches!(state.handle_key(Key::Interrupt, &mut fleet, 0), KeyAction::Stay));
    assert!(state.input_prompt.is_none());
    press(&mut state, &mut fleet, "c");
    assert!(state.column_picker.is_some());
    assert!(matches!(state.handle_key(Key::Interrupt, &mut fleet, 0), KeyAction::Stay));
    assert!(state.column_picker.is_none());
    press(&mut state, &mut fleet, "h");
    assert!(matches!(state.handle_key(Key::Interrupt, &mut fleet, 0), KeyAction::Stay));
    assert!(!state.show_help);
}

#[test]
fn help_swallows_the_next_key() {
    let mut fleet = fleet(&[]);
    let mut state = ui();
    press(&mut state, &mut fleet, "h");
    assert!(state.show_help);
    assert!(matches!(press(&mut state, &mut fleet, "q"), KeyAction::Stay));
    assert!(!state.show_help);
}

#[test]
fn two_steps_down_focus_the_third_vm() {
    let mut fleet = fleet(&[("vm-1", 1), ("vm-2", 1), ("vm-3", 2)]);
    let mut state = ui();
    state.handle_key(Key::Down, &mut fleet, 0);
    state.handle_key(Key::Down, &mut fleet, 0);
    assert_eq!(state.focused, Some(Focus::Vm(2)));
    match press(&mut state, &mut fleet, "+") {
        KeyAction::SetThreads(request) => {
            assert_eq!(request.id, "vm-3");
            assert_eq!((request.from, request.to, request.sticky), (2, 3, false));
        }
        _ => panic!("expected a request"),
    }
    state.handle_key(Key::Down, &mut fleet, 0);
    assert_eq!(state.focused, Some(Focus::Total));
    assert!(matches!(press(&mut state, &mut fleet, "+"), KeyAction::Stay));
    state.handle_key(Key::Down, &mut fleet, 0);
    assert_eq!(state.focused, Some(Focus::Vm(0)));
    state.handle_key(Key::Up, &mut fleet, 0);
    assert_eq!(state.focused, Some(Focus::Total));
}

#[test]
fn a_single_vm_has_no_total_row_to_focus() {
    let mut one = fleet(&[("a", 1)]);
    let mut state = ui();
    press(&mut state, &mut one, "k");
    assert_eq!(state.focused, Some(Focus::Vm(0)));
    let mut none = fleet(&[]);
    press(&mut state, &mut none, "j");
    assert_eq!(state.focused, None);
}

#[test]
fn nudges_stop_at_one_worker_and_carry_sticky() {
    let mut fleet = fleet(&[("a", 1)]);
    let mut state = ui();
    assert!(matches!(press(&mut state, &mut fleet, "+"), KeyAction::Stay));
    assert!(matches!(press(&mut state, &mut fleet, "j-"), KeyAction::Stay));
    match press(&mut state, &mut fleet, "s=") {
        KeyAction::SetThreads(request) => {
            assert_eq!((request.to, request.sticky), (2, true))
        }
        _ => panic!("expected a request"),
    }
    fleet.vms[0].status.thread_count = i32::MAX as u32;
    assert!(matches!(press(&mut state, &mut fleet, "+"), KeyAction::Stay));
    assert!(matches!(press(&mut state, &mut fleet, "_"), KeyAction::SetThreads(_)));
}

#[test]
fn panes_are_switched_but_one_stays() {
    let mut fleet = fleet(&[]);
    let mut state = ui();
    assert_eq!(state.active_plots, vec![PlotKind::Perf]);
    press(&mut state, &mut fleet, "1");
    assert_eq!(state.active_plots, vec![PlotKind::Perf]);
    press(&mut state, &mut fleet, "325");
    assert_eq!(
        state.active_plots,
        vec![PlotKind::Perf, PlotKind::Cpu, PlotKind::Latency, PlotKind::CpuPerIop]
    );
    press(&mut state, &mut fleet, "13");
    assert_eq!(state.active_plots, vec![PlotKind::Latency, PlotKind::CpuPerIop]);
    press(&mut state, &mut fleet, "4");
    assert!(state.active_plots.contains(&PlotKind::QueueDepth));
}

#[test]
fn toggles_change_the_display() {
    let mut fleet = fleet(&[]);
    let mut state = ui();
    press(&mut state, &mut fleet, "mlx");
    assert_eq!(state.perf_metric, PerfMetric::Bandwidth);
    assert!(state.log_y_scale && state.wall_clock_x);
    press(&mut state, &mut fleet, "mlx");
    assert_eq!(state.perf_metric, PerfMetric::Iops);
    assert!(!state.log_y_scale && !state.wall_clock_x);
}

#[test]
fn themes_cycle() {
    let mut fleet = fleet(&[]);
    let mut state = ui();
    let mut names = Vec::new();
    for _ in 0..5 {
        names.push(state.theme().name());
        press(&mut state, &mut fleet, "t");
    }
    assert_eq!(
        names,
        vec!["default-dark", "default-light", "vim-desert", "solarized-dark", "gruvbox"]
    );
    assert_eq!(state.theme(), Theme::DefaultDark);
    assert_eq!(state.theme().vm_color(9), Hue::LightMagenta);
    assert_eq!(state.theme().aggregate(), Hue::Gray);
    assert_eq!(Theme::VimDesert.background(), Hue::Rgb(0x33, 0x2d, 0x29));
    assert_eq!(Theme::Gruvbox.accent(), Hue::LightRed);
    assert_eq!(Theme::DefaultLight.axis(), Hue::Gray);
    assert_eq!(dim(Hue::LightCyan), Hue::DarkGray);
    assert_eq!(dim(dim(Hue::Cyan)), Hue::Blue);
}

#[test]
fn pausing_freezes_the_time() {
    let mut fleet = fleet(&[]);
    let mut state = ui();
    press(&mut state, &mut fleet, "p");
    assert!(state.paused && fleet.paused);
    assert_eq!(state.paused_t_frozen, Some(7));
    press(&mut state, &mut fleet, " ");
    assert!(!state.paused && !fleet.paused);
    assert_eq!(state.paused_t_frozen, None);
}

#[test]
fn the_refresh_prompt_takes_seconds() {
    let mut fleet = fleet(&[]);
    let mut state = ui();
    press(&mut state, &mut fleet, "r");
    assert_eq!(buffer(&state), "1");
    state.handle_key(Key::Backspace, &mut fleet, 0);
    press(&mut state, &mut fleet, "0.2x.5");
    assert_eq!(buffer(&state), "0.25");
    state.handle_key(Key::Enter, &mut fleet, 0);
    assert!(state.input_prompt.is_none());
    assert_eq!(fleet.refresh_ns, 250_000_000);
    // Too short a cadence keeps the prompt open.
    press(&mut state, &mut fleet, "r");
    assert_eq!(buffer(&state), "0.25");
    for _ in 0..4 {
        state.handle_key(Key::Backspace, &mut fleet, 0);
    }
    state.handle_key(Key::Enter, &mut fleet, 0);
    assert!(state.input_prompt.is_some());
    press(&mut state, &mut fleet, "0.049");
    state.handle_key(Key::Enter, &mut fleet, 0);
    assert!(state.input_prompt.is_some());
    state.handle_key(Key::Backspace, &mut fleet, 0);
    state.handle_key(Key::Backspace, &mut fleet, 0);
    press(&mut state, &mut fleet, "5");
    state.handle_key(Key::Enter, &mut fleet, 0);
    assert_eq!(fleet.refresh_ns, 50_000_000);
}

#[test]
fn typing_is_limited_and_escape_cancels() {
    let mut fleet = fleet(&[]);
    let mut state = ui();
    press(&mut state, &mut fleet, "r99999999999999999");
    assert_eq!(buffer(&state), "199999999999");
    state.handle_key(Key::Enter, &mut fleet, 0);
    assert_eq!(fleet.refresh_ns, u64::MAX);
    press(&mut state, &mut fleet, "r");
    assert_eq!(buffer(&state), "18446744073.709551615");
    assert!(matches!(press(&mut state, &mut fleet, "q"), KeyAction::Stay));
    state.handle_key(Key::Esc, &mut fleet, 0);
    assert!(state.input_prompt.is_none());
    assert_eq!(fleet.refresh_ns, u64::MAX);
}

#[test]
fn y_maxima_are_locked_and_released() {
    let mut fleet = fleet(&[]);
    let mut state = ui();
    press(&mut state, &mut fleet, "31y");
    assert!(matches!(
        state.input_prompt.as_ref().unwrap().kind,
        InputPromptKind::YMax(PlotKind::Cpu)
    ));
    assert_eq!(buffer(&state), "");
    press(&mut state, &mut fleet, "2.5");
    state.handle_key(Key::Enter, &mut fleet, 0);
    assert_eq!(
        state.y_max_override.get(PlotKind::Cpu),
        Some(Decimal { mantissa: 25, places: 1 })
    );
    assert_eq!(state.y_max_override.get(PlotKind::Perf), None);
    // Halves are rounded to even.
    press(&mut state, &mut fleet, "y");
    assert_eq!(buffer(&state), "2");
    state.handle_key(Key::Backspace, &mut fleet, 0);
    press(&mut state, &mut fleet, ".");
    state.handle_key(Key::Enter, &mut fleet, 0);
    assert!(state.input_prompt.is_some());
    press(&mut state, &mut fleet, "0");
    state.handle_key(Key::Enter, &mut fleet, 0);
    assert!(state.input_prompt.is_none());
    assert_eq!(state.y_max_override.get(PlotKind::Cpu), None);
    press(&mut state, &mut fleet, "y7");
    state.handle_key(Key::Enter, &mut fleet, 0);
    press(&mut state, &mut fleet, "y");
    state.handle_key(Key::Backspace, &mut fleet, 0);
    state.handle_key(Key::Enter, &mut fleet, 0);
    assert_eq!(state.y_max_override.get(PlotKind::Cpu), None);
}

#[test]
fn resets_discard_the_history() {
    let mut fleet = fleet(&[("a", 1), ("b", 1)]);
    let mut state = ui();
    press(&mut state, &mut fleet, "y7");
    state.handle_key(Key::Enter, &mut fleet, 0);
    press(&mut state, &mut fleet, "z");
    assert!(fleet.vms[0].samples.is_empty() && fleet.aggregate.is_empty());
    assert!(state.y_max_override.get(PlotKind::Perf).is_some());
    press(&mut state, &mut fleet, "Z");
    assert!(state.y_max_override.get(PlotKind::Perf).is_none());
}

#[test]
fn worker_counts_are_set_through_the_prompt() {
    let mut fleet = fleet(&[("vm-1", 4)]);
    let mut state = ui();
    press(&mut state, &mut fleet, "n");
    assert!(state.input_prompt.is_none());
    press(&mut state, &mut fleet, "jn");
    let prompt = state.input_prompt.as_ref().unwrap();
    assert_eq!(prompt.kind.title(), "set thread count for vm-1");
    assert_eq!(prompt.buffer, "4");
    state.handle_key(Key::Backspace, &mut fleet, 0);
    press(&mut state, &mut fleet, "0");
    assert!(matches!(state.handle_key(Key::Enter, &mut fleet, 0), KeyAction::Stay));
    assert!(state.input_prompt.is_some());
    state.handle_key(Key::Backspace, &mut fleet, 0);
    state.handle_key(Key::Tab, &mut fleet, 0);
    press(&mut state, &mut fleet, "1.2");
    match state.handle_key(Key::Enter, &mut fleet, 0) {
        KeyAction::SetThreads(request) => {
            assert_eq!(request.id, "vm-1");
            assert_eq!((request.from, request.to, request.sticky), (4, 12, true));
        }
        _ => panic!("expected a request"),
    }
    assert!(state.input_prompt.is_none());
    press(&mut state, &mut fleet, "n99999999999");
    assert!(matches!(state.handle_key(Key::Enter, &mut fleet, 0), KeyAction::Stay));
    assert!(state.input_prompt.is_some());
}

#[test]
fn prompts_have_titles() {
    assert_eq!(InputPromptKind::RefreshSecs.title(), "refresh cadence (seconds)");
    assert_eq!(
        InputPromptKind::YMax(PlotKind::QueueDepth).title(),
        "y-max for qd (0 clears)"
    );
}

#[test]
fn columns_are_picked() {
    let mut fleet = fleet(&[]);
    let mut state = ui();
    let shown = |state: &UiState| -> Vec<&'static str> {
        state.visible_columns().into_iter().map(|c| c.label()).collect()
    };
    assert_eq!(
        shown(&state),
        vec![
            "id",
            "thr",
            "iops r/w/o",
            "bw r/w",
            "cpu avg/med/total",
            "us/iop",
            "qd avg/med/tot",
            "queues"
        ]
    );
    press(&mut state, &mut fleet, "c ");
    assert!(state.columns.contains(DashColumn::Id));
    press(&mut state, &mut fleet, "k ");
    assert_eq!(state.column_picker, Some(9));
    assert!(!state.columns.contains(DashColumn::NumQueues));
    state.handle_key(Key::Down, &mut fleet, 0);
    assert_eq!(state.column_picker, Some(0));
    press(&mut state, &mut fleet, "jjjjjj");
    state.handle_key(Key::Enter, &mut fleet, 0);
    assert!(state.columns.contains(DashColumn::LatRead));
    press(&mut state, &mut fleet, "q");
    assert_eq!(state.column_picker, None);
}

#[test]
fn cadences_are_written_without_trailing_zeros() {
    let cases = [
        (SECOND, "1"),
        (SECOND / 4, "0.25"),
        (10 * SECOND, "10"),
        (1_500_000_000, "1.5"),
        (50_000_000, "0.05"),
        (1_000_000_999, "1"),
        (1_000_001_000, "1.000001"),
        (0, ""),
    ];
    for (ns, text) in cases {
        assert_eq!(fmt_prompt_secs(ns), text);
    }
}

#[test]
fn numbers_are_read_with_or_without_a_point() {
    assert_eq!(read_number("12"), Some(Decimal { mantissa: 12, places: 0 }));
    assert_eq!(read_number(".5"), Some(Decimal { mantissa: 5, places: 1 }));
    assert_eq!(read_number("5."), Some(Decimal { mantissa: 5, places: 0 }));
    assert_eq!(read_number("."), None);
    assert_eq!(read_number(""), None);
    assert_eq!(read_number("3.5").unwrap().rounded_text(), "4");
    assert_eq!(read_number("0.4").unwrap().at_least_one(), Decimal { mantissa: 1, places: 0 });
}
