//! The dashboard's local state and how keys change it.
use vstd::prelude::*;
use vstd::string::*;

use crate::tui::labels::{all_columns, DashColumn, PerfMetric, PlotKind, N_COLUMNS};
use crate::tui::number::{secs_text, Decimal};
use crate::tui::prompt::{
    Commit, CommitModel, InputPrompt, Key, KindModel, PromptModel, PromptOutcome, RequestModel,
    ThreadRequest,
};
use crate::tui::roster::{Fleet, VmModel, MIN_REFRESH_NS};
use crate::tui::theme::{Theme, N_THEMES};

verus! {

/// Which row the operator has selected.
#[derive(Debug, Clone, Copy, PartialEq, Eq, Structural)]
pub enum Focus {
    /// The VM at a position of the roster.
    Vm(usize),
    /// The fleet as a whole.
    Total,
}

/// Which dashboard columns are visible.
#[derive(Debug, Clone, Copy, PartialEq, Eq, Structural)]
pub struct ColumnSet {
    /// [`DashColumn::Id`].
    pub id: bool,
    /// [`DashColumn::Threads`].
    pub threads: bool,
    /// [`DashColumn::Iops`].
    pub iops: bool,
    /// [`DashColumn::Bandwidth`].
    pub bandwidth: bool,
    /// [`DashColumn::Cpu`].
    pub cpu: bool,
    /// [`DashColumn::UsPerIop`].
    pub us_per_iop: bool,
    /// [`DashColumn::LatRead`].
    pub lat_read: bool,
    /// [`DashColumn::LatWrite`].
    pub lat_write: bool,
    /// [`DashColumn::QueueDepth`].
    pub queue_depth: bool,
    /// [`DashColumn::NumQueues`].
    pub num_queues: bool,
}

impl ColumnSet {
    /// Whether a column is visible.
    pub open spec fn has(self, column: DashColumn) -> bool {
        match column {
            DashColumn::Id => self.id,
            DashColumn::Threads => self.threads,
            DashColumn::Iops => self.iops,
            DashColumn::Bandwidth => self.bandwidth,
            DashColumn::Cpu => self.cpu,
            DashColumn::UsPerIop => self.us_per_iop,
            DashColumn::LatRead => self.lat_read,
            DashColumn::LatWrite => self.lat_write,
            DashColumn::QueueDepth => self.queue_depth,
            DashColumn::NumQueues => self.num_queues,
        }
    }

    /// The set with one column shown or hidden.
    pub open spec fn with(self, column: DashColumn, shown: bool) -> ColumnSet {
        match column {
            DashColumn::Id => ColumnSet { id: shown, ..self },
            DashColumn::Threads => ColumnSet { threads: shown, ..self },
            DashColumn::Iops => ColumnSet { iops: shown, ..self },
            DashColumn::Bandwidth => ColumnSet { bandwidth: shown, ..self },
            DashColumn::Cpu => ColumnSet { cpu: shown, ..self },
            DashColumn::UsPerIop => ColumnSet { us_per_iop: shown, ..self },
            DashColumn::LatRead => ColumnSet { lat_read: shown, ..self },
            DashColumn::LatWrite => ColumnSet { lat_write: shown, ..self },
            DashColumn::QueueDepth => ColumnSet { queue_depth: shown, ..self },
            DashColumn::NumQueues => ColumnSet { num_queues: shown, ..self },
        }
    }

    /// Whether a column is visible.
    pub fn contains(&self, column: DashColumn) -> (r: bool)
        ensures
            r == self.has(column),
    {
        match column {
            DashColumn::Id => self.id,
            DashColumn::Threads => self.threads,
            DashColumn::Iops => self.iops,
            DashColumn::Bandwidth => self.bandwidth,
            DashColumn::Cpu => self.cpu,
            DashColumn::UsPerIop => self.us_per_iop,
            DashColumn::LatRead => self.lat_read,
            DashColumn::LatWrite => self.lat_write,
            DashColumn::QueueDepth => self.queue_depth,
            DashColumn::NumQueues => self.num_queues,
        }
    }

    /// Show or hide a column.
    pub fn set(&mut self, column: DashColumn, shown: bool)
        ensures
            *final(self) == old(self).with(column, shown),
    {
        *self =
        match column {
            DashColumn::Id => ColumnSet { id: shown, ..*self },
            DashColumn::Threads => ColumnSet { threads: shown, ..*self },
            DashColumn::Iops => ColumnSet { iops: shown, ..*self },
            DashColumn::Bandwidth => ColumnSet { bandwidth: shown, ..*self },
            DashColumn::Cpu => ColumnSet { cpu: shown, ..*self },
            DashColumn::UsPerIop => ColumnSet { us_per_iop: shown, ..*self },
            DashColumn::LatRead => ColumnSet { lat_read: shown, ..*self },
            DashColumn::LatWrite => ColumnSet { lat_write: shown, ..*self },
            DashColumn::QueueDepth => ColumnSet { queue_depth: shown, ..*self },
            DashColumn::NumQueues => ColumnSet { num_queues: shown, ..*self },
        };
    }
}

/// Showing or hiding a column changes no other one.
pub proof fn columns_are_independent(set: ColumnSet, column: DashColumn, shown: bool, other: DashColumn)
    ensures
        set.with(column, shown).has(other) == if other == column {
            shown
        } else {
            set.has(other)
        },
{
}

/// The columns that are visible at startup: all but the latencies.
pub open spec fn default_columns() -> ColumnSet {
    ColumnSet {
        id: true,
        threads: true,
        iops: true,
        bandwidth: true,
        cpu: true,
        us_per_iop: true,
        lat_read: false,
        lat_write: false,
        queue_depth: true,
        num_queues: true,
    }
}

/// Locked Y-axis maxima, by plot.
#[derive(Debug, Clone, Copy, PartialEq, Eq, Structural)]
pub struct YMaxOverrides {
    /// For [`PlotKind::Perf`].
    pub perf: Option<Decimal>,
    /// For [`PlotKind::Latency`].
    pub latency: Option<Decimal>,
    /// For [`PlotKind::Cpu`].
    pub cpu: Option<Decimal>,
    /// For [`PlotKind::QueueDepth`].
    pub queue_depth: Option<Decimal>,
    /// For [`PlotKind::CpuPerIop`].
    pub cpu_per_iop: Option<Decimal>,
}

/// No plot is locked.
pub open spec fn no_overrides() -> YMaxOverrides {
    YMaxOverrides {
        perf: None,
        latency: None,
        cpu: None,
        queue_depth: None,
        cpu_per_iop: None,
    }
}

impl YMaxOverrides {
    /// No plot is locked.
    pub fn none() -> (r: Self)
        ensures
            r == no_overrides(),
    {
        YMaxOverrides {
            perf: None,
            latency: None,
            cpu: None,
            queue_depth: None,
            cpu_per_iop: None,
        }
    }

    /// The maximum of a plot, if it is locked.
    pub open spec fn of(self, plot: PlotKind) -> Option<Decimal> {
        match plot {
            PlotKind::Perf => self.perf,
            PlotKind::Latency => self.latency,
            PlotKind::Cpu => self.cpu,
            PlotKind::QueueDepth => self.queue_depth,
            PlotKind::CpuPerIop => self.cpu_per_iop,
        }
    }

    /// The maxima with one plot's changed.
    pub open spec fn with(self, plot: PlotKind, max: Option<Decimal>) -> YMaxOverrides {
        match plot {
            PlotKind::Perf => YMaxOverrides { perf: max, ..self },
            PlotKind::Latency => YMaxOverrides { latency: max, ..self },
            PlotKind::Cpu => YMaxOverrides { cpu: max, ..self },
            PlotKind::QueueDepth => YMaxOverrides { queue_depth: max, ..self },
            PlotKind::CpuPerIop => YMaxOverrides { cpu_per_iop: max, ..self },
        }
    }

    /// Every maximum is one that can be typed.
    pub open spec fn wf(self) -> bool {
        &&& self.perf matches Some(d) ==> d.wf()
        &&& self.latency matches Some(d) ==> d.wf()
        &&& self.cpu matches Some(d) ==> d.wf()
        &&& self.queue_depth matches Some(d) ==> d.wf()
        &&& self.cpu_per_iop matches Some(d) ==> d.wf()
    }

    /// The maximum of a plot, if it is locked.
    pub fn get(&self, plot: PlotKind) -> (r: Option<Decimal>)
        ensures
            r == self.of(plot),
    {
        match plot {
            PlotKind::Perf => self.perf,
            PlotKind::Latency => self.latency,
            PlotKind::Cpu => self.cpu,
            PlotKind::QueueDepth => self.queue_depth,
            PlotKind::CpuPerIop => self.cpu_per_iop,
        }
    }

    /// Lock or release a plot.
    pub fn set(&mut self, plot: PlotKind, max: Option<Decimal>)
        ensures
            *final(self) == old(self).with(plot, max),
    {
        *self =
        match plot {
            PlotKind::Perf => YMaxOverrides { perf: max, ..*self },
            PlotKind::Latency => YMaxOverrides { latency: max, ..*self },
            PlotKind::Cpu => YMaxOverrides { cpu: max, ..*self },
            PlotKind::QueueDepth => YMaxOverrides { queue_depth: max, ..*self },
            PlotKind::CpuPerIop => YMaxOverrides { cpu_per_iop: max, ..*self },
        };
    }
}

/// Locking or releasing a plot changes no other one.
pub proof fn overrides_are_independent(
    maxima: YMaxOverrides,
    plot: PlotKind,
    max: Option<Decimal>,
    other: PlotKind,
)
    ensures
        maxima.with(plot, max).of(other) == if other == plot {
            max
        } else {
            maxima.of(other)
        },
{
}

/// UI-local state: the toggles the operator drives from the keyboard.
#[derive(Debug)]
pub struct UiState {
    /// The panes that are on, in stacking order.
    pub active_plots: Vec<PlotKind>,
    /// What the perf pane plots.
    pub perf_metric: PerfMetric,
    /// The selected row.
    pub focused: Option<Focus>,
    /// Whether the display is paused.
    pub paused: bool,
    /// Where the X axis stands while paused.
    pub paused_t_frozen: Option<u64>,
    /// Whether the next `+` / `-` is sticky.
    pub sticky_mode: bool,
    /// Whether the help overlay is shown.
    pub show_help: bool,
    /// The open prompt, if any.
    pub input_prompt: Option<InputPrompt>,
    /// The selected theme.
    pub theme_idx: usize,
    /// The visible columns.
    pub columns: ColumnSet,
    /// Cursor of the column picker, while it is open.
    pub column_picker: Option<usize>,
    /// Whether the Y axes are logarithmic.
    pub log_y_scale: bool,
    /// Locked Y-axis maxima.
    pub y_max_override: YMaxOverrides,
    /// Whether the X axis shows wall-clock time.
    pub wall_clock_x: bool,
    /// UNIX-epoch seconds at startup.
    pub started_unix_s: u64,
}

/// What the UI state holds.
pub struct UiModel {
    /// The panes that are on.
    pub active_plots: Seq<PlotKind>,
    /// What the perf pane plots.
    pub perf_metric: PerfMetric,
    /// The selected row.
    pub focused: Option<Focus>,
    /// Whether the display is paused.
    pub paused: bool,
    /// Where the X axis stands while paused.
    pub paused_t_frozen: Option<u64>,
    /// Whether the next `+` / `-` is sticky.
    pub sticky_mode: bool,
    /// Whether the help overlay is shown.
    pub show_help: bool,
    /// The open prompt.
    pub input_prompt: Option<PromptModel>,
    /// The selected theme.
    pub theme_idx: usize,
    /// The visible columns.
    pub columns: ColumnSet,
    /// Cursor of the column picker.
    pub column_picker: Option<usize>,
    /// Whether the Y axes are logarithmic.
    pub log_y_scale: bool,
    /// Locked Y-axis maxima.
    pub y_max_override: YMaxOverrides,
    /// Whether the X axis shows wall-clock time.
    pub wall_clock_x: bool,
    /// UNIX-epoch seconds at startup.
    pub started_unix_s: u64,
}

impl View for UiState {
    type V = UiModel;

    open spec fn view(&self) -> UiModel {
        UiModel {
            active_plots: self.active_plots@,
            perf_metric: self.perf_metric,
            focused: self.focused,
            paused: self.paused,
            paused_t_frozen: self.paused_t_frozen,
            sticky_mode: self.sticky_mode,
            show_help: self.show_help,
            input_prompt: match self.input_prompt {
                Some(prompt) => Some(prompt@),
                None => None,
            },
            theme_idx: self.theme_idx,
            columns: self.columns,
            column_picker: self.column_picker,
            log_y_scale: self.log_y_scale,
            y_max_override: self.y_max_override,
            wall_clock_x: self.wall_clock_x,
            started_unix_s: self.started_unix_s,
        }
    }
}

/// Position of a pane in the stack.
pub open spec fn position(plots: Seq<PlotKind>, k: PlotKind) -> int {
    choose|i: int| 0 <= i < plots.len() && plots[i] == k
}

/// The stack with a pane switched: the last pane on stays on.
pub open spec fn toggled_plots(plots: Seq<PlotKind>, k: PlotKind) -> Seq<PlotKind> {
    if plots.contains(k) {
        if plots.len() > 1 {
            plots.remove(position(plots, k))
        } else {
            plots
        }
    } else {
        plots.push(k)
    }
}

/// How many rows can be focused: the fleet as a whole is one of them when there
/// are at least two VMs.
pub open spec fn focus_slots(n: nat) -> nat {
    if n >= 2 {
        n + 1
    } else {
        n
    }
}

/// The focus after one step forward or back; it wraps at both ends, and starts
/// from the first VM.
pub open spec fn stepped_focus(focused: Option<Focus>, n: nat, step: int) -> Option<Focus> {
    if n == 0 {
        None
    } else {
        let here = match focused {
            Some(Focus::Vm(i)) => i as int,
            Some(Focus::Total) => n as int,
            None => 0,
        };
        let next = (here + step) % (focus_slots(n) as int);
        if n >= 2 && next == n {
            Some(Focus::Total)
        } else {
            Some(Focus::Vm(next as usize))
        }
    }
}

/// The focused VM, if the focus is on one.
pub open spec fn focused_vm(focused: Option<Focus>, roster: Seq<VmModel>) -> Option<VmModel> {
    match focused {
        Some(Focus::Vm(i)) => if i < roster.len() {
            Some(roster[i as int])
        } else {
            None
        },
        _ => None,
    }
}

/// The request that a nudge makes: one worker more or fewer for the focused VM,
/// within what a pool can have.
pub open spec fn nudge_request(
    focused: Option<Focus>,
    roster: Seq<VmModel>,
    step: int,
    sticky: bool,
) -> Option<RequestModel> {
    match focused_vm(focused, roster) {
        Some(vm) => if 1 <= vm.status.thread_count + step <= i32::MAX {
            Some(
                RequestModel {
                    id: vm.id,
                    from: vm.status.thread_count,
                    to: (vm.status.thread_count + step) as u32,
                    sticky,
                },
            )
        } else {
            None
        },
        None => None,
    }
}

/// What a key press asks of the caller.
#[derive(Debug)]
pub enum KeyAction {
    /// Nothing.
    Stay,
    /// Leave the dashboard.
    Quit,
    /// Ask the daemon for a worker count.
    SetThreads(ThreadRequest),
}

/// What a key action says.
pub enum ActionModel {
    /// Nothing.
    Stay,
    /// Leave the dashboard.
    Quit,
    /// Ask the daemon for a worker count.
    SetThreads(RequestModel),
}

impl View for KeyAction {
    type V = ActionModel;

    open spec fn view(&self) -> ActionModel {
        match self {
            KeyAction::Stay => ActionModel::Stay,
            KeyAction::Quit => ActionModel::Quit,
            KeyAction::SetThreads(request) => ActionModel::SetThreads(request@),
        }
    }
}

/// Everything that a key press leads to.
pub struct KeyStep {
    /// The UI state after it.
    pub ui: UiModel,
    /// What it asks of the caller.
    pub action: ActionModel,
    /// Whether sampling is paused after it.
    pub paused: bool,
    /// The refresh cadence after it.
    pub refresh_ns: u64,
    /// Whether all histories are discarded.
    pub reset: bool,
}

/// What a key press can see of the fleet.
pub struct FleetView {
    /// The tracked VMs.
    pub roster: Seq<VmModel>,
    /// Whether sampling is paused.
    pub paused: bool,
    /// The refresh cadence.
    pub refresh_ns: u64,
}

/// The cadence in effect, at least [`MIN_REFRESH_NS`].
pub open spec fn period(refresh_ns: u64) -> u64 {
    if refresh_ns < MIN_REFRESH_NS {
        MIN_REFRESH_NS
    } else {
        refresh_ns
    }
}

/// What a key stands for outside the modals.
#[derive(Debug, Clone, Copy, PartialEq, Eq, Structural)]
pub enum Command {
    /// Nothing.
    Nothing,
    /// Leave the dashboard.
    Quit,
    /// Undo one mode, or leave.
    Escape,
    /// Show the help overlay.
    Help,
    /// Switch the perf metric.
    Metric,
    /// Pause or go on.
    Pause,
    /// Ask for a refresh cadence.
    RefreshPrompt,
    /// Open the column picker.
    ColumnPicker,
    /// Take the next theme.
    Theme,
    /// Arm or disarm sticky mode.
    Sticky,
    /// Switch a pane.
    Plot(PlotKind),
    /// Focus the next row.
    FocusNext,
    /// Focus the previous row.
    FocusPrevious,
    /// One worker more.
    AddThread,
    /// One worker fewer.
    RemoveThread,
    /// Switch between logarithmic and linear axes.
    LogScale,
    /// Discard all histories.
    Reset,
    /// Discard all histories and release all Y axes.
    ResetAll,
    /// Ask for a Y maximum.
    YMaxPrompt,
    /// Switch between elapsed and wall-clock time.
    WallClock,
    /// Ask for a worker count.
    ThreadsPrompt,
}

/// The command of a character.
pub open spec fn hotkey(c: char) -> Command {
    if c == 'q' {
        Command::Quit
    } else if c == 'h' || c == '?' {
        Command::Help
    } else if c == 'm' {
        Command::Metric
    } else if c == 'p' || c == ' ' {
        Command::Pause
    } else if c == 'r' {
        Command::RefreshPrompt
    } else if c == 'c' {
        Command::ColumnPicker
    } else if c == 't' {
        Command::Theme
    } else if c == 's' {
        Command::Sticky
    } else if c == '1' {
        Command::Plot(PlotKind::Perf)
    } else if c == '2' {
        Command::Plot(PlotKind::Latency)
    } else if c == '3' {
        Command::Plot(PlotKind::Cpu)
    } else if c == '4' {
        Command::Plot(PlotKind::QueueDepth)
    } else if c == '5' {
        Command::Plot(PlotKind::CpuPerIop)
    } else if c == 'j' {
        Command::FocusNext
    } else if c == 'k' {
        Command::FocusPrevious
    } else if c == '+' || c == '=' {
        Command::AddThread
    } else if c == '-' || c == '_' {
        Command::RemoveThread
    } else if c == 'l' {
        Command::LogScale
    } else if c == 'z' {
        Command::Reset
    } else if c == 'Z' {
        Command::ResetAll
    } else if c == 'y' {
        Command::YMaxPrompt
    } else if c == 'x' {
        Command::WallClock
    } else if c == 'n' {
        Command::ThreadsPrompt
    } else {
        Command::Nothing
    }
}

/// The command of a key.
pub open spec fn command_of(k: Key) -> Command {
    match k {
        Key::Esc => Command::Escape,
        Key::Interrupt => Command::Quit,
        Key::Down => Command::FocusNext,
        Key::Up => Command::FocusPrevious,
        Key::Char(c) => hotkey(c),
        _ => Command::Nothing,
    }
}

/// Look up the command of a key.
pub fn command_for(k: Key) -> (r: Command)
    ensures
        r == command_of(k),
{
    match k {
        Key::Esc => Command::Escape,
        Key::Interrupt => Command::Quit,
        Key::Down => Command::FocusNext,
        Key::Up => Command::FocusPrevious,
        Key::Char(c) => match c {
            'q' => Command::Quit,
            'h' | '?' => Command::Help,
            'm' => Command::Metric,
            'p' | ' ' => Command::Pause,
            'r' => Command::RefreshPrompt,
            'c' => Command::ColumnPicker,
            't' => Command::Theme,
            's' => Command::Sticky,
            '1' => Command::Plot(PlotKind::Perf),
            '2' => Command::Plot(PlotKind::Latency),
            '3' => Command::Plot(PlotKind::Cpu),
            '4' => Command::Plot(PlotKind::QueueDepth),
            '5' => Command::Plot(PlotKind::CpuPerIop),
            'j' => Command::FocusNext,
            'k' => Command::FocusPrevious,
            '+' | '=' => Command::AddThread,
            '-' | '_' => Command::RemoveThread,
            'l' => Command::LogScale,
            'z' => Command::Reset,
            'Z' => Command::ResetAll,
            'y' => Command::YMaxPrompt,
            'x' => Command::WallClock,
            'n' => Command::ThreadsPrompt,
            _ => Command::Nothing,
        },
        _ => Command::Nothing,
    }
}

/// A step that only changes the UI state.
pub open spec fn ui_step(ui: UiModel, fleet: FleetView) -> KeyStep {
    KeyStep {
        ui,
        action: ActionModel::Stay,
        paused: fleet.paused,
        refresh_ns: fleet.refresh_ns,
        reset: false,
    }
}

impl UiModel {
    /// At least one pane is on and none twice, the theme and the picker's cursor
    /// are within range, and an open prompt and all locked maxima are sound.
    pub open spec fn wf(self) -> bool {
        &&& self.active_plots.len() >= 1
        &&& self.active_plots.no_duplicates()
        &&& self.theme_idx < N_THEMES
        &&& self.columns.has(DashColumn::Id)
        &&& self.column_picker matches Some(cursor) ==> cursor < N_COLUMNS
        &&& self.input_prompt matches Some(prompt) ==> prompt.wf()
        &&& self.y_max_override.wf()
    }

    /// The state at startup.
    pub open spec fn initial(metric: PerfMetric, started_unix_s: u64) -> UiModel {
        UiModel {
            active_plots: seq![PlotKind::Perf],
            perf_metric: metric,
            focused: None,
            paused: false,
            paused_t_frozen: None,
            sticky_mode: false,
            show_help: false,
            input_prompt: None,
            theme_idx: 0,
            columns: default_columns(),
            column_picker: None,
            log_y_scale: false,
            y_max_override: no_overrides(),
            wall_clock_x: false,
            started_unix_s,
        }
    }

    /// The state after a key while the column picker is open.
    pub open spec fn picker_step(self, k: Key) -> UiModel {
        match self.column_picker {
            None => self,
            Some(cursor) => {
                if k.dismisses() || k == Key::Char('q') || k == Key::Char('c') {
                    UiModel { column_picker: None, ..self }
                } else if k is Down || k == Key::Char('j') {
                    UiModel {
                        column_picker: Some(((cursor + 1) % (N_COLUMNS as int)) as usize),
                        ..self
                    }
                } else if k is Up || k == Key::Char('k') {
                    UiModel {
                        column_picker: Some(((cursor - 1) % (N_COLUMNS as int)) as usize),
                        ..self
                    }
                } else if k is Enter || k == Key::Char(' ') {
                    let column = all_columns()[cursor as int];
                    if column is Id {
                        self
                    } else {
                        UiModel {
                            columns: self.columns.with(column, !self.columns.has(column)),
                            ..self
                        }
                    }
                } else {
                    self
                }
            },
        }
    }

    /// What a committed value leads to.
    pub open spec fn commit_step(self, commit: CommitModel, fleet: FleetView) -> KeyStep {
        match commit {
            CommitModel::Refresh(ns) => KeyStep { refresh_ns: ns, ..ui_step(self, fleet) },
            CommitModel::YMax(plot, max) => ui_step(
                UiModel { y_max_override: self.y_max_override.with(plot, max), ..self },
                fleet,
            ),
            CommitModel::Threads(request) => KeyStep {
                action: ActionModel::SetThreads(request),
                ..ui_step(self, fleet)
            },
        }
    }

    /// What a key leads to while a prompt is open.
    pub open spec fn prompt_step(self, k: Key, fleet: FleetView) -> KeyStep {
        match self.input_prompt {
            None => ui_step(self, fleet),
            Some(prompt) => {
                let closed = UiModel { input_prompt: None, ..self };
                if k.dismisses() {
                    ui_step(closed, fleet)
                } else if k is Enter {
                    match prompt.commit() {
                        None => ui_step(self, fleet),
                        Some(commit) => closed.commit_step(commit, fleet),
                    }
                } else {
                    ui_step(UiModel { input_prompt: Some(prompt.edited(k)), ..self }, fleet)
                }
            },
        }
    }

    /// What a command does outside the modals. Escape undoes the focus, then the
    /// sticky mode, and only then quits.
    pub open spec fn command_step(self, command: Command, fleet: FleetView, t_now: u64) -> KeyStep {
        match command {
            Command::Nothing => ui_step(self, fleet),
            Command::Quit => KeyStep { action: ActionModel::Quit, ..ui_step(self, fleet) },
            Command::Escape => if self.focused is Some {
                ui_step(UiModel { focused: None, ..self }, fleet)
            } else if self.sticky_mode {
                ui_step(UiModel { sticky_mode: false, ..self }, fleet)
            } else {
                KeyStep { action: ActionModel::Quit, ..ui_step(self, fleet) }
            },
            Command::Help => ui_step(UiModel { show_help: true, ..self }, fleet),
            Command::Metric => ui_step(
                UiModel { perf_metric: self.perf_metric.other(), ..self },
                fleet,
            ),
            Command::Pause => KeyStep {
                paused: !self.paused,
                ..ui_step(
                    UiModel {
                        paused: !self.paused,
                        paused_t_frozen: if self.paused {
                            None
                        } else {
                            Some(t_now)
                        },
                        ..self
                    },
                    fleet,
                )
            },
            Command::RefreshPrompt => ui_step(
                UiModel {
                    input_prompt: Some(
                        PromptModel {
                            kind: KindModel::RefreshSecs,
                            buffer: secs_text(period(fleet.refresh_ns)),
                        },
                    ),
                    ..self
                },
                fleet,
            ),
            Command::ColumnPicker => ui_step(UiModel { column_picker: Some(0), ..self }, fleet),
            Command::Theme => ui_step(
                UiModel { theme_idx: ((self.theme_idx + 1) % (N_THEMES as int)) as usize, ..self },
                fleet,
            ),
            Command::Sticky => ui_step(UiModel { sticky_mode: !self.sticky_mode, ..self }, fleet),
            Command::Plot(k) => ui_step(
                UiModel { active_plots: toggled_plots(self.active_plots, k), ..self },
                fleet,
            ),
            Command::FocusNext => self.focus_step(1, fleet),
            Command::FocusPrevious => self.focus_step(-1, fleet),
            Command::AddThread => self.nudge_step(1, fleet),
            Command::RemoveThread => self.nudge_step(-1, fleet),
            Command::LogScale => ui_step(UiModel { log_y_scale: !self.log_y_scale, ..self }, fleet),
            Command::Reset => KeyStep { reset: true, ..ui_step(self, fleet) },
            Command::ResetAll => KeyStep {
                reset: true,
                ..ui_step(UiModel { y_max_override: no_overrides(), ..self }, fleet)
            },
            Command::YMaxPrompt => ui_step(
                UiModel {
                    input_prompt: Some(
                        PromptModel {
                            kind: KindModel::YMax(self.active_plots[0]),
                            buffer: match self.y_max_override.of(self.active_plots[0]) {
                                Some(d) => crate::text::decimal(d.rounded()),
                                None => Seq::empty(),
                            },
                        },
                    ),
                    ..self
                },
                fleet,
            ),
            Command::WallClock => ui_step(
                UiModel { wall_clock_x: !self.wall_clock_x, ..self },
                fleet,
            ),
            Command::ThreadsPrompt => match focused_vm(self.focused, fleet.roster) {
                Some(vm) => ui_step(
                    UiModel {
                        input_prompt: Some(
                            PromptModel {
                                kind: KindModel::SetThreads {
                                    vm_id: vm.id,
                                    current: vm.status.thread_count,
                                    sticky: self.sticky_mode,
                                },
                                buffer: crate::text::decimal(vm.status.thread_count as nat),
                            },
                        ),
                        ..self
                    },
                    fleet,
                ),
                None => ui_step(self, fleet),
            },
        }
    }

    /// Move the focus.
    pub open spec fn focus_step(self, step: int, fleet: FleetView) -> KeyStep {
        ui_step(
            UiModel { focused: stepped_focus(self.focused, fleet.roster.len(), step), ..self },
            fleet,
        )
    }

    /// Nudge the focused VM's worker count.
    pub open spec fn nudge_step(self, step: int, fleet: FleetView) -> KeyStep {
        KeyStep {
            action: match nudge_request(self.focused, fleet.roster, step, self.sticky_mode) {
                Some(request) => ActionModel::SetThreads(request),
                None => ActionModel::Stay,
            },
            ..ui_step(self, fleet)
        }
    }

    /// What a key leads to. The help overlay swallows one key; an open prompt,
    /// then an open column picker, take all keys.
    pub open spec fn key_step(self, k: Key, fleet: FleetView, t_now: u64) -> KeyStep {
        if self.show_help {
            ui_step(UiModel { show_help: false, ..self }, fleet)
        } else if self.input_prompt is Some {
            self.prompt_step(k, fleet)
        } else if self.column_picker is Some {
            ui_step(self.picker_step(k), fleet)
        } else {
            self.command_step(command_of(k), fleet, t_now)
        }
    }
}

/// What a key press can see of the fleet.
pub open spec fn fleet_view(fleet: Fleet) -> FleetView {
    FleetView { roster: fleet.roster(), paused: fleet.paused, refresh_ns: fleet.refresh_ns }
}

/// The fleet after a key press.
pub open spec fn fleet_follows(before: Fleet, step: KeyStep, after: Fleet) -> bool {
    if step.reset {
        &&& after.roster() == before.roster().map_values(
            |vm: VmModel|
                VmModel {
                    samples: Seq::<crate::tui::feed::Sample>::empty(),
                    annots: Seq::<crate::tui::roster::Annot>::empty(),
                    ..vm
                },
        )
        &&& after.aggregate@.len() == 0
        &&& after == (Fleet { vms: after.vms, aggregate: after.aggregate, ..before })
        &&& after.paused == step.paused
        &&& after.refresh_ns == step.refresh_ns
    } else {
        after == (Fleet { paused: step.paused, refresh_ns: step.refresh_ns, ..before })
    }
}

impl UiState {
    /// The state at startup.
    pub fn new(perf_metric: PerfMetric, started_unix_s: u64) -> (r: Self)
        ensures
            r@ == UiModel::initial(perf_metric, started_unix_s),
            r@.wf(),
    {
        let r = UiState {
            active_plots: vec![PlotKind::Perf],
            perf_metric,
            focused: None,
            paused: false,
            paused_t_frozen: None,
            sticky_mode: false,
            show_help: false,
            input_prompt: None,
            theme_idx: 0,
            columns: ColumnSet {
                id: true,
                threads: true,
                iops: true,
                bandwidth: true,
                cpu: true,
                us_per_iop: true,
                lat_read: false,
                lat_write: false,
                queue_depth: true,
                num_queues: true,
            },
            column_picker: None,
            log_y_scale: false,
            y_max_override: YMaxOverrides::none(),
            wall_clock_x: false,
            started_unix_s,
        };
        assert(r.active_plots@ == seq![PlotKind::Perf]);
        r
    }

    /// The columns that should render this frame, in canonical order.
    pub fn visible_columns(&self) -> (r: Vec<DashColumn>)
        ensures
            r@ == shown_columns(self@.columns),
    {
        let all = DashColumn::all();
        let ghost shown = |c: DashColumn| self.columns.has(c);
        let mut out: Vec<DashColumn> = Vec::new();
        let mut i: usize = 0;
        proof {
            reveal(Seq::filter);
            assert(all@.take(0).filter(shown) == Seq::<DashColumn>::empty());
        }
        while i < all.len()
            invariant
                i <= all@.len(),
                shown == (|c: DashColumn| self.columns.has(c)),
                out@ == all@.take(i as int).filter(shown),
            decreases all@.len() - i,
        {
            proof {
                reveal(Seq::filter);
                assert(all@.take(i + 1).drop_last() == all@.take(i as int));
                assert(all@.take(i + 1).last() == all@[i as int]);
            }
            if self.columns.contains(all[i]) {
                out.push(all[i]);
            }
            i += 1;
        }
        assert(all@.take(all@.len() as int) == all@);
        out
    }

    /// Currently-selected theme.
    pub fn theme(&self) -> (r: Theme)
        ensures
            r == Theme::nth(self.theme_idx),
    {
        Theme::at(self.theme_idx)
    }

    /// Switch a pane on or off; the last pane stays on.
    #[verifier::spinoff_prover]
    pub fn toggle_plot(&mut self, k: PlotKind)
        requires
            old(self)@.active_plots.no_duplicates(),
        ensures
            final(self)@ == (UiModel {
                active_plots: toggled_plots(old(self)@.active_plots, k),
                ..old(self)@
            }),
            final(self)@.active_plots.no_duplicates(),
            old(self)@.active_plots.len() >= 1 ==> final(self)@.active_plots.len() >= 1,
    {
        let ghost plots = self.active_plots@;
        let mut i: usize = 0;
        while i < self.active_plots.len()
            invariant
                i <= self.active_plots@.len(),
                *self == *old(self),
                plots == self.active_plots@,
                plots.no_duplicates(),
                forall|j: int| 0 <= j < i ==> plots[j] != k,
            decreases self.active_plots@.len() - i,
        {
            if self.active_plots[i] == k {
                proof {
                    assert(plots.contains(k));
                    let at = position(plots, k);
                    assert(0 <= at < plots.len() && plots[at] == k);
                    assert(at == i);
                }
                if self.active_plots.len() > 1 {
                    let _ = self.active_plots.remove(i);
                    proof {
                        let left = self.active_plots@;
                        assert forall|a: int, b: int|
                            0 <= a < left.len() && 0 <= b < left.len() && a != b implies left[a]
                            != left[b] by {
                            let a0 = if a < i {
                                a
                            } else {
                                a + 1
                            };
                            let b0 = if b < i {
                                b
                            } else {
                                b + 1
                            };
                            assert(left[a] == plots[a0] && left[b] == plots[b0]);
                        }
                    }
                }
                return;
            }
            i += 1;
        }
        assert(!plots.contains(k));
        self.active_plots.push(k);
    }

    /// Advance to the next theme (wraps).
    pub fn cycle_theme(&mut self)
        requires
            old(self).theme_idx < N_THEMES,
        ensures
            final(self)@ == (UiModel {
                theme_idx: ((old(self)@.theme_idx + 1) % (N_THEMES as int)) as usize,
                ..old(self)@
            }),
            final(self).theme_idx < N_THEMES,
    {
        self.theme_idx = (self.theme_idx + 1) % N_THEMES;
    }

    /// Move the dashboard cursor within the roster.
    pub fn move_focus(&mut self, n: usize, forward: bool)
        ensures
            final(self)@ == (UiModel {
                focused: stepped_focus(
                    old(self)@.focused,
                    n as nat,
                    if forward {
                        1
                    } else {
                        -1
                    },
                ),
                ..old(self)@
            }),
    {
        if n == 0 {
            self.focused = None;
            return;
        }
        let slots: u128 = if n >= 2 {
            n as u128 + 1
        } else {
            n as u128
        };
        let here: u128 = match self.focused {
            Some(Focus::Vm(i)) => i as u128,
            Some(Focus::Total) => n as u128,
            None => 0,
        };
        let next: u128 = if forward {
            (here + 1) % slots
        } else {
            (here + slots - 1) % slots
        };
        proof {
            if !forward {
                vstd::arithmetic::div_mod::lemma_mod_add_multiples_vanish(
                    here - 1,
                    slots as int,
                );
                assert((slots + (here - 1)) % slots as int == (here - 1) % slots as int);
            }
        }
        self.focused =
        if n >= 2 && next == n as u128 {
            Some(Focus::Total)
        } else {
            Some(Focus::Vm(next as usize))
        };
    }

    /// The request that `+` or `-` makes for the focused VM.
    pub fn nudge_thread_count(&self, fleet: &Fleet, up: bool) -> (r: Option<ThreadRequest>)
        ensures
            match r {
                Some(request) => nudge_request(
                    self@.focused,
                    fleet.roster(),
                    if up {
                        1
                    } else {
                        -1
                    },
                    self@.sticky_mode,
                ) == Some(request@),
                None => nudge_request(
                    self@.focused,
                    fleet.roster(),
                    if up {
                        1
                    } else {
                        -1
                    },
                    self@.sticky_mode,
                ) is None,
            },
    {
        let i: usize = match self.focused {
            Some(Focus::Vm(i)) => i,
            _ => {
                return None;
            },
        };
        if i >= fleet.vms.len() {
            return None;
        }
        assert(fleet.roster()[i as int] == fleet.vms@[i as int]@);
        let from: u32 = fleet.vms[i].status.thread_count;
        let most: u32 = i32::MAX as u32;
        let to: u32 = if up {
            if from >= most {
                return None;
            }
            from + 1
        } else {
            if from < 2 || from - 1 > most {
                return None;
            }
            from - 1
        };
        Some(ThreadRequest { id: fleet.vms[i].id.clone(), from, to, sticky: self.sticky_mode })
    }

    /// Open the prompt for the Y maximum of the first pane.
    #[verifier::spinoff_prover]
    pub fn open_ymax_prompt(&mut self)
        requires
            old(self)@.wf(),
        ensures
            final(self)@ == (UiModel {
                input_prompt: Some(
                    PromptModel {
                        kind: KindModel::YMax(old(self)@.active_plots[0]),
                        buffer: match old(self)@.y_max_override.of(old(self)@.active_plots[0]) {
                            Some(d) => crate::text::decimal(d.rounded()),
                            None => Seq::empty(),
                        },
                    },
                ),
                ..old(self)@
            }),
            final(self)@.wf(),
    {
        let plot: PlotKind = self.active_plots[0];
        let current: Option<Decimal> = self.y_max_override.get(plot);
        assert(self.y_max_override.of(plot) matches Some(d) ==> d.wf());
        self.input_prompt = Some(InputPrompt::for_y_max(plot, current));
    }

    /// Open the prompt for the focused VM's worker count; without a focused VM
    /// nothing happens.
    #[verifier::spinoff_prover]
    pub fn open_set_threads_prompt(&mut self, fleet: &Fleet)
        requires
            old(self)@.wf(),
        ensures
            match focused_vm(old(self)@.focused, fleet.roster()) {
                Some(vm) => final(self)@ == (UiModel {
                    input_prompt: Some(
                        PromptModel {
                            kind: KindModel::SetThreads {
                                vm_id: vm.id,
                                current: vm.status.thread_count,
                                sticky: old(self)@.sticky_mode,
                            },
                            buffer: crate::text::decimal(vm.status.thread_count as nat),
                        },
                    ),
                    ..old(self)@
                }),
                None => final(self)@ == old(self)@,
            },
            final(self)@.wf(),
    {
        let i: usize = match self.focused {
            Some(Focus::Vm(i)) => i,
            _ => {
                return ;
            },
        };
        if i >= fleet.vms.len() {
            return ;
        }
        assert(fleet.roster()[i as int] == fleet.vms@[i as int]@);
        let prompt = InputPrompt::for_threads(
            fleet.vms[i].id.clone(),
            fleet.vms[i].status.thread_count,
            self.sticky_mode,
        );
        self.input_prompt = Some(prompt);
    }

    /// Flip the pause: the sampler stops, and the X axis stays where it is.
    pub fn toggle_pause(&mut self, fleet: &mut Fleet, t_now: u64)
        ensures
            final(self)@ == (UiModel {
                paused: !old(self)@.paused,
                paused_t_frozen: if old(self)@.paused {
                    None
                } else {
                    Some(t_now)
                },
                ..old(self)@
            }),
            *final(fleet) == (Fleet { paused: !old(self)@.paused, ..*old(fleet) }),
    {
        self.paused = !self.paused;
        fleet.paused = self.paused;
        self.paused_t_frozen =
        if self.paused {
            Some(t_now)
        } else {
            None
        };
    }

    /// Route a key press to the column picker. Required columns cannot be
    /// hidden.
    #[verifier::spinoff_prover]
    pub fn handle_column_picker_key(&mut self, k: Key)
        requires
            old(self)@.wf(),
        ensures
            final(self)@ == old(self)@.picker_step(k),
            final(self)@.wf(),
    {
        let cursor: usize = match self.column_picker {
            Some(cursor) => cursor,
            None => {
                return ;
            },
        };
        match k {
            Key::Esc | Key::Interrupt | Key::Char('q') | Key::Char('c') => {
                self.column_picker = None;
            },
            Key::Down | Key::Char('j') => {
                self.column_picker = Some((cursor + 1) % N_COLUMNS);
            },
            Key::Up | Key::Char('k') => {
                self.column_picker = Some((cursor + N_COLUMNS - 1) % N_COLUMNS);
            },
            Key::Enter | Key::Char(' ') => {
                let all = DashColumn::all();
                let column: DashColumn = all[cursor];
                if column.required() {
                    return ;
                }
                let shown: bool = self.columns.contains(column);
                self.columns.set(column, !shown);
            },
            _ => {},
        }
    }

    /// Apply a committed value.
    #[verifier::spinoff_prover]
    fn apply(&mut self, commit: Commit, fleet: &mut Fleet) -> (r: KeyAction)
        requires
            old(self)@.wf(),
            commit matches Commit::YMax(_, Some(d)) ==> d.wf(),
        ensures
            final(self)@ == old(self)@.commit_step(commit@, fleet_view(*old(fleet))).ui,
            r@ == old(self)@.commit_step(commit@, fleet_view(*old(fleet))).action,
            *final(fleet) == (Fleet {
                refresh_ns: old(self)@.commit_step(commit@, fleet_view(*old(fleet))).refresh_ns,
                ..*old(fleet)
            }),
            final(self)@.wf(),
    {
        match commit {
            Commit::Refresh(ns) => {
                fleet.refresh_ns = ns;
                KeyAction::Stay
            },
            Commit::YMax(plot, max) => {
                self.y_max_override.set(plot, max);
                KeyAction::Stay
            },
            Commit::Threads(request) => KeyAction::SetThreads(request),
        }
    }

    /// Route a key press to the open prompt and apply what it commits.
    #[verifier::spinoff_prover]
    fn press_prompt(&mut self, k: Key, fleet: &mut Fleet) -> (r: KeyAction)
        requires
            old(self)@.wf(),
        ensures
            final(self)@ == old(self)@.prompt_step(k, fleet_view(*old(fleet))).ui,
            r@ == old(self)@.prompt_step(k, fleet_view(*old(fleet))).action,
            fleet_follows(
                *old(fleet),
                old(self)@.prompt_step(k, fleet_view(*old(fleet))),
                *final(fleet),
            ),
            final(self)@.wf(),
    {
        match self.input_prompt.take() {
            None => KeyAction::Stay,
            Some(prompt) => {
                let mut prompt = prompt;
                let ghost model = prompt@;
                let ghost closed = self@;
                assert(old(self)@.input_prompt == Some(model));
                assert(closed == (UiModel { input_prompt: None, ..old(self)@ }));
                let outcome = prompt.handle_input_prompt_key(k);
                match outcome {
                    PromptOutcome::Open => {
                        self.input_prompt = Some(prompt);
                        assert(self@ == (UiModel { input_prompt: Some(prompt@), ..old(self)@ }));
                        KeyAction::Stay
                    },
                    PromptOutcome::Cancelled => KeyAction::Stay,
                    PromptOutcome::Committed(commit) => {
                        assert(model.commit() == Some(commit@));
                        self.apply(commit, fleet)
                    },
                }
            },
        }
    }

    /// Carry out a command that changes a mode.
    #[verifier::spinoff_prover]
    fn run_mode(&mut self, command: Command, fleet: &mut Fleet, t_now: u64) -> (r: KeyAction)
        requires
            old(self)@.wf(),
            command is Nothing || command is Quit || command is Escape || command is Help || command is Metric || command is Sticky,
        ensures
            final(self)@ == old(self)@.command_step(command, fleet_view(*old(fleet)), t_now).ui,
            r@ == old(self)@.command_step(command, fleet_view(*old(fleet)), t_now).action,
            fleet_follows(
                *old(fleet),
                old(self)@.command_step(command, fleet_view(*old(fleet)), t_now),
                *final(fleet),
            ),
            final(self)@.wf(),
    {
        match command {
            Command::Quit => {
                return KeyAction::Quit;
            },
            Command::Escape => {
                if self.focused.is_some() {
                    self.focused = None;
                } else if self.sticky_mode {
                    self.sticky_mode = false;
                } else {
                    return KeyAction::Quit;
                }
            },
            Command::Help => self.show_help = true,
            Command::Metric => self.perf_metric = self.perf_metric.toggle(),
            Command::Sticky => self.sticky_mode = !self.sticky_mode,
            _ => {},
        }
        KeyAction::Stay
    }

    /// Carry out a command that changes what is shown.
    #[verifier::spinoff_prover]
    fn run_view(&mut self, command: Command, fleet: &mut Fleet, t_now: u64) -> (r: KeyAction)
        requires
            old(self)@.wf(),
            command is ColumnPicker || command is Theme || command is Plot || command is LogScale || command is WallClock || command is FocusNext || command is FocusPrevious,
        ensures
            final(self)@ == old(self)@.command_step(command, fleet_view(*old(fleet)), t_now).ui,
            r@ == old(self)@.command_step(command, fleet_view(*old(fleet)), t_now).action,
            fleet_follows(
                *old(fleet),
                old(self)@.command_step(command, fleet_view(*old(fleet)), t_now),
                *final(fleet),
            ),
            final(self)@.wf(),
    {
        match command {
            Command::ColumnPicker => self.column_picker = Some(0),
            Command::Theme => self.cycle_theme(),
            Command::Plot(k) => self.toggle_plot(k),
            Command::LogScale => self.log_y_scale = !self.log_y_scale,
            Command::WallClock => self.wall_clock_x = !self.wall_clock_x,
            Command::FocusNext => self.move_focus(fleet.vms.len(), true),
            Command::FocusPrevious => self.move_focus(fleet.vms.len(), false),
            _ => {},
        }
        KeyAction::Stay
    }

    /// Carry out a command that reaches the fleet.
    #[verifier::spinoff_prover]
    fn run_fleet(&mut self, command: Command, fleet: &mut Fleet, t_now: u64) -> (r: KeyAction)
        requires
            old(self)@.wf(),
            command is Pause || command is Reset || command is ResetAll || command is AddThread || command is RemoveThread,
        ensures
            final(self)@ == old(self)@.command_step(command, fleet_view(*old(fleet)), t_now).ui,
            r@ == old(self)@.command_step(command, fleet_view(*old(fleet)), t_now).action,
            fleet_follows(
                *old(fleet),
                old(self)@.command_step(command, fleet_view(*old(fleet)), t_now),
                *final(fleet),
            ),
            final(self)@.wf(),
    {
        match command {
            Command::Pause => self.toggle_pause(fleet, t_now),
            Command::Reset => fleet.reset_autoscale(),
            Command::ResetAll => {
                fleet.reset_autoscale();
                self.y_max_override = YMaxOverrides::none();
            },
            Command::AddThread => {
                return match self.nudge_thread_count(fleet, true) {
                    Some(request) => KeyAction::SetThreads(request),
                    None => KeyAction::Stay,
                };
            },
            Command::RemoveThread => {
                return match self.nudge_thread_count(fleet, false) {
                    Some(request) => KeyAction::SetThreads(request),
                    None => KeyAction::Stay,
                };
            },
            _ => {},
        }
        KeyAction::Stay
    }

    /// Carry out a command that opens a prompt.
    #[verifier::spinoff_prover]
    fn run_prompt(&mut self, command: Command, fleet: &mut Fleet, t_now: u64) -> (r: KeyAction)
        requires
            old(self)@.wf(),
            command is RefreshPrompt || command is YMaxPrompt || command is ThreadsPrompt,
        ensures
            final(self)@ == old(self)@.command_step(command, fleet_view(*old(fleet)), t_now).ui,
            r@ == old(self)@.command_step(command, fleet_view(*old(fleet)), t_now).action,
            fleet_follows(
                *old(fleet),
                old(self)@.command_step(command, fleet_view(*old(fleet)), t_now),
                *final(fleet),
            ),
            final(self)@.wf(),
    {
        match command {
            Command::RefreshPrompt => self.input_prompt =
            Some(InputPrompt::for_refresh(fleet.refresh_period())),
            Command::YMaxPrompt => self.open_ymax_prompt(),
            Command::ThreadsPrompt => self.open_set_threads_prompt(fleet),
            _ => {},
        }
        KeyAction::Stay
    }

    /// Carry out a command outside the modals.
    #[verifier::spinoff_prover]
    fn run(&mut self, command: Command, fleet: &mut Fleet, t_now: u64) -> (r: KeyAction)
        requires
            old(self)@.wf(),
        ensures
            final(self)@ == old(self)@.command_step(command, fleet_view(*old(fleet)), t_now).ui,
            r@ == old(self)@.command_step(command, fleet_view(*old(fleet)), t_now).action,
            fleet_follows(
                *old(fleet),
                old(self)@.command_step(command, fleet_view(*old(fleet)), t_now),
                *final(fleet),
            ),
            final(self)@.wf(),
    {
        match command {
            Command::ColumnPicker | Command::Theme | Command::Plot(_) | Command::LogScale | Command::WallClock | Command::FocusNext | Command::FocusPrevious => self.run_view(command, fleet, t_now),
            Command::Pause | Command::Reset | Command::ResetAll | Command::AddThread | Command::RemoveThread => self.run_fleet(command, fleet, t_now),
            Command::RefreshPrompt | Command::YMaxPrompt | Command::ThreadsPrompt => self.run_prompt(command, fleet, t_now),
            _ => self.run_mode(command, fleet, t_now),
        }
    }

    /// Handle a single key press.
    #[verifier::spinoff_prover]
    pub fn handle_key(&mut self, k: Key, fleet: &mut Fleet, t_now: u64) -> (r: KeyAction)
        requires
            old(self)@.wf(),
        ensures
            final(self)@ == old(self)@.key_step(k, fleet_view(*old(fleet)), t_now).ui,
            r@ == old(self)@.key_step(k, fleet_view(*old(fleet)), t_now).action,
            fleet_follows(
                *old(fleet),
                old(self)@.key_step(k, fleet_view(*old(fleet)), t_now),
                *final(fleet),
            ),
            final(self)@.wf(),
    {
        if self.show_help {
            self.show_help = false;
            KeyAction::Stay
        } else if self.input_prompt.is_some() {
            self.press_prompt(k, fleet)
        } else if self.column_picker.is_some() {
            self.handle_column_picker_key(k);
            KeyAction::Stay
        } else {
            self.run(command_for(k), fleet, t_now)
        }
    }
}

/// The visible columns in canonical order.
pub open spec fn shown_columns(columns: ColumnSet) -> Seq<DashColumn> {
    all_columns().filter(|c: DashColumn| columns.has(c))
}

/// The first key after opening the help overlay only closes it.
pub proof fn help_swallows_one_key(ui: UiModel, k: Key, fleet: FleetView, t_now: u64)
    requires
        ui.show_help,
    ensures
        ui.key_step(k, fleet, t_now) == ui_step(UiModel { show_help: false, ..ui }, fleet),
{
}

/// While a prompt is open, no key leaves the dashboard, and only Enter can ask
/// for a worker count or change the cadence.
pub proof fn prompts_shield_the_hotkeys(ui: UiModel, k: Key, fleet: FleetView, t_now: u64)
    requires
        ui.input_prompt is Some,
    ensures
        !(ui.key_step(k, fleet, t_now).action is Quit),
        !ui.key_step(k, fleet, t_now).reset,
        ui.key_step(k, fleet, t_now).paused == fleet.paused,
        !(k is Enter) ==> ui.key_step(k, fleet, t_now).action is Stay,
        !(k is Enter) ==> ui.key_step(k, fleet, t_now).refresh_ns == fleet.refresh_ns,
{
}

/// Escape leaves the dashboard only when there is nothing left to undo.
pub proof fn escape_undoes_before_it_quits(ui: UiModel, fleet: FleetView, t_now: u64)
    ensures
        ui.key_step(Key::Esc, fleet, t_now).action is Quit <==> !ui.show_help
            && ui.input_prompt is None && ui.column_picker is None && ui.focused is None
            && !ui.sticky_mode,
{
}

/// Ctrl-C and `q` leave the dashboard whatever is focused or armed, unless a modal
/// is open.
pub proof fn quitting_needs_no_undoing(ui: UiModel, k: Key, fleet: FleetView, t_now: u64)
    requires
        k is Interrupt || k == Key::Char('q'),
    ensures
        ui.key_step(k, fleet, t_now).action is Quit <==> !ui.show_help && ui.input_prompt is None
            && ui.column_picker is None,
{
}

/// Worker counts are never changed with the focus on the whole fleet, nor
/// without one.
pub proof fn nudges_need_a_focused_vm(ui: UiModel, c: char, fleet: FleetView, t_now: u64)
    requires
        ui.input_prompt is None,
        !(ui.focused matches Some(Focus::Vm(_))),
    ensures
        !(ui.key_step(Key::Char(c), fleet, t_now).action is SetThreads),
{
}

/// A nudge asks for one worker more or fewer, at least one, and carries the
/// sticky mode.
pub proof fn nudges_move_by_one(ui: UiModel, c: char, fleet: FleetView, t_now: u64)
    requires
        !ui.show_help,
        ui.input_prompt is None,
        ui.column_picker is None,
        c == '+' || c == '-',
    ensures
        ui.key_step(Key::Char(c), fleet, t_now).action matches ActionModel::SetThreads(request) ==> {
            &&& request.to >= 1
            &&& request.to == request.from + (if c == '+' {
                1int
            } else {
                -1
            })
            &&& request.sticky == ui.sticky_mode
        },
{
}

/// Moving the focus forward and back returns to the same row.
pub proof fn focus_steps_undo_each_other(focus: Focus, n: nat)
    requires
        n <= usize::MAX,
        match focus {
            Focus::Vm(i) => i < n,
            Focus::Total => n >= 2,
        },
    ensures
        stepped_focus(stepped_focus(Some(focus), n, 1), n, -1) == Some(focus),
        stepped_focus(stepped_focus(Some(focus), n, -1), n, 1) == Some(focus),
{
    let slots = focus_slots(n) as int;
    let here = match focus {
        Focus::Vm(i) => i as int,
        Focus::Total => n as int,
    };
    assert(0 <= here < slots);
    if here + 1 == slots {
        assert(slots % slots == 0) by (nonlinear_arith)
            requires
                slots > 0,
        ;
        assert(-1 % slots == slots - 1) by (nonlinear_arith)
            requires
                slots > 0,
        ;
    } else {
        vstd::arithmetic::div_mod::lemma_small_mod((here + 1) as nat, slots as nat);
        vstd::arithmetic::div_mod::lemma_small_mod(here as nat, slots as nat);
    }
    if here == 0 {
        assert(-1 % slots == slots - 1) by (nonlinear_arith)
            requires
                slots > 0,
        ;
        assert(slots % slots == 0) by (nonlinear_arith)
            requires
                slots > 0,
        ;
        vstd::arithmetic::div_mod::lemma_small_mod(0, slots as nat);
    } else {
        vstd::arithmetic::div_mod::lemma_small_mod((here - 1) as nat, slots as nat);
        vstd::arithmetic::div_mod::lemma_small_mod(here as nat, slots as nat);
    }
}

/// Every theme comes round again.
pub proof fn themes_come_round(ui: UiModel, fleet: FleetView, t_now: u64)
    requires
        ui.theme_idx < N_THEMES,
    ensures
        ({
            let once = |u: UiModel| u.command_step(Command::Theme, fleet, t_now).ui;
            once(once(once(once(once(ui))))) == ui
        }),
{
}

/// No modal is open.
pub open spec fn no_modal(ui: UiModel) -> bool {
    !ui.show_help && ui.input_prompt is None && ui.column_picker is None
}

/// A key that only changes the display changes just the one thing it is for.
pub proof fn display_keys_change_one_thing(ui: UiModel, fleet: FleetView, t_now: u64)
    requires
        no_modal(ui),
    ensures
        ({
            let step = |c: char| ui.key_step(Key::Char(c), fleet, t_now);
            let only = |s: KeyStep|
                s.action == ActionModel::Stay && s.paused == fleet.paused && s.refresh_ns
                    == fleet.refresh_ns && !s.reset;
            &&& step('h').ui == (UiModel { show_help: true, ..ui }) && only(step('h'))
            &&& step('?') == step('h')
            &&& step('c').ui == (UiModel { column_picker: Some(0), ..ui }) && only(step('c'))
            &&& step('s').ui == (UiModel { sticky_mode: !ui.sticky_mode, ..ui }) && only(step('s'))
            &&& step('l').ui == (UiModel { log_y_scale: !ui.log_y_scale, ..ui }) && only(step('l'))
            &&& step('x').ui == (UiModel { wall_clock_x: !ui.wall_clock_x, ..ui }) && only(
                step('x'),
            )
            &&& step('m').ui.perf_metric != ui.perf_metric && step('m').ui == (UiModel {
                perf_metric: step('m').ui.perf_metric,
                ..ui
            }) && only(step('m'))
            &&& step('t').ui == (UiModel { theme_idx: step('t').ui.theme_idx, ..ui }) && only(
                step('t'),
            )
            &&& ui.theme_idx < 4 ==> step('t').ui.theme_idx == ui.theme_idx + 1
            &&& ui.theme_idx == 4 ==> step('t').ui.theme_idx == 0
        }),
{
}

/// Each pane has its digit: `1` perf, `2` latency, `3` CPU, `4` queue depth, `5`
/// CPU time per operation.
pub proof fn digits_switch_panes(ui: UiModel, fleet: FleetView, t_now: u64)
    requires
        no_modal(ui),
    ensures
        ({
            let step = |c: char| ui.key_step(Key::Char(c), fleet, t_now);
            let switched = |k: PlotKind|
                UiModel { active_plots: toggled_plots(ui.active_plots, k), ..ui };
            &&& step('1').ui == switched(PlotKind::Perf) && step('1').action is Stay
            &&& step('2').ui == switched(PlotKind::Latency) && step('2').action is Stay
            &&& step('3').ui == switched(PlotKind::Cpu) && step('3').action is Stay
            &&& step('4').ui == switched(PlotKind::QueueDepth) && step('4').action is Stay
            &&& step('5').ui == switched(PlotKind::CpuPerIop) && step('5').action is Stay
        }),
{
}

/// Switching a pane that is off puts it below the others; switching one that is on
/// takes it away and leaves the others in order, but the last pane stays.
pub proof fn panes_are_switched(plots: Seq<PlotKind>, k: PlotKind, other: PlotKind)
    requires
        plots.no_duplicates(),
    ensures
        !plots.contains(k) ==> toggled_plots(plots, k) == plots.push(k),
        plots.contains(k) && plots.len() > 1 ==> {
            &&& !toggled_plots(plots, k).contains(k)
            &&& toggled_plots(plots, k).len() == plots.len() - 1
            &&& toggled_plots(plots, k) == plots.filter(|p: PlotKind| p != k)
        },
        plots.len() == 1 && plots.contains(k) ==> toggled_plots(plots, k) == plots,
        other != k ==> (toggled_plots(plots, k).contains(other) <==> plots.contains(other)),
{
    if plots.contains(k) {
        let i = position(plots, k);
        assert(0 <= i < plots.len() && plots[i] == k);
        if plots.len() > 1 {
            lemma_filter_removes(plots, k, i);
            lemma_removed(plots, k, i, other);
        }
    } else if plots.contains(other) {
        let j = choose|j: int| 0 <= j < plots.len() && plots[j] == other;
        assert(plots.push(k)[j] == other);
    } else if plots.push(k).contains(other) {
        let j = choose|j: int| 0 <= j < plots.push(k).len() && plots.push(k)[j] == other;
        assert(j < plots.len() ==> plots[j] == other);
    }
}

proof fn lemma_removed(plots: Seq<PlotKind>, k: PlotKind, i: int, other: PlotKind)
    requires
        plots.no_duplicates(),
        0 <= i < plots.len(),
        plots[i] == k,
    ensures
        !plots.remove(i).contains(k),
        other != k ==> (plots.remove(i).contains(other) <==> plots.contains(other)),
{
    let after = plots.remove(i);
    assert forall|j: int| 0 <= j < after.len() implies #[trigger] after[j] == plots[if j < i {
        j
    } else {
        j + 1
    }] by {}
    if plots.contains(other) && other != k {
        let j = choose|j: int| 0 <= j < plots.len() && plots[j] == other;
        assert(after[if j < i {
            j
        } else {
            j - 1
        }] == other);
    }
}

proof fn lemma_filter_removes(plots: Seq<PlotKind>, k: PlotKind, i: int)
    requires
        plots.no_duplicates(),
        0 <= i < plots.len(),
        plots[i] == k,
    ensures
        plots.remove(i) == plots.filter(|p: PlotKind| p != k),
{
    let keep = |p: PlotKind| p != k;
    let head = plots.take(i);
    let tail = plots.skip(i + 1);
    assert forall|j: int| 0 <= j < head.len() implies keep(#[trigger] head[j]) by {
        assert(plots[j] != plots[i]);
    }
    assert forall|j: int| 0 <= j < tail.len() implies keep(#[trigger] tail[j]) by {
        assert(plots[i + 1 + j] != plots[i]);
    }
    lemma_filter_keeps(head, keep);
    lemma_filter_keeps(tail, keep);
    assert(seq![k].filter(keep) == Seq::<PlotKind>::empty()) by {
        reveal(Seq::filter);
        let none = Seq::<PlotKind>::empty();
        assert(seq![k].drop_last() == none);
        assert(none.filter(keep) == none);
    }
    Seq::filter_distributes_over_add(head + seq![k], tail, keep);
    Seq::filter_distributes_over_add(head, seq![k], keep);
    assert(head + seq![k] + tail == plots);
    assert(head + Seq::<PlotKind>::empty() + tail == plots.remove(i));
}

proof fn lemma_filter_keeps(plots: Seq<PlotKind>, keep: spec_fn(PlotKind) -> bool)
    requires
        forall|j: int| 0 <= j < plots.len() ==> keep(#[trigger] plots[j]),
    ensures
        plots.filter(keep) == plots,
    decreases plots.len(),
{
    reveal(Seq::filter);
    if plots.len() > 0 {
        let rest = plots.drop_last();
        assert forall|j: int| 0 <= j < rest.len() implies keep(#[trigger] rest[j]) by {
            assert(rest[j] == plots[j]);
        }
        lemma_filter_keeps(rest, keep);
        assert(plots == rest.push(plots.last()));
    }
}

/// Pausing stops the sampler and freezes the time shown; going on undoes both.
pub proof fn pausing_freezes_the_time(ui: UiModel, fleet: FleetView, t_now: u64)
    requires
        no_modal(ui),
    ensures
        ({
            let step = ui.key_step(Key::Char('p'), fleet, t_now);
            &&& step == ui.key_step(Key::Char(' '), fleet, t_now)
            &&& !ui.paused ==> step.ui.paused && step.paused && step.ui.paused_t_frozen == Some(
                t_now,
            )
            &&& ui.paused ==> !step.ui.paused && !step.paused && step.ui.paused_t_frozen is None
            &&& step.ui == (UiModel {
                paused: step.ui.paused,
                paused_t_frozen: step.ui.paused_t_frozen,
                ..ui
            })
            &&& step.action is Stay && !step.reset && step.refresh_ns == fleet.refresh_ns
        }),
{
}

/// `z` and `Z` discard the histories; `Z` also releases every locked axis, and `z`
/// none.
pub proof fn resets_discard_the_histories(
    ui: UiModel,
    fleet: FleetView,
    t_now: u64,
    k: Key,
    plot: PlotKind,
)
    requires
        no_modal(ui),
    ensures
        ui.key_step(k, fleet, t_now).reset <==> k == Key::Char('z') || k == Key::Char('Z'),
        ui.key_step(Key::Char('z'), fleet, t_now).ui == ui,
        ui.key_step(Key::Char('Z'), fleet, t_now).ui.y_max_override.of(plot) is None,
        ui.key_step(Key::Char('Z'), fleet, t_now).ui == (UiModel {
            y_max_override: ui.key_step(Key::Char('Z'), fleet, t_now).ui.y_max_override,
            ..ui
        }),
{
}

/// `r` asks for a cadence, starting from the one that applies; `y` for the maximum
/// of the first pane; `n` for the worker count of the focused VM, starting from the
/// one that it has.
pub proof fn prompts_start_from_what_holds(ui: UiModel, fleet: FleetView, t_now: u64)
    requires
        no_modal(ui),
        ui.active_plots.len() > 0,
    ensures
        ({
            let step = |c: char| ui.key_step(Key::Char(c), fleet, t_now);
            &&& step('r').ui.input_prompt matches Some(prompt) && prompt.kind is RefreshSecs
                && prompt.buffer == secs_text(
                if fleet.refresh_ns < 50_000_000 {
                    50_000_000
                } else {
                    fleet.refresh_ns
                },
            )
            &&& step('y').ui.input_prompt matches Some(prompt) && prompt.kind == KindModel::YMax(
                ui.active_plots[0],
            )
            &&& ui.y_max_override.of(ui.active_plots[0]) matches Some(max) ==> (
            step('y').ui.input_prompt matches Some(prompt) ==> prompt.buffer
                == crate::text::decimal(max.rounded()))
            &&& ui.y_max_override.of(ui.active_plots[0]) is None ==> (
            step('y').ui.input_prompt matches Some(prompt) ==> prompt.buffer.len() == 0)
            &&& ui.focused matches Some(Focus::Vm(i)) ==> (i < fleet.roster.len() ==> {
                let vm = fleet.roster[i as int];
                &&& step('n').ui.input_prompt matches Some(prompt)
                &&& prompt.kind == (KindModel::SetThreads {
                    vm_id: vm.id,
                    current: vm.status.thread_count,
                    sticky: ui.sticky_mode,
                })
                &&& prompt.buffer == crate::text::decimal(vm.status.thread_count as nat)
            })
            &&& !(ui.focused is Some) || ui.focused == Some(Focus::Total) ==> step('n').ui == ui
            &&& step('r').action is Stay && step('y').action is Stay && step('n').action is Stay
        }),
{
}

/// `+` and `=` ask for one worker more for the focused VM, `-` and `_` for one
/// fewer, never for none; nothing else changes.
pub proof fn nudges_ask_for_the_focused_vm(ui: UiModel, fleet: FleetView, t_now: u64, i: usize)
    requires
        no_modal(ui),
        ui.focused == Some(Focus::Vm(i)),
        i < fleet.roster.len(),
    ensures
        ({
            let step = |c: char| ui.key_step(Key::Char(c), fleet, t_now);
            let vm = fleet.roster[i as int];
            let now = vm.status.thread_count;
            &&& step('=') == step('+')
            &&& step('_') == step('-')
            &&& 1 <= now < 0x7fff_ffff ==> step('+').action == ActionModel::SetThreads(
                RequestModel { id: vm.id, from: now, to: (now + 1) as u32, sticky: ui.sticky_mode },
            )
            &&& 2 <= now <= 0x7fff_ffff ==> step('-').action == ActionModel::SetThreads(
                RequestModel { id: vm.id, from: now, to: (now - 1) as u32, sticky: ui.sticky_mode },
            )
            &&& now <= 1 ==> step('-').action is Stay
            &&& step('+').ui == ui && step('-').ui == ui
        }),
{
}

/// The arrows and `j` and `k` move the focus one row down or up and round the ends;
/// the row of the fleet comes last, and there is none with fewer than two VMs.
pub proof fn arrows_move_the_focus(ui: UiModel, fleet: FleetView, t_now: u64)
    requires
        no_modal(ui),
        fleet.roster.len() < usize::MAX,
    ensures
        ({
            let n = fleet.roster.len();
            let down = ui.key_step(Key::Down, fleet, t_now);
            let up = ui.key_step(Key::Up, fleet, t_now);
            &&& down == ui.key_step(Key::Char('j'), fleet, t_now)
            &&& up == ui.key_step(Key::Char('k'), fleet, t_now)
            &&& down.ui == (UiModel { focused: down.ui.focused, ..ui }) && down.action is Stay
            &&& up.ui == (UiModel { focused: up.ui.focused, ..ui }) && up.action is Stay
            &&& n == 0 ==> down.ui.focused is None && up.ui.focused is None
            &&& n == 1 && (ui.focused is None || ui.focused == Some(Focus::Vm(0)))
                ==> down.ui.focused == Some(Focus::Vm(0)) && up.ui.focused == Some(Focus::Vm(0))
            &&& n >= 2 ==> {
                &&& ui.focused matches Some(Focus::Vm(i)) ==> (i + 1 < n ==> down.ui.focused
                    == Some(Focus::Vm((i + 1) as usize)))
                &&& ui.focused matches Some(Focus::Vm(i)) ==> (i + 1 == n ==> down.ui.focused
                    == Some(Focus::Total))
                &&& ui.focused == Some(Focus::Total) ==> down.ui.focused == Some(Focus::Vm(0))
                &&& ui.focused matches Some(Focus::Vm(i)) ==> (0 < i < n ==> up.ui.focused == Some(
                    Focus::Vm((i - 1) as usize),
                ))
                &&& ui.focused == Some(Focus::Vm(0)) ==> up.ui.focused == Some(Focus::Total)
                &&& ui.focused == Some(Focus::Total) ==> up.ui.focused == Some(
                    Focus::Vm((n - 1) as usize),
                )
                &&& ui.focused is None ==> down.ui.focused == Some(Focus::Vm(1))
                &&& ui.focused is None ==> up.ui.focused == Some(Focus::Total)
            }
        }),
{
    let n = fleet.roster.len() as int;
    if n >= 2 {
        let slots = n + 1;
        match ui.focused {
            Some(Focus::Vm(i)) => {
                if i + 1 <= n {
                    vstd::arithmetic::div_mod::lemma_small_mod((i + 1) as nat, slots as nat);
                }
                if 0 < i < n {
                    vstd::arithmetic::div_mod::lemma_small_mod((i - 1) as nat, slots as nat);
                }
                if i == 0 {
                    lemma_minus_one(slots);
                }
            },
            Some(Focus::Total) => {
                vstd::arithmetic::div_mod::lemma_mod_self_0(slots);
                vstd::arithmetic::div_mod::lemma_small_mod((n - 1) as nat, slots as nat);
            },
            None => {
                vstd::arithmetic::div_mod::lemma_small_mod(1, slots as nat);
                lemma_minus_one(slots);
            },
        }
    } else if n == 1 {
        assert(1int % 1 == 0);
        assert((-1int) % 1 == 0);
    }
}

proof fn lemma_minus_one(slots: int)
    requires
        slots > 1,
    ensures
        (-1int) % slots == slots - 1,
{
    vstd::arithmetic::div_mod::lemma_mod_add_multiples_vanish(-1, slots);
    vstd::arithmetic::div_mod::lemma_small_mod((slots - 1) as nat, slots as nat);
}

/// Keys without a meaning change nothing at all.
pub proof fn other_keys_change_nothing(ui: UiModel, fleet: FleetView, t_now: u64, k: Key)
    requires
        no_modal(ui),
        k is Enter || k is Backspace || k is Tab || k is Other || (k matches Key::Char(c) && (c
            == 'a' || c == 'b' || c == 'd' || c == 'e' || c == 'f' || c == 'g' || c == 'i' || c
            == 'o' || c == 'u' || c == 'v' || c == 'w' || '6' <= c <= '9' || c == '0')),
    ensures
        ui.key_step(k, fleet, t_now) == ui_step(ui, fleet),
        ui_step(ui, fleet).ui == ui,
        ui_step(ui, fleet).action is Stay,
        !ui_step(ui, fleet).reset,
        ui_step(ui, fleet).paused == fleet.paused,
        ui_step(ui, fleet).refresh_ns == fleet.refresh_ns,
{
}

/// Escape clears the focus first, then the sticky mode.
pub proof fn escape_clears_the_focus_first(ui: UiModel, fleet: FleetView, t_now: u64)
    requires
        no_modal(ui),
    ensures
        ({
            let step = ui.key_step(Key::Esc, fleet, t_now);
            &&& ui.focused is Some ==> step.ui == (UiModel { focused: None, ..ui }) && step.action
                is Stay
            &&& ui.focused is None && ui.sticky_mode ==> step.ui == (UiModel {
                sticky_mode: false,
                ..ui
            }) && step.action is Stay
            &&& ui.focused is None && !ui.sticky_mode ==> step.action is Quit && step.ui == ui
        }),
{
}

/// In the column picker the cursor moves and wraps, Space and Enter switch the
/// column under it but for the id, `c`, `q` and the dismissing keys close it, and
/// nothing else changes.
pub proof fn the_picker_switches_columns(
    ui: UiModel,
    fleet: FleetView,
    t_now: u64,
    cursor: usize,
    other: DashColumn,
)
    requires
        !ui.show_help,
        ui.input_prompt is None,
        ui.column_picker == Some(cursor),
        cursor < 10,
    ensures
        ({
            let step = |k: Key| ui.key_step(k, fleet, t_now);
            let column = all_columns()[cursor as int];
            let closed = UiModel { column_picker: None, ..ui };
            let moved = |at: int| UiModel { column_picker: Some(at as usize), ..ui };
            &&& step(Key::Esc).ui == closed && step(Key::Char('c')).ui == closed && step(
                Key::Char('q'),
            ).ui == closed && step(Key::Interrupt).ui == closed
            &&& cursor < 9 ==> step(Key::Down).ui == moved(cursor + 1)
            &&& cursor == 9 ==> step(Key::Down).ui == moved(0)
            &&& cursor > 0 ==> step(Key::Up).ui == moved(cursor - 1)
            &&& cursor == 0 ==> step(Key::Up).ui == moved(9)
            &&& step(Key::Char('j')) == step(Key::Down)
            &&& step(Key::Char('k')) == step(Key::Up)
            &&& step(Key::Char(' ')) == step(Key::Enter)
            &&& step(Key::Enter).ui == (UiModel { columns: step(Key::Enter).ui.columns, ..ui })
            &&& step(Key::Enter).ui.columns.has(other) == if other == column && other
                != DashColumn::Id {
                !ui.columns.has(other)
            } else {
                ui.columns.has(other)
            }
            &&& step(Key::Esc).action is Stay && step(Key::Enter).action is Stay
        }),
{
    let column = all_columns()[cursor as int];
    columns_are_independent(ui.columns, column, !ui.columns.has(column), other);
}

/// While a prompt is open, dismissing it leaves all else as it was, and Enter
/// carries out what was typed: it sets the cadence, locks or releases the axis of
/// the plot, or asks for the workers, and closes the prompt.
pub proof fn prompts_carry_out_what_was_typed(
    ui: UiModel,
    prompt: PromptModel,
    fleet: FleetView,
    t_now: u64,
    k: Key,
    other: PlotKind,
)
    requires
        !ui.show_help,
        ui.input_prompt == Some(prompt),
    ensures
        ({
            let closed = UiModel { input_prompt: None, ..ui };
            let enter = ui.key_step(Key::Enter, fleet, t_now);
            let escape = ui.key_step(Key::Esc, fleet, t_now);
            &&& escape.ui == closed && escape.action is Stay && escape.refresh_ns
                == fleet.refresh_ns
            &&& ui.key_step(Key::Interrupt, fleet, t_now) == escape
            &&& prompt.commit() is None ==> enter.ui == ui && enter.action is Stay
                && enter.refresh_ns == fleet.refresh_ns
            &&& prompt.commit() matches Some(CommitModel::Refresh(ns)) ==> enter.ui == closed
                && enter.refresh_ns == ns && enter.action is Stay
            &&& prompt.commit() matches Some(CommitModel::YMax(plot, max)) ==> {
                &&& enter.action is Stay && enter.refresh_ns == fleet.refresh_ns
                &&& enter.ui == (UiModel { y_max_override: enter.ui.y_max_override, ..closed })
                &&& enter.ui.y_max_override.of(other) == if other == plot {
                    max
                } else {
                    ui.y_max_override.of(other)
                }
            }
            &&& prompt.commit() matches Some(CommitModel::Threads(request)) ==> enter.ui == closed
                && enter.action == ActionModel::SetThreads(request) && enter.refresh_ns
                == fleet.refresh_ns
            &&& !(k is Enter) && !(k is Esc) && !(k is Interrupt) ==> ui.key_step(
                k,
                fleet,
                t_now,
            ).ui == (UiModel { input_prompt: Some(prompt.edited(k)), ..ui })
        }),
{
    if let Some(CommitModel::YMax(plot, max)) = prompt.commit() {
        overrides_are_independent(ui.y_max_override, plot, max, other);
    }
}

/// A column is shown exactly when it is switched on, in the canonical order.
pub proof fn visible_columns_are_those_switched_on(columns: ColumnSet, column: DashColumn)
    ensures
        shown_columns(columns).contains(column) <==> columns.has(column),
        shown_columns(columns) == all_columns().filter(|c: DashColumn| columns.has(c)),
{
    let keep = |c: DashColumn| columns.has(c);
    crate::tui::labels::every_column_is_listed_once(column);
    let i = choose|i: int| 0 <= i < all_columns().len() && #[trigger] all_columns()[i] == column;
    if columns.has(column) {
        all_columns().lemma_filter_contains(keep, i);
    }
    if shown_columns(columns).contains(column) {
        let k = choose|k: int|
            0 <= k < shown_columns(columns).len() && shown_columns(columns)[k] == column;
        all_columns().lemma_filter_pred(keep, k);
    }
}

/// At the start the perf pane is open, nothing is focused, paused, armed, locked or
/// open, and all columns but the latencies are shown.
pub proof fn the_display_starts_plain(metric: PerfMetric, started: u64, plot: PlotKind)
    ensures
        ({
            let ui = UiModel::initial(metric, started);
            &&& ui.active_plots == seq![PlotKind::Perf]
            &&& ui.perf_metric == metric
            &&& ui.started_unix_s == started
            &&& ui.focused is None
            &&& !ui.paused && ui.paused_t_frozen is None && !ui.sticky_mode
            &&& no_modal(ui)
            &&& ui.theme_idx == 0
            &&& !ui.log_y_scale && !ui.wall_clock_x
            &&& ui.y_max_override.of(plot) is None
            &&& forall|c: DashColumn| #[trigger]
                ui.columns.has(c) <==> c != DashColumn::LatRead && c != DashColumn::LatWrite
        }),
{
}

/// Without a reset a key changes nothing of the fleet but its pause and its cadence;
/// a reset empties every history and keeps the VMs.
pub proof fn keys_leave_the_fleet_alone(before: Fleet, step: KeyStep, after: Fleet, i: int)
    requires
        fleet_follows(before, step, after),
    ensures
        after.paused == step.paused,
        after.refresh_ns == step.refresh_ns,
        after.failed_streak == before.failed_streak,
        after.last_error == before.last_error,
        after.missing == before.missing,
        !step.reset ==> after.vms == before.vms && after.aggregate == before.aggregate,
        step.reset ==> {
            &&& after.roster().len() == before.roster().len()
            &&& after.aggregate@.len() == 0
            &&& 0 <= i < after.roster().len() ==> {
                &&& after.roster()[i].samples.len() == 0
                &&& after.roster()[i].annots.len() == 0
                &&& after.roster()[i].id == before.roster()[i].id
                &&& after.roster()[i].status == before.roster()[i].status
                &&& after.roster()[i].color_idx == before.roster()[i].color_idx
            }
        },
{
}

} // verus!
