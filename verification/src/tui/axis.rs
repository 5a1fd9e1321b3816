//! The canvas of a plot pane: the X window with its ticks and labels, the height
//! of the Y axis, and the strokes and marks to paint. Times are nanoseconds.
use vstd::prelude::*;
use vstd::string::*;

use crate::text::{decimal, decimal_text};
use crate::tui::labels::{PerfMetric, PlotKind};
use crate::tui::number::{half_even, Decimal};
use crate::tui::plots::{
    annot_models, is_shown, series_models, shown, AnnotModel, AnnotPoint, Plot, SeriesModel,
};
use crate::tui::theme::Hue;
use crate::tui::ui::UiState;

verus! {

/// Nanoseconds in one second.
pub const SECOND: u128 = 1_000_000_000;

/// How far a tick may lie beyond the right edge.
pub const TICK_SLACK: u128 = 1_000;

/// Height of an autoscaled Y axis, in percent of the greatest height.
pub const HEADROOM_PERCENT: u32 = 115;

/// The visible stretch of time.
#[derive(Debug, Clone, Copy, PartialEq, Eq, Structural)]
pub struct Window {
    /// Left edge.
    pub x_lo: u64,
    /// Right edge.
    pub x_hi: u128,
}

/// The point in time that the right edge follows: frozen while paused.
pub open spec fn time_shown(paused: bool, frozen: Option<u64>, t_now: u64) -> u64 {
    match (paused, frozen) {
        (true, Some(t)) => t,
        _ => t_now,
    }
}

/// The last `window_s` seconds; while there is less than that, the first
/// `window_s` seconds.
pub fn window(ui: &UiState, t_now: u64, window_s: u64) -> (r: Window)
    ensures
        ({
            let t = time_shown(ui.paused, ui.paused_t_frozen, t_now);
            let width = window_s * SECOND;
            &&& r.x_lo == if t > width {
                t - width
            } else {
                0
            }
            &&& r.x_hi == if t > width {
                t as int
            } else {
                width
            }
        }),
{
    let t: u64 = if ui.paused {
        match ui.paused_t_frozen {
            Some(frozen) => frozen,
            None => t_now,
        }
    } else {
        t_now
    };
    let width: u128 = window_s as u128 * SECOND;
    if t as u128 > width {
        Window { x_lo: (t as u128 - width) as u64, x_hi: t as u128 }
    } else {
        Window { x_lo: 0, x_hi: width }
    }
}

/// The tick intervals, in seconds.
pub open spec fn tick_steps() -> Seq<u64> {
    seq![1u64, 2, 5, 10, 15, 30, 60, 120, 300, 600, 900, 1800, 3600]
}

/// Whether a stretch of time has at most eight intervals.
pub open spec fn few_ticks(span: u128, step: u64) -> bool {
    span <= 8 * step * SECOND
}

/// The shortest interval from the `i`th on with at most eight of them in a
/// stretch of time, else the longest.
pub open spec fn tick_step(span: u128, i: int) -> u64
    decreases tick_steps().len() - i,
{
    if i >= tick_steps().len() - 1 {
        3600
    } else if few_ticks(span, tick_steps()[i]) {
        tick_steps()[i]
    } else {
        tick_step(span, i + 1)
    }
}

/// Pick a tick interval in seconds for a stretch of time: the shortest one with
/// at most eight intervals, else the longest.
pub fn pick_x_tick_step(span: u128) -> (r: u64)
    ensures
        r == tick_step(span, 0),
        1 <= r <= 3600,
{
    let steps: Vec<u64> = vec![1, 2, 5, 10, 15, 30, 60, 120, 300, 600, 900, 1800, 3600];
    assert(steps@ == tick_steps());
    let mut i: usize = 0;
    while i + 1 < steps.len()
        invariant
            i < steps@.len(),
            steps@ == tick_steps(),
            tick_step(span, i as int) == tick_step(span, 0),
        decreases steps@.len() - i,
    {
        let step: u64 = steps[i];
        assert(1 <= tick_steps()[i as int] <= 3600);
        if span <= 8 * step as u128 * SECOND {
            return step;
        }
        i += 1;
    }
    3600
}

/// Evenly spaced ticks.
#[derive(Debug, Clone, Copy, PartialEq, Eq, Structural)]
pub struct Ticks {
    /// The first tick.
    pub first: u128,
    /// The distance between ticks.
    pub step: u128,
    /// How many there are.
    pub count: u128,
}

impl Ticks {
    /// Whether there is a tick at a time.
    pub open spec fn at(self, t: int) -> bool {
        exists|i: int| 0 <= i < self.count && t == #[trigger] tick_time(self, i)
    }
}

/// The time of a tick.
pub open spec fn tick_time(ticks: Ticks, i: int) -> int {
    ticks.first + i * ticks.step
}

/// The length of the X axis, at least one second.
pub open spec fn span_of(w: Window) -> int {
    if w.x_hi - w.x_lo > SECOND {
        w.x_hi - w.x_lo
    } else {
        SECOND as int
    }
}

/// The ticks of the X axis: every whole multiple of the interval within the
/// window.
pub fn x_ticks(w: Window) -> (r: Ticks)
    requires
        w.x_lo <= w.x_hi,
        w.x_hi <= u128::MAX - TICK_SLACK,
    ensures
        r.step == tick_step(span_of(w) as u128, 0) * SECOND,
        forall|t: int|
            #[trigger] r.at(t) <==> w.x_lo <= t <= w.x_hi + TICK_SLACK && t % (r.step as int) == 0,
{
    let width: u128 = w.x_hi - w.x_lo as u128;
    let span: u128 = if width > SECOND {
        width
    } else {
        SECOND
    };
    let s: u64 = pick_x_tick_step(span);
    let step: u128 = s as u128 * SECOND;
    let over: u128 = w.x_lo as u128 % step;
    proof {
        vstd::arithmetic::div_mod::lemma_mod_decreases(w.x_lo as nat, step as nat);
    }
    let first: u128 = if over == 0 {
        w.x_lo as u128
    } else {
        w.x_lo as u128 - over + step
    };
    let last: u128 = w.x_hi + TICK_SLACK;
    proof {
        if first <= last {
            let n = last - first;
            assert(n / (step as int) < n + 1 && n / (step as int) <= n / 1_000_000_000)
                by (nonlinear_arith)
                requires
                    0 <= n,
                    step >= 1_000_000_000,
            ;
        }
    }
    let count: u128 = if first > last {
        0
    } else {
        (last - first) / step + 1
    };
    let r = Ticks { first, step, count };
    proof {
        lemma_ticks(w.x_lo as int, last as int, r);
    }
    r
}

proof fn lemma_ticks(lo: int, hi: int, r: Ticks)
    requires
        0 <= lo,
        0 < r.step,
        r.first == if lo % (r.step as int) == 0 {
            lo
        } else {
            lo - lo % (r.step as int) + r.step
        },
        r.count == if r.first > hi {
            0
        } else {
            (hi - r.first) / (r.step as int) + 1
        },
    ensures
        forall|t: int| #[trigger] r.at(t) <==> lo <= t <= hi && t % (r.step as int) == 0,
{
    let d = r.step as int;
    let q = lo / d;
    assert(lo == d * q + lo % d && 0 <= lo % d < d) by (nonlinear_arith)
        requires
            0 < d,
            q == lo / d,
    ;
    let k = if lo % d == 0 {
        q
    } else {
        q + 1
    };
    assert(r.first == d * k) by (nonlinear_arith)
        requires
            lo == d * q + lo % d,
            r.first == if lo % d == 0 {
                lo
            } else {
                lo - lo % d + d
            },
            k == if lo % d == 0 {
                q
            } else {
                q + 1
            },
    ;
    assert(lo <= r.first < lo + d);
    assert forall|t: int| #[trigger] r.at(t) implies lo <= t <= hi && t % d == 0 by {
        let i = choose|i: int| 0 <= i < r.count && t == #[trigger] tick_time(r, i);
        assert(t == d * (k + i)) by (nonlinear_arith)
            requires
                t == r.first + i * d,
                r.first == d * k,
        ;
        vstd::arithmetic::div_mod::lemma_mod_multiples_basic(k + i, d);
        assert((k + i) * d == d * (k + i)) by (nonlinear_arith);
        let m = (hi - r.first) / d;
        assert(0 <= i * d <= m * d <= hi - r.first) by (nonlinear_arith)
            requires
                0 <= i <= m,
                0 < d,
                m == (hi - r.first) / d,
                hi >= r.first,
        ;
    }
    assert forall|t: int| lo <= t <= hi && t % d == 0 implies #[trigger] r.at(t) by {
        let j = t / d;
        assert(t == d * j) by (nonlinear_arith)
            requires
                t % d == 0,
                j == t / d,
                0 < d,
        ;
        assert(k <= j) by (nonlinear_arith)
            requires
                d * k < lo + d,
                lo <= d * j,
                0 < d,
        ;
        let i = j - k;
        assert(t == r.first + i * d) by (nonlinear_arith)
            requires
                t == d * j,
                r.first == d * k,
                i == j - k,
        ;
        assert(t == tick_time(r, i));
        let m = (hi - r.first) / d;
        assert(0 <= i * d) by (nonlinear_arith)
            requires
                0 <= i,
                0 < d,
        ;
        assert(i <= m) by (nonlinear_arith)
            requires
                i * d <= hi - r.first,
                m == (hi - r.first) / d,
                0 < d,
        ;
    }
}

/// The label of a time before the right edge, in whole seconds back from it:
/// `-30s` to `0s`.
pub open spec fn elapsed_text(t: int, x_hi: int) -> Seq<char> {
    let back = if t < x_hi {
        half_even((x_hi - t) as nat, SECOND as nat)
    } else {
        0
    };
    if back == 0 {
        "0s"@
    } else {
        "-"@ + decimal(back) + "s"@
    }
}

/// Two digits.
pub open spec fn two_digits(n: nat) -> Seq<char> {
    if n < 10 {
        "0"@ + decimal(n)
    } else {
        decimal(n)
    }
}

/// The UTC time of day, so many nanoseconds after an epoch second.
pub open spec fn wall_clock_text(epoch_s: u64, t: u128) -> Seq<char> {
    let secs = (epoch_s + t / SECOND) % 86_400;
    two_digits((secs / 3600) as nat) + ":"@ + two_digits((secs % 3600 / 60) as nat) + ":"@
        + two_digits((secs % 60) as nat)
}

fn fmt_two_digits(n: u128) -> (r: String)
    ensures
        r@ == two_digits(n as nat),
{
    if n < 10 {
        "0".to_owned().concat(decimal_text(n).as_str())
    } else {
        decimal_text(n)
    }
}

/// The label of a tick: the UTC time of day, or how far back it lies.
pub fn x_label(ui: &UiState, t: u128, x_hi: u128) -> (r: String)
    requires
        t <= x_hi + TICK_SLACK,
    ensures
        r@ == if ui.wall_clock_x {
            wall_clock_text(ui.started_unix_s, t)
        } else {
            elapsed_text(t as int, x_hi as int)
        },
{
    if ui.wall_clock_x {
        let secs: u128 = (ui.started_unix_s as u128 % 86_400 + t / SECOND % 86_400) % 86_400;
        assert(secs == (ui.started_unix_s + t / SECOND) % 86_400);
        fmt_two_digits(secs / 3600).concat(":").concat(
            fmt_two_digits(secs % 3600 / 60).as_str(),
        ).concat(":").concat(fmt_two_digits(secs % 60).as_str())
    } else {
        let back: u128 = if t < x_hi {
            x_hi - t
        } else {
            0
        };
        let q: u128 = back / SECOND;
        let rest: u128 = back % SECOND;
        let whole: u128 = if 2 * rest > SECOND || (2 * rest == SECOND && q % 2 == 1) {
            q + 1
        } else {
            q
        };
        if whole == 0 {
            "0s".to_owned()
        } else {
            "-".to_owned().concat(decimal_text(whole).as_str()).concat("s")
        }
    }
}

/// The top of the Y axis.
#[derive(Debug, Clone, Copy, PartialEq, Eq, Structural)]
pub enum YTop {
    /// So many percent of the greatest height.
    Auto {
        /// The greatest height.
        y_max: u128,
        /// Percent of it.
        percent: u32,
    },
    /// Locked by the operator, in the unit that the axis shows.
    Locked(Decimal),
}

/// The top of the Y axis: the locked maximum, at least one, else the greatest
/// height with some headroom.
pub fn y_top(ui: &UiState, kind: PlotKind, y_max: u128) -> (r: YTop)
    requires
        ui@.wf(),
    ensures
        match ui.y_max_override.of(kind) {
            Some(max) => r == YTop::Locked(
                if max.mantissa < max.scale() {
                    Decimal { mantissa: 1, places: 0 }
                } else {
                    max
                },
            ),
            None => r == (YTop::Auto { y_max, percent: HEADROOM_PERCENT }),
        },
{
    match ui.y_max_override.get(kind) {
        Some(max) => YTop::Locked(max.at_least_one()),
        None => YTop::Auto { y_max, percent: HEADROOM_PERCENT },
    }
}

/// The title of a pane.
pub open spec fn pane_title(kind: PlotKind, metric: PerfMetric, iop_size: u64) -> Seq<char> {
    match kind {
        PlotKind::Perf => "perf ("@ + metric.axis_text(iop_size) + ")"@,
        PlotKind::Latency =>
            "latency (µs) — bright=read avg, dim=read p99 / write avg / write p99"@,
        PlotKind::Cpu => "cpu (%)"@,
        PlotKind::QueueDepth => "queue depth"@,
        PlotKind::CpuPerIop => "cpu (µs / iop) — lower is better"@,
    }
}

/// The heading of a pane.
#[derive(Debug)]
pub struct PaneHeading {
    /// Its title.
    pub title: String,
    /// Whether heights are shown with a unit prefix.
    pub humanize: bool,
    /// Whether the Y axis is logarithmic.
    pub log: bool,
    /// Whether the Y axis is locked.
    pub locked: bool,
}

/// The heading of a pane.
pub fn pane_heading(ui: &UiState, kind: PlotKind, iop_size: u64) -> (r: PaneHeading)
    ensures
        r.title@ == pane_title(kind, ui.perf_metric, iop_size),
        r.humanize == match kind {
            PlotKind::Perf => ui.perf_metric is Iops,
            PlotKind::Latency => true,
            PlotKind::Cpu => false,
            PlotKind::QueueDepth => true,
            PlotKind::CpuPerIop => false,
        },
        r.log == ui.log_y_scale,
        r.locked == (ui.y_max_override.of(kind) is Some),
{
    let title = match kind {
        PlotKind::Perf => "perf (".to_owned().concat(
            ui.perf_metric.axis_label(iop_size).as_str(),
        ).concat(")"),
        PlotKind::Latency =>
            "latency (µs) — bright=read avg, dim=read p99 / write avg / write p99".to_owned(),
        PlotKind::Cpu => "cpu (%)".to_owned(),
        PlotKind::QueueDepth => "queue depth".to_owned(),
        PlotKind::CpuPerIop => "cpu (µs / iop) — lower is better".to_owned(),
    };
    let humanize: bool = match kind {
        PlotKind::Perf => ui.perf_metric == PerfMetric::Iops,
        PlotKind::Latency => true,
        PlotKind::Cpu => false,
        PlotKind::QueueDepth => true,
        PlotKind::CpuPerIop => false,
    };
    PaneHeading {
        title,
        humanize,
        log: ui.log_y_scale,
        locked: ui.y_max_override.get(kind).is_some(),
    }
}

/// The marks behind a pane's heading: whether its Y axis is logarithmic, and
/// whether it is locked.
pub fn heading_marks(h: &PaneHeading) -> (r: String)
    ensures
        r@ == (if h.log {
            "  [log]"@
        } else {
            ""@
        }) + (if h.locked {
            "  [locked]"@
        } else {
            ""@
        }),
{
    let log = if h.log {
        "  [log]"
    } else {
        ""
    };
    let locked = if h.locked {
        "  [locked]"
    } else {
        ""
    };
    log.to_owned().concat(locked)
}

/// A stroke from one point to the next.
#[derive(Debug, Clone, Copy)]
pub struct Stroke {
    /// Where it starts.
    pub from: (u64, u128),
    /// Where it ends.
    pub to: (u64, u128),
    /// Its colour.
    pub hue: Hue,
}

/// The strokes of one line.
pub open spec fn line_strokes(line: SeriesModel) -> Seq<Stroke> {
    Seq::new(
        if line.points.len() == 0 {
            0
        } else {
            (line.points.len() - 1) as nat
        },
        |k: int| Stroke { from: line.points[k], to: line.points[k + 1], hue: line.hue },
    )
}

/// The strokes of all visible lines, in drawing order.
pub open spec fn strokes_of(lines: Seq<SeriesModel>, highlight: Seq<usize>) -> Seq<Stroke>
    decreases lines.len(),
{
    if lines.len() == 0 {
        Seq::empty()
    } else {
        let rest = strokes_of(lines.drop_last(), highlight);
        if shown(highlight, (lines.len() - 1) as usize) {
            rest + line_strokes(lines.last())
        } else {
            rest
        }
    }
}

/// The strokes to paint: consecutive points of each visible line.
pub fn strokes(plot: &Plot) -> (r: Vec<Stroke>)
    ensures
        r@ == strokes_of(series_models(plot.series@), plot.highlight@),
{
    let ghost lines = series_models(plot.series@);
    let mut out: Vec<Stroke> = Vec::new();
    let mut i: usize = 0;
    assert(lines.take(0).len() == 0);
    while i < plot.series.len()
        invariant
            i <= plot.series@.len(),
            lines == series_models(plot.series@),
            out@ == strokes_of(lines.take(i as int), plot.highlight@),
        decreases plot.series@.len() - i,
    {
        let line = &plot.series[i];
        let ghost before = out@;
        proof {
            assert(lines.take(i + 1).drop_last() == lines.take(i as int));
            assert(lines.take(i + 1).last() == line@);
        }
        if is_shown(&plot.highlight, i) {
            let n: usize = line.points.len();
            let mut k: usize = 1;
            assert(out@ == before + line_strokes(line@).take(0));
            while k < n
                invariant
                    n == line.points@.len(),
                    1 <= k,
                    n > 0 ==> k <= n,
                    n == 0 ==> k == 1,
                    out@ == before + line_strokes(line@).take(k - 1),
                decreases n - k,
            {
                let stroke = Stroke {
                    from: line.points[k - 1],
                    to: line.points[k],
                    hue: line.hue,
                };
                out.push(stroke);
                proof {
                    let all = line_strokes(line@);
                    assert(all[k - 1] == stroke);
                    assert(all.take(k as int) == all.take(k - 1).push(stroke));
                }
                k += 1;
            }
            proof {
                let all = line_strokes(line@);
                assert(all.take(k - 1) == all);
            }
        }
        i += 1;
    }
    assert(lines.take(plot.series@.len() as int) == lines);
    out
}

/// A marker to print.
#[derive(Debug)]
pub struct Mark {
    /// Where it stands in time.
    pub t: u64,
    /// Where it stands in height.
    pub y: u128,
    /// Its text.
    pub text: String,
    /// Whether the worker count grew.
    pub up: bool,
    /// The colour of the VM's line.
    pub hue: Hue,
}

/// What a marker says.
#[verifier::ext_equal]
pub struct MarkModel {
    /// Where it stands in time.
    pub t: u64,
    /// Where it stands in height.
    pub y: u128,
    /// Its text.
    pub text: Seq<char>,
    /// Whether the worker count grew.
    pub up: bool,
    /// The colour of the VM's line.
    pub hue: Hue,
}

impl View for Mark {
    type V = MarkModel;

    open spec fn view(&self) -> MarkModel {
        MarkModel { t: self.t, y: self.y, text: self.text@, up: self.up, hue: self.hue }
    }
}

/// The models of a list of markers.
pub open spec fn mark_models(marks: Seq<Mark>) -> Seq<MarkModel> {
    marks.map_values(|m: Mark| m@)
}

/// The marker of a change: the old and the new worker count.
pub open spec fn mark_of(point: AnnotPoint, hue: Hue) -> MarkModel {
    MarkModel {
        t: point.t,
        y: point.y,
        text: decimal(point.old_n as nat) + "→"@ + decimal(point.new_n as nat),
        up: point.new_n >= point.old_n,
        hue,
    }
}

/// The markers of all VMs.
pub open spec fn marks_of(annots: Seq<AnnotModel>) -> Seq<MarkModel>
    decreases annots.len(),
{
    if annots.len() == 0 {
        Seq::empty()
    } else {
        let last = annots.last();
        marks_of(annots.drop_last()) + last.points.map_values(
            |point: AnnotPoint| mark_of(point, last.hue),
        )
    }
}

/// The markers to print.
pub fn marks(plot: &Plot) -> (r: Vec<Mark>)
    ensures
        mark_models(r@) == marks_of(annot_models(plot.annots@)),
{
    let ghost annots = annot_models(plot.annots@);
    let mut out: Vec<Mark> = Vec::new();
    let mut i: usize = 0;
    assert(annots.take(0).len() == 0);
    assert(mark_models(out@) == Seq::<MarkModel>::empty());
    while i < plot.annots.len()
        invariant
            i <= plot.annots@.len(),
            annots == annot_models(plot.annots@),
            mark_models(out@) == marks_of(annots.take(i as int)),
        decreases plot.annots@.len() - i,
    {
        let list = &plot.annots[i];
        let ghost before = mark_models(out@);
        let ghost here = list.points@.map_values(|point: AnnotPoint| mark_of(point, list.hue));
        proof {
            assert(annots.take(i + 1).drop_last() == annots.take(i as int));
            assert(annots.take(i + 1).last() == list@);
        }
        let mut k: usize = 0;
        assert(before + here.take(0) == before);
        while k < list.points.len()
            invariant
                k <= list.points@.len(),
                here == list.points@.map_values(|point: AnnotPoint| mark_of(point, list.hue)),
                mark_models(out@) == before + here.take(k as int),
            decreases list.points@.len() - k,
        {
            let point: AnnotPoint = list.points[k];
            let text = decimal_text(point.old_n as u128).concat("→").concat(
                decimal_text(point.new_n as u128).as_str(),
            );
            let mark = Mark {
                t: point.t,
                y: point.y,
                text,
                up: point.new_n >= point.old_n,
                hue: list.hue,
            };
            let ghost so_far = mark_models(out@);
            let ghost model = mark@;
            out.push(mark);
            proof {
                assert(model == mark_of(point, list.hue));
                assert(here[k as int] == model);
                assert(mark_models(out@) == so_far.push(model));
                assert(here.take(k + 1) == here.take(k as int).push(model));
            }
            k += 1;
        }
        assert(here.take(k as int) == here);
        i += 1;
    }
    assert(annots.take(plot.annots@.len() as int) == annots);
    out
}

/// A window shows at most `window_s` seconds back and always at least that much.
pub proof fn windows_have_their_width(t: u64, window_s: u64, w: Window)
    requires
        w.x_lo == if t > window_s * SECOND {
            t - window_s * SECOND
        } else {
            0
        },
        w.x_hi == if t > window_s * SECOND {
            t as int
        } else {
            window_s * SECOND
        },
    ensures
        w.x_hi - w.x_lo == window_s * SECOND,
        w.x_lo <= t <= w.x_hi,
{
}

/// Elapsed labels run up to `0s` at the right edge: so many whole seconds before
/// it, a tick reads just that many.
pub proof fn elapsed_labels_end_at_zero(x_hi: int, seconds: nat)
    ensures
        elapsed_text(x_hi, x_hi) == "0s"@,
        seconds > 0 ==> elapsed_text(x_hi - seconds * SECOND, x_hi) == "-"@ + decimal(seconds)
            + "s"@,
{
}

/// Wall-clock labels repeat every day.
pub proof fn wall_clocks_repeat_daily(epoch_s: u64, t: u128)
    requires
        t + 86_400 * SECOND <= u128::MAX,
    ensures
        wall_clock_text(epoch_s, (t + 86_400 * SECOND) as u128) == wall_clock_text(epoch_s, t),
{
    let later = (t + 86_400 * SECOND) as u128;
    assert(later / SECOND == t / SECOND + 86_400);
    assert((epoch_s + later / SECOND) % 86_400 == (epoch_s + t / SECOND) % 86_400);
}

/// The window ends now and is as wide as asked for; early on it begins at the
/// start, and while paused it stays where it was.
pub proof fn windows_end_now(ui: UiState, t_now: u64, window_s: u64, w: Window)
    requires
        call_ensures(window, (&ui, t_now, window_s), w),
    ensures
        ({
            let t = if ui.paused && ui.paused_t_frozen is Some {
                ui.paused_t_frozen->0
            } else {
                t_now
            };
            let width = window_s * 1_000_000_000;
            &&& w.x_hi - w.x_lo == width
            &&& t >= width ==> w.x_hi == t
            &&& t < width ==> w.x_lo == 0
        }),
{
}

/// The steps between ticks, in seconds, are those that operators read easily; the
/// smallest that gives at most eight is taken, and the largest where none does.
pub proof fn ticks_are_few_and_round(span: u128)
    ensures
        ({
            let steps = seq![1u64, 2, 5, 10, 15, 30, 60, 120, 300, 600, 900, 1800, 3600];
            let step = tick_step(span, 0);
            &&& steps.contains(step)
            &&& span <= 8 * step * 1_000_000_000 || step == 3600
            &&& forall|i: int|
                0 <= i < 13 && #[trigger] steps[i] < step ==> span > 8 * steps[i] * 1_000_000_000
        }),
{
    let steps = seq![1u64, 2, 5, 10, 15, 30, 60, 120, 300, 600, 900, 1800, 3600];
    assert(tick_steps() == steps);
    lemma_tick_step(span, 0);
}

proof fn lemma_tick_step(span: u128, i: int)
    requires
        0 <= i < 13,
        forall|j: int| 0 <= j < i ==> span > 8 * #[trigger] tick_steps()[j] * 1_000_000_000,
    ensures
        tick_steps().contains(tick_step(span, i)),
        span <= 8 * tick_step(span, i) * 1_000_000_000 || tick_step(span, i) == 3600,
        forall|j: int|
            0 <= j < 13 && #[trigger] tick_steps()[j] < tick_step(span, i) ==> span > 8
                * tick_steps()[j] * 1_000_000_000,
    decreases 13 - i,
{
    assert forall|j: int, k: int| 0 <= j < k < 13 implies #[trigger] tick_steps()[j]
        < #[trigger] tick_steps()[k] by {}
    if i >= 12 {
        assert(tick_steps()[12] == 3600);
    } else if few_ticks(span, tick_steps()[i]) {
        assert(tick_step(span, i) == tick_steps()[i]);
        assert forall|j: int|
            0 <= j < 13 && #[trigger] tick_steps()[j] < tick_step(span, i) implies span > 8
            * tick_steps()[j] * 1_000_000_000 by {
            if j > i {
                assert(tick_steps()[i] < tick_steps()[j]);
            }
        }
    } else {
        lemma_tick_step(span, i + 1);
    }
}

/// Ticks lie within the window, at whole multiples of their step, and none of those
/// is left out.
pub proof fn ticks_rule_the_window(w: Window, ticks: Ticks, t: int)
    requires
        call_ensures(x_ticks, (w,), ticks),
        w.x_lo <= w.x_hi,
        w.x_hi <= u128::MAX - TICK_SLACK,
    ensures
        ticks.at(t) ==> w.x_lo <= t <= w.x_hi + 1000 && t % (ticks.step as int) == 0,
        w.x_lo <= t <= w.x_hi && t % (ticks.step as int) == 0 ==> ticks.at(t),
        w.x_hi - w.x_lo >= 1_000_000_000 ==> ticks.step == tick_step(
            (w.x_hi - w.x_lo) as u128,
            0,
        ) * 1_000_000_000,
        w.x_hi - w.x_lo < 1_000_000_000 ==> ticks.step == 1_000_000_000,
{
    assert(tick_steps()[0] == 1);
    assert(tick_step(SECOND, 0) == 1);
}

/// An elapsed label is within half a second of the time that lies between its tick
/// and the right edge.
pub proof fn elapsed_labels_are_rounded(t: int, x_hi: int)
    requires
        t <= x_hi,
    ensures
        elapsed_text(t, x_hi) == "0s"@ ==> x_hi - t <= 500_000_000,
        x_hi - t < 500_000_000 ==> elapsed_text(t, x_hi) == "0s"@,
        x_hi - t > 500_000_000 ==> exists|n: nat|
            elapsed_text(t, x_hi) == "-"@ + #[trigger] decimal(n) + "s"@ && -500_000_000 <= n
                * 1_000_000_000 - (x_hi - t) <= 500_000_000,
{
    let back = (x_hi - t) as nat;
    let n = half_even(back, SECOND as nat);
    reveal_strlit("0s");
    reveal_strlit("-");
    if n > 0 {
        assert(elapsed_text(t, x_hi) == "-"@ + decimal(n) + "s"@);
        assert(elapsed_text(t, x_hi)[0] == '-');
        assert("0s"@[0] == '0');
    }
}

/// A wall-clock label tells hours, minutes and seconds of the day in UTC, with two
/// digits each.
pub proof fn wall_clocks_tell_the_time(h: nat, m: nat, s: nat, day: nat, t: u128, epoch_s: u64)
    requires
        h < 24,
        m < 60,
        s < 60,
        epoch_s + t / 1_000_000_000 == day * 86_400 + h * 3600 + m * 60 + s,
    ensures
        wall_clock_text(epoch_s, t) == two_digits(h) + ":"@ + two_digits(m) + ":"@ + two_digits(s),
        two_digits(h).len() == 2,
        two_digits(m).len() == 2,
        two_digits(s).len() == 2,
        crate::text::digits_value(0, two_digits(h)) == h,
        crate::text::digits_value(0, two_digits(m)) == m,
        crate::text::digits_value(0, two_digits(s)) == s,
{
    let secs = (epoch_s + t / SECOND) % 86_400;
    assert(secs == h * 3600 + m * 60 + s);
    assert(secs / 3600 == h);
    assert(secs % 3600 == m * 60 + s);
    assert(secs % 3600 / 60 == m);
    assert(secs % 60 == s);
    lemma_two_digits(h);
    lemma_two_digits(m);
    lemma_two_digits(s);
}

proof fn lemma_two_digits(n: nat)
    requires
        n < 100,
    ensures
        two_digits(n).len() == 2,
        crate::text::digits_value(0, two_digits(n)) == n,
{
    reveal_strlit("0");
    crate::text::numerals_stand_for_their_number(n);
    reveal_with_fuel(decimal, 3);
    if n < 10 {
        let text = two_digits(n);
        assert(text.drop_last() == seq!['0']);
        assert(text.last() == decimal(n)[0]);
        reveal_with_fuel(crate::text::digits_value, 3);
        assert(decimal(n).drop_last() == Seq::<char>::empty());
        assert(seq!['0'].drop_last() == Seq::<char>::empty());
    }
}

/// A locked axis ends at the locked maximum, or at one where that is less; one that
/// is not locked has some room above the greatest height.
pub proof fn locked_axes_end_at_their_maximum(
    ui: UiState,
    kind: PlotKind,
    y_max: u128,
    end: YTop,
)
    requires
        ui@.wf(),
        call_ensures(y_top, (&ui, kind, y_max), end),
    ensures
        ui.y_max_override.of(kind) is None ==> end == (YTop::Auto { y_max, percent: 115 }),
        ui.y_max_override.of(kind) matches Some(max) ==> {
            &&& end matches YTop::Locked(top)
            &&& max.mantissa >= max.scale() ==> top == max
            &&& max.mantissa < max.scale() ==> top.mantissa == 1 && top.places == 0
        },
{
}

/// A shown line is drawn from each of its points to the next, in its colour; a
/// hidden one is not drawn.
pub proof fn lines_are_drawn_point_to_point(
    lines: Seq<SeriesModel>,
    line: SeriesModel,
    highlight: Seq<usize>,
    k: int,
)
    requires
        lines.len() <= usize::MAX,
    ensures
        ({
            let before = strokes_of(lines, highlight);
            let after = strokes_of(lines.push(line), highlight);
            let visible = highlight.len() == 0 || highlight.contains(lines.len() as usize);
            &&& !visible ==> after == before
            &&& visible ==> {
                &&& after.take(before.len() as int) == before
                &&& line.points.len() == 0 ==> after.len() == before.len()
                &&& line.points.len() > 0 ==> after.len() == before.len() + line.points.len() - 1
                &&& 0 <= k < line.points.len() - 1 ==> {
                    let stroke = after[before.len() + k];
                    &&& stroke.from == line.points[k]
                    &&& stroke.to == line.points[k + 1]
                    &&& stroke.hue == line.hue
                }
            }
        }),
        strokes_of(Seq::empty(), highlight).len() == 0,
{
    assert(lines.push(line).drop_last() == lines);
    let before = strokes_of(lines, highlight);
    assert((before + line_strokes(line)).take(before.len() as int) == before);
}

/// A marker's text tells both counts, old and new, and whether there are more.
pub proof fn marks_tell_both_counts(point: AnnotPoint, hue: Hue)
    ensures
        ({
            let mark = mark_of(point, hue);
            &&& mark.t == point.t
            &&& mark.y == point.y
            &&& mark.hue == hue
            &&& mark.text == decimal(point.old_n as nat) + seq!['→'] + decimal(
                point.new_n as nat,
            )
            &&& mark.up <==> point.old_n <= point.new_n
        }),
{
    reveal_strlit("→");
    assert("→"@ =~= seq!['→']);
}

/// Every marker of every VM is drawn in its VM's colour.
pub proof fn marks_are_drawn_one_by_one(annots: Seq<AnnotModel>, list: AnnotModel)
    ensures
        marks_of(annots.push(list)) == marks_of(annots) + list.points.map_values(
            |point: AnnotPoint| mark_of(point, list.hue),
        ),
        marks_of(Seq::empty()).len() == 0,
{
    assert(annots.push(list).drop_last() == annots);
}

/// A pane says whether its scale is logarithmic and whether its end is locked, and
/// abbreviates its numbers unless they are bytes or CPU time.
pub proof fn headings_tell_the_scale(
    ui: UiState,
    kind: PlotKind,
    iop_size: u64,
    heading: PaneHeading,
    marks: String,
)
    requires
        call_ensures(pane_heading, (&ui, kind, iop_size), heading),
        call_ensures(heading_marks, (&heading,), marks),
    ensures
        heading.log <==> ui.log_y_scale,
        heading.locked <==> ui.y_max_override.of(kind) is Some,
        heading.humanize <==> kind == PlotKind::Latency || kind == PlotKind::QueueDepth || (kind
            == PlotKind::Perf && ui.perf_metric == PerfMetric::Iops),
        heading.title@ == pane_title(kind, ui.perf_metric, iop_size),
        marks@.len() == 0 <==> !ui.log_y_scale && ui.y_max_override.of(kind) is None,
        ui.log_y_scale && ui.y_max_override.of(kind) is None ==> marks@ == "  [log]"@,
        !ui.log_y_scale && ui.y_max_override.of(kind) is Some ==> marks@ == "  [locked]"@,
        ui.log_y_scale && ui.y_max_override.of(kind) is Some ==> marks@ == "  [log]"@
            + "  [locked]"@,
{
    reveal_strlit("  [log]");
    reveal_strlit("  [locked]");
    reveal_strlit("");
    assert(""@ =~= Seq::<char>::empty());
    assert("  [log]"@ + ""@ =~= "  [log]"@);
    assert(""@ + "  [locked]"@ =~= "  [locked]"@);
}

/// The labels of the X axis are times of day or times before now, as chosen.
pub proof fn labels_follow_the_chosen_clock(ui: UiState, t: u128, x_hi: u128, label: String)
    requires
        t <= x_hi + TICK_SLACK,
        call_ensures(x_label, (&ui, t, x_hi), label),
    ensures
        ui.wall_clock_x ==> label@ == wall_clock_text(ui.started_unix_s, t),
        !ui.wall_clock_x ==> label@ == elapsed_text(t as int, x_hi as int),
{
}

} // verus!
