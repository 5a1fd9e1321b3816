//! What each plot pane shows: its lines, its markers, the height of its Y axis
//! and the lines that the focus leaves visible.
//!
//! Heights are whole numbers in a unit of the pane: operations, bytes per second,
//! microseconds, [`UTIL_UNIT`]ths of a core, queue entries, or [`UTIL_UNIT`]ths of
//! a microsecond.
use std::collections::VecDeque;
use vstd::prelude::*;
use vstd::string::*;

use crate::instance::UTIL_UNIT;
use crate::tui::feed::Sample;
use crate::tui::labels::PerfMetric;
use crate::tui::roster::{Annot, Fleet, VmModel, VmState};
use crate::tui::theme::{dim, dimmed, Hue, Theme};
use crate::tui::ui::{Focus, UiState};

verus! {

/// What a line follows.
#[derive(Debug, Clone, Copy, PartialEq, Eq, Structural)]
pub enum Measure {
    /// Operations per second.
    Iops,
    /// Bytes per second.
    Bandwidth,
    /// Mean read latency.
    ReadMean,
    /// 99th percentile of the read latency.
    ReadTail,
    /// Mean write latency.
    WriteMean,
    /// 99th percentile of the write latency.
    WriteTail,
    /// CPU time of the pool.
    Cpu,
    /// Inflight depth.
    Depth,
    /// CPU time per operation.
    PerIop,
}

/// The value of a measure in a sample, if the sample has one.
pub open spec fn value(sample: Sample, measure: Measure) -> Option<u128> {
    match measure {
        Measure::Iops => Some(sample.iops),
        Measure::Bandwidth => Some(sample.bandwidth),
        Measure::ReadMean => match sample.lat_r_avg {
            Some(avg) => Some(avg as u128),
            None => None,
        },
        Measure::ReadTail => match sample.lat_r {
            Some((_, _, p99)) => Some(p99 as u128),
            None => None,
        },
        Measure::WriteMean => match sample.lat_w_avg {
            Some(avg) => Some(avg as u128),
            None => None,
        },
        Measure::WriteTail => match sample.lat_w {
            Some((_, _, p99)) => Some(p99 as u128),
            None => None,
        },
        Measure::Cpu => Some(sample.cpu),
        Measure::Depth => Some(sample.qd),
        Measure::PerIop => sample.cpu_us_per_iop,
    }
}

/// Read a measure.
fn read(sample: &Sample, measure: Measure) -> (r: Option<u128>)
    ensures
        r == value(*sample, measure),
{
    match measure {
        Measure::Iops => Some(sample.iops),
        Measure::Bandwidth => Some(sample.bandwidth),
        Measure::ReadMean => match sample.lat_r_avg {
            Some(avg) => Some(avg as u128),
            None => None,
        },
        Measure::ReadTail => match sample.lat_r {
            Some((_, _, p99)) => Some(p99 as u128),
            None => None,
        },
        Measure::WriteMean => match sample.lat_w_avg {
            Some(avg) => Some(avg as u128),
            None => None,
        },
        Measure::WriteTail => match sample.lat_w {
            Some((_, _, p99)) => Some(p99 as u128),
            None => None,
        },
        Measure::Cpu => Some(sample.cpu),
        Measure::Depth => Some(sample.qd),
        Measure::PerIop => sample.cpu_us_per_iop,
    }
}

/// The points of a line: the samples from the left edge on that have a value.
pub open spec fn trace(samples: Seq<Sample>, measure: Measure, x_lo: u64) -> Seq<(u64, u128)>
    decreases samples.len(),
{
    if samples.len() == 0 {
        Seq::empty()
    } else {
        let rest = trace(samples.drop_last(), measure, x_lo);
        let last = samples.last();
        match value(last, measure) {
            Some(y) => if last.t >= x_lo {
                rest.push((last.t, y))
            } else {
                rest
            },
            None => rest,
        }
    }
}

/// The larger of two heights.
pub open spec fn higher(a: u128, b: u128) -> u128 {
    if a >= b {
        a
    } else {
        b
    }
}

/// The greatest height of a line, or the floor if that is greater.
pub open spec fn peak(points: Seq<(u64, u128)>, floor: u128) -> u128
    decreases points.len(),
{
    if points.len() == 0 {
        floor
    } else {
        higher(peak(points.drop_last(), floor), points.last().1)
    }
}

/// A coloured line.
#[derive(Debug)]
pub struct Series {
    /// Its colour.
    pub hue: Hue,
    /// Its points: time and height.
    pub points: Vec<(u64, u128)>,
}

/// What a coloured line holds.
#[verifier::ext_equal]
pub struct SeriesModel {
    /// Its colour.
    pub hue: Hue,
    /// Its points.
    pub points: Seq<(u64, u128)>,
}

impl View for Series {
    type V = SeriesModel;

    open spec fn view(&self) -> SeriesModel {
        SeriesModel { hue: self.hue, points: self.points@ }
    }
}

/// The models of a list of lines.
pub open spec fn series_models(series: Seq<Series>) -> Seq<SeriesModel> {
    series.map_values(|s: Series| s@)
}

/// The greatest height of several lines, or the floor if that is greater.
pub open spec fn top(series: Seq<SeriesModel>, floor: u128) -> u128
    decreases series.len(),
{
    if series.len() == 0 {
        floor
    } else {
        peak(series.last().points, top(series.drop_last(), floor))
    }
}

/// A marker on the plot. Its height is in millionths of the pane's unit.
#[derive(Debug, Clone, Copy, PartialEq, Eq, Structural)]
pub struct AnnotPoint {
    /// When the change was seen.
    pub t: u64,
    /// Worker count before.
    pub old_n: u32,
    /// Worker count after.
    pub new_n: u32,
    /// Height.
    pub y: u128,
}

/// The markers of one VM, in its colour.
#[derive(Debug)]
pub struct AnnotSeries {
    /// The VM's colour.
    pub hue: Hue,
    /// Its markers.
    pub points: Vec<AnnotPoint>,
}

/// What the markers of one VM say.
#[verifier::ext_equal]
pub struct AnnotModel {
    /// The VM's colour.
    pub hue: Hue,
    /// Its markers.
    pub points: Seq<AnnotPoint>,
}

impl View for AnnotSeries {
    type V = AnnotModel;

    open spec fn view(&self) -> AnnotModel {
        AnnotModel { hue: self.hue, points: self.points@ }
    }
}

/// The models of the markers of several VMs.
pub open spec fn annot_models(annots: Seq<AnnotSeries>) -> Seq<AnnotModel> {
    annots.map_values(|a: AnnotSeries| a@)
}

/// The markers from the left edge on, none higher than the cap.
pub open spec fn markers(annots: Seq<Annot>, x_lo: u64, cap: Option<u128>) -> Seq<AnnotPoint>
    decreases annots.len(),
{
    if annots.len() == 0 {
        Seq::empty()
    } else {
        let rest = markers(annots.drop_last(), x_lo, cap);
        let a = annots.last();
        if a.t >= x_lo {
            rest.push(
                AnnotPoint {
                    t: a.t,
                    old_n: a.old_n,
                    new_n: a.new_n,
                    y: match cap {
                        Some(limit) => if a.y_value <= limit {
                            a.y_value
                        } else {
                            limit
                        },
                        None => a.y_value,
                    },
                },
            )
        } else {
            rest
        }
    }
}

/// One plot pane.
#[derive(Debug)]
pub struct Plot {
    /// The lines, in drawing order.
    pub series: Vec<Series>,
    /// The markers, one list per VM.
    pub annots: Vec<AnnotSeries>,
    /// The greatest height, at least one unit of the pane.
    pub y_max: u128,
    /// The lines that the focus leaves visible; all if there are none here.
    pub highlight: Vec<usize>,
}

/// Collect the points of a line and raise the greatest height seen.
fn collect(samples: &VecDeque<Sample>, measure: Measure, x_lo: u64, y_max: &mut u128) -> (r: Vec<
    (u64, u128),
>)
    ensures
        r@ == trace(samples@, measure, x_lo),
        *final(y_max) == peak(trace(samples@, measure, x_lo), *old(y_max)),
{
    let mut out: Vec<(u64, u128)> = Vec::new();
    let ghost floor = *y_max;
    let mut i: usize = 0;
    assert(samples@.take(0).len() == 0);
    while i < samples.len()
        invariant
            i <= samples@.len(),
            out@ == trace(samples@.take(i as int), measure, x_lo),
            *y_max == peak(out@, floor),
            floor == *old(y_max),
        decreases samples@.len() - i,
    {
        let sample: Sample = samples[i];
        let ghost before = out@;
        proof {
            assert(samples@.take(i + 1).drop_last() == samples@.take(i as int));
            assert(samples@.take(i + 1).last() == sample);
        }
        if sample.t >= x_lo {
            if let Some(y) = read(&sample, measure) {
                if y > *y_max {
                    *y_max = y;
                }
                out.push((sample.t, y));
                assert(out@.drop_last() == before);
            }
        }
        i += 1;
    }
    assert(samples@.take(samples@.len() as int) == samples@);
    out
}

/// The line of the whole fleet, if it is drawn.
pub open spec fn aggregate_lines(
    aggregate: Seq<Sample>,
    drawn: bool,
    measure: Measure,
    theme: Theme,
    x_lo: u64,
) -> Seq<SeriesModel> {
    if drawn {
        seq![SeriesModel { hue: theme.aggregate_hue(), points: trace(aggregate, measure, x_lo) }]
    } else {
        Seq::empty()
    }
}

/// The line of one VM.
pub open spec fn vm_line(vm: VmModel, measure: Measure, theme: Theme, x_lo: u64) -> SeriesModel {
    SeriesModel { hue: theme.slot_hue(vm.color_idx), points: trace(vm.samples, measure, x_lo) }
}

/// The lines of a pane: the fleet's first, so that the VMs' own are painted over
/// it.
pub open spec fn lines(
    roster: Seq<VmModel>,
    aggregate: Seq<Sample>,
    drawn: bool,
    measure: Measure,
    theme: Theme,
    x_lo: u64,
) -> Seq<SeriesModel> {
    aggregate_lines(aggregate, drawn, measure, theme, x_lo) + roster.map_values(
        |vm: VmModel| vm_line(vm, measure, theme, x_lo),
    )
}

/// The lines that the focus leaves visible in a pane with one line per VM,
/// preceded by the fleet's where that is drawn.
pub open spec fn highlighted(focused: Option<Focus>, n: nat, drawn: bool) -> Seq<usize> {
    match focused {
        Some(Focus::Vm(i)) => if i < n {
            seq![
                (i + if drawn {
                    1int
                } else {
                    0
                }) as usize,
            ]
        } else {
            Seq::empty()
        },
        Some(Focus::Total) => if drawn {
            seq![0usize]
        } else {
            Seq::empty()
        },
        None => Seq::empty(),
    }
}

/// The lines that the focus leaves visible in the latency pane: four per VM.
pub open spec fn highlighted_latency(focused: Option<Focus>, n: nat) -> Seq<usize> {
    match focused {
        Some(Focus::Vm(i)) => if i < n {
            seq![
                (4 * i) as usize,
                (4 * i + 1) as usize,
                (4 * i + 2) as usize,
                (4 * i + 3) as usize,
            ]
        } else {
            Seq::empty()
        },
        _ => Seq::empty(),
    }
}

/// Whether a line is drawn, given the highlighted ones.
pub open spec fn shown(highlight: Seq<usize>, i: usize) -> bool {
    highlight.len() == 0 || highlight.contains(i)
}

/// Decide [`shown`].
pub fn is_shown(highlight: &Vec<usize>, i: usize) -> (r: bool)
    ensures
        r == shown(highlight@, i),
{
    if highlight.len() == 0 {
        return true;
    }
    let mut k: usize = 0;
    while k < highlight.len()
        invariant
            k <= highlight@.len(),
            forall|j: int| 0 <= j < k ==> highlight@[j] != i,
        decreases highlight@.len() - k,
    {
        if highlight[k] == i {
            assert(highlight@.contains(i));
            return true;
        }
        k += 1;
    }
    false
}

/// Map the focus to the lines of a pane with one line per VM.
pub fn highlight_indices_perf(focused: Option<Focus>, n: usize, drawn: bool) -> (r: Vec<usize>)
    requires
        n < usize::MAX,
    ensures
        r@ == highlighted(focused, n as nat, drawn),
{
    let base: usize = if drawn {
        1
    } else {
        0
    };
    let mut out: Vec<usize> = Vec::new();
    match focused {
        Some(Focus::Vm(i)) => {
            if i < n {
                out.push(base + i);
            }
        },
        Some(Focus::Total) => {
            if drawn {
                out.push(0);
            }
        },
        None => {},
    }
    assert(out@ =~= highlighted(focused, n as nat, drawn));
    out
}

/// Map the focus to the lines of the latency pane.
pub fn highlight_indices_latency(focused: Option<Focus>, n: usize) -> (r: Vec<usize>)
    requires
        4 * n <= usize::MAX,
    ensures
        r@ == highlighted_latency(focused, n as nat),
{
    let mut out: Vec<usize> = Vec::new();
    if let Some(Focus::Vm(i)) = focused {
        if i < n {
            let base: usize = 4 * i;
            out.push(base);
            out.push(base + 1);
            out.push(base + 2);
            out.push(base + 3);
        }
    }
    assert(out@ =~= highlighted_latency(focused, n as nat));
    out
}

/// The line of the whole fleet, if it is drawn.
fn aggregate_series(
    fleet: &Fleet,
    drawn: bool,
    measure: Measure,
    theme: Theme,
    x_lo: u64,
    y_max: &mut u128,
) -> (r: Vec<Series>)
    ensures
        series_models(r@) == aggregate_lines(fleet.aggregate@, drawn, measure, theme, x_lo),
        *final(y_max) == top(
            aggregate_lines(fleet.aggregate@, drawn, measure, theme, x_lo),
            *old(y_max),
        ),
{
    let mut out: Vec<Series> = Vec::new();
    if drawn {
        let points = collect(&fleet.aggregate, measure, x_lo, y_max);
        out.push(Series { hue: theme.aggregate(), points });
        proof {
            let models = series_models(out@);
            assert(models == aggregate_lines(fleet.aggregate@, drawn, measure, theme, x_lo));
            assert(models.drop_last() == Seq::<SeriesModel>::empty());
            assert(top(models.drop_last(), *old(y_max)) == *old(y_max));
        }
    } else {
        assert(series_models(out@) == Seq::<SeriesModel>::empty());
    }
    out
}

/// The lines of a pane with one measure, and the greatest height.
fn line_series(
    fleet: &Fleet,
    drawn: bool,
    measure: Measure,
    theme: Theme,
    x_lo: u64,
    y_max: &mut u128,
) -> (r: Vec<Series>)
    ensures
        series_models(r@) == lines(
            fleet.roster(),
            fleet.aggregate@,
            drawn,
            measure,
            theme,
            x_lo,
        ),
        *final(y_max) == top(series_models(r@), *old(y_max)),
{
    let ghost floor = *y_max;
    let mut out = aggregate_series(fleet, drawn, measure, theme, x_lo, y_max);
    let ghost head = aggregate_lines(fleet.aggregate@, drawn, measure, theme, x_lo);
    let ghost roster = fleet.roster();
    let mut i: usize = 0;
    assert(series_models(out@) == head + roster.take(0).map_values(
        |vm: VmModel| vm_line(vm, measure, theme, x_lo),
    ));
    while i < fleet.vms.len()
        invariant
            i <= fleet.vms@.len(),
            roster == fleet.roster(),
            series_models(out@) == head + roster.take(i as int).map_values(
                |vm: VmModel| vm_line(vm, measure, theme, x_lo),
            ),
            *y_max == top(series_models(out@), floor),
            floor == *old(y_max),
        decreases fleet.vms@.len() - i,
    {
        let ghost before = series_models(out@);
        let points = collect(&fleet.vms[i].samples, measure, x_lo, y_max);
        out.push(Series { hue: theme.vm_color(fleet.vms[i].color_idx), points });
        proof {
            let line = vm_line(roster[i as int], measure, theme, x_lo);
            assert(roster[i as int] == fleet.vms@[i as int]@);
            assert(out@.last()@ == line);
            assert(series_models(out@) == before.push(line));
            assert(series_models(out@).drop_last() == before);
            assert(roster.take(i + 1) == roster.take(i as int).push(roster[i as int]));
            assert(series_models(out@) == head + roster.take(i + 1).map_values(
                |vm: VmModel| vm_line(vm, measure, theme, x_lo),
            ));
        }
        i += 1;
    }
    assert(roster.take(fleet.vms@.len() as int) == roster);
    out
}

/// The greatest height that a pane starts with: one unit, or one core.
pub open spec fn floor_of(measure: Measure) -> u128 {
    match measure {
        Measure::Bandwidth => 1_000_000,
        Measure::Cpu => UTIL_UNIT as u128,
        Measure::PerIop => UTIL_UNIT as u128,
        _ => 1,
    }
}

fn start_height(measure: Measure) -> (r: u128)
    ensures
        r == floor_of(measure),
{
    match measure {
        Measure::Bandwidth => 1_000_000,
        Measure::Cpu => UTIL_UNIT as u128,
        Measure::PerIop => UTIL_UNIT as u128,
        _ => 1,
    }
}

/// A pane with one line per VM and no markers.
fn single_plot(ui: &UiState, fleet: &Fleet, measure: Measure, x_lo: u64) -> (r: Plot)
    requires
        fleet.vms@.len() < usize::MAX,
    ensures
        series_models(r.series@) == lines(
            fleet.roster(),
            fleet.aggregate@,
            fleet.vms@.len() >= 2,
            measure,
            Theme::nth(ui.theme_idx),
            x_lo,
        ),
        r.annots@.len() == 0,
        r.y_max == top(series_models(r.series@), floor_of(measure)),
        r.highlight@ == highlighted(ui.focused, fleet.vms@.len(), fleet.vms@.len() >= 2),
{
    let mut y_max: u128 = start_height(measure);
    let drawn: bool = fleet.vms.len() >= 2;
    let series = line_series(fleet, drawn, measure, ui.theme(), x_lo, &mut y_max);
    let highlight = highlight_indices_perf(ui.focused, fleet.vms.len(), drawn);
    Plot { series, annots: Vec::new(), y_max, highlight }
}

/// CPU pane: the CPU time of each VM's pool, and of the whole fleet.
pub fn cpu_plot(ui: &UiState, fleet: &Fleet, x_lo: u64) -> (r: Plot)
    requires
        fleet.vms@.len() < usize::MAX,
    ensures
        series_models(r.series@) == lines(
            fleet.roster(),
            fleet.aggregate@,
            fleet.vms@.len() >= 2,
            Measure::Cpu,
            Theme::nth(ui.theme_idx),
            x_lo,
        ),
        r.annots@.len() == 0,
        r.y_max == top(series_models(r.series@), UTIL_UNIT as u128),
        r.highlight@ == highlighted(ui.focused, fleet.vms@.len(), fleet.vms@.len() >= 2),
{
    single_plot(ui, fleet, Measure::Cpu, x_lo)
}

/// Queue-depth pane.
pub fn qd_plot(ui: &UiState, fleet: &Fleet, x_lo: u64) -> (r: Plot)
    requires
        fleet.vms@.len() < usize::MAX,
    ensures
        series_models(r.series@) == lines(
            fleet.roster(),
            fleet.aggregate@,
            fleet.vms@.len() >= 2,
            Measure::Depth,
            Theme::nth(ui.theme_idx),
            x_lo,
        ),
        r.annots@.len() == 0,
        r.y_max == top(series_models(r.series@), 1),
        r.highlight@ == highlighted(ui.focused, fleet.vms@.len(), fleet.vms@.len() >= 2),
{
    single_plot(ui, fleet, Measure::Depth, x_lo)
}

/// Efficiency pane: CPU microseconds per operation; idle ticks are left out.
pub fn cpu_per_iop_plot(ui: &UiState, fleet: &Fleet, x_lo: u64) -> (r: Plot)
    requires
        fleet.vms@.len() < usize::MAX,
    ensures
        series_models(r.series@) == lines(
            fleet.roster(),
            fleet.aggregate@,
            fleet.vms@.len() >= 2,
            Measure::PerIop,
            Theme::nth(ui.theme_idx),
            x_lo,
        ),
        r.annots@.len() == 0,
        r.y_max == top(series_models(r.series@), UTIL_UNIT as u128),
        r.highlight@ == highlighted(ui.focused, fleet.vms@.len(), fleet.vms@.len() >= 2),
{
    single_plot(ui, fleet, Measure::PerIop, x_lo)
}

/// The four lines of one VM in the latency pane.
pub open spec fn latency_lines_of(vm: VmModel, theme: Theme, x_lo: u64) -> Seq<SeriesModel> {
    let hue = theme.slot_hue(vm.color_idx);
    seq![
        SeriesModel { hue, points: trace(vm.samples, Measure::ReadMean, x_lo) },
        SeriesModel { hue: dimmed(hue), points: trace(vm.samples, Measure::ReadTail, x_lo) },
        SeriesModel { hue: dimmed(hue), points: trace(vm.samples, Measure::WriteMean, x_lo) },
        SeriesModel {
            hue: dimmed(dimmed(hue)),
            points: trace(vm.samples, Measure::WriteTail, x_lo),
        },
    ]
}

/// The lines of the latency pane. There is no fleet-wide one.
pub open spec fn latency_lines(roster: Seq<VmModel>, theme: Theme, x_lo: u64) -> Seq<SeriesModel>
    decreases roster.len(),
{
    if roster.len() == 0 {
        Seq::empty()
    } else {
        latency_lines(roster.drop_last(), theme, x_lo) + latency_lines_of(
            roster.last(),
            theme,
            x_lo,
        )
    }
}

/// Add one line to the latency pane.
fn add_line(
    out: &mut Vec<Series>,
    hue: Hue,
    samples: &VecDeque<Sample>,
    measure: Measure,
    x_lo: u64,
    y_max: &mut u128,
)
    ensures
        series_models(final(out)@) == series_models(old(out)@).push(
            SeriesModel { hue, points: trace(samples@, measure, x_lo) },
        ),
        *final(y_max) == peak(trace(samples@, measure, x_lo), *old(y_max)),
{
    let points = collect(samples, measure, x_lo, y_max);
    let line = Series { hue, points };
    let ghost model = line@;
    out.push(line);
    assert(series_models(out@) == series_models(old(out)@).push(model));
}

/// Latency pane: four lines per VM, read mean (bright), read tail and write mean
/// (dim), write tail (dimmer).
pub fn latency_plot(ui: &UiState, fleet: &Fleet, x_lo: u64) -> (r: Plot)
    requires
        4 * fleet.vms@.len() <= usize::MAX,
    ensures
        series_models(r.series@) == latency_lines(
            fleet.roster(),
            Theme::nth(ui.theme_idx),
            x_lo,
        ),
        r.annots@.len() == 0,
        r.y_max == top(series_models(r.series@), 1),
        r.highlight@ == highlighted_latency(ui.focused, fleet.vms@.len()),
{
    let theme: Theme = ui.theme();
    let ghost roster = fleet.roster();
    let mut y_max: u128 = 1;
    let mut out: Vec<Series> = Vec::new();
    let mut i: usize = 0;
    assert(roster.take(0).len() == 0);
    assert(series_models(out@) == Seq::<SeriesModel>::empty());
    while i < fleet.vms.len()
        invariant
            i <= fleet.vms@.len(),
            roster == fleet.roster(),
            theme == Theme::nth(ui.theme_idx),
            series_models(out@) == latency_lines(roster.take(i as int), theme, x_lo),
            y_max == top(series_models(out@), 1),
        decreases fleet.vms@.len() - i,
    {
        let ghost m0 = series_models(out@);
        let hue: Hue = theme.vm_color(fleet.vms[i].color_idx);
        let samples = &fleet.vms[i].samples;
        add_line(&mut out, hue, samples, Measure::ReadMean, x_lo, &mut y_max);
        let ghost m1 = series_models(out@);
        assert(m1.drop_last() == m0);
        assert(y_max == top(m1, 1));
        add_line(&mut out, dim(hue), samples, Measure::ReadTail, x_lo, &mut y_max);
        let ghost m2 = series_models(out@);
        assert(m2.drop_last() == m1);
        assert(y_max == top(m2, 1));
        add_line(&mut out, dim(hue), samples, Measure::WriteMean, x_lo, &mut y_max);
        let ghost m3 = series_models(out@);
        assert(m3.drop_last() == m2);
        assert(y_max == top(m3, 1));
        add_line(&mut out, dim(dim(hue)), samples, Measure::WriteTail, x_lo, &mut y_max);
        let ghost m4 = series_models(out@);
        assert(m4.drop_last() == m3);
        assert(y_max == top(m4, 1));
        proof {
            assert(roster[i as int] == fleet.vms@[i as int]@);
            assert(m4 == m0 + latency_lines_of(roster[i as int], theme, x_lo));
            assert(roster.take(i + 1).drop_last() == roster.take(i as int));
            assert(roster.take(i + 1).last() == roster[i as int]);
        }
        i += 1;
    }
    assert(roster.take(fleet.vms@.len() as int) == roster);
    let highlight = highlight_indices_latency(ui.focused, fleet.vms.len());
    Plot { series: out, annots: Vec::new(), y_max, highlight }
}

/// What the perf pane plots.
pub open spec fn perf_measure(metric: PerfMetric) -> Measure {
    match metric {
        PerfMetric::Iops => Measure::Iops,
        PerfMetric::Bandwidth => Measure::Bandwidth,
    }
}

/// The markers of the VM at `i`, capped in height; with a focus elsewhere there
/// are none.
pub open spec fn capped_markers(
    vm: VmModel,
    i: int,
    theme: Theme,
    focused: Option<Focus>,
    x_lo: u64,
    cap: Option<u128>,
) -> AnnotModel {
    AnnotModel {
        hue: theme.slot_hue(vm.color_idx),
        points: match focused {
            Some(Focus::Vm(at)) => if at == i {
                markers(vm.annots, x_lo, cap)
            } else {
                Seq::empty()
            },
            Some(Focus::Total) => Seq::empty(),
            None => markers(vm.annots, x_lo, cap),
        },
    }
}

/// The markers of one VM in the perf pane. In bandwidth mode they stay within
/// the greatest height up to that VM, so that they remain on screen; with a
/// focus elsewhere there are none.
pub open spec fn vm_markers(
    roster: Seq<VmModel>,
    lines: Seq<SeriesModel>,
    offset: int,
    i: int,
    metric: PerfMetric,
    theme: Theme,
    focused: Option<Focus>,
    x_lo: u64,
) -> AnnotModel {
    let cap = match metric {
        PerfMetric::Iops => None,
        PerfMetric::Bandwidth => Some(
            top(lines.take(offset + i + 1), floor_of(perf_measure(metric))),
        ),
    };
    capped_markers(roster[i], i, theme, focused, x_lo, cap)
}

/// Collect the markers of one VM.
fn collect_markers(annots: &VecDeque<Annot>, x_lo: u64, cap: Option<u128>) -> (r: Vec<AnnotPoint>)
    ensures
        r@ == markers(annots@, x_lo, cap),
{
    let mut out: Vec<AnnotPoint> = Vec::new();
    let mut i: usize = 0;
    assert(annots@.take(0).len() == 0);
    while i < annots.len()
        invariant
            i <= annots@.len(),
            out@ == markers(annots@.take(i as int), x_lo, cap),
        decreases annots@.len() - i,
    {
        let a: Annot = annots[i];
        proof {
            assert(annots@.take(i + 1).drop_last() == annots@.take(i as int));
            assert(annots@.take(i + 1).last() == a);
        }
        if a.t >= x_lo {
            let y: u128 = match cap {
                Some(limit) => if a.y_value <= limit {
                    a.y_value
                } else {
                    limit
                },
                None => a.y_value,
            };
            out.push(AnnotPoint { t: a.t, old_n: a.old_n, new_n: a.new_n, y });
        }
        i += 1;
    }
    assert(annots@.take(annots@.len() as int) == annots@);
    out
}

/// Add the markers of the VM at `i`.
fn add_markers(
    out: &mut Vec<AnnotSeries>,
    vm: &VmState,
    i: usize,
    theme: Theme,
    focused: Option<Focus>,
    x_lo: u64,
    cap: Option<u128>,
)
    ensures
        annot_models(final(out)@) == annot_models(old(out)@).push(
            capped_markers(vm@, i as int, theme, focused, x_lo, cap),
        ),
{
    let wanted: bool = match focused {
        Some(Focus::Vm(at)) => at == i,
        Some(Focus::Total) => false,
        None => true,
    };
    let points = if wanted {
        collect_markers(&vm.annots, x_lo, cap)
    } else {
        Vec::new()
    };
    let list = AnnotSeries { hue: theme.vm_color(vm.color_idx), points };
    let ghost model = list@;
    out.push(list);
    assert(model == capped_markers(vm@, i as int, theme, focused, x_lo, cap));
    assert(annot_models(out@) == annot_models(old(out)@).push(model));
}

/// Perf pane: one line per VM in the perf metric, the fleet's line when there
/// are at least two VMs and it has samples, and a marker at every change of a
/// worker count.
#[verifier::spinoff_prover]
pub fn perf_plot(ui: &UiState, fleet: &Fleet, x_lo: u64) -> (r: Plot)
    requires
        fleet.vms@.len() < usize::MAX,
    ensures
        ({
            let drawn = fleet.vms@.len() >= 2 && fleet.aggregate@.len() > 0;
            let theme = Theme::nth(ui.theme_idx);
            let measure = perf_measure(ui.perf_metric);
            let all = lines(fleet.roster(), fleet.aggregate@, drawn, measure, theme, x_lo);
            &&& series_models(r.series@) == all
            &&& r.y_max == top(all, floor_of(measure))
            &&& r.highlight@ == highlighted(ui.focused, fleet.vms@.len(), drawn)
            &&& annot_models(r.annots@) == Seq::new(
                fleet.vms@.len(),
                |i: int|
                    vm_markers(
                        fleet.roster(),
                        all,
                        if drawn {
                            1
                        } else {
                            0
                        },
                        i,
                        ui.perf_metric,
                        theme,
                        ui.focused,
                        x_lo,
                    ),
            )
        }),
{
    let theme: Theme = ui.theme();
    let drawn: bool = fleet.vms.len() >= 2 && fleet.aggregate.len() > 0;
    let measure: Measure = match ui.perf_metric {
        PerfMetric::Iops => Measure::Iops,
        PerfMetric::Bandwidth => Measure::Bandwidth,
    };
    let floor: u128 = start_height(measure);
    let ghost roster = fleet.roster();
    let ghost all = lines(roster, fleet.aggregate@, drawn, measure, theme, x_lo);
    let ghost offset: int = if drawn {
        1
    } else {
        0
    };
    let mut y_max: u128 = floor;
    let mut out = aggregate_series(fleet, drawn, measure, theme, x_lo, &mut y_max);
    let mut annots: Vec<AnnotSeries> = Vec::new();
    let mut i: usize = 0;
    proof {
        let head = aggregate_lines(fleet.aggregate@, drawn, measure, theme, x_lo);
        assert(head.len() == offset);
        assert(all.take(offset) == head);
    }
    assert(annot_models(annots@) == Seq::<AnnotModel>::empty());
    while i < fleet.vms.len()
        invariant
            i <= fleet.vms@.len(),
            roster == fleet.roster(),
            theme == Theme::nth(ui.theme_idx),
            measure == perf_measure(ui.perf_metric),
            floor == floor_of(measure),
            all == lines(roster, fleet.aggregate@, drawn, measure, theme, x_lo),
            offset == (if drawn {
                1int
            } else {
                0
            }),
            all.len() == offset + fleet.vms@.len(),
            series_models(out@) == all.take(offset + i),
            y_max == top(all.take(offset + i), floor),
            annot_models(annots@) == Seq::new(
                i as nat,
                |j: int|
                    vm_markers(
                        roster,
                        all,
                        offset,
                        j,
                        ui.perf_metric,
                        theme,
                        ui.focused,
                        x_lo,
                    ),
            ),
        decreases fleet.vms@.len() - i,
    {
        let vm = &fleet.vms[i];
        let hue: Hue = theme.vm_color(vm.color_idx);
        add_line(&mut out, hue, &vm.samples, measure, x_lo, &mut y_max);
        proof {
            let line = vm_line(roster[i as int], measure, theme, x_lo);
            assert(roster[i as int] == vm@);
            assert(all[offset + i] == line);
            assert(all.take(offset + i + 1) == all.take(offset + i).push(line));
            assert(all.take(offset + i + 1).drop_last() == all.take(offset + i));
        }
        let cap: Option<u128> = match ui.perf_metric {
            PerfMetric::Iops => None,
            PerfMetric::Bandwidth => Some(y_max),
        };
        add_markers(&mut annots, vm, i, theme, ui.focused, x_lo, cap);
        i += 1;
    }
    assert(all.take(offset + fleet.vms@.len()) == all);
    let highlight = highlight_indices_perf(ui.focused, fleet.vms.len(), drawn);
    Plot { series: out, annots, y_max, highlight }
}

proof fn lemma_peak(points: Seq<(u64, u128)>, floor: u128)
    ensures
        peak(points, floor) >= floor,
        forall|i: int| 0 <= i < points.len() ==> (#[trigger] points[i]).1 <= peak(points, floor),
    decreases points.len(),
{
    if points.len() > 0 {
        let rest = points.drop_last();
        lemma_peak(rest, floor);
        assert forall|i: int| 0 <= i < points.len() implies (#[trigger] points[i]).1 <= peak(
            points,
            floor,
        ) by {
            if i < rest.len() {
                assert(rest[i] == points[i]);
            }
        }
    }
}

/// No line rises above the greatest height, and that is at least the floor.
pub proof fn lines_stay_below_the_top(series: Seq<SeriesModel>, floor: u128, i: int, j: int)
    requires
        0 <= i < series.len(),
        0 <= j < series[i].points.len(),
    ensures
        series[i].points[j].1 <= top(series, floor),
        floor <= top(series, floor),
    decreases series.len(),
{
    let rest = series.drop_last();
    lemma_peak(series.last().points, top(rest, floor));
    lemma_top_floor(rest, floor);
    if i < rest.len() {
        assert(rest[i] == series[i]);
        lines_stay_below_the_top(rest, floor, i, j);
    }
}

proof fn lemma_top_floor(series: Seq<SeriesModel>, floor: u128)
    ensures
        floor <= top(series, floor),
    decreases series.len(),
{
    if series.len() > 0 {
        lemma_top_floor(series.drop_last(), floor);
        lemma_peak(series.last().points, top(series.drop_last(), floor));
    }
}

proof fn lemma_trace(samples: Seq<Sample>, measure: Measure, x_lo: u64)
    ensures
        forall|i: int|
            0 <= i < trace(samples, measure, x_lo).len() ==> (#[trigger] trace(
                samples,
                measure,
                x_lo,
            )[i]).0 >= x_lo,
        trace(samples, measure, x_lo).len() <= samples.len(),
    decreases samples.len(),
{
    if samples.len() > 0 {
        lemma_trace(samples.drop_last(), measure, x_lo);
        let all = trace(samples, measure, x_lo);
        let rest = trace(samples.drop_last(), measure, x_lo);
        assert forall|i: int| 0 <= i < all.len() implies (#[trigger] all[i]).0 >= x_lo by {
            if i < rest.len() {
                assert(all[i] == rest[i]);
            }
        }
    }
}

/// No line has a point left of the window.
pub proof fn lines_start_at_the_left_edge(
    samples: Seq<Sample>,
    measure: Measure,
    x_lo: u64,
    i: int,
)
    requires
        0 <= i < trace(samples, measure, x_lo).len(),
    ensures
        trace(samples, measure, x_lo)[i].0 >= x_lo,
{
    lemma_trace(samples, measure, x_lo);
}

/// Focusing a VM leaves exactly its own line visible.
pub proof fn focus_shows_one_line(
    roster: Seq<VmModel>,
    aggregate: Seq<Sample>,
    drawn: bool,
    measure: Measure,
    theme: Theme,
    x_lo: u64,
    at: usize,
    i: usize,
)
    requires
        at < roster.len() < usize::MAX,
        i < lines(roster, aggregate, drawn, measure, theme, x_lo).len(),
    ensures
        shown(highlighted(Some(Focus::Vm(at)), roster.len(), drawn), i) <==> i == at + (if drawn {
            1int
        } else {
            0
        }),
        lines(roster, aggregate, drawn, measure, theme, x_lo)[at + (if drawn {
            1int
        } else {
            0
        })] == vm_line(roster[at as int], measure, theme, x_lo),
{
    let only = highlighted(Some(Focus::Vm(at)), roster.len(), drawn);
    let line = (at + (if drawn {
        1int
    } else {
        0
    })) as usize;
    assert(only == seq![line]);
    assert(only[0] == line);
    if only.contains(i) {
        let k = choose|k: int| 0 <= k < only.len() && only[k] == i;
        assert(k == 0);
    }
}

/// Focusing the whole fleet leaves exactly its line visible, where it is drawn.
pub proof fn total_focus_shows_the_aggregate(n: nat, i: usize)
    ensures
        shown(highlighted(Some(Focus::Total), n, true), i) <==> i == 0,
{
    let only = highlighted(Some(Focus::Total), n, true);
    assert(only == seq![0usize]);
    assert(only[0] == 0);
    if only.contains(i) {
        let k = choose|k: int| 0 <= k < only.len() && only[k] == i;
        assert(k == 0);
    }
}

/// Without a focus every line is visible.
pub proof fn no_focus_shows_everything(n: nat, drawn: bool, i: usize)
    ensures
        shown(highlighted(None, n, drawn), i),
        shown(highlighted_latency(None, n), i),
{
}

proof fn lemma_latency_block(roster: Seq<VmModel>, theme: Theme, x_lo: u64, at: int)
    requires
        0 <= at < roster.len(),
    ensures
        latency_lines(roster, theme, x_lo).len() == 4 * roster.len(),
        latency_lines(roster, theme, x_lo).subrange(4 * at, 4 * at + 4) == latency_lines_of(
            roster[at],
            theme,
            x_lo,
        ),
    decreases roster.len(),
{
    let rest = roster.drop_last();
    let all = latency_lines(roster, theme, x_lo);
    if roster.len() == 1 {
        assert(latency_lines(rest, theme, x_lo).len() == 0);
        assert(all.subrange(0, 4) == latency_lines_of(roster[0], theme, x_lo));
    } else {
        lemma_latency_block(rest, theme, x_lo, 0);
        if at < rest.len() {
            lemma_latency_block(rest, theme, x_lo, at);
            assert(rest[at] == roster[at]);
            assert(all.subrange(4 * at, 4 * at + 4) == latency_lines(rest, theme, x_lo).subrange(
                4 * at,
                4 * at + 4,
            ));
        } else {
            assert(all.subrange(4 * at, 4 * at + 4) == latency_lines_of(roster[at], theme, x_lo));
        }
    }
}

/// Focusing a VM leaves exactly its own four latency lines visible.
pub proof fn focus_shows_four_latency_lines(
    roster: Seq<VmModel>,
    theme: Theme,
    x_lo: u64,
    at: usize,
    i: usize,
)
    requires
        at < roster.len(),
        4 * roster.len() <= usize::MAX,
    ensures
        shown(highlighted_latency(Some(Focus::Vm(at)), roster.len()), i) <==> 4 * at <= i < 4 * at
            + 4,
        latency_lines(roster, theme, x_lo).subrange(4 * at, 4 * at + 4) == latency_lines_of(
            roster[at as int],
            theme,
            x_lo,
        ),
{
    lemma_latency_block(roster, theme, x_lo, at as int);
    let four = highlighted_latency(Some(Focus::Vm(at)), roster.len());
    assert(four.len() == 4);
    assert(four[0] == 4 * at);
    assert(four[1] == 4 * at + 1);
    assert(four[2] == 4 * at + 2);
    assert(four[3] == 4 * at + 3);
    if four.contains(i) {
        let k = choose|k: int| 0 <= k < four.len() && four[k] == i;
        assert(k == 0 || k == 1 || k == 2 || k == 3);
    }
    if 4 * at <= i < 4 * at + 4 {
        assert(four[i - 4 * at] == i);
    }
}

/// Each measure reads its own figure of a sample; figures that a sample lacks are
/// skipped.
pub proof fn measures_read_their_figure(s: Sample)
    ensures
        value(s, Measure::Iops) == Some(s.iops),
        value(s, Measure::Bandwidth) == Some(s.bandwidth),
        value(s, Measure::Cpu) == Some(s.cpu),
        value(s, Measure::Depth) == Some(s.qd),
        value(s, Measure::PerIop) == s.cpu_us_per_iop,
        s.lat_r_avg matches Some(avg) ==> value(s, Measure::ReadMean) == Some(avg as u128),
        s.lat_w_avg matches Some(avg) ==> value(s, Measure::WriteMean) == Some(avg as u128),
        s.lat_r matches Some(l) ==> value(s, Measure::ReadTail) == Some(l.2 as u128),
        s.lat_w matches Some(l) ==> value(s, Measure::WriteTail) == Some(l.2 as u128),
        s.lat_r_avg is None ==> value(s, Measure::ReadMean) is None,
        s.lat_w_avg is None ==> value(s, Measure::WriteMean) is None,
        s.lat_r is None ==> value(s, Measure::ReadTail) is None,
        s.lat_w is None ==> value(s, Measure::WriteTail) is None,
{
}

/// A line has one point per sample in the window that has the figure, in the order
/// of the history, at the sample's time and figure.
pub proof fn lines_follow_the_history(
    a: Seq<Sample>,
    b: Seq<Sample>,
    s: Sample,
    measure: Measure,
    x_lo: u64,
)
    ensures
        trace(a + b, measure, x_lo) == trace(a, measure, x_lo) + trace(b, measure, x_lo),
        trace(seq![s], measure, x_lo) == match value(s, measure) {
            Some(y) => if s.t >= x_lo {
                seq![(s.t, y)]
            } else {
                Seq::empty()
            },
            None => Seq::empty(),
        },
    decreases b.len(),
{
    if b.len() == 0 {
        assert(a + b == a);
    } else {
        assert((a + b).drop_last() == a + b.drop_last());
        lines_follow_the_history(a, b.drop_last(), s, measure, x_lo);
    }
    let one = seq![s];
    assert(one.drop_last() == Seq::<Sample>::empty());
    assert(trace(one.drop_last(), measure, x_lo) == Seq::<(u64, u128)>::empty());
}

proof fn lemma_peak_is_reached(points: Seq<(u64, u128)>, floor: u128)
    ensures
        peak(points, floor) == floor || exists|j: int|
            0 <= j < points.len() && (#[trigger] points[j]).1 == peak(points, floor),
    decreases points.len(),
{
    if points.len() > 0 {
        let rest = points.drop_last();
        lemma_peak_is_reached(rest, floor);
        if peak(points, floor) == points.last().1 {
            assert(points[points.len() - 1].1 == peak(points, floor));
        } else if peak(rest, floor) != floor {
            let j = choose|j: int|
                0 <= j < rest.len() && (#[trigger] rest[j]).1 == peak(rest, floor);
            assert(points[j].1 == peak(points, floor));
        }
    }
}

/// The greatest height is no more than is needed: it is that of some point, or the
/// floor.
pub proof fn the_top_is_reached(series: Seq<SeriesModel>, floor: u128)
    ensures
        top(series, floor) == floor || exists|i: int, j: int|
            0 <= i < series.len() && 0 <= j < series[i].points.len()
                && #[trigger] series[i].points[j].1 == top(series, floor),
    decreases series.len(),
{
    if series.len() > 0 {
        let rest = series.drop_last();
        let n = series.len() - 1;
        the_top_is_reached(rest, floor);
        lemma_peak_is_reached(series.last().points, top(rest, floor));
        if top(series, floor) != top(rest, floor) {
            let j = choose|j: int|
                0 <= j < series.last().points.len() && (#[trigger] series.last().points[j]).1
                    == top(series, floor);
            assert(series[n].points[j].1 == top(series, floor));
        } else if top(rest, floor) != floor {
            let (i, j) = choose|i: int, j: int|
                0 <= i < rest.len() && 0 <= j < rest[i].points.len()
                    && #[trigger] rest[i].points[j].1 == top(rest, floor);
            assert(series[i].points[j].1 == top(series, floor));
        }
    }
}

/// A pane has a line per VM in roster order, each in the colour of its VM's slot
/// and from its own samples; the fleet's line, where it is drawn, comes first.
pub proof fn panes_have_a_line_per_vm(
    roster: Seq<VmModel>,
    aggregate: Seq<Sample>,
    drawn: bool,
    measure: Measure,
    theme: Theme,
    x_lo: u64,
    i: int,
)
    requires
        0 <= i < roster.len(),
    ensures
        ({
            let all = lines(roster, aggregate, drawn, measure, theme, x_lo);
            let at = if drawn {
                i + 1
            } else {
                i
            };
            &&& all.len() == roster.len() + (if drawn {
                1int
            } else {
                0
            })
            &&& all[at].hue == theme.slot_hue(roster[i].color_idx)
            &&& all[at].points == trace(roster[i].samples, measure, x_lo)
            &&& drawn ==> all[0].hue == theme.aggregate_hue() && all[0].points == trace(
                aggregate,
                measure,
                x_lo,
            )
        }),
{
}

/// The latency pane has four lines per VM: the mean and the tail of its reads, and
/// the mean and the tail of its writes, the tails and the writes dimmer.
pub proof fn latency_lines_are_means_and_tails(
    roster: Seq<VmModel>,
    theme: Theme,
    x_lo: u64,
    i: int,
)
    requires
        0 <= i < roster.len(),
        4 * roster.len() <= usize::MAX,
    ensures
        ({
            let all = latency_lines(roster, theme, x_lo);
            let vm = roster[i];
            let hue = theme.slot_hue(vm.color_idx);
            &&& all.len() == 4 * roster.len()
            &&& all[4 * i].points == trace(vm.samples, Measure::ReadMean, x_lo)
            &&& all[4 * i + 1].points == trace(vm.samples, Measure::ReadTail, x_lo)
            &&& all[4 * i + 2].points == trace(vm.samples, Measure::WriteMean, x_lo)
            &&& all[4 * i + 3].points == trace(vm.samples, Measure::WriteTail, x_lo)
            &&& all[4 * i].hue == hue
            &&& all[4 * i + 1].hue == dimmed(hue)
            &&& all[4 * i + 2].hue == dimmed(hue)
            &&& all[4 * i + 3].hue == dimmed(dimmed(hue))
        }),
{
    focus_shows_four_latency_lines(roster, theme, x_lo, i as usize, 0);
    lemma_latency_len(roster, theme, x_lo);
    let all = latency_lines(roster, theme, x_lo);
    let own = all.subrange(4 * i, 4 * i + 4);
    assert(own == latency_lines_of(roster[i], theme, x_lo));
    assert(own[0] == all[4 * i]);
    assert(own[1] == all[4 * i + 1]);
    assert(own[2] == all[4 * i + 2]);
    assert(own[3] == all[4 * i + 3]);
}

proof fn lemma_latency_len(roster: Seq<VmModel>, theme: Theme, x_lo: u64)
    ensures
        latency_lines(roster, theme, x_lo).len() == 4 * roster.len(),
    decreases roster.len(),
{
    if roster.len() > 0 {
        lemma_latency_len(roster.drop_last(), theme, x_lo);
    }
}

/// Every marker in the window is drawn, in order, with its time and both counts,
/// at its height or at the cap where that is lower.
pub proof fn markers_are_drawn_one_by_one(
    a: Seq<Annot>,
    b: Seq<Annot>,
    annot: Annot,
    x_lo: u64,
    cap: Option<u128>,
)
    ensures
        markers(a + b, x_lo, cap) == markers(a, x_lo, cap) + markers(b, x_lo, cap),
        annot.t < x_lo ==> markers(seq![annot], x_lo, cap).len() == 0,
        annot.t >= x_lo ==> {
            let drawn = markers(seq![annot], x_lo, cap);
            &&& drawn.len() == 1
            &&& drawn[0].t == annot.t
            &&& drawn[0].old_n == annot.old_n
            &&& drawn[0].new_n == annot.new_n
            &&& cap is None ==> drawn[0].y == annot.y_value
            &&& cap matches Some(limit) ==> drawn[0].y == if annot.y_value <= limit {
                annot.y_value
            } else {
                limit
            }
        },
    decreases b.len(),
{
    if b.len() == 0 {
        assert(a + b == a);
    } else {
        assert((a + b).drop_last() == a + b.drop_last());
        markers_are_drawn_one_by_one(a, b.drop_last(), annot, x_lo, cap);
    }
    let one = seq![annot];
    assert(one.drop_last() == Seq::<Annot>::empty());
    assert(markers(one.drop_last(), x_lo, cap) == Seq::<AnnotPoint>::empty());
}

/// A VM's markers are shown without a focus and with the focus on that VM, in its
/// colour; operations leave their height alone, and bytes cap it so that it stays
/// on screen.
pub proof fn markers_follow_the_focus(
    roster: Seq<VmModel>,
    all: Seq<SeriesModel>,
    offset: int,
    i: int,
    theme: Theme,
    focused: Option<Focus>,
    x_lo: u64,
)
    requires
        0 <= i < roster.len(),
        0 <= offset,
        offset + i < all.len(),
    ensures
        ({
            let ops = vm_markers(
                roster,
                all,
                offset,
                i,
                PerfMetric::Iops,
                theme,
                focused,
                x_lo,
            );
            let bytes = vm_markers(
                roster,
                all,
                offset,
                i,
                PerfMetric::Bandwidth,
                theme,
                focused,
                x_lo,
            );
            let visible = focused is None || focused == Some(Focus::Vm(i as usize));
            &&& i <= usize::MAX ==> {
                &&& !visible ==> ops.points.len() == 0 && bytes.points.len() == 0
                &&& visible ==> ops.points == markers(roster[i].annots, x_lo, None)
                &&& visible ==> bytes.points == markers(
                    roster[i].annots,
                    x_lo,
                    Some(top(all.take(offset + i + 1), 1_000_000)),
                )
            }
            &&& ops.hue == theme.slot_hue(roster[i].color_idx)
            &&& bytes.hue == theme.slot_hue(roster[i].color_idx)
        }),
{
}

/// Each pane plots its own figure of the tracked VMs and of the fleet.
pub proof fn panes_plot_their_figure(
    ui: UiState,
    fleet: Fleet,
    x_lo: u64,
    cpu: Plot,
    depth: Plot,
    per_iop: Plot,
    i: int,
)
    requires
        fleet.vms@.len() < usize::MAX,
        0 <= i < fleet.vms@.len(),
        call_ensures(cpu_plot, (&ui, &fleet, x_lo), cpu),
        call_ensures(qd_plot, (&ui, &fleet, x_lo), depth),
        call_ensures(cpu_per_iop_plot, (&ui, &fleet, x_lo), per_iop),
    ensures
        ({
            let several = fleet.vms@.len() >= 2;
            let at = if several {
                i + 1
            } else {
                i
            };
            let own = fleet.vms@[i].samples@;
            &&& series_models(cpu.series@)[at].points == trace(own, Measure::Cpu, x_lo)
            &&& series_models(depth.series@)[at].points == trace(own, Measure::Depth, x_lo)
            &&& series_models(per_iop.series@)[at].points == trace(own, Measure::PerIop, x_lo)
            &&& several ==> {
                &&& series_models(cpu.series@)[0].points == trace(
                    fleet.aggregate@,
                    Measure::Cpu,
                    x_lo,
                )
                &&& series_models(depth.series@)[0].points == trace(
                    fleet.aggregate@,
                    Measure::Depth,
                    x_lo,
                )
                &&& series_models(per_iop.series@)[0].points == trace(
                    fleet.aggregate@,
                    Measure::PerIop,
                    x_lo,
                )
            }
            &&& cpu.annots@.len() == 0 && depth.annots@.len() == 0 && per_iop.annots@.len() == 0
        }),
{
    let theme = Theme::nth(ui.theme_idx);
    let several = fleet.vms@.len() >= 2;
    let roster = fleet.roster();
    assert(roster[i] == fleet.vms@[i]@);
    panes_have_a_line_per_vm(roster, fleet.aggregate@, several, Measure::Cpu, theme, x_lo, i);
    panes_have_a_line_per_vm(roster, fleet.aggregate@, several, Measure::Depth, theme, x_lo, i);
    panes_have_a_line_per_vm(roster, fleet.aggregate@, several, Measure::PerIop, theme, x_lo, i);
}

/// The perf pane plots operations or bytes, whichever the operator chose, and the
/// fleet's line once it has samples.
pub proof fn the_perf_pane_plots_the_chosen_metric(
    ui: UiState,
    fleet: Fleet,
    x_lo: u64,
    plot: Plot,
    i: int,
)
    requires
        fleet.vms@.len() < usize::MAX,
        0 <= i < fleet.vms@.len(),
        call_ensures(perf_plot, (&ui, &fleet, x_lo), plot),
    ensures
        ({
            let drawn = fleet.vms@.len() >= 2 && fleet.aggregate@.len() > 0;
            let measure = if ui.perf_metric == PerfMetric::Iops {
                Measure::Iops
            } else {
                Measure::Bandwidth
            };
            let at = if drawn {
                i + 1
            } else {
                i
            };
            let all = series_models(plot.series@);
            &&& all.len() == fleet.vms@.len() + (if drawn {
                1int
            } else {
                0
            })
            &&& all[at].points == trace(fleet.vms@[i].samples@, measure, x_lo)
            &&& drawn ==> all[0].points == trace(fleet.aggregate@, measure, x_lo)
            &&& plot.annots@.len() == fleet.vms@.len()
        }),
{
    let drawn = fleet.vms@.len() >= 2 && fleet.aggregate@.len() > 0;
    let theme = Theme::nth(ui.theme_idx);
    assert(fleet.roster()[i] == fleet.vms@[i]@);
    panes_have_a_line_per_vm(
        fleet.roster(),
        fleet.aggregate@,
        drawn,
        perf_measure(ui.perf_metric),
        theme,
        x_lo,
        i,
    );
    assert(annot_models(plot.annots@).len() == plot.annots@.len());
}

/// No axis collapses: every pane starts at one of its unit.
pub proof fn heights_start_at_one_unit()
    ensures
        floor_of(Measure::Iops) == 1,
        floor_of(Measure::Bandwidth) == 1_000_000,
        floor_of(Measure::Cpu) == 0x20_0000_0000_0000,
        floor_of(Measure::Depth) == 1,
        floor_of(Measure::PerIop) == 0x20_0000_0000_0000,
{
}

/// The latency pane has four lines per VM, in roster order: means and tails of reads
/// and writes.
pub proof fn the_latency_pane_has_four_lines_per_vm(
    ui: UiState,
    fleet: Fleet,
    x_lo: u64,
    plot: Plot,
    i: int,
)
    requires
        4 * fleet.vms@.len() <= usize::MAX,
        0 <= i < fleet.vms@.len(),
        call_ensures(latency_plot, (&ui, &fleet, x_lo), plot),
    ensures
        ({
            let drawn = series_models(plot.series@);
            let own = fleet.vms@[i].samples@;
            &&& drawn.len() == 4 * fleet.vms@.len()
            &&& drawn[4 * i].points == trace(own, Measure::ReadMean, x_lo)
            &&& drawn[4 * i + 1].points == trace(own, Measure::ReadTail, x_lo)
            &&& drawn[4 * i + 2].points == trace(own, Measure::WriteMean, x_lo)
            &&& drawn[4 * i + 3].points == trace(own, Measure::WriteTail, x_lo)
            &&& plot.annots@.len() == 0
        }),
{
    let theme = Theme::nth(ui.theme_idx);
    assert(fleet.roster()[i] == fleet.vms@[i]@);
    lemma_latency_lines_at(fleet.roster(), theme, x_lo, i);
    let own = latency_lines_of(fleet.roster()[i], theme, x_lo);
    let drawn = series_models(plot.series@);
    assert(drawn[4 * i + 0] == own[0]);
    assert(drawn[4 * i + 1] == own[1]);
    assert(drawn[4 * i + 2] == own[2]);
    assert(drawn[4 * i + 3] == own[3]);
}

proof fn lemma_latency_lines_at(roster: Seq<VmModel>, theme: Theme, x_lo: u64, i: int)
    requires
        0 <= i < roster.len(),
    ensures
        latency_lines(roster, theme, x_lo).len() == 4 * roster.len(),
        forall|k: int|
            0 <= k < 4 ==> latency_lines(roster, theme, x_lo)[4 * i + k]
                == #[trigger] latency_lines_of(roster[i], theme, x_lo)[k],
    decreases roster.len(),
{
    let rest = roster.drop_last();
    let shorter = latency_lines(rest, theme, x_lo);
    let last = latency_lines_of(roster.last(), theme, x_lo);
    if rest.len() == 0 {
        assert(shorter.len() == 0);
    } else if i < rest.len() {
        lemma_latency_lines_at(rest, theme, x_lo, i);
    } else {
        lemma_latency_lines_at(rest, theme, x_lo, 0);
    }
    assert(latency_lines(roster, theme, x_lo) == shorter + last);
    assert(last.len() == 4);
    if i < rest.len() {
        assert(rest[i] == roster[i]);
    }
}

} // verus!
