//! The table under the plots: one row per VM, and one for the fleet as a whole
//! when there are at least two.
use vstd::prelude::*;
use vstd::string::*;

use crate::sums::{at_most, sum, sums_grow_by_what_is_appended};
use crate::text::{decimal, decimal_text};
use crate::tui::feed::{blank_status, capped_total, cpu_us_per_iop, us_per_iop, LatestStatus};
use crate::tui::labels::{
    fmt_lat, fmt_qd_total, fmt_triple, id_text, lat_text, shorten_id, triple,
    DashColumn,
};
use crate::tui::roster::{capped_threads, Fleet, VmModel, VmState};
use crate::tui::theme::{Hue, Theme};
use crate::tui::ui::{shown_columns, Focus, UiState};

verus! {

/// What a cell shows. Figures that are rounded for display are given exactly.
#[derive(Debug)]
pub enum DashCell {
    /// A text.
    Text(String),
    /// Reads, writes and other operations per second.
    Iops(u128, u128, u128),
    /// Bytes read and written per second.
    Bandwidth(u128, u128),
    /// CPU time of the pool per second.
    CpuTotal(u128),
    /// CPU time per operation; none on an idle tick.
    UsPerIop(Option<u128>),
    /// Average depth in hundredths, median and total.
    Depths(u64, u64, u64),
}

/// What a cell says.
pub enum CellModel {
    /// A text.
    Text(Seq<char>),
    /// Reads, writes and other operations per second.
    Iops(u128, u128, u128),
    /// Bytes read and written per second.
    Bandwidth(u128, u128),
    /// CPU time of the pool per second.
    CpuTotal(u128),
    /// CPU time per operation; none on an idle tick.
    UsPerIop(Option<u128>),
    /// Average depth in hundredths, median and total.
    Depths(u64, u64, u64),
}

impl View for DashCell {
    type V = CellModel;

    open spec fn view(&self) -> CellModel {
        match self {
            DashCell::Text(text) => CellModel::Text(text@),
            DashCell::Iops(r, w, o) => CellModel::Iops(*r, *w, *o),
            DashCell::Bandwidth(r, w) => CellModel::Bandwidth(*r, *w),
            DashCell::CpuTotal(cpu) => CellModel::CpuTotal(*cpu),
            DashCell::UsPerIop(us) => CellModel::UsPerIop(*us),
            DashCell::Depths(avg, median, total) => CellModel::Depths(*avg, *median, *total),
        }
    }
}

/// The cell of a column for a status. The id is filled in elsewhere; a worker
/// count under a manual override carries a `*`; figures that the backend does not
/// report show as `-`.
pub open spec fn cell(column: DashColumn, s: LatestStatus) -> CellModel {
    match column {
        DashColumn::Id => CellModel::Text(""@),
        DashColumn::Threads => CellModel::Text(
            if s.sticky {
                decimal(s.thread_count as nat) + "*"@
            } else {
                decimal(s.thread_count as nat)
            },
        ),
        DashColumn::Iops => CellModel::Iops(s.iops_r, s.iops_w, s.iops_o),
        DashColumn::Bandwidth => CellModel::Bandwidth(s.bw_r, s.bw_w),
        DashColumn::Cpu => match (s.cpu_pct_avg, s.cpu_pct_median, s.cpu_pct_total) {
            (Some(avg), Some(median), Some(total)) => CellModel::Text(triple(avg, median, total)),
            _ => CellModel::CpuTotal(s.cpu),
        },
        DashColumn::UsPerIop => CellModel::UsPerIop(s.cpu_us_per_iop),
        DashColumn::LatRead => CellModel::Text(lat_text(s.lat_r_us)),
        DashColumn::LatWrite => CellModel::Text(lat_text(s.lat_w_us)),
        DashColumn::QueueDepth => match (s.qd_avg_x100, s.qd_median, s.qd_total) {
            (Some(avg), Some(median), Some(total)) => CellModel::Depths(avg, median, total),
            _ => CellModel::Text("-"@),
        },
        DashColumn::NumQueues => CellModel::Text(
            match s.num_queues {
                Some(n) => decimal(n as nat),
                None => "-"@,
            },
        ),
    }
}

/// Fill one dashboard cell.
pub fn dashboard_cell(column: DashColumn, s: &LatestStatus) -> (r: DashCell)
    ensures
        r@ == cell(column, *s),
{
    match column {
        DashColumn::Id => DashCell::Text("".to_owned()),
        DashColumn::Threads => {
            let count = decimal_text(s.thread_count as u128);
            if s.sticky {
                DashCell::Text(count.concat("*"))
            } else {
                DashCell::Text(count)
            }
        },
        DashColumn::Iops => DashCell::Iops(s.iops_r, s.iops_w, s.iops_o),
        DashColumn::Bandwidth => DashCell::Bandwidth(s.bw_r, s.bw_w),
        DashColumn::Cpu => match (s.cpu_pct_avg, s.cpu_pct_median, s.cpu_pct_total) {
            (Some(avg), Some(median), Some(total)) => DashCell::Text(
                fmt_triple(avg, median, total),
            ),
            _ => DashCell::CpuTotal(s.cpu),
        },
        DashColumn::UsPerIop => DashCell::UsPerIop(s.cpu_us_per_iop),
        DashColumn::LatRead => DashCell::Text(fmt_lat(s.lat_r_us)),
        DashColumn::LatWrite => DashCell::Text(fmt_lat(s.lat_w_us)),
        DashColumn::QueueDepth => match (s.qd_avg_x100, s.qd_median, s.qd_total) {
            (Some(avg), Some(median), Some(total)) => DashCell::Depths(avg, median, total),
            _ => DashCell::Text("-".to_owned()),
        },
        DashColumn::NumQueues => match s.num_queues {
            Some(n) => DashCell::Text(decimal_text(n as u128)),
            None => DashCell::Text("-".to_owned()),
        },
    }
}

/// A row of the table.
#[derive(Debug)]
pub struct DashRow {
    /// Its cells, one per visible column.
    pub cells: Vec<DashCell>,
    /// Its colour.
    pub hue: Hue,
    /// Whether it is focused.
    pub focused: bool,
    /// Whether it is dimmed.
    pub dim: bool,
    /// Whether it is bold.
    pub bold: bool,
}

/// What a row says.
#[verifier::ext_equal]
pub struct RowModel {
    /// Its cells.
    pub cells: Seq<CellModel>,
    /// Its colour.
    pub hue: Hue,
    /// Whether it is focused.
    pub focused: bool,
    /// Whether it is dimmed.
    pub dim: bool,
    /// Whether it is bold.
    pub bold: bool,
}

impl View for DashRow {
    type V = RowModel;

    open spec fn view(&self) -> RowModel {
        RowModel {
            cells: cell_models(self.cells@),
            hue: self.hue,
            focused: self.focused,
            dim: self.dim,
            bold: self.bold,
        }
    }
}

/// The models of a list of cells.
pub open spec fn cell_models(cells: Seq<DashCell>) -> Seq<CellModel> {
    cells.map_values(|c: DashCell| c@)
}

/// The models of a list of rows.
pub open spec fn row_models(rows: Seq<DashRow>) -> Seq<RowModel> {
    rows.map_values(|row: DashRow| row@)
}

/// The cell of a column for one VM.
pub open spec fn vm_cell(column: DashColumn, vm: VmModel) -> CellModel {
    if column is Id {
        CellModel::Text(id_text(vm.id, vm.vcpu_count))
    } else {
        cell(column, vm.status)
    }
}

/// The row of one VM: in its colour, and dimmed when the daemon's last refresh
/// of it failed.
pub open spec fn vm_row(
    vm: VmModel,
    i: int,
    columns: Seq<DashColumn>,
    theme: Theme,
    focused: Option<Focus>,
) -> RowModel {
    RowModel {
        cells: columns.map_values(|column: DashColumn| vm_cell(column, vm)),
        hue: theme.slot_hue(vm.color_idx),
        focused: focused matches Some(Focus::Vm(at)) && at == i,
        dim: !vm.status.alive,
        bold: false,
    }
}

/// The depth of a status; none counts as nothing.
pub open spec fn depth(s: LatestStatus) -> u64 {
    match s.qd_total {
        Some(d) => d,
        None => 0,
    }
}

/// A fleet status with one VM more.
pub open spec fn with_status(total: LatestStatus, s: LatestStatus) -> LatestStatus {
    LatestStatus {
        thread_count: capped_threads(total.thread_count, s.thread_count),
        iops_r: capped_total(total.iops_r, s.iops_r),
        iops_w: capped_total(total.iops_w, s.iops_w),
        iops_o: capped_total(total.iops_o, s.iops_o),
        bw_r: capped_total(total.bw_r, s.bw_r),
        bw_w: capped_total(total.bw_w, s.bw_w),
        cpu: capped_total(total.cpu, s.cpu),
        qd_total: match (total.qd_total, s.qd_total) {
            (None, None) => None,
            _ => Some(crate::cpu::capped_sum(depth(total), depth(s))),
        },
        ..total
    }
}

/// The status of the fleet: what can be summed over its VMs.
pub open spec fn fleet_status(roster: Seq<VmModel>) -> LatestStatus
    decreases roster.len(),
{
    if roster.len() == 0 {
        blank_status()
    } else {
        with_status(fleet_status(roster.drop_last()), roster.last().status)
    }
}

/// The status of the fleet with its CPU time per operation, which follows from
/// the totals.
pub open spec fn total_status(roster: Seq<VmModel>) -> LatestStatus {
    let total = fleet_status(roster);
    LatestStatus {
        cpu_us_per_iop: us_per_iop(
            total.cpu,
            capped_total(capped_total(total.iops_r, total.iops_w), total.iops_o),
        ),
        ..total
    }
}

/// The cell of a column for the fleet. Latencies and queue counts cannot be
/// summed.
pub open spec fn total_cell(column: DashColumn, total: LatestStatus) -> CellModel {
    match column {
        DashColumn::Id => CellModel::Text("TOTAL"@),
        DashColumn::LatRead => CellModel::Text("-"@),
        DashColumn::LatWrite => CellModel::Text("-"@),
        DashColumn::QueueDepth => CellModel::Text(
            match total.qd_total {
                Some(t) => "-/-/"@ + decimal(t as nat),
                None => "-"@,
            },
        ),
        DashColumn::NumQueues => CellModel::Text("-"@),
        other => cell(other, total),
    }
}

/// The row of the fleet as a whole.
pub open spec fn total_row(
    roster: Seq<VmModel>,
    columns: Seq<DashColumn>,
    theme: Theme,
    focused: Option<Focus>,
) -> RowModel {
    RowModel {
        cells: columns.map_values(|column: DashColumn| total_cell(column, total_status(roster))),
        hue: theme.aggregate_hue(),
        focused: focused == Some(Focus::Total),
        dim: false,
        bold: true,
    }
}

/// All rows: the VMs in roster order, then the fleet when there are at least two.
pub open spec fn rows_of(
    roster: Seq<VmModel>,
    columns: Seq<DashColumn>,
    theme: Theme,
    focused: Option<Focus>,
) -> Seq<RowModel> {
    Seq::new(roster.len(), |i: int| vm_row(roster[i], i, columns, theme, focused)) + (
    if roster.len() >= 2 {
        seq![total_row(roster, columns, theme, focused)]
    } else {
        Seq::empty()
    })
}

/// The cells of one VM.
fn vm_cells(vm: &VmState, columns: &Vec<DashColumn>) -> (r: Vec<DashCell>)
    ensures
        cell_models(r@) == columns@.map_values(|column: DashColumn| vm_cell(column, vm@)),
{
    let mut out: Vec<DashCell> = Vec::new();
    let ghost all = columns@.map_values(|column: DashColumn| vm_cell(column, vm@));
    let mut i: usize = 0;
    assert(cell_models(out@) == all.take(0));
    while i < columns.len()
        invariant
            i <= columns@.len(),
            all == columns@.map_values(|column: DashColumn| vm_cell(column, vm@)),
            cell_models(out@) == all.take(i as int),
        decreases columns@.len() - i,
    {
        let column: DashColumn = columns[i];
        let entry = if column == DashColumn::Id {
            DashCell::Text(shorten_id(vm.id.as_str(), vm.vcpu_count))
        } else {
            dashboard_cell(column, &vm.status)
        };
        let ghost before = cell_models(out@);
        let ghost model = entry@;
        out.push(entry);
        proof {
            assert(all[i as int] == model);
            assert(cell_models(out@) == before.push(model));
            assert(all.take(i + 1) == all.take(i as int).push(model));
        }
        i += 1;
    }
    assert(all.take(columns@.len() as int) == all);
    out
}

/// The cells of the fleet.
fn total_cells(total: &LatestStatus, columns: &Vec<DashColumn>) -> (r: Vec<DashCell>)
    ensures
        cell_models(r@) == columns@.map_values(|column: DashColumn| total_cell(column, *total)),
{
    let mut out: Vec<DashCell> = Vec::new();
    let ghost all = columns@.map_values(|column: DashColumn| total_cell(column, *total));
    let mut i: usize = 0;
    assert(cell_models(out@) == all.take(0));
    while i < columns.len()
        invariant
            i <= columns@.len(),
            all == columns@.map_values(|column: DashColumn| total_cell(column, *total)),
            cell_models(out@) == all.take(i as int),
        decreases columns@.len() - i,
    {
        let column: DashColumn = columns[i];
        let entry = match column {
            DashColumn::Id => DashCell::Text("TOTAL".to_owned()),
            DashColumn::LatRead => DashCell::Text("-".to_owned()),
            DashColumn::LatWrite => DashCell::Text("-".to_owned()),
            DashColumn::QueueDepth => DashCell::Text(fmt_qd_total(total.qd_total)),
            DashColumn::NumQueues => DashCell::Text("-".to_owned()),
            other => dashboard_cell(other, total),
        };
        let ghost before = cell_models(out@);
        let ghost model = entry@;
        out.push(entry);
        proof {
            assert(all[i as int] == model);
            assert(cell_models(out@) == before.push(model));
            assert(all.take(i + 1) == all.take(i as int).push(model));
        }
        i += 1;
    }
    assert(all.take(columns@.len() as int) == all);
    out
}

/// Sum the statuses of the VMs.
fn sum_statuses(fleet: &Fleet) -> (r: LatestStatus)
    ensures
        r == total_status(fleet.roster()),
{
    let ghost roster = fleet.roster();
    let mut total = LatestStatus::default();
    let mut i: usize = 0;
    assert(roster.take(0).len() == 0);
    while i < fleet.vms.len()
        invariant
            i <= fleet.vms@.len(),
            roster == fleet.roster(),
            total == fleet_status(roster.take(i as int)),
        decreases fleet.vms@.len() - i,
    {
        let s: LatestStatus = fleet.vms[i].status;
        proof {
            assert(roster.take(i + 1).drop_last() == roster.take(i as int));
            assert(roster.take(i + 1).last() == fleet.vms@[i as int]@);
        }
        total.thread_count = total.thread_count.saturating_add(s.thread_count);
        total.iops_r = total.iops_r.saturating_add(s.iops_r);
        total.iops_w = total.iops_w.saturating_add(s.iops_w);
        total.iops_o = total.iops_o.saturating_add(s.iops_o);
        total.bw_r = total.bw_r.saturating_add(s.bw_r);
        total.bw_w = total.bw_w.saturating_add(s.bw_w);
        total.cpu = total.cpu.saturating_add(s.cpu);
        total.qd_total =
        match (total.qd_total, s.qd_total) {
            (None, None) => None,
            (Some(so_far), None) => Some(so_far),
            (None, Some(here)) => Some(here),
            (Some(so_far), Some(here)) => Some(so_far.saturating_add(here)),
        };
        i += 1;
    }
    assert(roster.take(fleet.vms@.len() as int) == roster);
    let iops: u128 = total.iops_r.saturating_add(total.iops_w).saturating_add(total.iops_o);
    total.cpu_us_per_iop = cpu_us_per_iop(total.cpu, iops);
    total
}

/// The rows of the dashboard.
pub fn dashboard_rows(ui: &UiState, fleet: &Fleet) -> (r: Vec<DashRow>)
    ensures
        row_models(r@) == rows_of(
            fleet.roster(),
            shown_columns(ui.columns),
            Theme::nth(ui.theme_idx),
            ui.focused,
        ),
{
    let columns = ui.visible_columns();
    let theme: Theme = ui.theme();
    let ghost roster = fleet.roster();
    let mut rows: Vec<DashRow> = Vec::new();
    let mut i: usize = 0;
    assert(row_models(rows@) == Seq::new(
        0,
        |j: int| vm_row(roster[j], j, columns@, theme, ui.focused),
    ));
    while i < fleet.vms.len()
        invariant
            i <= fleet.vms@.len(),
            roster == fleet.roster(),
            row_models(rows@) == Seq::new(
                i as nat,
                |j: int| vm_row(roster[j], j, columns@, theme, ui.focused),
            ),
        decreases fleet.vms@.len() - i,
    {
        let vm = &fleet.vms[i];
        let focused: bool = match ui.focused {
            Some(Focus::Vm(at)) => at == i,
            _ => false,
        };
        let row = DashRow {
            cells: vm_cells(vm, &columns),
            hue: theme.vm_color(vm.color_idx),
            focused,
            dim: !vm.status.alive,
            bold: false,
        };
        let ghost before = row_models(rows@);
        let ghost model = row@;
        rows.push(row);
        proof {
            assert(roster[i as int] == vm@);
            assert(model == vm_row(roster[i as int], i as int, columns@, theme, ui.focused));
            assert(row_models(rows@) == before.push(model));
            assert(row_models(rows@) == Seq::new(
                (i + 1) as nat,
                |j: int| vm_row(roster[j], j, columns@, theme, ui.focused),
            ));
        }
        i += 1;
    }
    if fleet.vms.len() >= 2 {
        let total: LatestStatus = sum_statuses(fleet);
        let row = DashRow {
            cells: total_cells(&total, &columns),
            hue: theme.aggregate(),
            focused: ui.focused == Some(Focus::Total),
            dim: false,
            bold: true,
        };
        let ghost before = row_models(rows@);
        let ghost model = row@;
        rows.push(row);
        proof {
            assert(model == total_row(roster, columns@, theme, ui.focused));
            assert(row_models(rows@) == before.push(model));
        }
    }
    assert(row_models(rows@) =~= rows_of(roster, columns@, theme, ui.focused));
    rows
}

/// There is one row per VM, and one more exactly when there are at least two.
pub proof fn the_fleet_has_a_row_of_its_own(
    roster: Seq<VmModel>,
    columns: Seq<DashColumn>,
    theme: Theme,
    focused: Option<Focus>,
)
    ensures
        rows_of(roster, columns, theme, focused).len() == roster.len() + (if roster.len() >= 2 {
            1int
        } else {
            0
        }),
{
}

/// Every row has one cell per visible column.
pub proof fn rows_fill_the_columns(
    roster: Seq<VmModel>,
    columns: Seq<DashColumn>,
    theme: Theme,
    focused: Option<Focus>,
    i: int,
)
    requires
        0 <= i < rows_of(roster, columns, theme, focused).len(),
    ensures
        rows_of(roster, columns, theme, focused)[i].cells.len() == columns.len(),
{
}

proof fn lemma_depths_are_known_by_vm(roster: Seq<VmModel>)
    ensures
        fleet_status(roster).qd_total is None <==> forall|i: int|
            0 <= i < roster.len() ==> (#[trigger] roster[i]).status.qd_total is None,
    decreases roster.len(),
{
    if roster.len() > 0 {
        let rest = roster.drop_last();
        lemma_depths_are_known_by_vm(rest);
        assert forall|i: int|
            0 <= i < rest.len() implies (#[trigger] rest[i]) == roster[i] by {}
        if fleet_status(roster).qd_total is None {
            assert forall|i: int| 0 <= i < roster.len() implies (
            #[trigger] roster[i]).status.qd_total is None by {
                if i < rest.len() {
                    assert(rest[i].status.qd_total is None);
                }
            }
        } else if roster.last().status.qd_total is None {
            let i = choose|i: int|
                0 <= i < rest.len() && !((#[trigger] rest[i]).status.qd_total is None);
            assert(roster[i].status.qd_total is Some);
        } else {
            assert(roster[roster.len() - 1].status.qd_total is Some);
        }
    }
}

/// A depth that no VM reports shows as `-` in the fleet's row too, and only then.
pub proof fn unknown_depths_are_no_zeros(roster: Seq<VmModel>)
    ensures
        total_cell(DashColumn::QueueDepth, total_status(roster)) == CellModel::Text("-"@)
            <==> forall|i: int|
            0 <= i < roster.len() ==> (#[trigger] roster[i]).status.qd_total is None,
{
    lemma_depths_are_known_by_vm(roster);
    reveal_strlit("-");
    reveal_strlit("-/-/");
    if let Some(t) = total_status(roster).qd_total {
        assert(("-/-/"@ + decimal(t as nat)).len() >= 4);
        assert("-"@.len() == 1);
    }
}

/// A figure of every VM of a roster.
pub open spec fn figures(roster: Seq<VmModel>, figure: spec_fn(LatestStatus) -> nat) -> Seq<nat> {
    roster.map_values(|vm: VmModel| figure(vm.status))
}

proof fn lemma_figures(roster: Seq<VmModel>, figure: spec_fn(LatestStatus) -> nat)
    ensures
        roster.len() == 0 ==> sum(figures(roster, figure)) == 0,
        roster.len() > 0 ==> sum(figures(roster, figure)) == sum(
            figures(roster.drop_last(), figure),
        ) + figure(roster.last().status),
{
    if roster.len() > 0 {
        let rest = figures(roster.drop_last(), figure);
        assert(figures(roster, figure) == rest.push(figure(roster.last().status)));
        sums_grow_by_what_is_appended(rest, figure(roster.last().status));
    } else {
        assert(figures(roster, figure) == Seq::<nat>::empty());
        sums_grow_by_what_is_appended(Seq::empty(), 0);
    }
}

/// The figures of the fleet's row are the sums of its VMs' own figures, each as far
/// as it can be counted; its CPU time per operation follows from the sums.
pub proof fn totals_are_the_sums_of_the_vms(roster: Seq<VmModel>)
    ensures
        ({
            let total = total_status(roster);
            &&& total.thread_count == at_most(
                sum(figures(roster, |s: LatestStatus| s.thread_count as nat)),
                u32::MAX as nat,
            )
            &&& total.iops_r == at_most(
                sum(figures(roster, |s: LatestStatus| s.iops_r as nat)),
                u128::MAX as nat,
            )
            &&& total.iops_w == at_most(
                sum(figures(roster, |s: LatestStatus| s.iops_w as nat)),
                u128::MAX as nat,
            )
            &&& total.iops_o == at_most(
                sum(figures(roster, |s: LatestStatus| s.iops_o as nat)),
                u128::MAX as nat,
            )
            &&& total.bw_r == at_most(
                sum(figures(roster, |s: LatestStatus| s.bw_r as nat)),
                u128::MAX as nat,
            )
            &&& total.bw_w == at_most(
                sum(figures(roster, |s: LatestStatus| s.bw_w as nat)),
                u128::MAX as nat,
            )
            &&& total.cpu == at_most(
                sum(figures(roster, |s: LatestStatus| s.cpu as nat)),
                u128::MAX as nat,
            )
            &&& total.qd_total matches Some(depth) ==> depth == at_most(
                sum(
                    figures(
                        roster,
                        |s: LatestStatus|
                            match s.qd_total {
                                Some(d) => d as nat,
                                None => 0,
                            },
                    ),
                ),
                u64::MAX as nat,
            )
            &&& total.cpu_us_per_iop == us_per_iop(
                total.cpu,
                at_most((total.iops_r + total.iops_w + total.iops_o) as nat, u128::MAX as nat)
                    as u128,
            )
            &&& !total.sticky
            &&& total.cpu_pct_avg is None && total.cpu_pct_median is None && total.cpu_pct_total
                is None
        }),
    decreases roster.len(),
{
    let depths = |s: LatestStatus|
        match s.qd_total {
            Some(d) => d as nat,
            None => 0,
        };
    lemma_figures(roster, |s: LatestStatus| s.thread_count as nat);
    lemma_figures(roster, |s: LatestStatus| s.iops_r as nat);
    lemma_figures(roster, |s: LatestStatus| s.iops_w as nat);
    lemma_figures(roster, |s: LatestStatus| s.iops_o as nat);
    lemma_figures(roster, |s: LatestStatus| s.bw_r as nat);
    lemma_figures(roster, |s: LatestStatus| s.bw_w as nat);
    lemma_figures(roster, |s: LatestStatus| s.cpu as nat);
    lemma_figures(roster, depths);
    if roster.len() > 0 {
        let rest = roster.drop_last();
        totals_are_the_sums_of_the_vms(rest);
        lemma_depths_are_known_by_vm(rest);
        if total_status(rest).qd_total is None {
            lemma_no_depths(rest, depths);
        }
    }
}

proof fn lemma_no_depths(roster: Seq<VmModel>, depths: spec_fn(LatestStatus) -> nat)
    requires
        depths == (|s: LatestStatus|
            match s.qd_total {
                Some(d) => d as nat,
                None => 0,
            }),
        forall|i: int| 0 <= i < roster.len() ==> (#[trigger] roster[i]).status.qd_total is None,
    ensures
        sum(figures(roster, depths)) == 0,
    decreases roster.len(),
{
    lemma_figures(roster, depths);
    if roster.len() > 0 {
        let rest = roster.drop_last();
        assert forall|i: int| 0 <= i < rest.len() implies (
        #[trigger] rest[i]).status.qd_total is None by {
            assert(rest[i] == roster[i]);
        }
        assert(roster[roster.len() - 1].status.qd_total is None);
        lemma_no_depths(rest, depths);
    }
}

/// The figures of the fleet's row are at least those of every single VM.
pub proof fn totals_cover_every_vm(roster: Seq<VmModel>, i: int)
    requires
        0 <= i < roster.len(),
    ensures
        ({
            let total = total_status(roster);
            let own = roster[i].status;
            &&& own.thread_count <= total.thread_count
            &&& own.iops_r <= total.iops_r
            &&& own.iops_w <= total.iops_w
            &&& own.iops_o <= total.iops_o
            &&& own.bw_r <= total.bw_r
            &&& own.bw_w <= total.bw_w
            &&& own.cpu <= total.cpu
            &&& own.qd_total matches Some(depth) ==> total.qd_total matches Some(all) && depth
                <= all
        }),
    decreases roster.len(),
{
    if i < roster.len() - 1 {
        assert(roster.drop_last()[i] == roster[i]);
        totals_cover_every_vm(roster.drop_last(), i);
    }
}

/// Each cell shows the figures of its own column.
pub proof fn cells_show_their_column(s: LatestStatus)
    ensures
        cell(DashColumn::Threads, s) == CellModel::Text(
            decimal(s.thread_count as nat) + (if s.sticky {
                seq!['*']
            } else {
                Seq::empty()
            }),
        ),
        cell(DashColumn::Iops, s) == CellModel::Iops(s.iops_r, s.iops_w, s.iops_o),
        cell(DashColumn::Bandwidth, s) == CellModel::Bandwidth(s.bw_r, s.bw_w),
        s.cpu_pct_avg matches Some(avg) ==> (s.cpu_pct_median matches Some(median) ==> (
        s.cpu_pct_total matches Some(total) ==> cell(DashColumn::Cpu, s) == CellModel::Text(
            decimal(avg as nat) + seq!['/'] + decimal(median as nat) + seq!['/'] + decimal(
                total as nat,
            ),
        ))),
        s.cpu_pct_avg is None || s.cpu_pct_median is None || s.cpu_pct_total is None ==> cell(
            DashColumn::Cpu,
            s,
        ) == CellModel::CpuTotal(s.cpu),
        cell(DashColumn::UsPerIop, s) == CellModel::UsPerIop(s.cpu_us_per_iop),
        s.lat_r_us matches Some((p50, p95, p99)) ==> cell(DashColumn::LatRead, s)
            == CellModel::Text(
            decimal(p50 as nat) + seq!['/'] + decimal(p95 as nat) + seq!['/'] + decimal(p99 as nat),
        ),
        s.lat_w_us matches Some((p50, p95, p99)) ==> cell(DashColumn::LatWrite, s)
            == CellModel::Text(
            decimal(p50 as nat) + seq!['/'] + decimal(p95 as nat) + seq!['/'] + decimal(p99 as nat),
        ),
        s.lat_r_us is None ==> cell(DashColumn::LatRead, s) == CellModel::Text(
            seq!['-', '/', '-', '/', '-'],
        ),
        s.lat_w_us is None ==> cell(DashColumn::LatWrite, s) == CellModel::Text(
            seq!['-', '/', '-', '/', '-'],
        ),
        s.qd_avg_x100 matches Some(avg) ==> (s.qd_median matches Some(median) ==> (
        s.qd_total matches Some(total) ==> cell(DashColumn::QueueDepth, s) == CellModel::Depths(
            avg,
            median,
            total,
        ))),
        s.qd_avg_x100 is None || s.qd_median is None || s.qd_total is None ==> cell(
            DashColumn::QueueDepth,
            s,
        ) == CellModel::Text(seq!['-']),
        s.num_queues matches Some(n) ==> cell(DashColumn::NumQueues, s) == CellModel::Text(
            decimal(n as nat),
        ),
        s.num_queues is None ==> cell(DashColumn::NumQueues, s) == CellModel::Text(seq!['-']),
{
    reveal_strlit("*");
    reveal_strlit("/");
    reveal_strlit("-");
    reveal_strlit("-/-/-");
    assert("*"@ =~= seq!['*']);
    assert("/"@ =~= seq!['/']);
    assert("-"@ =~= seq!['-']);
    assert("-/-/-"@ =~= seq!['-', '/', '-', '/', '-']);
    assert(decimal(s.thread_count as nat) + Seq::<char>::empty() =~= decimal(
        s.thread_count as nat,
    ));
}

/// The row of a VM shows that VM: its id and its own status, in the colour of its
/// slot, reversed when it has the focus and dimmed when it is not alive.
pub proof fn rows_show_their_vm(
    roster: Seq<VmModel>,
    columns: Seq<DashColumn>,
    theme: Theme,
    focused: Option<Focus>,
    i: int,
    k: int,
)
    requires
        0 <= i < roster.len(),
        0 <= k < columns.len(),
    ensures
        ({
            let row = rows_of(roster, columns, theme, focused)[i];
            &&& columns[k] == DashColumn::Id ==> row.cells[k] == CellModel::Text(
                id_text(roster[i].id, roster[i].vcpu_count),
            )
            &&& columns[k] != DashColumn::Id ==> row.cells[k] == cell(
                columns[k],
                roster[i].status,
            )
            &&& row.hue == theme.slot_hue(roster[i].color_idx)
            &&& row.focused <==> (focused matches Some(Focus::Vm(at)) && at == i)
            &&& row.dim <==> !roster[i].status.alive
            &&& !row.bold
        }),
{
}

/// The row of the fleet comes last; it shows the totals, and a dash where nothing
/// can be summed.
pub proof fn the_last_row_shows_the_totals(
    roster: Seq<VmModel>,
    columns: Seq<DashColumn>,
    theme: Theme,
    focused: Option<Focus>,
    k: int,
)
    requires
        roster.len() >= 2,
        0 <= k < columns.len(),
    ensures
        ({
            let row = rows_of(roster, columns, theme, focused).last();
            let total = total_status(roster);
            &&& columns[k] == DashColumn::Id ==> row.cells[k] == CellModel::Text(
                seq!['T', 'O', 'T', 'A', 'L'],
            )
            &&& columns[k] == DashColumn::Threads ==> row.cells[k] == CellModel::Text(
                decimal(total.thread_count as nat),
            )
            &&& columns[k] == DashColumn::Iops ==> row.cells[k] == CellModel::Iops(
                total.iops_r,
                total.iops_w,
                total.iops_o,
            )
            &&& columns[k] == DashColumn::Bandwidth ==> row.cells[k] == CellModel::Bandwidth(
                total.bw_r,
                total.bw_w,
            )
            &&& columns[k] == DashColumn::Cpu ==> row.cells[k] == CellModel::CpuTotal(total.cpu)
            &&& columns[k] == DashColumn::UsPerIop ==> row.cells[k] == CellModel::UsPerIop(
                total.cpu_us_per_iop,
            )
            &&& columns[k] == DashColumn::LatRead || columns[k] == DashColumn::LatWrite
                || columns[k] == DashColumn::NumQueues ==> row.cells[k] == CellModel::Text(
                seq!['-'],
            )
            &&& columns[k] == DashColumn::QueueDepth ==> (total.qd_total matches Some(depth)
                ==> row.cells[k] == CellModel::Text(
                seq!['-', '/', '-', '/'] + decimal(depth as nat),
            ))
            &&& row.bold && !row.dim
            &&& row.focused <==> focused == Some(Focus::Total)
            &&& row.hue == theme.aggregate_hue()
        }),
{
    totals_are_the_sums_of_the_vms(roster);
    reveal_strlit("TOTAL");
    reveal_strlit("-");
    reveal_strlit("-/-/");
    assert("TOTAL"@ =~= seq!['T', 'O', 'T', 'A', 'L']);
    assert("-"@ =~= seq!['-']);
    assert("-/-/"@ =~= seq!['-', '/', '-', '/']);
}

} // verus!
