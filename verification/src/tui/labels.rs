//! Metrics, panes and dashboard columns, and the texts that name them.
use vstd::prelude::*;
use vstd::string::*;

use crate::text::{chars_of, decimal, decimal_text, text_of};

verus! {

/// What the perf pane plots.
#[derive(Debug, Clone, Copy, PartialEq, Eq, Structural)]
pub enum PerfMetric {
    /// Operations per second.
    Iops,
    /// Megabytes per second.
    Bandwidth,
}

impl PerfMetric {
    /// The other metric.
    pub open spec fn other(self) -> PerfMetric {
        match self {
            PerfMetric::Iops => PerfMetric::Bandwidth,
            PerfMetric::Bandwidth => PerfMetric::Iops,
        }
    }

    /// Switch to the other metric.
    pub fn toggle(self) -> (r: Self)
        ensures
            r == self.other(),
    {
        match self {
            PerfMetric::Iops => PerfMetric::Bandwidth,
            PerfMetric::Bandwidth => PerfMetric::Iops,
        }
    }

    /// The text next to the axis.
    pub open spec fn axis_text(self, iop_size: u64) -> Seq<char> {
        match self {
            PerfMetric::Iops => "IOPS @ "@ + decimal((iop_size / 1024) as nat) + " KiB"@,
            PerfMetric::Bandwidth => "MB/s"@,
        }
    }

    /// The text next to the axis; the I/O size is given in bytes.
    pub fn axis_label(self, iop_size: u64) -> (r: String)
        ensures
            r@ == self.axis_text(iop_size),
    {
        match self {
            PerfMetric::Iops => "IOPS @ ".to_owned().concat(
                decimal_text((iop_size / 1024) as u128).as_str(),
            ).concat(" KiB"),
            PerfMetric::Bandwidth => "MB/s".to_owned(),
        }
    }
}

/// Toggling the metric twice gives it back.
pub proof fn toggling_twice_is_nothing(metric: PerfMetric)
    ensures
        metric.other().other() == metric,
        metric.other() != metric,
{
}

/// A pane in the vertical plot stack.
#[derive(Debug, Clone, Copy, PartialEq, Eq, Structural)]
pub enum PlotKind {
    /// Operations or bandwidth.
    Perf,
    /// Latencies.
    Latency,
    /// CPU time of the pools.
    Cpu,
    /// Inflight depth.
    QueueDepth,
    /// CPU microseconds per operation.
    CpuPerIop,
}

impl PlotKind {
    /// The short label of a pane.
    pub open spec fn label(self) -> Seq<char> {
        match self {
            PlotKind::Perf => "perf"@,
            PlotKind::Latency => "latency"@,
            PlotKind::Cpu => "cpu"@,
            PlotKind::QueueDepth => "qd"@,
            PlotKind::CpuPerIop => "cpu/iop"@,
        }
    }
}

/// Short label for a plot pane, used in prompt titles.
pub fn plot_kind_label(k: PlotKind) -> (r: &'static str)
    ensures
        r@ == k.label(),
{
    match k {
        PlotKind::Perf => "perf",
        PlotKind::Latency => "latency",
        PlotKind::Cpu => "cpu",
        PlotKind::QueueDepth => "qd",
        PlotKind::CpuPerIop => "cpu/iop",
    }
}

/// A column of the dashboard.
#[derive(Debug, Clone, Copy, PartialEq, Eq, Structural)]
pub enum DashColumn {
    /// VM id.
    Id,
    /// Worker count.
    Threads,
    /// Operations per second.
    Iops,
    /// Bandwidth.
    Bandwidth,
    /// CPU utilisation.
    Cpu,
    /// CPU microseconds per operation.
    UsPerIop,
    /// Read latency.
    LatRead,
    /// Write latency.
    LatWrite,
    /// Inflight depth.
    QueueDepth,
    /// Number of queues.
    NumQueues,
}

/// Every column in canonical display order.
pub open spec fn all_columns() -> Seq<DashColumn> {
    seq![
        DashColumn::Id,
        DashColumn::Threads,
        DashColumn::Iops,
        DashColumn::Bandwidth,
        DashColumn::Cpu,
        DashColumn::UsPerIop,
        DashColumn::LatRead,
        DashColumn::LatWrite,
        DashColumn::QueueDepth,
        DashColumn::NumQueues,
    ]
}

/// Number of columns.
pub const N_COLUMNS: usize = 10;

impl DashColumn {
    /// Every column in canonical display order.
    pub fn all() -> (r: Vec<DashColumn>)
        ensures
            r@ == all_columns(),
            r@.len() == N_COLUMNS,
    {
        vec![
            DashColumn::Id,
            DashColumn::Threads,
            DashColumn::Iops,
            DashColumn::Bandwidth,
            DashColumn::Cpu,
            DashColumn::UsPerIop,
            DashColumn::LatRead,
            DashColumn::LatWrite,
            DashColumn::QueueDepth,
            DashColumn::NumQueues,
        ]
    }

    /// Header text.
    pub open spec fn header(self) -> Seq<char> {
        match self {
            DashColumn::Id => "id"@,
            DashColumn::Threads => "thr"@,
            DashColumn::Iops => "iops r/w/o"@,
            DashColumn::Bandwidth => "bw r/w"@,
            DashColumn::Cpu => "cpu avg/med/total"@,
            DashColumn::UsPerIop => "us/iop"@,
            DashColumn::LatRead => "lat_r p50/95/99"@,
            DashColumn::LatWrite => "lat_w p50/95/99"@,
            DashColumn::QueueDepth => "qd avg/med/tot"@,
            DashColumn::NumQueues => "queues"@,
        }
    }

    /// Header text shown on the dashboard row.
    pub fn label(self) -> (r: &'static str)
        ensures
            r@ == self.header(),
    {
        match self {
            DashColumn::Id => "id",
            DashColumn::Threads => "thr",
            DashColumn::Iops => "iops r/w/o",
            DashColumn::Bandwidth => "bw r/w",
            DashColumn::Cpu => "cpu avg/med/total",
            DashColumn::UsPerIop => "us/iop",
            DashColumn::LatRead => "lat_r p50/95/99",
            DashColumn::LatWrite => "lat_w p50/95/99",
            DashColumn::QueueDepth => "qd avg/med/tot",
            DashColumn::NumQueues => "queues",
        }
    }

    /// Fixed cell width in characters.
    pub open spec fn cell_width(self) -> u16 {
        match self {
            DashColumn::Id => 28,
            DashColumn::Threads => 5,
            DashColumn::Iops => 22,
            DashColumn::Bandwidth => 20,
            DashColumn::Cpu => 18,
            DashColumn::UsPerIop => 8,
            DashColumn::LatRead => 20,
            DashColumn::LatWrite => 20,
            DashColumn::QueueDepth => 16,
            DashColumn::NumQueues => 8,
        }
    }

    /// Fixed cell width in characters.
    pub fn width(self) -> (r: u16)
        ensures
            r == self.cell_width(),
    {
        match self {
            DashColumn::Id => 28,
            DashColumn::Threads => 5,
            DashColumn::Iops => 22,
            DashColumn::Bandwidth => 20,
            DashColumn::Cpu => 18,
            DashColumn::UsPerIop => 8,
            DashColumn::LatRead => 20,
            DashColumn::LatWrite => 20,
            DashColumn::QueueDepth => 16,
            DashColumn::NumQueues => 8,
        }
    }

    /// Whether the column must remain visible.
    pub fn required(self) -> (r: bool)
        ensures
            r == (self is Id),
    {
        matches!(self, DashColumn::Id)
    }
}

/// The canonical order lists every column once.
pub proof fn every_column_is_listed_once(column: DashColumn)
    ensures
        exists|i: int| 0 <= i < all_columns().len() && #[trigger] all_columns()[i] == column,
        forall|i: int, j: int|
            0 <= i < j < all_columns().len() ==> #[trigger] all_columns()[i]
                != #[trigger] all_columns()[j],
        all_columns().len() == N_COLUMNS,
{
    let i: int = match column {
        DashColumn::Id => 0,
        DashColumn::Threads => 1,
        DashColumn::Iops => 2,
        DashColumn::Bandwidth => 3,
        DashColumn::Cpu => 4,
        DashColumn::UsPerIop => 5,
        DashColumn::LatRead => 6,
        DashColumn::LatWrite => 7,
        DashColumn::QueueDepth => 8,
        DashColumn::NumQueues => 9,
    };
    assert(all_columns()[i] == column);
}

/// Every header fits into its column.
pub proof fn headers_fit(column: DashColumn)
    ensures
        column.header().len() <= column.cell_width(),
{
    reveal_strlit("id");
    reveal_strlit("thr");
    reveal_strlit("iops r/w/o");
    reveal_strlit("bw r/w");
    reveal_strlit("cpu avg/med/total");
    reveal_strlit("us/iop");
    reveal_strlit("lat_r p50/95/99");
    reveal_strlit("lat_w p50/95/99");
    reveal_strlit("qd avg/med/tot");
    reveal_strlit("queues");
}

/// Format the aggregate queue-depth cell: only totals can be summed.
pub fn fmt_qd_total(qd_total: Option<u64>) -> (r: String)
    ensures
        r@ == match qd_total {
            Some(t) => "-/-/"@ + decimal(t as nat),
            None => "-"@,
        },
{
    match qd_total {
        Some(t) => "-/-/".to_owned().concat(decimal_text(t as u128).as_str()),
        None => "-".to_owned(),
    }
}

/// Three numbers with slashes between them.
pub open spec fn triple(a: u64, b: u64, c: u64) -> Seq<char> {
    decimal(a as nat) + "/"@ + decimal(b as nat) + "/"@ + decimal(c as nat)
}

/// Write [`triple`].
pub fn fmt_triple(a: u64, b: u64, c: u64) -> (r: String)
    ensures
        r@ == triple(a, b, c),
{
    decimal_text(a as u128).concat("/").concat(decimal_text(b as u128).as_str()).concat(
        "/",
    ).concat(decimal_text(c as u128).as_str())
}

/// A latency triple as median, 95th and 99th percentile.
pub open spec fn lat_text(lat: Option<(u64, u64, u64)>) -> Seq<char> {
    match lat {
        Some((p50, p95, p99)) => triple(p50, p95, p99),
        None => "-/-/-"@,
    }
}

/// Latency triple as `p50/p95/p99`, or `-/-/-` when the backend did not report
/// it.
pub fn fmt_lat(lat: Option<(u64, u64, u64)>) -> (r: String)
    ensures
        r@ == lat_text(lat),
{
    match lat {
        Some((p50, p95, p99)) => fmt_triple(p50, p95, p99),
        None => "-/-/-".to_owned(),
    }
}

/// Whether `c` is a hexadecimal digit.
pub open spec fn is_hex(c: char) -> bool {
    '0' <= c <= '9' || 'a' <= c <= 'f' || 'A' <= c <= 'F'
}

/// Whether a UUID has a hyphen at a position.
pub open spec fn is_hyphen_place(i: int) -> bool {
    i == 8 || i == 13 || i == 18 || i == 23
}

/// Whether `c` may stand at a position of a UUID.
pub open spec fn fits_uuid(i: int, c: char) -> bool {
    if is_hyphen_place(i) {
        c == '-'
    } else {
        is_hex(c)
    }
}

/// Whether an id is UUID-shaped: groups of 8, 4, 4, 4 and 12 hexadecimal digits
/// with hyphens between them.
pub open spec fn is_uuid(id: Seq<char>) -> bool {
    id.len() == 36 && forall|i: int| 0 <= i < 36 ==> fits_uuid(i, #[trigger] id[i])
}

/// A UUID-shaped id keeps its first 16 characters and its last 4, any other id is
/// kept as it is.
pub open spec fn short_id(id: Seq<char>) -> Seq<char> {
    if is_uuid(id) {
        id.subrange(0, 16) + "…"@ + id.subrange(32, 36)
    } else {
        id
    }
}

/// The id cell: the short id, and the vCPU count if it is known.
pub open spec fn id_text(id: Seq<char>, vcpu_count: Option<u32>) -> Seq<char> {
    match vcpu_count {
        Some(n) => short_id(id) + " vc="@ + decimal(n as nat),
        None => short_id(id),
    }
}

fn uuid_shaped(v: &Vec<char>) -> (r: bool)
    ensures
        r == is_uuid(v@),
{
    if v.len() != 36 {
        return false;
    }
    let mut i: usize = 0;
    while i < 36
        invariant
            i <= 36,
            v@.len() == 36,
            forall|k: int| 0 <= k < i ==> fits_uuid(k, #[trigger] v@[k]),
        decreases 36 - i,
    {
        let c: char = v[i];
        let fits: bool = if i == 8 || i == 13 || i == 18 || i == 23 {
            c == '-'
        } else {
            ('0' <= c && c <= '9') || ('a' <= c && c <= 'f') || ('A' <= c && c <= 'F')
        };
        if !fits {
            assert(!fits_uuid(i as int, v@[i as int]));
            return false;
        }
        i += 1;
    }
    true
}

/// Shorten UUID-shaped ids so they fit into the dashboard's id column; other ids
/// pass through unchanged. A trailing `vc=N` follows when the backend supplied a
/// vCPU count.
pub fn shorten_id(id: &str, vcpu_count: Option<u32>) -> (r: String)
    ensures
        r@ == id_text(id@, vcpu_count),
{
    let v = chars_of(id);
    let base = if uuid_shaped(&v) {
        text_of(&v, 0, 16).concat("…").concat(text_of(&v, 32, 36).as_str())
    } else {
        id.to_owned()
    };
    match vcpu_count {
        Some(n) => base.concat(" vc=").concat(decimal_text(n as u128).as_str()),
        None => base,
    }
}

/// An id that is not UUID-shaped passes through unchanged.
pub proof fn other_ids_pass_unchanged(id: Seq<char>)
    requires
        !is_uuid(id),
    ensures
        short_id(id) == id,
        id_text(id, None) == id,
{
}

/// A shortened UUID keeps both its ends, and fits into the id column together
/// with a vCPU count of up to three digits.
pub proof fn short_uuids_fit(id: Seq<char>, vcpu_count: Option<u32>)
    requires
        is_uuid(id),
        vcpu_count matches Some(n) ==> n < 1000,
    ensures
        id.subrange(0, 16).is_prefix_of(short_id(id)),
        id.subrange(32, 36).is_suffix_of(short_id(id)),
        id_text(id, vcpu_count).len() <= DashColumn::Id.cell_width(),
{
    reveal_strlit("…");
    reveal_strlit(" vc=");
    if let Some(n) = vcpu_count {
        reveal_with_fuel(decimal, 4);
    }
}

/// An id cell is the short id, and the vCPU count behind it where there is one.
pub proof fn id_cells_tell_the_vcpus(id: Seq<char>, n: u32)
    ensures
        id_text(id, None) == short_id(id),
        id_text(id, Some(n)) == short_id(id) + seq![' ', 'v', 'c', '='] + decimal(n as nat),
        is_uuid(id) ==> short_id(id).len() == 21 && short_id(id)[16] == '…',
{
    reveal_strlit(" vc=");
    reveal_strlit("…");
    assert(" vc="@ =~= seq![' ', 'v', 'c', '=']);
}

/// An id is UUID-shaped when its 36 characters are hexadecimal digits but for the
/// four hyphens.
pub proof fn uuids_are_hexadecimal_groups(id: Seq<char>)
    ensures
        is_uuid(id) <==> id.len() == 36 && id[8] == '-' && id[13] == '-' && id[18] == '-' && id[23]
            == '-' && forall|i: int|
            0 <= i < 36 && i != 8 && i != 13 && i != 18 && i != 23 ==> '0' <= #[trigger] id[i]
                <= '9' || 'a' <= id[i] <= 'f' || 'A' <= id[i] <= 'F',
{
    if is_uuid(id) {
        assert(fits_uuid(8, id[8]) && fits_uuid(13, id[13]));
        assert(fits_uuid(18, id[18]) && fits_uuid(23, id[23]));
        assert forall|i: int|
            0 <= i < 36 && i != 8 && i != 13 && i != 18 && i != 23 implies '0' <= #[trigger] id[i]
            <= '9' || 'a' <= id[i] <= 'f' || 'A' <= id[i] <= 'F' by {
            assert(fits_uuid(i, id[i]));
        }
    }
}

/// The operations axis tells the size of an operation in whole KiB.
pub proof fn the_axis_tells_the_operation_size(kib: u64)
    requires
        kib * 1024 <= u64::MAX,
    ensures
        PerfMetric::Iops.axis_text((kib * 1024) as u64) == "IOPS @ "@ + decimal(kib as nat)
            + " KiB"@,
        PerfMetric::Bandwidth.axis_text((kib * 1024) as u64) == "MB/s"@,
{
}

/// Three figures stand in the order given with slashes between them, and latencies
/// that are not known leave three blanks.
pub proof fn figures_stand_in_order(a: u64, b: u64, c: u64)
    ensures
        triple(a, b, c) == decimal(a as nat) + seq!['/'] + decimal(b as nat) + seq!['/'] + decimal(
            c as nat,
        ),
        lat_text(Some((a, b, c))) == triple(a, b, c),
        lat_text(None) == seq!['-', '/', '-', '/', '-'],
{
    reveal_strlit("/");
    reveal_strlit("-/-/-");
    assert("/"@ =~= seq!['/']);
    assert("-/-/-"@ =~= seq!['-', '/', '-', '/', '-']);
}

/// No two panes share a label, and no two columns a header.
pub proof fn labels_tell_apart(a: PlotKind, b: PlotKind, c: DashColumn, d: DashColumn)
    ensures
        a != b ==> a.label() != b.label(),
        c != d ==> c.header() != d.header(),
{
    reveal_strlit("perf");
    reveal_strlit("latency");
    reveal_strlit("cpu");
    reveal_strlit("qd");
    reveal_strlit("cpu/iop");
    reveal_strlit("id");
    reveal_strlit("thr");
    reveal_strlit("iops r/w/o");
    reveal_strlit("bw r/w");
    reveal_strlit("cpu avg/med/total");
    reveal_strlit("us/iop");
    reveal_strlit("lat_r p50/95/99");
    reveal_strlit("lat_w p50/95/99");
    reveal_strlit("qd avg/med/tot");
    reveal_strlit("queues");
    assert("perf"@.len() == 4 && "latency"@.len() == 7 && "cpu"@.len() == 3 && "qd"@.len() == 2);
    assert("cpu/iop"@.len() == 7 && "cpu/iop"@[0] == 'c' && "latency"@[0] == 'l');
    assert("id"@.len() == 2 && "thr"@.len() == 3 && "iops r/w/o"@.len() == 10);
    assert("cpu avg/med/total"@.len() == 17 && "qd avg/med/tot"@.len() == 14);
    assert("bw r/w"@.len() == 6 && "us/iop"@.len() == 6 && "queues"@.len() == 6);
    assert("bw r/w"@[0] == 'b' && "us/iop"@[0] == 'u' && "queues"@[0] == 'q');
    assert("lat_r p50/95/99"@.len() == 15 && "lat_w p50/95/99"@.len() == 15);
    assert("lat_r p50/95/99"@[4] == 'r' && "lat_w p50/95/99"@[4] == 'w');
    assert(a.label().len() == b.label().len() && a.label()[0] == b.label()[0] ==> a == b);
    assert(c.header().len() == d.header().len() && c.header()[0] == d.header()[0]
        && c.header()[4] == d.header()[4] ==> c == d);
}

} // verus!
