//! The overlays, the title bar and the frame around the panes: what they say and
//! where they stand.
use vstd::prelude::*;
use vstd::string::*;
use vstd::utf8::*;

use crate::text::{decimal, decimal_text};
use crate::tui::labels::{all_columns, DashColumn, N_COLUMNS};
use crate::tui::prompt::{InputPromptKind, KindModel, PromptModel};
use crate::tui::theme::Theme;
use crate::tui::ui::UiState;

verus! {

/// A rectangle of terminal cells.
#[derive(Debug, Clone, Copy, PartialEq, Eq, Structural)]
pub struct Area {
    /// Left column.
    pub x: u16,
    /// Top row.
    pub y: u16,
    /// Number of columns.
    pub width: u16,
    /// Number of rows.
    pub height: u16,
}

impl Area {
    /// The rectangle ends within the coordinate range.
    pub open spec fn wf(self) -> bool {
        self.x + self.width <= u16::MAX && self.y + self.height <= u16::MAX
    }
}

/// The smaller of two sizes.
pub open spec fn at_most(a: u16, b: u16) -> u16 {
    if a <= b {
        a
    } else {
        b
    }
}

/// A box of the given size in the middle of the frame, cut to fit.
pub open spec fn middle(full: Area, width: u16, height: u16) -> Area {
    let w = at_most(width, full.width);
    let h = at_most(height, full.height);
    Area {
        x: (full.x + (full.width - w) / 2) as u16,
        y: (full.y + (full.height - h) / 2) as u16,
        width: w,
        height: h,
    }
}

/// Centre a box on the frame.
pub fn centered(full: Area, width: u16, height: u16) -> (r: Area)
    requires
        full.wf(),
    ensures
        r == middle(full, width, height),
{
    let w: u16 = if width <= full.width {
        width
    } else {
        full.width
    };
    let h: u16 = if height <= full.height {
        height
    } else {
        full.height
    };
    Area {
        x: full.x + (full.width - w) / 2,
        y: full.y + (full.height - h) / 2,
        width: w,
        height: h,
    }
}

/// A centred box lies within the frame.
pub proof fn centred_boxes_stay_inside(full: Area, width: u16, height: u16)
    requires
        full.wf(),
    ensures
        ({
            let r = middle(full, width, height);
            &&& full.x <= r.x
            &&& full.y <= r.y
            &&& r.x + r.width <= full.x + full.width
            &&& r.y + r.height <= full.y + full.height
        }),
{
}

/// How a line of an overlay is set.
#[derive(Debug, Clone, Copy, PartialEq, Eq, Structural)]
pub enum LineRole {
    /// As ordinary text.
    Plain,
    /// Bold.
    Bold,
    /// Bold in the accent colour.
    Heading,
    /// In the axis colour.
    Faint,
    /// Reversed in the accent colour.
    Cursor,
    /// Bold and red.
    Alert,
}

/// A line of an overlay.
#[derive(Debug)]
pub struct OverlayLine {
    /// Its text.
    pub text: String,
    /// How it is set.
    pub role: LineRole,
}

/// What a line of an overlay says.
#[verifier::ext_equal]
pub struct LineModel {
    /// Its text.
    pub text: Seq<char>,
    /// How it is set.
    pub role: LineRole,
}

impl View for OverlayLine {
    type V = LineModel;

    open spec fn view(&self) -> LineModel {
        LineModel { text: self.text@, role: self.role }
    }
}

/// The models of the lines of an overlay.
pub open spec fn line_models(lines: Seq<OverlayLine>) -> Seq<LineModel> {
    lines.map_values(|l: OverlayLine| l@)
}

/// An overlay: its lines and how large it wants to be.
#[derive(Debug)]
pub struct Overlay {
    /// The text in its border.
    pub title: &'static str,
    /// Its lines.
    pub lines: Vec<OverlayLine>,
    /// Columns wanted.
    pub width: u16,
    /// Rows wanted.
    pub height: u16,
}

/// A line.
pub open spec fn line(text: Seq<char>, role: LineRole) -> LineModel {
    LineModel { text, role }
}

fn put_line(lines: &mut Vec<OverlayLine>, text: String, role: LineRole)
    ensures
        line_models(final(lines)@) == line_models(old(lines)@).push(line(text@, role)),
{
    let entry = OverlayLine { text, role };
    let ghost model = entry@;
    lines.push(entry);
    assert(line_models(lines@) == line_models(old(lines)@).push(model));
}

/// The checkbox of a column: `[·]` if it cannot be hidden, else whether it is
/// shown.
pub open spec fn checkbox(ui: UiState, column: DashColumn) -> Seq<char> {
    if column is Id {
        "[·]"@
    } else if ui.columns.has(column) {
        "[x]"@
    } else {
        "[ ]"@
    }
}

/// The line of a column in the picker.
pub open spec fn picker_line(ui: UiState, cursor: usize, i: int) -> LineModel {
    let column = all_columns()[i];
    line(
        " "@ + checkbox(ui, column) + " "@ + column.header(),
        if i == cursor {
            LineRole::Cursor
        } else if column is Id {
            LineRole::Faint
        } else {
            LineRole::Plain
        },
    )
}

/// The lines of the column picker.
pub open spec fn picker_lines(ui: UiState, cursor: usize) -> Seq<LineModel> {
    seq![line("dashboard columns"@, LineRole::Heading), line(""@, LineRole::Plain)] + Seq::new(
        all_columns().len(),
        |i: int| picker_line(ui, cursor, i),
    ) + seq![
        line(""@, LineRole::Plain),
        line("Space/Enter: toggle    j/k or ↑/↓: move    c/Esc: close"@, LineRole::Faint),
    ]
}

/// The column picker, while it is open.
pub fn column_picker_overlay(ui: &UiState) -> (r: Option<Overlay>)
    ensures
        match ui.column_picker {
            Some(cursor) => r matches Some(o) && o.title@ == "columns"@ && line_models(o.lines@)
                == picker_lines(*ui, cursor) && o.width == 44 && o.height == N_COLUMNS + 5,
            None => r is None,
        },
{
    let cursor: usize = match ui.column_picker {
        Some(cursor) => cursor,
        None => {
            return None;
        },
    };
    let all = DashColumn::all();
    let mut lines: Vec<OverlayLine> = Vec::new();
    put_line(&mut lines, "dashboard columns".to_owned(), LineRole::Heading);
    put_line(&mut lines, "".to_owned(), LineRole::Plain);
    let ghost head = line_models(lines@);
    let mut i: usize = 0;
    assert(head == seq![
        line("dashboard columns"@, LineRole::Heading),
        line(""@, LineRole::Plain),
    ]);
    assert(line_models(lines@) == head + Seq::new(0, |j: int| picker_line(*ui, cursor, j)));
    while i < all.len()
        invariant
            i <= all@.len(),
            all@ == all_columns(),
            line_models(lines@) == head + Seq::new(
                i as nat,
                |j: int| picker_line(*ui, cursor, j),
            ),
        decreases all@.len() - i,
    {
        let column: DashColumn = all[i];
        let marker = if column.required() {
            "[·]"
        } else if ui.columns.contains(column) {
            "[x]"
        } else {
            "[ ]"
        };
        let text = " ".to_owned().concat(marker).concat(" ").concat(column.label());
        let role: LineRole = if i == cursor {
            LineRole::Cursor
        } else if column.required() {
            LineRole::Faint
        } else {
            LineRole::Plain
        };
        let ghost before = line_models(lines@);
        assert(line(text@, role) == picker_line(*ui, cursor, i as int));
        put_line(&mut lines, text, role);
        assert(line_models(lines@) == head + Seq::new(
            (i + 1) as nat,
            |j: int| picker_line(*ui, cursor, j),
        ));
        i += 1;
    }
    put_line(&mut lines, "".to_owned(), LineRole::Plain);
    put_line(
        &mut lines,
        "Space/Enter: toggle    j/k or ↑/↓: move    c/Esc: close".to_owned(),
        LineRole::Faint,
    );
    assert(line_models(lines@) == picker_lines(*ui, cursor));
    Some(Overlay { title: "columns", lines, width: 44, height: N_COLUMNS as u16 + 5 })
}

/// The lines of a prompt: the heading, what has been typed with a cursor behind
/// it, the sticky box where there is one, and the keys.
pub open spec fn prompt_lines(prompt: PromptModel) -> Seq<LineModel> {
    let body = seq![
        line(""@, LineRole::Plain),
        line("  "@ + prompt.kind.heading(), LineRole::Heading),
        line(""@, LineRole::Plain),
        line("  > "@ + prompt.buffer + "_"@, LineRole::Bold),
        line(""@, LineRole::Plain),
    ];
    match prompt.kind {
        KindModel::SetThreads { sticky, .. } => body + seq![
            line(
                "  "@ + (if sticky {
                    "[x]"@
                } else {
                    "[ ]"@
                }) + " sticky   [Tab] toggle"@,
                LineRole::Faint,
            ),
            line(""@, LineRole::Plain),
            line("  [Enter] commit    [Tab] sticky    [Esc] cancel"@, LineRole::Faint),
        ],
        _ => body + seq![line("  [Enter] commit    [Esc] cancel"@, LineRole::Faint)],
    }
}

/// The open prompt.
pub fn input_prompt_overlay(ui: &UiState) -> (r: Option<Overlay>)
    ensures
        match ui.input_prompt {
            Some(prompt) => r matches Some(o) && o.title@ == " input "@ && line_models(o.lines@)
                == prompt_lines(prompt@) && o.width == 60 && o.height == if prompt@.kind
                is SetThreads {
                9u16
            } else {
                7u16
            },
            None => r is None,
        },
{
    match &ui.input_prompt {
        None => None,
        Some(prompt) => {
            let mut lines: Vec<OverlayLine> = Vec::new();
            put_line(&mut lines, "".to_owned(), LineRole::Plain);
            put_line(
                &mut lines,
                "  ".to_owned().concat(prompt.kind.title().as_str()),
                LineRole::Heading,
            );
            put_line(&mut lines, "".to_owned(), LineRole::Plain);
            put_line(
                &mut lines,
                "  > ".to_owned().concat(prompt.buffer.as_str()).concat("_"),
                LineRole::Bold,
            );
            put_line(&mut lines, "".to_owned(), LineRole::Plain);
            let height: u16 = match &prompt.kind {
                InputPromptKind::SetThreads { sticky, .. } => {
                    let mark = if *sticky {
                        "[x]"
                    } else {
                        "[ ]"
                    };
                    put_line(
                        &mut lines,
                        "  ".to_owned().concat(mark).concat(" sticky   [Tab] toggle"),
                        LineRole::Faint,
                    );
                    put_line(&mut lines, "".to_owned(), LineRole::Plain);
                    put_line(
                        &mut lines,
                        "  [Enter] commit    [Tab] sticky    [Esc] cancel".to_owned(),
                        LineRole::Faint,
                    );
                    9
                },
                _ => {
                    put_line(
                        &mut lines,
                        "  [Enter] commit    [Esc] cancel".to_owned(),
                        LineRole::Faint,
                    );
                    7
                },
            };
            assert(line_models(lines@) == prompt_lines(prompt@));
            Some(Overlay { title: " input ", lines, width: 60, height })
        },
    }
}

/// Whether an error can be cut to a number of bytes, less one for the ellipsis.
pub open spec fn cuttable(err: Seq<char>, max: nat) -> bool {
    let bytes = encode_utf8(err);
    bytes.len() > max ==> is_char_boundary(
        bytes,
        if max == 0 {
            0
        } else {
            max - 1
        },
    )
}

/// An error cut to a number of bytes, with an ellipsis in place of the rest.
pub open spec fn cut(err: Seq<char>, max: nat) -> Seq<char> {
    let bytes = encode_utf8(err);
    if bytes.len() > max {
        decode_utf8(
            bytes.subrange(
                0,
                if max == 0 {
                    0
                } else {
                    max - 1
                },
            ),
        ) + "…"@
    } else {
        err
    }
}

/// How many bytes of an error fit into the overlay on a frame of some width.
pub open spec fn error_room(frame_width: u16) -> nat {
    let width = at_most(74, frame_width);
    if width < 4 {
        0
    } else {
        (width - 4) as nat
    }
}

/// The lines of the overlay that says that the daemon is lost.
pub open spec fn lost_lines(err: Seq<char>, frame_width: u16) -> Seq<LineModel> {
    seq![
        line(""@, LineRole::Plain),
        line(
            "the io-thread-controller daemon stopped responding to GetSnapshot"@,
            LineRole::Alert,
        ),
        line(""@, LineRole::Plain),
        line("last error: "@ + cut(err, error_room(frame_width)), LineRole::Plain),
        line(""@, LineRole::Plain),
        line("press q to quit; the TUI keeps retrying in the background"@, LineRole::Plain),
    ]
}

/// The overlay that says that the daemon is lost, quoting the last error.
pub fn daemon_lost_overlay(err: &str, frame_width: u16) -> (r: Overlay)
    requires
        cuttable(err@, error_room(frame_width)),
    ensures
        r.title@ == " daemon lost "@,
        line_models(r.lines@) == lost_lines(err@, frame_width),
        r.width == 74,
        r.height == 8,
{
    let width: u16 = if 74 <= frame_width {
        74
    } else {
        frame_width
    };
    let max: usize = if width < 4 {
        0
    } else {
        (width - 4) as usize
    };
    let n: usize = err.as_bytes().len();
    let trimmed = if n > max {
        let at: usize = if max == 0 {
            0
        } else {
            max - 1
        };
        let (head, _) = err.split_at(at);
        proof {
            encode_utf8_decode_utf8(head@);
        }
        head.to_owned().concat("…")
    } else {
        err.to_owned()
    };
    let mut lines: Vec<OverlayLine> = Vec::new();
    put_line(&mut lines, "".to_owned(), LineRole::Plain);
    put_line(
        &mut lines,
        "the io-thread-controller daemon stopped responding to GetSnapshot".to_owned(),
        LineRole::Alert,
    );
    put_line(&mut lines, "".to_owned(), LineRole::Plain);
    put_line(&mut lines, "last error: ".to_owned().concat(trimmed.as_str()), LineRole::Plain);
    put_line(&mut lines, "".to_owned(), LineRole::Plain);
    put_line(
        &mut lines,
        "press q to quit; the TUI keeps retrying in the background".to_owned(),
        LineRole::Plain,
    );
    assert(line_models(lines@) == lost_lines(err@, frame_width));
    Overlay { title: " daemon lost ", lines, width: 74, height: 8 }
}

/// The lines of the help overlay.
pub open spec fn help_lines(theme: Theme) -> Seq<LineModel> {
    seq![
        line("hotkeys"@, LineRole::Heading),
        line(""@, LineRole::Plain),
        line("  q / Esc / Ctrl-C   quit"@, LineRole::Plain),
        line("  h / ?              show/hide this help"@, LineRole::Plain),
        line("  p / Space          pause (freezes plot + sampler)"@, LineRole::Plain),
        line("  m                  toggle IOPS <-> bandwidth"@, LineRole::Plain),
        line("  r                  prompt for refresh cadence in seconds"@, LineRole::Plain),
        line("  c                  toggle dashboard columns"@, LineRole::Plain),
        line("  t                  cycle theme (light/dark, vim, solarized, gruvbox)"@, LineRole::Plain),
        line("  1 2 3 4 5          toggle perf / latency / cpu / qd / us-per-iop panes"@, LineRole::Plain),
        line("  ↑ / k              focus previous vm (hides others)"@, LineRole::Plain),
        line("  ↓ / j              focus next vm (last slot = TOTAL)"@, LineRole::Plain),
        line("  Esc                clear focus (show every vm again)"@, LineRole::Plain),
        line("  + / =              scale focused vm +1 thread"@, LineRole::Plain),
        line("  -                  scale focused vm -1 thread"@, LineRole::Plain),
        line("  n                  set focused vm thread count (with sticky toggle)"@, LineRole::Plain),
        line("  s                  toggle sticky mode for +/- (title bar shows [STICKY])"@, LineRole::Plain),
        line(""@, LineRole::Plain),
        line("  l                  toggle log/linear Y-axis for every plot"@, LineRole::Plain),
        line("  y                  set Y-max for the first active plot (blank = clear)"@, LineRole::Plain),
        line("  z                  reset autoscale (drop old samples so Y shrinks)"@, LineRole::Plain),
        line("  x                  toggle X-axis labels: elapsed seconds vs wall-clock (UTC)"@, LineRole::Plain),
        line(""@, LineRole::Plain),
        line("sticky: when a daemon is on D-Bus, +/- go through"@, LineRole::Faint),
        line("SetThreadCount(sticky=true) so the engine leaves the"@, LineRole::Faint),
        line("instance alone until you clear sticky."@, LineRole::Faint),
        line(""@, LineRole::Plain),
        line("theme: "@ + theme.title(), LineRole::Faint),
        line(""@, LineRole::Plain),
        line("press any key to dismiss"@, LineRole::Faint),
    ]
}

/// The help overlay: every key that the dashboard understands.
pub fn help_overlay(ui: &UiState) -> (r: Overlay)
    ensures
        r.title@ == " help "@,
        line_models(r.lines@) == help_lines(Theme::nth(ui.theme_idx)),
        r.width == 72,
        r.height == help_lines(Theme::nth(ui.theme_idx)).len() + 2,
{
    let mut lines: Vec<OverlayLine> = Vec::new();
    put_line(&mut lines, "hotkeys".to_owned(), LineRole::Heading);
    put_line(&mut lines, "".to_owned(), LineRole::Plain);
    put_line(&mut lines, "  q / Esc / Ctrl-C   quit".to_owned(), LineRole::Plain);
    put_line(&mut lines, "  h / ?              show/hide this help".to_owned(), LineRole::Plain);
    put_line(&mut lines, "  p / Space          pause (freezes plot + sampler)".to_owned(), LineRole::Plain);
    put_line(&mut lines, "  m                  toggle IOPS <-> bandwidth".to_owned(), LineRole::Plain);
    put_line(&mut lines, "  r                  prompt for refresh cadence in seconds".to_owned(), LineRole::Plain);
    put_line(&mut lines, "  c                  toggle dashboard columns".to_owned(), LineRole::Plain);
    put_line(&mut lines, "  t                  cycle theme (light/dark, vim, solarized, gruvbox)".to_owned(), LineRole::Plain);
    put_line(&mut lines, "  1 2 3 4 5          toggle perf / latency / cpu / qd / us-per-iop panes".to_owned(), LineRole::Plain);
    put_line(&mut lines, "  ↑ / k              focus previous vm (hides others)".to_owned(), LineRole::Plain);
    put_line(&mut lines, "  ↓ / j              focus next vm (last slot = TOTAL)".to_owned(), LineRole::Plain);
    put_line(&mut lines, "  Esc                clear focus (show every vm again)".to_owned(), LineRole::Plain);
    put_line(&mut lines, "  + / =              scale focused vm +1 thread".to_owned(), LineRole::Plain);
    put_line(&mut lines, "  -                  scale focused vm -1 thread".to_owned(), LineRole::Plain);
    put_line(&mut lines, "  n                  set focused vm thread count (with sticky toggle)".to_owned(), LineRole::Plain);
    put_line(&mut lines, "  s                  toggle sticky mode for +/- (title bar shows [STICKY])".to_owned(), LineRole::Plain);
    put_line(&mut lines, "".to_owned(), LineRole::Plain);
    put_line(&mut lines, "  l                  toggle log/linear Y-axis for every plot".to_owned(), LineRole::Plain);
    put_line(&mut lines, "  y                  set Y-max for the first active plot (blank = clear)".to_owned(), LineRole::Plain);
    put_line(&mut lines, "  z                  reset autoscale (drop old samples so Y shrinks)".to_owned(), LineRole::Plain);
    put_line(&mut lines, "  x                  toggle X-axis labels: elapsed seconds vs wall-clock (UTC)".to_owned(), LineRole::Plain);
    put_line(&mut lines, "".to_owned(), LineRole::Plain);
    put_line(&mut lines, "sticky: when a daemon is on D-Bus, +/- go through".to_owned(), LineRole::Faint);
    put_line(&mut lines, "SetThreadCount(sticky=true) so the engine leaves the".to_owned(), LineRole::Faint);
    put_line(&mut lines, "instance alone until you clear sticky.".to_owned(), LineRole::Faint);
    put_line(&mut lines, "".to_owned(), LineRole::Plain);
    put_line(&mut lines, "theme: ".to_owned().concat(ui.theme().name()), LineRole::Faint);
    put_line(&mut lines, "".to_owned(), LineRole::Plain);
    put_line(&mut lines, "press any key to dismiss".to_owned(), LineRole::Faint);
    assert(line_models(lines@) == help_lines(Theme::nth(ui.theme_idx)));
    Overlay { title: " help ", lines, width: 72, height: 32 }
}

/// The title bar: the tool's name and what it shows.
#[derive(Debug)]
pub struct TitleBar {
    /// The axis of the perf pane, before the refresh cadence.
    pub axis: String,
    /// The number of VMs and the theme, behind the refresh cadence.
    pub fleet: String,
    /// Shown while paused.
    pub paused: &'static str,
    /// Shown while sticky mode is armed.
    pub sticky: &'static str,
}

/// The title bar.
pub fn title_bar(ui: &UiState, iop_size: u64, n_vms: usize) -> (r: TitleBar)
    ensures
        r.axis@ == "  "@ + ui.perf_metric.axis_text(iop_size),
        r.fleet@ == "  vms="@ + decimal(n_vms as nat) + "  theme="@ + Theme::nth(
            ui.theme_idx,
        ).title(),
        r.paused@ == if ui.paused {
            " [PAUSED]"@
        } else {
            ""@
        },
        r.sticky@ == if ui.sticky_mode {
            " [STICKY]"@
        } else {
            ""@
        },
{
    TitleBar {
        axis: "  ".to_owned().concat(ui.perf_metric.axis_label(iop_size).as_str()),
        fleet: "  vms=".to_owned().concat(decimal_text(n_vms as u128).as_str()).concat(
            "  theme=",
        ).concat(ui.theme().name()),
        paused: if ui.paused {
            " [PAUSED]"
        } else {
            ""
        },
        sticky: if ui.sticky_mode {
            " [STICKY]"
        } else {
            ""
        },
    }
}

/// Rows that the dashboard takes: one per VM, one for the fleet as a whole when
/// there are at least two, and its frame and header.
pub fn dashboard_height(n_vms: usize) -> (r: u16)
    ensures
        n_vms < 65_531 ==> r == n_vms + (if n_vms >= 2 {
            5int
        } else {
            4
        }),
        r as int == {
            let rows = n_vms as int % 65_536 + (if n_vms >= 2 {
                5int
            } else {
                4
            });
            if rows > u16::MAX {
                u16::MAX as int
            } else {
                rows
            }
        },
{
    let rows: u16 = (n_vms % 65_536) as u16;
    let frame: u16 = if n_vms >= 2 {
        5
    } else {
        4
    };
    rows.saturating_add(frame)
}

/// The overlays of a frame from the bottom to the top.
#[derive(Debug, Clone, Copy, PartialEq, Eq, Structural)]
pub enum Layer {
    /// The help overlay.
    Help,
    /// The open prompt.
    Prompt,
    /// The column picker.
    Columns,
    /// The daemon is lost.
    Lost,
}

/// The overlays to paint, bottom first: a lost daemon covers everything else.
pub open spec fn layers_of(ui: UiState, lost: bool) -> Seq<Layer> {
    (if ui.show_help {
        seq![Layer::Help]
    } else {
        Seq::empty()
    }) + (if ui.input_prompt is Some {
        seq![Layer::Prompt]
    } else {
        Seq::empty()
    }) + (if ui.column_picker is Some {
        seq![Layer::Columns]
    } else {
        Seq::empty()
    }) + (if lost {
        seq![Layer::Lost]
    } else {
        Seq::empty()
    })
}

/// The overlays to paint, bottom first.
pub fn layers(ui: &UiState, lost: bool) -> (r: Vec<Layer>)
    ensures
        r@ == layers_of(*ui, lost),
{
    let mut out: Vec<Layer> = Vec::new();
    if ui.show_help {
        out.push(Layer::Help);
    }
    if ui.input_prompt.is_some() {
        out.push(Layer::Prompt);
    }
    if ui.column_picker.is_some() {
        out.push(Layer::Columns);
    }
    if lost {
        out.push(Layer::Lost);
    }
    assert(out@ =~= layers_of(*ui, lost));
    out
}

/// A box is as large as asked for where there is room, and the room around it is
/// the same on both sides, but for an odd cell.
pub proof fn boxes_are_centred(full: Area, width: u16, height: u16)
    requires
        full.wf(),
    ensures
        ({
            let r = middle(full, width, height);
            let left = r.x - full.x;
            let right = full.x + full.width - (r.x + r.width);
            let above = r.y - full.y;
            let under = full.y + full.height - (r.y + r.height);
            &&& width <= full.width ==> r.width == width
            &&& width > full.width ==> r.width == full.width
            &&& height <= full.height ==> r.height == height
            &&& height > full.height ==> r.height == full.height
            &&& 0 <= right - left <= 1
            &&& 0 <= under - above <= 1
        }),
{
}

/// The picker lists every column once, ticked where it is shown, with the cursor on
/// the chosen one.
pub proof fn the_picker_lists_every_column(ui: UiState, cursor: usize, i: int)
    requires
        0 <= i < 10,
    ensures
        ({
            let column = all_columns()[i];
            let entry = picker_lines(ui, cursor)[i + 2];
            let tick = if column == DashColumn::Id {
                '·'
            } else if ui.columns.has(column) {
                'x'
            } else {
                ' '
            };
            &&& picker_lines(ui, cursor).len() == 14
            &&& entry.text == seq![' ', '[', tick, ']', ' '] + column.header()
            &&& entry.role == LineRole::Cursor <==> i == cursor
        }),
{
    reveal_strlit(" ");
    reveal_strlit("[·]");
    reveal_strlit("[x]");
    reveal_strlit("[ ]");
    let column = all_columns()[i];
    let tick = if column == DashColumn::Id {
        '·'
    } else if ui.columns.has(column) {
        'x'
    } else {
        ' '
    };
    assert(checkbox(ui, column) =~= seq!['[', tick, ']']);
    assert(" "@ =~= seq![' ']);
    assert(" "@ + checkbox(ui, column) + " "@ + column.header() =~= seq![' ', '[', tick, ']', ' ']
        + column.header());
}

/// The prompt shows what is typed with a cursor behind it, and the sticky box as it
/// stands.
pub proof fn the_prompt_shows_what_is_typed(prompt: PromptModel)
    ensures
        prompt_lines(prompt)[1].text == seq![' ', ' '] + prompt.kind.heading(),
        prompt_lines(prompt)[3].text == seq![' ', ' ', '>', ' '] + prompt.buffer + seq!['_'],
        prompt.kind matches KindModel::SetThreads { sticky, .. } ==> prompt_lines(
            prompt,
        )[5].text.subrange(2, 5) == seq![
            '[',
            if sticky {
                'x'
            } else {
                ' '
            },
            ']',
        ],
{
    reveal_strlit("  ");
    reveal_strlit("  > ");
    reveal_strlit("_");
    reveal_strlit("[x]");
    reveal_strlit("[ ]");
    assert("  "@ =~= seq![' ', ' ']);
    assert("  > "@ =~= seq![' ', ' ', '>', ' ']);
    assert("_"@ =~= seq!['_']);
    if let KindModel::SetThreads { sticky, .. } = prompt.kind {
        let mark = if sticky {
            "[x]"@
        } else {
            "[ ]"@
        };
        let text = prompt_lines(prompt)[5].text;
        assert(text == "  "@ + mark + " sticky   [Tab] toggle"@);
        assert(text.subrange(2, 5) =~= mark);
        assert(mark =~= seq![
            '[',
            if sticky {
                'x'
            } else {
                ' '
            },
            ']',
        ]);
    }
}

/// An error that fits is quoted verbatim; a longer one is cut and marked.
pub proof fn short_errors_are_quoted_verbatim(err: Seq<char>, max: nat)
    ensures
        vstd::utf8::encode_utf8(err).len() <= max ==> cut(err, max) == err,
        vstd::utf8::encode_utf8(err).len() > max ==> cut(err, max).last() == '…',
{
    reveal_strlit("…");
}

/// Open modals are painted in a fixed order, the lost daemon on top of all.
pub proof fn the_lost_daemon_covers_all(ui: UiState, lost: bool)
    ensures
        layers_of(ui, lost).contains(Layer::Help) <==> ui.show_help,
        layers_of(ui, lost).contains(Layer::Prompt) <==> ui.input_prompt is Some,
        layers_of(ui, lost).contains(Layer::Columns) <==> ui.column_picker is Some,
        layers_of(ui, lost).contains(Layer::Lost) <==> lost,
        lost ==> layers_of(ui, lost).last() == Layer::Lost,
        ui.show_help ==> layers_of(ui, lost)[0] == Layer::Help,
        ui.column_picker is Some && !lost ==> layers_of(ui, lost).last() == Layer::Columns,
{
    let all = layers_of(ui, lost);
    let a: int = if ui.show_help {
        1
    } else {
        0
    };
    let b: int = if ui.input_prompt is Some {
        a + 1
    } else {
        a
    };
    let c: int = if ui.column_picker is Some {
        b + 1
    } else {
        b
    };
    if ui.show_help {
        assert(all[0] == Layer::Help);
    }
    if ui.input_prompt is Some {
        assert(all[a] == Layer::Prompt);
    }
    if ui.column_picker is Some {
        assert(all[b] == Layer::Columns);
    }
    if lost {
        assert(all[c] == Layer::Lost);
    }
}

/// The title bar tells the metric, the VMs and the theme, and whether the display is
/// paused or armed.
pub proof fn the_title_tells_the_modes(ui: UiState, iop_size: u64, n_vms: usize, bar: TitleBar)
    requires
        call_ensures(title_bar, (&ui, iop_size, n_vms), bar),
    ensures
        bar.axis@ == "  "@ + ui.perf_metric.axis_text(iop_size),
        bar.fleet@ == "  vms="@ + decimal(n_vms as nat) + "  theme="@ + Theme::nth(
            ui.theme_idx,
        ).title(),
        ui.paused <==> bar.paused@.len() > 0,
        ui.sticky_mode <==> bar.sticky@.len() > 0,
{
    reveal_strlit(" [PAUSED]");
    reveal_strlit(" [STICKY]");
    reveal_strlit("");
}

/// Each VM has a line of the dashboard, and so has the fleet from two VMs on,
/// besides the frame and the header.
pub proof fn the_dashboard_has_a_line_per_vm(n: usize, height: u16)
    requires
        n < 65_531,
        call_ensures(dashboard_height, (n,), height),
    ensures
        n < 2 ==> height == n + 4,
        n >= 2 ==> height == n + 5,
{
}

/// The picker and the prompt are shown exactly while they are open, and the help
/// has room for all its lines.
pub proof fn boxes_are_shown_while_open(
    ui: UiState,
    picker: Option<Overlay>,
    prompt: Option<Overlay>,
    help: Overlay,
)
    requires
        call_ensures(column_picker_overlay, (&ui,), picker),
        call_ensures(input_prompt_overlay, (&ui,), prompt),
        call_ensures(help_overlay, (&ui,), help),
    ensures
        picker is Some <==> ui.column_picker is Some,
        prompt is Some <==> ui.input_prompt is Some,
        picker matches Some(o) ==> o.height == o.lines@.len() + 1,
        help.height == help.lines@.len() + 2,
{
    if let Some(o) = picker {
        let cursor = ui.column_picker->0;
        assert(line_models(o.lines@).len() == picker_lines(ui, cursor).len());
        the_picker_lists_every_column(ui, cursor, 0);
    }
}

/// A cut error is the front of the error, one byte short of the room, and a mark.
pub proof fn long_errors_lose_their_end(err: Seq<char>, max: nat)
    requires
        max > 0,
        encode_utf8(err).len() > max,
        cuttable(err, max),
    ensures
        encode_utf8(cut(err, max).drop_last()) == encode_utf8(err).take(max - 1),
        cut(err, max).last() == '…',
{
    reveal_strlit("…");
    let bytes = encode_utf8(err);
    encode_utf8_valid_utf8(err);
    valid_utf8_split(bytes, max - 1);
    let front = bytes.subrange(0, max - 1);
    decode_utf8_encode_utf8(front);
    assert(cut(err, max).drop_last() =~= decode_utf8(front));
    assert(bytes.take(max - 1) == front);
}

/// The box that says that the daemon is lost quotes the error in its fourth line, in
/// the room that its frame leaves: two cells at either side of at most 74.
pub proof fn the_error_is_quoted_in_the_box(err: Seq<char>, frame_width: u16)
    ensures
        cut(err, error_room(frame_width)).is_suffix_of(lost_lines(err, frame_width)[3].text),
        frame_width >= 74 ==> error_room(frame_width) == 70,
        4 <= frame_width <= 74 ==> error_room(frame_width) == frame_width - 4,
        frame_width <= 4 ==> error_room(frame_width) == 0,
{
    let said = cut(err, error_room(frame_width));
    let whole = "last error: "@ + said;
    assert(whole.subrange(whole.len() - said.len(), whole.len() as int) =~= said);
}

} // verus!
