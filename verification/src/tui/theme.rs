//! Colour themes.
use vstd::prelude::*;
use vstd::string::*;

verus! {

/// A terminal colour.
#[derive(Debug, Clone, Copy, PartialEq, Eq, Structural)]
pub enum Hue {
    Black,
    Red,
    Green,
    Yellow,
    Blue,
    Magenta,
    Cyan,
    Gray,
    DarkGray,
    LightRed,
    LightGreen,
    LightYellow,
    LightBlue,
    LightMagenta,
    LightCyan,
    White,
    /// Red, green and blue components.
    Rgb(u8, u8, u8),
}

/// The built-in themes. The first one is the startup default.
#[derive(Debug, Clone, Copy, PartialEq, Eq, Structural)]
pub enum Theme {
    /// Bright traces on black.
    DefaultDark,
    /// Dark traces on white.
    DefaultLight,
    /// Warm amber and green on charcoal.
    VimDesert,
    /// A dark-friendly rotation on base03.
    SolarizedDark,
    /// Earthy tones on dark0_hard.
    Gruvbox,
}

/// Number of themes.
pub const N_THEMES: usize = 5;

/// Number of colours in every palette.
pub const N_HUES: usize = 8;

impl Theme {
    /// The theme at a position; positions wrap.
    pub open spec fn nth(index: usize) -> Theme {
        if index % N_THEMES == 0 {
            Theme::DefaultDark
        } else if index % N_THEMES == 1 {
            Theme::DefaultLight
        } else if index % N_THEMES == 2 {
            Theme::VimDesert
        } else if index % N_THEMES == 3 {
            Theme::SolarizedDark
        } else {
            Theme::Gruvbox
        }
    }

    /// The theme at a position; positions wrap.
    pub fn at(index: usize) -> (r: Theme)
        ensures
            r == Theme::nth(index),
    {
        let slot: usize = index % N_THEMES;
        if slot == 0 {
            Theme::DefaultDark
        } else if slot == 1 {
            Theme::DefaultLight
        } else if slot == 2 {
            Theme::VimDesert
        } else if slot == 3 {
            Theme::SolarizedDark
        } else {
            Theme::Gruvbox
        }
    }

    /// Display name.
    pub open spec fn title(self) -> Seq<char> {
        match self {
            Theme::DefaultDark => "default-dark"@,
            Theme::DefaultLight => "default-light"@,
            Theme::VimDesert => "vim-desert"@,
            Theme::SolarizedDark => "solarized-dark"@,
            Theme::Gruvbox => "gruvbox"@,
        }
    }

    /// Display name.
    pub fn name(self) -> (r: &'static str)
        ensures
            r@ == self.title(),
    {
        match self {
            Theme::DefaultDark => "default-dark",
            Theme::DefaultLight => "default-light",
            Theme::VimDesert => "vim-desert",
            Theme::SolarizedDark => "solarized-dark",
            Theme::Gruvbox => "gruvbox",
        }
    }

    /// Colours cycled across the traces.
    pub open spec fn palette(self) -> Seq<Hue> {
        match self {
            Theme::DefaultDark => seq![
                Hue::Cyan,
                Hue::LightMagenta,
                Hue::LightGreen,
                Hue::Yellow,
                Hue::LightBlue,
                Hue::LightRed,
                Hue::LightCyan,
                Hue::White,
            ],
            Theme::DefaultLight => seq![
                Hue::Blue,
                Hue::Magenta,
                Hue::Green,
                Hue::Red,
                Hue::Cyan,
                Hue::DarkGray,
                Hue::Yellow,
                Hue::Black,
            ],
            Theme::VimDesert => seq![
                Hue::Yellow,
                Hue::LightRed,
                Hue::LightGreen,
                Hue::LightCyan,
                Hue::LightMagenta,
                Hue::Cyan,
                Hue::White,
                Hue::LightBlue,
            ],
            Theme::SolarizedDark => seq![
                Hue::LightBlue,
                Hue::LightGreen,
                Hue::LightMagenta,
                Hue::Yellow,
                Hue::LightCyan,
                Hue::LightRed,
                Hue::Cyan,
                Hue::White,
            ],
            Theme::Gruvbox => seq![
                Hue::LightRed,
                Hue::Yellow,
                Hue::LightGreen,
                Hue::Cyan,
                Hue::LightBlue,
                Hue::LightMagenta,
                Hue::White,
                Hue::Gray,
            ],
        }
    }

    /// The colour of a palette slot; slots wrap.
    pub open spec fn slot_hue(self, color_idx: usize) -> Hue {
        self.palette()[(color_idx % N_HUES) as int]
    }

    /// The colour of a palette slot; slots wrap.
    pub fn vm_color(self, color_idx: usize) -> (r: Hue)
        ensures
            r == self.slot_hue(color_idx),
    {
        let slot: usize = color_idx % N_HUES;
        match self {
            Theme::DefaultDark => {
                if slot == 0 {
                    Hue::Cyan
                } else if slot == 1 {
                    Hue::LightMagenta
                } else if slot == 2 {
                    Hue::LightGreen
                } else if slot == 3 {
                    Hue::Yellow
                } else if slot == 4 {
                    Hue::LightBlue
                } else if slot == 5 {
                    Hue::LightRed
                } else if slot == 6 {
                    Hue::LightCyan
                } else {
                    Hue::White
                }
            },
            Theme::DefaultLight => {
                if slot == 0 {
                    Hue::Blue
                } else if slot == 1 {
                    Hue::Magenta
                } else if slot == 2 {
                    Hue::Green
                } else if slot == 3 {
                    Hue::Red
                } else if slot == 4 {
                    Hue::Cyan
                } else if slot == 5 {
                    Hue::DarkGray
                } else if slot == 6 {
                    Hue::Yellow
                } else {
                    Hue::Black
                }
            },
            Theme::VimDesert => {
                if slot == 0 {
                    Hue::Yellow
                } else if slot == 1 {
                    Hue::LightRed
                } else if slot == 2 {
                    Hue::LightGreen
                } else if slot == 3 {
                    Hue::LightCyan
                } else if slot == 4 {
                    Hue::LightMagenta
                } else if slot == 5 {
                    Hue::Cyan
                } else if slot == 6 {
                    Hue::White
                } else {
                    Hue::LightBlue
                }
            },
            Theme::SolarizedDark => {
                if slot == 0 {
                    Hue::LightBlue
                } else if slot == 1 {
                    Hue::LightGreen
                } else if slot == 2 {
                    Hue::LightMagenta
                } else if slot == 3 {
                    Hue::Yellow
                } else if slot == 4 {
                    Hue::LightCyan
                } else if slot == 5 {
                    Hue::LightRed
                } else if slot == 6 {
                    Hue::Cyan
                } else {
                    Hue::White
                }
            },
            Theme::Gruvbox => {
                if slot == 0 {
                    Hue::LightRed
                } else if slot == 1 {
                    Hue::Yellow
                } else if slot == 2 {
                    Hue::LightGreen
                } else if slot == 3 {
                    Hue::Cyan
                } else if slot == 4 {
                    Hue::LightBlue
                } else if slot == 5 {
                    Hue::LightMagenta
                } else if slot == 6 {
                    Hue::White
                } else {
                    Hue::Gray
                }
            },
        }
    }

    /// Colour of the aggregate line and the `TOTAL` row.
    pub open spec fn aggregate_hue(self) -> Hue {
        match self {
            Theme::DefaultDark => Hue::Gray,
            Theme::DefaultLight => Hue::DarkGray,
            Theme::VimDesert => Hue::Gray,
            Theme::SolarizedDark => Hue::DarkGray,
            Theme::Gruvbox => Hue::DarkGray,
        }
    }

    /// Colour of the aggregate line and the `TOTAL` row.
    pub fn aggregate(self) -> (r: Hue)
        ensures
            r == self.aggregate_hue(),
    {
        match self {
            Theme::DefaultDark => Hue::Gray,
            Theme::DefaultLight => Hue::DarkGray,
            Theme::VimDesert => Hue::Gray,
            Theme::SolarizedDark => Hue::DarkGray,
            Theme::Gruvbox => Hue::DarkGray,
        }
    }

    /// Colour of the axis labels.
    pub open spec fn axis_hue(self) -> Hue {
        match self {
            Theme::DefaultDark => Hue::DarkGray,
            Theme::DefaultLight => Hue::Gray,
            Theme::VimDesert => Hue::DarkGray,
            Theme::SolarizedDark => Hue::DarkGray,
            Theme::Gruvbox => Hue::DarkGray,
        }
    }

    /// Colour of the axis labels.
    pub fn axis(self) -> (r: Hue)
        ensures
            r == self.axis_hue(),
    {
        match self {
            Theme::DefaultDark => Hue::DarkGray,
            Theme::DefaultLight => Hue::Gray,
            Theme::VimDesert => Hue::DarkGray,
            Theme::SolarizedDark => Hue::DarkGray,
            Theme::Gruvbox => Hue::DarkGray,
        }
    }

    /// Colour of one-off accents.
    pub open spec fn accent_hue(self) -> Hue {
        match self {
            Theme::DefaultDark => Hue::Magenta,
            Theme::DefaultLight => Hue::Blue,
            Theme::VimDesert => Hue::Yellow,
            Theme::SolarizedDark => Hue::LightCyan,
            Theme::Gruvbox => Hue::LightRed,
        }
    }

    /// Colour of one-off accents.
    pub fn accent(self) -> (r: Hue)
        ensures
            r == self.accent_hue(),
    {
        match self {
            Theme::DefaultDark => Hue::Magenta,
            Theme::DefaultLight => Hue::Blue,
            Theme::VimDesert => Hue::Yellow,
            Theme::SolarizedDark => Hue::LightCyan,
            Theme::Gruvbox => Hue::LightRed,
        }
    }

    /// Colour behind everything.
    pub open spec fn background_hue(self) -> Hue {
        match self {
            Theme::DefaultDark => Hue::Black,
            Theme::DefaultLight => Hue::White,
            Theme::VimDesert => Hue::Rgb(0x33, 0x2d, 0x29),
            Theme::SolarizedDark => Hue::Rgb(0x00, 0x2b, 0x36),
            Theme::Gruvbox => Hue::Rgb(0x1d, 0x20, 0x21),
        }
    }

    /// Colour behind everything.
    pub fn background(self) -> (r: Hue)
        ensures
            r == self.background_hue(),
    {
        match self {
            Theme::DefaultDark => Hue::Black,
            Theme::DefaultLight => Hue::White,
            Theme::VimDesert => Hue::Rgb(0x33, 0x2d, 0x29),
            Theme::SolarizedDark => Hue::Rgb(0x00, 0x2b, 0x36),
            Theme::Gruvbox => Hue::Rgb(0x1d, 0x20, 0x21),
        }
    }
}

/// The colour for the second and third line of a VM in one pane.
pub open spec fn dimmed(c: Hue) -> Hue {
    match c {
        Hue::Cyan => Hue::Blue,
        Hue::LightMagenta => Hue::Magenta,
        Hue::LightGreen => Hue::Green,
        Hue::Yellow => Hue::LightYellow,
        Hue::LightBlue => Hue::Blue,
        Hue::LightRed => Hue::Red,
        Hue::LightCyan => Hue::DarkGray,
        Hue::White => Hue::Gray,
        other => other,
    }
}

/// Darken a palette colour.
pub fn dim(c: Hue) -> (r: Hue)
    ensures
        r == dimmed(c),
{
    match c {
        Hue::Cyan => Hue::Blue,
        Hue::LightMagenta => Hue::Magenta,
        Hue::LightGreen => Hue::Green,
        Hue::Yellow => Hue::LightYellow,
        Hue::LightBlue => Hue::Blue,
        Hue::LightRed => Hue::Red,
        Hue::LightCyan => Hue::DarkGray,
        Hue::White => Hue::Gray,
        other => other,
    }
}

/// Within every theme, different palette slots have different colours.
pub proof fn palettes_tell_slots_apart(theme: Theme, i: usize, j: usize)
    requires
        i % N_HUES != j % N_HUES,
    ensures
        theme.palette().len() == N_HUES,
        theme.slot_hue(i) != theme.slot_hue(j),
{
}

/// The fleet is drawn in grey, and every theme paints a background that none of its
/// text colours vanishes in.
pub proof fn the_fleet_is_grey(theme: Theme, i: usize)
    ensures
        theme.aggregate_hue() == Hue::Gray || theme.aggregate_hue() == Hue::DarkGray,
        theme.axis_hue() == Hue::Gray || theme.axis_hue() == Hue::DarkGray,
        theme.slot_hue(i) != theme.background_hue(),
        theme.accent_hue() != theme.background_hue(),
        theme.axis_hue() != theme.background_hue(),
        theme.aggregate_hue() != theme.background_hue(),
{
    let k = i % N_HUES;
    assert(0 <= k < 8);
}

/// Theme numbers come round after the five themes, and no two of them are the same.
pub proof fn there_are_five_themes(i: usize, j: usize)
    requires
        i < 5,
        j < 5,
    ensures
        i != j ==> Theme::nth(i) != Theme::nth(j),
        Theme::nth(0) == Theme::DefaultDark,
        Theme::nth(1) == Theme::DefaultLight,
        Theme::nth(2) == Theme::VimDesert,
        Theme::nth(3) == Theme::SolarizedDark,
        Theme::nth(4) == Theme::Gruvbox,
{
}

/// Slots that are a palette apart share their colour.
pub proof fn colours_come_round(theme: Theme, i: usize)
    requires
        i + 8 <= usize::MAX,
    ensures
        theme.slot_hue((i + 8) as usize) == theme.slot_hue(i),
{
    assert((i + 8) % 8 == i % 8);
}

/// A light colour dims to the plain one, and a colour without a darker neighbour
/// stays.
pub proof fn light_colours_dim_to_plain_ones(r: u8, g: u8, b: u8)
    ensures
        dimmed(Hue::LightRed) == Hue::Red,
        dimmed(Hue::LightGreen) == Hue::Green,
        dimmed(Hue::LightBlue) == Hue::Blue,
        dimmed(Hue::LightMagenta) == Hue::Magenta,
        dimmed(Hue::LightCyan) == Hue::DarkGray,
        dimmed(Hue::White) == Hue::Gray,
        dimmed(Hue::Cyan) == Hue::Blue,
        dimmed(Hue::Yellow) == Hue::LightYellow,
        dimmed(Hue::Rgb(r, g, b)) == Hue::Rgb(r, g, b),
        forall|c: Hue| #[trigger] dimmed(dimmed(dimmed(c))) == dimmed(dimmed(c)),
{
}

} // verus!
