//! The console's visual identity: a palette of roles.
//!
//! A colour is a number, eight bits each of red, green and blue.

use vstd::prelude::*;

verus! {

pub type Rgb = u32;

pub const BG: Rgb = 0x06080b;

pub const PANEL: Rgb = 0x0d1115;

pub const PANEL_ALT: Rgb = 0x0a0d10;

pub const LINE: Rgb = 0x1c242a;

pub const LINE_BRIGHT: Rgb = 0x29333b;

pub const TEXT: Rgb = 0xc6d3dc;

pub const DIM: Rgb = 0x6e7f8c;

pub const DIMMER: Rgb = 0x46535d;

pub const AMBER: Rgb = 0xe6ab44;

pub const GREEN: Rgb = 0x4ec97e;

pub const RED: Rgb = 0xe2543c;

pub const BLUE: Rgb = 0x5aa6d8;

pub const VIOLET: Rgb = 0x9b7fd4;

pub const SELECT: Rgb = 0x1c4d6b;

pub const SELECT_LINE: Rgb = 0x4d94c0;

/// The colour of a capability that is absent. Absent is not the same as off.
pub const ABSENT: Rgb = 0x46535d;

/// A radio's published theme, with the shades that are mixed from it.
#[derive(Debug, Clone, Copy, PartialEq, Eq, Structural)]
pub struct Theme {
    pub background: Rgb,
    pub panel: Rgb,
    pub ink: Rgb,
    pub accent: Rgb,
    pub signal: Rgb,
    pub warning: Rgb,
    pub trough: Rgb,
    pub line: Rgb,
    pub dim: Rgb,
    pub absent: Rgb,
}

/// What a colour is for.
#[derive(Debug, Clone, Copy, PartialEq, Eq, Structural)]
pub enum Role {
    Bg,
    Panel,
    PanelAlt,
    Line,
    Text,
    Dim,
    Absent,
    Accent,
    Signal,
    Warning,
}

/// One colour for every role.
#[derive(Debug, Clone, Copy, PartialEq, Eq, Structural)]
pub struct Palette {
    pub bg: Rgb,
    pub panel: Rgb,
    pub panel_alt: Rgb,
    pub line: Rgb,
    pub text: Rgb,
    pub dim: Rgb,
    pub absent: Rgb,
    /// A value that has been set, a filter edge: what this rig highlights.
    pub accent: Rgb,
    /// A meter fill, a spectrum trace.
    pub signal: Rgb,
    /// Transmit, and anything that should stop somebody.
    pub warning: Rgb,
}

/// The console's own palette.
pub open spec fn own_palette() -> Palette {
    Palette {
        bg: BG,
        panel: PANEL,
        panel_alt: PANEL_ALT,
        line: LINE,
        text: TEXT,
        dim: DIM,
        absent: ABSENT,
        accent: AMBER,
        signal: GREEN,
        warning: RED,
    }
}

/// The palette of a theme: every role comes from the radio.
pub open spec fn theme_palette(theme: Theme) -> Palette {
    Palette {
        bg: theme.background,
        panel: theme.panel,
        panel_alt: theme.trough,
        line: theme.line,
        text: theme.ink,
        dim: theme.dim,
        absent: theme.absent,
        accent: theme.accent,
        signal: theme.signal,
        warning: theme.warning,
    }
}

impl Palette {
    /// The console's own colours, for a server that published none.
    pub fn console_default() -> (r: Palette)
        ensures
            r == own_palette(),
    {
        Palette {
            bg: BG,
            panel: PANEL,
            panel_alt: PANEL_ALT,
            line: LINE,
            text: TEXT,
            dim: DIM,
            absent: ABSENT,
            accent: AMBER,
            signal: GREEN,
            warning: RED,
        }
    }

    /// A radio's published palette.
    pub fn from_theme(theme: &Theme) -> (r: Palette)
        ensures
            r == theme_palette(*theme),
    {
        Palette {
            bg: theme.background,
            panel: theme.panel,
            panel_alt: theme.trough,
            line: theme.line,
            text: theme.ink,
            dim: theme.dim,
            absent: theme.absent,
            accent: theme.accent,
            signal: theme.signal,
            warning: theme.warning,
        }
    }

    /// The palette for a radio, falling back to the console's own.
    pub fn for_radio(theme: Option<&Theme>) -> (r: Palette)
        ensures
            r == (match theme {
                Some(t) => theme_palette(*t),
                None => own_palette(),
            }),
    {
        match theme {
            Some(t) => Palette::from_theme(t),
            None => Palette::console_default(),
        }
    }

    pub open spec fn colour_of(self, role: Role) -> Rgb {
        match role {
            Role::Bg => self.bg,
            Role::Panel => self.panel,
            Role::PanelAlt => self.panel_alt,
            Role::Line => self.line,
            Role::Text => self.text,
            Role::Dim => self.dim,
            Role::Absent => self.absent,
            Role::Accent => self.accent,
            Role::Signal => self.signal,
            Role::Warning => self.warning,
        }
    }

    /// The colour of a role.
    pub fn colour(&self, role: Role) -> (r: Rgb)
        ensures
            r == self.colour_of(role),
    {
        match role {
            Role::Bg => self.bg,
            Role::Panel => self.panel,
            Role::PanelAlt => self.panel_alt,
            Role::Line => self.line,
            Role::Text => self.text,
            Role::Dim => self.dim,
            Role::Absent => self.absent,
            Role::Accent => self.accent,
            Role::Signal => self.signal,
            Role::Warning => self.warning,
        }
    }
}

impl Default for Palette {
    fn default() -> (r: Self)
        ensures
            r == own_palette(),
    {
        Palette::console_default()
    }
}

/// Colours an audio panel draws with.
#[derive(Debug, Clone, Copy, PartialEq, Eq, Structural)]
pub struct AfStyle {
    /// The trace and the bars.
    pub ink: Rgb,
    /// The zero line, and everything that does not stream.
    pub dim: Rgb,
    pub trough: Rgb,
    /// The filter's edges.
    pub setting: Rgb,
}

/// The audio panels in a palette. A filter's edges have the colour of a
/// setting, so that they do not read as a signal.
pub fn af_style(palette: &Palette) -> (r: AfStyle)
    ensures
        r == (AfStyle {
            ink: palette.signal,
            dim: palette.absent,
            trough: palette.panel_alt,
            setting: palette.accent,
        }),
{
    AfStyle {
        ink: palette.signal,
        dim: palette.absent,
        trough: palette.panel_alt,
        setting: palette.accent,
    }
}

/// The audio panels where nobody chose a palette: those of the console's own.
pub fn default_style() -> (r: AfStyle)
    ensures
        r == (AfStyle { ink: 0x4ec97e, dim: 0x46535d, trough: 0x0a0d10, setting: 0xe6ab44 }),
{
    AfStyle { ink: 0x4ec97e, dim: 0x46535d, trough: 0x0a0d10, setting: 0xe6ab44 }
}

/// The red, green and blue of a colour.
pub open spec fn channels(colour: Rgb) -> (int, int, int) {
    (colour as int / 65536, colour as int / 256 % 256, colour as int % 256)
}

/// A radio's theme gives every role its own colour of it.
pub proof fn a_theme_gives_every_role_its_colour(theme: Theme)
    ensures
        ({
            let p = theme_palette(theme);
            &&& p.colour_of(Role::Bg) == theme.background
            &&& p.colour_of(Role::Panel) == theme.panel
            &&& p.colour_of(Role::PanelAlt) == theme.trough
            &&& p.colour_of(Role::Line) == theme.line
            &&& p.colour_of(Role::Text) == theme.ink
            &&& p.colour_of(Role::Dim) == theme.dim
            &&& p.colour_of(Role::Absent) == theme.absent
            &&& p.colour_of(Role::Accent) == theme.accent
            &&& p.colour_of(Role::Signal) == theme.signal
            &&& p.colour_of(Role::Warning) == theme.warning
        }),
{
}

/// The console's own colours say what they should: a warning is red above all,
/// a signal green above all, text is lighter than what is dimmed, that is
/// lighter than what is absent, and all of them are lighter than their ground.
pub proof fn the_own_colours_say_what_they_should()
    ensures
        ({
            let p = own_palette();
            let warning = channels(p.colour_of(Role::Warning));
            let signal = channels(p.colour_of(Role::Signal));
            let text = channels(p.colour_of(Role::Text));
            let dim = channels(p.colour_of(Role::Dim));
            let absent = channels(p.colour_of(Role::Absent));
            let ground = channels(p.colour_of(Role::Bg));
            &&& warning.0 > warning.1 && warning.0 > warning.2
            &&& signal.1 > signal.0 && signal.1 > signal.2
            &&& text.0 > dim.0 && text.1 > dim.1 && text.2 > dim.2
            &&& dim.0 > absent.0 && dim.1 > absent.1 && dim.2 > absent.2
            &&& absent.0 > ground.0 && absent.1 > ground.1 && absent.2 > ground.2
            &&& p.colour_of(Role::Accent) != p.colour_of(Role::Signal)
        }),
{
}

} // verus!
