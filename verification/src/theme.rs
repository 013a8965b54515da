//! Chrome color palette for the native GUI, derived from a Herdr theme palette.

use vstd::prelude::*;
use crate::color::Rgb;

verus! {

/// A terminal color as a theme names it: a reset, one of the sixteen named
/// ANSI colors, an xterm-256 index, or a 24-bit RGB value.
#[derive(Debug, Clone, Copy, PartialEq, Eq, Structural)]
pub enum Color {
    Reset,
    Black,
    Red,
    Green,
    Yellow,
    Blue,
    Magenta,
    Cyan,
    Gray,
    DarkGray,
    LightRed,
    LightGreen,
    LightYellow,
    LightBlue,
    LightMagenta,
    LightCyan,
    White,
    Rgb(u8, u8, u8),
    Indexed(u8),
}

/// The theme colors the chrome is painted with.
#[derive(Debug, Clone, Copy, PartialEq, Eq, Structural)]
pub struct Palette {
    pub surface_dim: Color,
    pub panel_bg: Color,
    pub surface0: Color,
    pub surface1: Color,
    pub text: Color,
    pub subtext0: Color,
    pub overlay0: Color,
    pub accent: Color,
    pub red: Color,
    pub yellow: Color,
    pub blue: Color,
    pub green: Color,
}

/// RGB colors for native chrome widgets (sidebar, tabs, modals).
#[derive(Debug, Clone, Copy)]
pub struct ChromePalette {
    pub base: Rgb,
    pub mantle: Rgb,
    pub crust: Rgb,
    pub surface0: Rgb,
    pub surface1: Rgb,
    pub text: Rgb,
    pub subtext: Rgb,
    pub overlay: Rgb,
    pub accent: Rgb,
    pub red: Rgb,
    pub yellow: Rgb,
    pub blue: Rgb,
    pub green: Rgb,
}

/// The RGB the chrome paints a theme color with. Named colors use fixed
/// VS Code-like values; indexed colors and `Reset` use the default
/// foreground.
pub open spec fn spec_color_to_rgb(color: Color) -> Rgb {
    match color {
        Color::Rgb(r, g, b) => (r, g, b),
        Color::Black => (0, 0, 0),
        Color::Red => (205, 49, 49),
        Color::Green => (13, 188, 121),
        Color::Yellow => (229, 229, 16),
        Color::Blue => (36, 114, 200),
        Color::Magenta => (188, 63, 188),
        Color::Cyan => (17, 168, 205),
        Color::Gray => (128, 128, 128),
        Color::DarkGray => (95, 95, 95),
        Color::LightRed => (241, 76, 76),
        Color::LightGreen => (35, 209, 139),
        Color::LightYellow => (245, 245, 67),
        Color::LightBlue => (59, 142, 234),
        Color::LightMagenta => (210, 84, 210),
        Color::LightCyan => (41, 184, 219),
        Color::White => (229, 229, 229),
        Color::Indexed(_) | Color::Reset => (205, 214, 244),
    }
}

pub fn color_to_rgb(color: Color) -> (c: Rgb)
    ensures
        c == spec_color_to_rgb(color),
{
    match color {
        Color::Rgb(r, g, b) => (r, g, b),
        Color::Black => (0, 0, 0),
        Color::Red => (205, 49, 49),
        Color::Green => (13, 188, 121),
        Color::Yellow => (229, 229, 16),
        Color::Blue => (36, 114, 200),
        Color::Magenta => (188, 63, 188),
        Color::Cyan => (17, 168, 205),
        Color::Gray => (128, 128, 128),
        Color::DarkGray => (95, 95, 95),
        Color::LightRed => (241, 76, 76),
        Color::LightGreen => (35, 209, 139),
        Color::LightYellow => (245, 245, 67),
        Color::LightBlue => (59, 142, 234),
        Color::LightMagenta => (210, 84, 210),
        Color::LightCyan => (41, 184, 219),
        Color::White => (229, 229, 229),
        Color::Indexed(_) | Color::Reset => (205, 214, 244),
    }
}

/// Four fifths of a channel, rounded down.
pub open spec fn darken_channel(v: u8) -> u8 {
    (v * 8 / 10) as u8
}

/// The color at four fifths of the chrome RGB of `color`.
pub open spec fn spec_darker(color: Color) -> Color {
    let (r, g, b) = spec_color_to_rgb(color);
    Color::Rgb(darken_channel(r), darken_channel(g), darken_channel(b))
}

pub fn darker(color: Color) -> (d: Color)
    ensures
        d == spec_darker(color),
{
    let (r, g, b) = color_to_rgb(color);
    let dr: u16 = r as u16 * 8 / 10;
    let dg: u16 = g as u16 * 8 / 10;
    let db: u16 = b as u16 * 8 / 10;
    Color::Rgb(
        if dr < 255 { dr as u8 } else { 255 },
        if dg < 255 { dg as u8 } else { 255 },
        if db < 255 { db as u8 } else { 255 },
    )
}

/// The chrome colors of a theme palette.
pub open spec fn spec_chrome_palette(palette: Palette) -> ChromePalette {
    ChromePalette {
        base: spec_color_to_rgb(palette.surface_dim),
        mantle: spec_color_to_rgb(palette.panel_bg),
        crust: spec_color_to_rgb(spec_darker(palette.panel_bg)),
        surface0: spec_color_to_rgb(palette.surface0),
        surface1: spec_color_to_rgb(palette.surface1),
        text: spec_color_to_rgb(palette.text),
        subtext: spec_color_to_rgb(palette.subtext0),
        overlay: spec_color_to_rgb(palette.overlay0),
        accent: spec_color_to_rgb(palette.accent),
        red: spec_color_to_rgb(palette.red),
        yellow: spec_color_to_rgb(palette.yellow),
        blue: spec_color_to_rgb(palette.blue),
        green: spec_color_to_rgb(palette.green),
    }
}

impl ChromePalette {
    /// The chrome colors of the configured theme. `configured` is the
    /// palette the configured theme name resolves to, with the theme's
    /// custom overrides applied, or `None` when the name is unknown; then
    /// `default_theme`, the built-in default palette, is used.
    pub fn from_config(configured: Option<Palette>, default_theme: Palette) -> (c: Self)
        ensures
            c == spec_chrome_palette(
                match configured {
                    Some(p) => p,
                    None => default_theme,
                },
            ),
    {
        let palette = match configured {
            Some(p) => p,
            None => default_theme,
        };
        Self::from_palette(&palette)
    }

    pub fn from_palette(palette: &Palette) -> (c: Self)
        ensures
            c == spec_chrome_palette(*palette),
    {
        ChromePalette {
            base: color_to_rgb(palette.surface_dim),
            mantle: color_to_rgb(palette.panel_bg),
            crust: color_to_rgb(darker(palette.panel_bg)),
            surface0: color_to_rgb(palette.surface0),
            surface1: color_to_rgb(palette.surface1),
            text: color_to_rgb(palette.text),
            subtext: color_to_rgb(palette.subtext0),
            overlay: color_to_rgb(palette.overlay0),
            accent: color_to_rgb(palette.accent),
            red: color_to_rgb(palette.red),
            yellow: color_to_rgb(palette.yellow),
            blue: color_to_rgb(palette.blue),
            green: color_to_rgb(palette.green),
        }
    }
}

/// The crust is never brighter than the mantle it is derived from.
pub proof fn lemma_crust_darker_than_mantle(palette: Palette)
    ensures
        ({
            let mantle = spec_color_to_rgb(palette.panel_bg);
            let crust = spec_color_to_rgb(spec_darker(palette.panel_bg));
            crust.0 <= mantle.0 && crust.1 <= mantle.1 && crust.2 <= mantle.2
        }),
{
}

/// The hue of a named theme color shows in its channels: red is led by
/// its red channel, green by green and blue by blue; yellow mixes red and
/// green over blue, magenta red and blue over green, cyan green and blue
/// over red; each light color is at least as bright as its base color in
/// every channel; gray is brighter than dark gray; RGB colors pass through.
pub proof fn lemma_theme_colors_show_their_hue(r: u8, g: u8, b: u8)
    ensures
        ({
            let c = |x: Color| spec_color_to_rgb(x);
            &&& c(Color::Red).0 > c(Color::Red).1 && c(Color::Red).0 > c(Color::Red).2
            &&& c(Color::Green).1 > c(Color::Green).0 && c(Color::Green).1 > c(Color::Green).2
            &&& c(Color::Blue).2 > c(Color::Blue).0 && c(Color::Blue).2 > c(Color::Blue).1
            &&& c(Color::Yellow).0 > c(Color::Yellow).2 && c(Color::Yellow).1 > c(Color::Yellow).2
            &&& c(Color::Magenta).0 > c(Color::Magenta).1 && c(Color::Magenta).2 > c(Color::Magenta).1
            &&& c(Color::Cyan).1 > c(Color::Cyan).0 && c(Color::Cyan).2 > c(Color::Cyan).0
            &&& c(Color::LightRed).0 > c(Color::LightRed).1 && c(Color::LightRed).0 > c(Color::LightRed).2
            &&& c(Color::LightGreen).1 > c(Color::LightGreen).0 && c(Color::LightGreen).1 > c(Color::LightGreen).2
            &&& c(Color::LightBlue).2 > c(Color::LightBlue).0 && c(Color::LightBlue).2 > c(Color::LightBlue).1
            &&& c(Color::LightYellow).0 > c(Color::LightYellow).2 && c(Color::LightYellow).1 > c(Color::LightYellow).2
            &&& c(Color::LightMagenta).0 > c(Color::LightMagenta).1 && c(Color::LightMagenta).2 > c(Color::LightMagenta).1
            &&& c(Color::LightCyan).1 > c(Color::LightCyan).0 && c(Color::LightCyan).2 > c(Color::LightCyan).0
            &&& c(Color::LightRed).0 >= c(Color::Red).0 && c(Color::LightRed).1 >= c(Color::Red).1 && c(Color::LightRed).2 >= c(Color::Red).2
            &&& c(Color::LightGreen).0 >= c(Color::Green).0 && c(Color::LightGreen).1 >= c(Color::Green).1 && c(Color::LightGreen).2 >= c(Color::Green).2
            &&& c(Color::LightBlue).0 >= c(Color::Blue).0 && c(Color::LightBlue).1 >= c(Color::Blue).1 && c(Color::LightBlue).2 >= c(Color::Blue).2
            &&& c(Color::LightYellow).0 >= c(Color::Yellow).0 && c(Color::LightYellow).1 >= c(Color::Yellow).1 && c(Color::LightYellow).2 >= c(Color::Yellow).2
            &&& c(Color::LightMagenta).0 >= c(Color::Magenta).0 && c(Color::LightMagenta).1 >= c(Color::Magenta).1 && c(Color::LightMagenta).2 >= c(Color::Magenta).2
            &&& c(Color::LightCyan).0 >= c(Color::Cyan).0 && c(Color::LightCyan).1 >= c(Color::Cyan).1 && c(Color::LightCyan).2 >= c(Color::Cyan).2
            &&& c(Color::Black) == (0u8, 0u8, 0u8)
            &&& c(Color::Gray).0 == c(Color::Gray).1 && c(Color::Gray).1 == c(Color::Gray).2
            &&& c(Color::DarkGray).0 == c(Color::DarkGray).1 && c(Color::DarkGray).1 == c(Color::DarkGray).2
            &&& c(Color::DarkGray).0 < c(Color::Gray).0
            &&& c(Color::Rgb(r, g, b)) == (r, g, b)
        }),
{
}

} // verus!
