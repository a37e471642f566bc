//! The dashboard's color theme (Catppuccin Mocha).

use vstd::prelude::*;

verus! {

/// A 24-bit color.
#[derive(Debug, Clone, Copy, PartialEq, Eq, Structural)]
pub struct Rgb {
    pub r: u8,
    pub g: u8,
    pub b: u8,
}

/// The colors the dashboard draws with.
#[derive(Debug, Clone, Copy, PartialEq, Eq, Structural)]
pub struct Theme {
    pub base: Rgb,
    pub surface0: Rgb,
    pub surface1: Rgb,
    pub surface2: Rgb,
    pub overlay0: Rgb,
    pub overlay1: Rgb,
    pub overlay2: Rgb,
    pub subtext0: Rgb,
    pub subtext1: Rgb,
    pub text: Rgb,
    pub accent_blue: Rgb,
    pub accent_teal: Rgb,
    pub accent_yellow: Rgb,
    pub accent_green: Rgb,
    pub accent_red: Rgb,
    pub accent_orange: Rgb,
    pub accent_purple: Rgb,
    pub bg_dark: Rgb,
    pub bg_panel: Rgb,
    pub border: Rgb,
}

/// The color with these three components.
pub open spec fn rgb(r: u8, g: u8, b: u8) -> Rgb {
    Rgb { r, g, b }
}

/// The Catppuccin Mocha palette, as the dashboard assigns it.
pub open spec fn catppuccin_mocha_spec() -> Theme {
    Theme {
        base: rgb(30, 30, 46),
        surface0: rgb(49, 50, 68),
        surface1: rgb(69, 71, 90),
        surface2: rgb(88, 91, 112),
        overlay0: rgb(108, 112, 134),
        overlay1: rgb(127, 132, 156),
        overlay2: rgb(147, 153, 178),
        subtext0: rgb(166, 173, 200),
        subtext1: rgb(186, 194, 222),
        text: rgb(205, 214, 244),
        accent_blue: rgb(137, 180, 250),
        accent_teal: rgb(148, 226, 213),
        accent_yellow: rgb(249, 226, 175),
        accent_green: rgb(166, 227, 161),
        accent_red: rgb(243, 139, 168),
        accent_orange: rgb(250, 179, 135),
        accent_purple: rgb(203, 166, 247),
        bg_dark: rgb(24, 24, 37),
        bg_panel: rgb(30, 30, 46),
        border: rgb(69, 71, 90),
    }
}

/// The Catppuccin Mocha theme.
pub fn catppuccin_mocha() -> (t: Theme)
    ensures
        t == catppuccin_mocha_spec(),
{
    Theme {
        base: Rgb { r: 30, g: 30, b: 46 },
        surface0: Rgb { r: 49, g: 50, b: 68 },
        surface1: Rgb { r: 69, g: 71, b: 90 },
        surface2: Rgb { r: 88, g: 91, b: 112 },
        overlay0: Rgb { r: 108, g: 112, b: 134 },
        overlay1: Rgb { r: 127, g: 132, b: 156 },
        overlay2: Rgb { r: 147, g: 153, b: 178 },
        subtext0: Rgb { r: 166, g: 173, b: 200 },
        subtext1: Rgb { r: 186, g: 194, b: 222 },
        text: Rgb { r: 205, g: 214, b: 244 },
        accent_blue: Rgb { r: 137, g: 180, b: 250 },
        accent_teal: Rgb { r: 148, g: 226, b: 213 },
        accent_yellow: Rgb { r: 249, g: 226, b: 175 },
        accent_green: Rgb { r: 166, g: 227, b: 161 },
        accent_red: Rgb { r: 243, g: 139, b: 168 },
        accent_orange: Rgb { r: 250, g: 179, b: 135 },
        accent_purple: Rgb { r: 203, g: 166, b: 247 },
        bg_dark: Rgb { r: 24, g: 24, b: 37 },
        bg_panel: Rgb { r: 30, g: 30, b: 46 },
        border: Rgb { r: 69, g: 71, b: 90 },
    }
}

} // verus!
