//! Colour themes for the terminal interface.
//!
//! Widgets take their colours from a [`Palette`] named by role rather than
//! hue. The default theme uses the terminal's own named colours, so it
//! inherits the user's palette and stays readable on a light background;
//! every other theme is RGB. Themes are stored by slug, and indexes written
//! by the first release still resolve through the order that release used.

use vstd::prelude::*;
use crate::config::ThemeRef;
use crate::fit::{FitLevel, RunMode};
use crate::text::{chars_of, eq_str, lower_seq, lower_vec, replace_chars, replace_vec, trim, trim_vec, trim_start, trim_end};

verus! {

/// A terminal colour: one of the terminal's named colours, or RGB.
#[derive(Debug, Clone, Copy, PartialEq, Eq, Structural)]
pub enum Color {
    Reset,
    DarkGray,
    Green,
    Yellow,
    Red,
    Magenta,
    Cyan,
    Rgb(u8, u8, u8),
}

/// Semantic colours the widgets draw with.
#[derive(Debug, Clone, Copy, PartialEq, Eq, Structural)]
pub struct Palette {
    /// Titles, active fields, the use-case badge.
    pub accent: Color,
    /// Body text.
    pub text: Color,
    /// Labels and anything secondary.
    pub dim: Color,
    /// Background of the selected row.
    pub selection: Color,
    /// Perfect fit, high scores, an installed model.
    pub good: Color,
    /// Good fit, mid scores.
    pub ok: Color,
    /// Marginal fit, low scores, warnings.
    pub warn: Color,
    /// Does not fit, errors.
    pub bad: Color,
    /// How a model runs (MoE placement) rather than how well.
    pub special: Color,
}

#[derive(Debug, Clone, Copy, PartialEq, Eq, Structural)]
pub enum Theme {
    Default,
    Dracula,
    Nord,
    Solarized,
    Gruvbox,
    Monokai,
    TokyoNight,
    CatppuccinMocha,
    RosePine,
    Everforest,
    Kanagawa,
    OneDark,
    Ocean,
    Forest,
    Sunset,
    Slate,
    Aurora,
    Matrix,
    Sakura,
    ColourblindSafe,
    HighContrast,
}

/// The theme at position `i` of the cycling order.
pub open spec fn theme_at(i: nat) -> Option<Theme> {
    if i == 0 {
        Some(Theme::Default)
    }     else if i == 1 {
        Some(Theme::Dracula)
    }     else if i == 2 {
        Some(Theme::Nord)
    }     else if i == 3 {
        Some(Theme::Solarized)
    }     else if i == 4 {
        Some(Theme::Gruvbox)
    }     else if i == 5 {
        Some(Theme::Monokai)
    }     else if i == 6 {
        Some(Theme::TokyoNight)
    }     else if i == 7 {
        Some(Theme::CatppuccinMocha)
    }     else if i == 8 {
        Some(Theme::RosePine)
    }     else if i == 9 {
        Some(Theme::Everforest)
    }     else if i == 10 {
        Some(Theme::Kanagawa)
    }     else if i == 11 {
        Some(Theme::OneDark)
    }     else if i == 12 {
        Some(Theme::Ocean)
    }     else if i == 13 {
        Some(Theme::Forest)
    }     else if i == 14 {
        Some(Theme::Sunset)
    }     else if i == 15 {
        Some(Theme::Slate)
    }     else if i == 16 {
        Some(Theme::Aurora)
    }     else if i == 17 {
        Some(Theme::Matrix)
    }     else if i == 18 {
        Some(Theme::Sakura)
    }     else if i == 19 {
        Some(Theme::ColourblindSafe)
    }     else if i == 20 {
        Some(Theme::HighContrast)
    } else {
        None
    }
}

/// Where a theme sits in the cycling order.
pub open spec fn theme_pos(t: Theme) -> nat {
    match t {
        Theme::Default => 0,
        Theme::Dracula => 1,
        Theme::Nord => 2,
        Theme::Solarized => 3,
        Theme::Gruvbox => 4,
        Theme::Monokai => 5,
        Theme::TokyoNight => 6,
        Theme::CatppuccinMocha => 7,
        Theme::RosePine => 8,
        Theme::Everforest => 9,
        Theme::Kanagawa => 10,
        Theme::OneDark => 11,
        Theme::Ocean => 12,
        Theme::Forest => 13,
        Theme::Sunset => 14,
        Theme::Slate => 15,
        Theme::Aurora => 16,
        Theme::Matrix => 17,
        Theme::Sakura => 18,
        Theme::ColourblindSafe => 19,
        Theme::HighContrast => 20,
    }
}

/// The order the first release stored themes in, as bare numbers.
pub open spec fn legacy_at(i: nat) -> Option<Theme> {
    if i == 0 {
        Some(Theme::Default)
    }     else if i == 1 {
        Some(Theme::Dracula)
    }     else if i == 2 {
        Some(Theme::Nord)
    }     else if i == 3 {
        Some(Theme::Solarized)
    }     else if i == 4 {
        Some(Theme::Gruvbox)
    }     else if i == 5 {
        Some(Theme::Monokai)
    }     else if i == 6 {
        Some(Theme::TokyoNight)
    }     else if i == 7 {
        Some(Theme::Ocean)
    }     else if i == 8 {
        Some(Theme::Forest)
    }     else if i == 9 {
        Some(Theme::Sunset)
    } else {
        None
    }
}

pub open spec fn theme_name(t: Theme) -> Seq<char> {
    match t {
        Theme::Default => "Default"@,
        Theme::Dracula => "Dracula"@,
        Theme::Nord => "Nord"@,
        Theme::Solarized => "Solarized"@,
        Theme::Gruvbox => "Gruvbox"@,
        Theme::Monokai => "Monokai"@,
        Theme::TokyoNight => "Tokyo Night"@,
        Theme::CatppuccinMocha => "Catppuccin Mocha"@,
        Theme::RosePine => "Rosé Pine"@,
        Theme::Everforest => "Everforest"@,
        Theme::Kanagawa => "Kanagawa"@,
        Theme::OneDark => "One Dark"@,
        Theme::Ocean => "Ocean"@,
        Theme::Forest => "Forest"@,
        Theme::Sunset => "Sunset"@,
        Theme::Slate => "Slate"@,
        Theme::Aurora => "Aurora"@,
        Theme::Matrix => "Matrix"@,
        Theme::Sakura => "Sakura"@,
        Theme::ColourblindSafe => "Colourblind Safe"@,
        Theme::HighContrast => "High Contrast"@,
    }
}

/// The identifier a theme is stored under.
pub open spec fn theme_slug(t: Theme) -> Seq<char> {
    match t {
        Theme::Default => "default"@,
        Theme::Dracula => "dracula"@,
        Theme::Nord => "nord"@,
        Theme::Solarized => "solarized"@,
        Theme::Gruvbox => "gruvbox"@,
        Theme::Monokai => "monokai"@,
        Theme::TokyoNight => "tokyo-night"@,
        Theme::CatppuccinMocha => "catppuccin-mocha"@,
        Theme::RosePine => "rose-pine"@,
        Theme::Everforest => "everforest"@,
        Theme::Kanagawa => "kanagawa"@,
        Theme::OneDark => "one-dark"@,
        Theme::Ocean => "ocean"@,
        Theme::Forest => "forest"@,
        Theme::Sunset => "sunset"@,
        Theme::Slate => "slate"@,
        Theme::Aurora => "aurora"@,
        Theme::Matrix => "matrix"@,
        Theme::Sakura => "sakura"@,
        Theme::ColourblindSafe => "colourblind-safe"@,
        Theme::HighContrast => "high-contrast"@,
    }
}

/// The theme a normalised slug names; the American spelling of
/// "colourblind" is accepted too.
pub open spec fn theme_for_key(k: Seq<char>) -> Option<Theme> {
    if k == "colorblind-safe"@ {
        Some(Theme::ColourblindSafe)
    } else if k == "default"@ {
        Some(Theme::Default)
    } else if k == "dracula"@ {
        Some(Theme::Dracula)
    } else if k == "nord"@ {
        Some(Theme::Nord)
    } else if k == "solarized"@ {
        Some(Theme::Solarized)
    } else if k == "gruvbox"@ {
        Some(Theme::Gruvbox)
    } else if k == "monokai"@ {
        Some(Theme::Monokai)
    } else if k == "tokyo-night"@ {
        Some(Theme::TokyoNight)
    } else if k == "catppuccin-mocha"@ {
        Some(Theme::CatppuccinMocha)
    } else if k == "rose-pine"@ {
        Some(Theme::RosePine)
    } else if k == "everforest"@ {
        Some(Theme::Everforest)
    } else if k == "kanagawa"@ {
        Some(Theme::Kanagawa)
    } else if k == "one-dark"@ {
        Some(Theme::OneDark)
    } else if k == "ocean"@ {
        Some(Theme::Ocean)
    } else if k == "forest"@ {
        Some(Theme::Forest)
    } else if k == "sunset"@ {
        Some(Theme::Sunset)
    } else if k == "slate"@ {
        Some(Theme::Slate)
    } else if k == "aurora"@ {
        Some(Theme::Aurora)
    } else if k == "matrix"@ {
        Some(Theme::Matrix)
    } else if k == "sakura"@ {
        Some(Theme::Sakura)
    } else if k == "colourblind-safe"@ {
        Some(Theme::ColourblindSafe)
    } else if k == "high-contrast"@ {
        Some(Theme::HighContrast)
    } else {
        None
    }
}

/// A slug as a hand-edited config may spell it, normalised: trimmed,
/// lowercased, with underscores and spaces read as hyphens.
pub open spec fn slug_key(s: Seq<char>) -> Seq<char> {
    replace_chars(lower_seq(trim(s)), seq!['_', ' '], '-')
}

pub open spec fn theme_from_slug(s: Seq<char>) -> Option<Theme> {
    theme_for_key(slug_key(s))
}

/// The theme after `t` in the cycling order, wrapping at the end.
pub open spec fn theme_next(t: Theme) -> Theme {
    theme_at(((theme_pos(t) + 1) % 21) as nat).unwrap()
}

/// The colours of each theme.
pub open spec fn theme_palette(t: Theme) -> Palette {
    match t {
        Theme::Default => Palette {
            accent: Color::Cyan,
            text: Color::Reset,
            dim: Color::DarkGray,
            selection: Color::Rgb(40, 45, 60),
            good: Color::Green,
            ok: Color::Cyan,
            warn: Color::Yellow,
            bad: Color::Red,
            special: Color::Magenta,
        },
        Theme::Dracula => Palette {
            accent: Color::Rgb(189, 147, 249),
            text: Color::Rgb(248, 248, 242),
            dim: Color::Rgb(98, 114, 164),
            selection: Color::Rgb(68, 71, 90),
            good: Color::Rgb(80, 250, 123),
            ok: Color::Rgb(139, 233, 253),
            warn: Color::Rgb(241, 250, 140),
            bad: Color::Rgb(255, 85, 85),
            special: Color::Rgb(255, 121, 198),
        },
        Theme::Nord => Palette {
            accent: Color::Rgb(136, 192, 208),
            text: Color::Rgb(216, 222, 233),
            dim: Color::Rgb(76, 86, 106),
            selection: Color::Rgb(59, 66, 82),
            good: Color::Rgb(163, 190, 140),
            ok: Color::Rgb(129, 161, 193),
            warn: Color::Rgb(235, 203, 139),
            bad: Color::Rgb(191, 97, 106),
            special: Color::Rgb(180, 142, 173),
        },
        Theme::Solarized => Palette {
            accent: Color::Rgb(38, 139, 210),
            text: Color::Rgb(147, 161, 161),
            dim: Color::Rgb(88, 110, 117),
            selection: Color::Rgb(7, 54, 66),
            good: Color::Rgb(133, 153, 0),
            ok: Color::Rgb(42, 161, 152),
            warn: Color::Rgb(181, 137, 0),
            bad: Color::Rgb(220, 50, 47),
            special: Color::Rgb(211, 54, 130),
        },
        Theme::Gruvbox => Palette {
            accent: Color::Rgb(250, 189, 47),
            text: Color::Rgb(235, 219, 178),
            dim: Color::Rgb(146, 131, 116),
            selection: Color::Rgb(60, 56, 54),
            good: Color::Rgb(184, 187, 38),
            ok: Color::Rgb(142, 192, 124),
            warn: Color::Rgb(254, 128, 25),
            bad: Color::Rgb(251, 73, 52),
            special: Color::Rgb(211, 134, 155),
        },
        Theme::Monokai => Palette {
            accent: Color::Rgb(102, 217, 239),
            text: Color::Rgb(248, 248, 242),
            dim: Color::Rgb(117, 113, 94),
            selection: Color::Rgb(62, 61, 50),
            good: Color::Rgb(166, 226, 46),
            ok: Color::Rgb(102, 217, 239),
            warn: Color::Rgb(253, 151, 31),
            bad: Color::Rgb(249, 38, 114),
            special: Color::Rgb(174, 129, 255),
        },
        Theme::TokyoNight => Palette {
            accent: Color::Rgb(122, 162, 247),
            text: Color::Rgb(192, 202, 245),
            dim: Color::Rgb(86, 95, 137),
            selection: Color::Rgb(41, 46, 66),
            good: Color::Rgb(158, 206, 106),
            ok: Color::Rgb(125, 207, 255),
            warn: Color::Rgb(224, 175, 104),
            bad: Color::Rgb(247, 118, 142),
            special: Color::Rgb(187, 154, 247),
        },
        Theme::CatppuccinMocha => Palette {
            accent: Color::Rgb(203, 166, 247),
            text: Color::Rgb(205, 214, 244),
            dim: Color::Rgb(108, 112, 134),
            selection: Color::Rgb(69, 71, 90),
            good: Color::Rgb(166, 227, 161),
            ok: Color::Rgb(148, 226, 213),
            warn: Color::Rgb(250, 179, 135),
            bad: Color::Rgb(243, 139, 168),
            special: Color::Rgb(245, 194, 231),
        },
        Theme::RosePine => Palette {
            accent: Color::Rgb(196, 167, 231),
            text: Color::Rgb(224, 222, 244),
            dim: Color::Rgb(110, 106, 134),
            selection: Color::Rgb(64, 61, 82),
            good: Color::Rgb(156, 207, 216),
            ok: Color::Rgb(235, 188, 186),
            warn: Color::Rgb(246, 193, 119),
            bad: Color::Rgb(235, 111, 146),
            special: Color::Rgb(196, 167, 231),
        },
        Theme::Everforest => Palette {
            accent: Color::Rgb(131, 192, 146),
            text: Color::Rgb(211, 198, 170),
            dim: Color::Rgb(122, 132, 120),
            selection: Color::Rgb(61, 72, 77),
            good: Color::Rgb(167, 192, 128),
            ok: Color::Rgb(127, 187, 179),
            warn: Color::Rgb(219, 188, 127),
            bad: Color::Rgb(230, 126, 128),
            special: Color::Rgb(214, 153, 182),
        },
        Theme::Kanagawa => Palette {
            accent: Color::Rgb(126, 156, 216),
            text: Color::Rgb(220, 215, 186),
            dim: Color::Rgb(114, 113, 105),
            selection: Color::Rgb(34, 50, 73),
            good: Color::Rgb(152, 187, 108),
            ok: Color::Rgb(122, 168, 159),
            warn: Color::Rgb(230, 195, 132),
            bad: Color::Rgb(255, 93, 98),
            special: Color::Rgb(149, 127, 184),
        },
        Theme::OneDark => Palette {
            accent: Color::Rgb(97, 175, 239),
            text: Color::Rgb(171, 178, 191),
            dim: Color::Rgb(92, 99, 112),
            selection: Color::Rgb(62, 68, 81),
            good: Color::Rgb(152, 195, 121),
            ok: Color::Rgb(86, 182, 194),
            warn: Color::Rgb(229, 192, 123),
            bad: Color::Rgb(224, 108, 117),
            special: Color::Rgb(198, 120, 221),
        },
        Theme::Ocean => Palette {
            accent: Color::Rgb(102, 204, 255),
            text: Color::Rgb(214, 232, 240),
            dim: Color::Rgb(84, 110, 122),
            selection: Color::Rgb(28, 56, 71),
            good: Color::Rgb(94, 214, 186),
            ok: Color::Rgb(102, 187, 255),
            warn: Color::Rgb(240, 190, 110),
            bad: Color::Rgb(239, 108, 116),
            special: Color::Rgb(150, 170, 255),
        },
        Theme::Forest => Palette {
            accent: Color::Rgb(140, 200, 120),
            text: Color::Rgb(222, 232, 214),
            dim: Color::Rgb(104, 122, 96),
            selection: Color::Rgb(38, 54, 38),
            good: Color::Rgb(150, 214, 110),
            ok: Color::Rgb(126, 190, 160),
            warn: Color::Rgb(226, 196, 110),
            bad: Color::Rgb(216, 106, 96),
            special: Color::Rgb(196, 176, 118),
        },
        Theme::Sunset => Palette {
            accent: Color::Rgb(255, 158, 100),
            text: Color::Rgb(248, 226, 214),
            dim: Color::Rgb(140, 102, 108),
            selection: Color::Rgb(72, 40, 52),
            good: Color::Rgb(255, 196, 110),
            ok: Color::Rgb(240, 150, 140),
            warn: Color::Rgb(238, 120, 90),
            bad: Color::Rgb(214, 74, 96),
            special: Color::Rgb(198, 130, 200),
        },
        Theme::Slate => Palette {
            accent: Color::Rgb(130, 160, 190),
            text: Color::Rgb(206, 212, 220),
            dim: Color::Rgb(108, 116, 128),
            selection: Color::Rgb(44, 50, 58),
            good: Color::Rgb(140, 182, 150),
            ok: Color::Rgb(140, 170, 200),
            warn: Color::Rgb(200, 180, 130),
            bad: Color::Rgb(200, 130, 130),
            special: Color::Rgb(160, 150, 190),
        },
        Theme::Aurora => Palette {
            accent: Color::Rgb(120, 220, 190),
            text: Color::Rgb(214, 226, 240),
            dim: Color::Rgb(86, 104, 130),
            selection: Color::Rgb(24, 36, 58),
            good: Color::Rgb(96, 224, 140),
            ok: Color::Rgb(120, 190, 240),
            warn: Color::Rgb(240, 210, 130),
            bad: Color::Rgb(240, 110, 140),
            special: Color::Rgb(190, 150, 255),
        },
        Theme::Matrix => Palette {
            accent: Color::Rgb(0, 255, 120),
            text: Color::Rgb(170, 255, 190),
            dim: Color::Rgb(0, 120, 60),
            selection: Color::Rgb(0, 48, 24),
            good: Color::Rgb(0, 255, 120),
            ok: Color::Rgb(0, 200, 150),
            warn: Color::Rgb(190, 230, 60),
            bad: Color::Rgb(255, 96, 64),
            special: Color::Rgb(120, 255, 220),
        },
        Theme::Sakura => Palette {
            accent: Color::Rgb(240, 170, 200),
            text: Color::Rgb(240, 222, 230),
            dim: Color::Rgb(150, 120, 140),
            selection: Color::Rgb(58, 38, 52),
            good: Color::Rgb(170, 215, 160),
            ok: Color::Rgb(150, 200, 215),
            warn: Color::Rgb(240, 200, 130),
            bad: Color::Rgb(230, 110, 130),
            special: Color::Rgb(200, 160, 240),
        },
        Theme::ColourblindSafe => Palette {
            accent: Color::Rgb(86, 180, 233),
            text: Color::Rgb(238, 238, 238),
            dim: Color::Rgb(150, 150, 150),
            selection: Color::Rgb(38, 42, 50),
            good: Color::Rgb(0, 158, 115),
            ok: Color::Rgb(86, 180, 233),
            warn: Color::Rgb(240, 228, 66),
            bad: Color::Rgb(213, 94, 0),
            special: Color::Rgb(204, 121, 167),
        },
        Theme::HighContrast => Palette {
            accent: Color::Rgb(0, 255, 255),
            text: Color::Rgb(255, 255, 255),
            dim: Color::Rgb(176, 176, 176),
            selection: Color::Rgb(0, 0, 160),
            good: Color::Rgb(0, 255, 0),
            ok: Color::Rgb(0, 255, 255),
            warn: Color::Rgb(255, 255, 0),
            bad: Color::Rgb(255, 80, 80),
            special: Color::Rgb(255, 0, 255),
        },
    }
}

impl Theme {
    /// Cycling order: the default, then editor ports, then original
    /// palettes, then the two chosen for legibility.
    pub const ALL: [Theme; 21] = [
        Theme::Default,
        Theme::Dracula,
        Theme::Nord,
        Theme::Solarized,
        Theme::Gruvbox,
        Theme::Monokai,
        Theme::TokyoNight,
        Theme::CatppuccinMocha,
        Theme::RosePine,
        Theme::Everforest,
        Theme::Kanagawa,
        Theme::OneDark,
        Theme::Ocean,
        Theme::Forest,
        Theme::Sunset,
        Theme::Slate,
        Theme::Aurora,
        Theme::Matrix,
        Theme::Sakura,
        Theme::ColourblindSafe,
        Theme::HighContrast,
    ];

    pub fn name(self) -> (r: &'static str)
        ensures
            r@ == theme_name(self),
    {
        match self {
            Theme::Default => "Default",
            Theme::Dracula => "Dracula",
            Theme::Nord => "Nord",
            Theme::Solarized => "Solarized",
            Theme::Gruvbox => "Gruvbox",
            Theme::Monokai => "Monokai",
            Theme::TokyoNight => "Tokyo Night",
            Theme::CatppuccinMocha => "Catppuccin Mocha",
            Theme::RosePine => "Rosé Pine",
            Theme::Everforest => "Everforest",
            Theme::Kanagawa => "Kanagawa",
            Theme::OneDark => "One Dark",
            Theme::Ocean => "Ocean",
            Theme::Forest => "Forest",
            Theme::Sunset => "Sunset",
            Theme::Slate => "Slate",
            Theme::Aurora => "Aurora",
            Theme::Matrix => "Matrix",
            Theme::Sakura => "Sakura",
            Theme::ColourblindSafe => "Colourblind Safe",
            Theme::HighContrast => "High Contrast",
        }
    }

    /// Stable identifier written to the config file.
    pub fn slug(self) -> (r: &'static str)
        ensures
            r@ == theme_slug(self),
    {
        match self {
            Theme::Default => "default",
            Theme::Dracula => "dracula",
            Theme::Nord => "nord",
            Theme::Solarized => "solarized",
            Theme::Gruvbox => "gruvbox",
            Theme::Monokai => "monokai",
            Theme::TokyoNight => "tokyo-night",
            Theme::CatppuccinMocha => "catppuccin-mocha",
            Theme::RosePine => "rose-pine",
            Theme::Everforest => "everforest",
            Theme::Kanagawa => "kanagawa",
            Theme::OneDark => "one-dark",
            Theme::Ocean => "ocean",
            Theme::Forest => "forest",
            Theme::Sunset => "sunset",
            Theme::Slate => "slate",
            Theme::Aurora => "aurora",
            Theme::Matrix => "matrix",
            Theme::Sakura => "sakura",
            Theme::ColourblindSafe => "colourblind-safe",
            Theme::HighContrast => "high-contrast",
        }
    }

    /// Theme for a slug, in any case, with underscores or spaces for hyphens.
    pub fn from_slug(slug: &str) -> (r: Option<Theme>)
        ensures
            r == theme_from_slug(slug@),
    {
        let raw = chars_of(slug);
        let t = trim_vec(raw.as_slice());
        let l = lower_vec(t.as_slice());
        let seps: [char; 2] = ['_', ' '];
        let k = replace_vec(l.as_slice(), seps.as_slice(), '-');
        assert(seps@ =~= seq!['_', ' ']);
        let k = k.as_slice();
        if eq_str(k, "colorblind-safe") {
            Some(Theme::ColourblindSafe)
        } else if eq_str(k, "default") {
            Some(Theme::Default)
        } else if eq_str(k, "dracula") {
            Some(Theme::Dracula)
        } else if eq_str(k, "nord") {
            Some(Theme::Nord)
        } else if eq_str(k, "solarized") {
            Some(Theme::Solarized)
        } else if eq_str(k, "gruvbox") {
            Some(Theme::Gruvbox)
        } else if eq_str(k, "monokai") {
            Some(Theme::Monokai)
        } else if eq_str(k, "tokyo-night") {
            Some(Theme::TokyoNight)
        } else if eq_str(k, "catppuccin-mocha") {
            Some(Theme::CatppuccinMocha)
        } else if eq_str(k, "rose-pine") {
            Some(Theme::RosePine)
        } else if eq_str(k, "everforest") {
            Some(Theme::Everforest)
        } else if eq_str(k, "kanagawa") {
            Some(Theme::Kanagawa)
        } else if eq_str(k, "one-dark") {
            Some(Theme::OneDark)
        } else if eq_str(k, "ocean") {
            Some(Theme::Ocean)
        } else if eq_str(k, "forest") {
            Some(Theme::Forest)
        } else if eq_str(k, "sunset") {
            Some(Theme::Sunset)
        } else if eq_str(k, "slate") {
            Some(Theme::Slate)
        } else if eq_str(k, "aurora") {
            Some(Theme::Aurora)
        } else if eq_str(k, "matrix") {
            Some(Theme::Matrix)
        } else if eq_str(k, "sakura") {
            Some(Theme::Sakura)
        } else if eq_str(k, "colourblind-safe") {
            Some(Theme::ColourblindSafe)
        } else if eq_str(k, "high-contrast") {
            Some(Theme::HighContrast)
        } else {
            None
        }
    }

    /// Position in [`Theme::ALL`].
    pub fn index(self) -> (r: usize)
        ensures
            r == theme_pos(self),
            theme_at(r as nat) == Some(self),
    {
        match self {
            Theme::Default => 0,
            Theme::Dracula => 1,
            Theme::Nord => 2,
            Theme::Solarized => 3,
            Theme::Gruvbox => 4,
            Theme::Monokai => 5,
            Theme::TokyoNight => 6,
            Theme::CatppuccinMocha => 7,
            Theme::RosePine => 8,
            Theme::Everforest => 9,
            Theme::Kanagawa => 10,
            Theme::OneDark => 11,
            Theme::Ocean => 12,
            Theme::Forest => 13,
            Theme::Sunset => 14,
            Theme::Slate => 15,
            Theme::Aurora => 16,
            Theme::Matrix => 17,
            Theme::Sakura => 18,
            Theme::ColourblindSafe => 19,
            Theme::HighContrast => 20,
        }
    }

    /// Theme at `index` in the cycling order; the default past the end.
    pub fn from_index(index: usize) -> (r: Theme)
        ensures
            r == (match theme_at(index as nat) {
                Some(t) => t,
                None => Theme::Default,
            }),
    {
        match index {
            0 => Theme::Default,
            1 => Theme::Dracula,
            2 => Theme::Nord,
            3 => Theme::Solarized,
            4 => Theme::Gruvbox,
            5 => Theme::Monokai,
            6 => Theme::TokyoNight,
            7 => Theme::CatppuccinMocha,
            8 => Theme::RosePine,
            9 => Theme::Everforest,
            10 => Theme::Kanagawa,
            11 => Theme::OneDark,
            12 => Theme::Ocean,
            13 => Theme::Forest,
            14 => Theme::Sunset,
            15 => Theme::Slate,
            16 => Theme::Aurora,
            17 => Theme::Matrix,
            18 => Theme::Sakura,
            19 => Theme::ColourblindSafe,
            20 => Theme::HighContrast,
            _ => Theme::Default,
        }
    }

    /// Theme for an index written by a release that stored themes as
    /// numbers; the default past the end of that list.
    pub fn from_legacy_index(index: usize) -> (r: Theme)
        ensures
            r == (match legacy_at(index as nat) {
                Some(t) => t,
                None => Theme::Default,
            }),
    {
        match index {
            0 => Theme::Default,
            1 => Theme::Dracula,
            2 => Theme::Nord,
            3 => Theme::Solarized,
            4 => Theme::Gruvbox,
            5 => Theme::Monokai,
            6 => Theme::TokyoNight,
            7 => Theme::Ocean,
            8 => Theme::Forest,
            9 => Theme::Sunset,
            _ => Theme::Default,
        }
    }

    /// Resolve a stored preference in either form; a name this build does
    /// not know falls back to the default.
    pub fn from_ref(reference: &ThemeRef) -> (r: Theme)
        ensures
            r == (match reference {
                ThemeRef::Name(n) => match theme_from_slug(n@) {
                    Some(t) => t,
                    None => Theme::Default,
                },
                ThemeRef::Index(i) => match legacy_at(*i as nat) {
                    Some(t) => t,
                    None => Theme::Default,
                },
            }),
    {
        match reference {
            ThemeRef::Name(name) => match Theme::from_slug(name.as_str()) {
                Some(t) => t,
                None => Theme::Default,
            },
            ThemeRef::Index(index) => Theme::from_legacy_index(*index),
        }
    }

    /// How this theme is written back to the config file.
    pub fn to_ref(self) -> (r: ThemeRef)
        ensures
            r matches ThemeRef::Name(n) && n@ == theme_slug(self),
    {
        ThemeRef::Name(self.slug().to_owned())
    }

    /// The next theme in the cycling order, wrapping at the end.
    pub fn next(self) -> (r: Theme)
        ensures
            r == theme_next(self),
    {
        Theme::from_index((self.index() + 1) % 21)
    }

    pub fn palette(self) -> (p: Palette)
        ensures
            p == theme_palette(self),
    {
        match self {
            Theme::Default => Palette {
                accent: Color::Cyan,
                text: Color::Reset,
                dim: Color::DarkGray,
                selection: Color::Rgb(40, 45, 60),
                good: Color::Green,
                ok: Color::Cyan,
                warn: Color::Yellow,
                bad: Color::Red,
                special: Color::Magenta,
            },
            Theme::Dracula => Palette {
                accent: Color::Rgb(189, 147, 249),
                text: Color::Rgb(248, 248, 242),
                dim: Color::Rgb(98, 114, 164),
                selection: Color::Rgb(68, 71, 90),
                good: Color::Rgb(80, 250, 123),
                ok: Color::Rgb(139, 233, 253),
                warn: Color::Rgb(241, 250, 140),
                bad: Color::Rgb(255, 85, 85),
                special: Color::Rgb(255, 121, 198),
            },
            Theme::Nord => Palette {
                accent: Color::Rgb(136, 192, 208),
                text: Color::Rgb(216, 222, 233),
                dim: Color::Rgb(76, 86, 106),
                selection: Color::Rgb(59, 66, 82),
                good: Color::Rgb(163, 190, 140),
                ok: Color::Rgb(129, 161, 193),
                warn: Color::Rgb(235, 203, 139),
                bad: Color::Rgb(191, 97, 106),
                special: Color::Rgb(180, 142, 173),
            },
            Theme::Solarized => Palette {
                accent: Color::Rgb(38, 139, 210),
                text: Color::Rgb(147, 161, 161),
                dim: Color::Rgb(88, 110, 117),
                selection: Color::Rgb(7, 54, 66),
                good: Color::Rgb(133, 153, 0),
                ok: Color::Rgb(42, 161, 152),
                warn: Color::Rgb(181, 137, 0),
                bad: Color::Rgb(220, 50, 47),
                special: Color::Rgb(211, 54, 130),
            },
            Theme::Gruvbox => Palette {
                accent: Color::Rgb(250, 189, 47),
                text: Color::Rgb(235, 219, 178),
                dim: Color::Rgb(146, 131, 116),
                selection: Color::Rgb(60, 56, 54),
                good: Color::Rgb(184, 187, 38),
                ok: Color::Rgb(142, 192, 124),
                warn: Color::Rgb(254, 128, 25),
                bad: Color::Rgb(251, 73, 52),
                special: Color::Rgb(211, 134, 155),
            },
            Theme::Monokai => Palette {
                accent: Color::Rgb(102, 217, 239),
                text: Color::Rgb(248, 248, 242),
                dim: Color::Rgb(117, 113, 94),
                selection: Color::Rgb(62, 61, 50),
                good: Color::Rgb(166, 226, 46),
                ok: Color::Rgb(102, 217, 239),
                warn: Color::Rgb(253, 151, 31),
                bad: Color::Rgb(249, 38, 114),
                special: Color::Rgb(174, 129, 255),
            },
            Theme::TokyoNight => Palette {
                accent: Color::Rgb(122, 162, 247),
                text: Color::Rgb(192, 202, 245),
                dim: Color::Rgb(86, 95, 137),
                selection: Color::Rgb(41, 46, 66),
                good: Color::Rgb(158, 206, 106),
                ok: Color::Rgb(125, 207, 255),
                warn: Color::Rgb(224, 175, 104),
                bad: Color::Rgb(247, 118, 142),
                special: Color::Rgb(187, 154, 247),
            },
            Theme::CatppuccinMocha => Palette {
                accent: Color::Rgb(203, 166, 247),
                text: Color::Rgb(205, 214, 244),
                dim: Color::Rgb(108, 112, 134),
                selection: Color::Rgb(69, 71, 90),
                good: Color::Rgb(166, 227, 161),
                ok: Color::Rgb(148, 226, 213),
                warn: Color::Rgb(250, 179, 135),
                bad: Color::Rgb(243, 139, 168),
                special: Color::Rgb(245, 194, 231),
            },
            Theme::RosePine => Palette {
                accent: Color::Rgb(196, 167, 231),
                text: Color::Rgb(224, 222, 244),
                dim: Color::Rgb(110, 106, 134),
                selection: Color::Rgb(64, 61, 82),
                good: Color::Rgb(156, 207, 216),
                ok: Color::Rgb(235, 188, 186),
                warn: Color::Rgb(246, 193, 119),
                bad: Color::Rgb(235, 111, 146),
                special: Color::Rgb(196, 167, 231),
            },
            Theme::Everforest => Palette {
                accent: Color::Rgb(131, 192, 146),
                text: Color::Rgb(211, 198, 170),
                dim: Color::Rgb(122, 132, 120),
                selection: Color::Rgb(61, 72, 77),
                good: Color::Rgb(167, 192, 128),
                ok: Color::Rgb(127, 187, 179),
                warn: Color::Rgb(219, 188, 127),
                bad: Color::Rgb(230, 126, 128),
                special: Color::Rgb(214, 153, 182),
            },
            Theme::Kanagawa => Palette {
                accent: Color::Rgb(126, 156, 216),
                text: Color::Rgb(220, 215, 186),
                dim: Color::Rgb(114, 113, 105),
                selection: Color::Rgb(34, 50, 73),
                good: Color::Rgb(152, 187, 108),
                ok: Color::Rgb(122, 168, 159),
                warn: Color::Rgb(230, 195, 132),
                bad: Color::Rgb(255, 93, 98),
                special: Color::Rgb(149, 127, 184),
            },
            Theme::OneDark => Palette {
                accent: Color::Rgb(97, 175, 239),
                text: Color::Rgb(171, 178, 191),
                dim: Color::Rgb(92, 99, 112),
                selection: Color::Rgb(62, 68, 81),
                good: Color::Rgb(152, 195, 121),
                ok: Color::Rgb(86, 182, 194),
                warn: Color::Rgb(229, 192, 123),
                bad: Color::Rgb(224, 108, 117),
                special: Color::Rgb(198, 120, 221),
            },
            Theme::Ocean => Palette {
                accent: Color::Rgb(102, 204, 255),
                text: Color::Rgb(214, 232, 240),
                dim: Color::Rgb(84, 110, 122),
                selection: Color::Rgb(28, 56, 71),
                good: Color::Rgb(94, 214, 186),
                ok: Color::Rgb(102, 187, 255),
                warn: Color::Rgb(240, 190, 110),
                bad: Color::Rgb(239, 108, 116),
                special: Color::Rgb(150, 170, 255),
            },
            Theme::Forest => Palette {
                accent: Color::Rgb(140, 200, 120),
                text: Color::Rgb(222, 232, 214),
                dim: Color::Rgb(104, 122, 96),
                selection: Color::Rgb(38, 54, 38),
                good: Color::Rgb(150, 214, 110),
                ok: Color::Rgb(126, 190, 160),
                warn: Color::Rgb(226, 196, 110),
                bad: Color::Rgb(216, 106, 96),
                special: Color::Rgb(196, 176, 118),
            },
            Theme::Sunset => Palette {
                accent: Color::Rgb(255, 158, 100),
                text: Color::Rgb(248, 226, 214),
                dim: Color::Rgb(140, 102, 108),
                selection: Color::Rgb(72, 40, 52),
                good: Color::Rgb(255, 196, 110),
                ok: Color::Rgb(240, 150, 140),
                warn: Color::Rgb(238, 120, 90),
                bad: Color::Rgb(214, 74, 96),
                special: Color::Rgb(198, 130, 200),
            },
            Theme::Slate => Palette {
                accent: Color::Rgb(130, 160, 190),
                text: Color::Rgb(206, 212, 220),
                dim: Color::Rgb(108, 116, 128),
                selection: Color::Rgb(44, 50, 58),
                good: Color::Rgb(140, 182, 150),
                ok: Color::Rgb(140, 170, 200),
                warn: Color::Rgb(200, 180, 130),
                bad: Color::Rgb(200, 130, 130),
                special: Color::Rgb(160, 150, 190),
            },
            Theme::Aurora => Palette {
                accent: Color::Rgb(120, 220, 190),
                text: Color::Rgb(214, 226, 240),
                dim: Color::Rgb(86, 104, 130),
                selection: Color::Rgb(24, 36, 58),
                good: Color::Rgb(96, 224, 140),
                ok: Color::Rgb(120, 190, 240),
                warn: Color::Rgb(240, 210, 130),
                bad: Color::Rgb(240, 110, 140),
                special: Color::Rgb(190, 150, 255),
            },
            Theme::Matrix => Palette {
                accent: Color::Rgb(0, 255, 120),
                text: Color::Rgb(170, 255, 190),
                dim: Color::Rgb(0, 120, 60),
                selection: Color::Rgb(0, 48, 24),
                good: Color::Rgb(0, 255, 120),
                ok: Color::Rgb(0, 200, 150),
                warn: Color::Rgb(190, 230, 60),
                bad: Color::Rgb(255, 96, 64),
                special: Color::Rgb(120, 255, 220),
            },
            Theme::Sakura => Palette {
                accent: Color::Rgb(240, 170, 200),
                text: Color::Rgb(240, 222, 230),
                dim: Color::Rgb(150, 120, 140),
                selection: Color::Rgb(58, 38, 52),
                good: Color::Rgb(170, 215, 160),
                ok: Color::Rgb(150, 200, 215),
                warn: Color::Rgb(240, 200, 130),
                bad: Color::Rgb(230, 110, 130),
                special: Color::Rgb(200, 160, 240),
            },
            Theme::ColourblindSafe => Palette {
                accent: Color::Rgb(86, 180, 233),
                text: Color::Rgb(238, 238, 238),
                dim: Color::Rgb(150, 150, 150),
                selection: Color::Rgb(38, 42, 50),
                good: Color::Rgb(0, 158, 115),
                ok: Color::Rgb(86, 180, 233),
                warn: Color::Rgb(240, 228, 66),
                bad: Color::Rgb(213, 94, 0),
                special: Color::Rgb(204, 121, 167),
            },
            Theme::HighContrast => Palette {
                accent: Color::Rgb(0, 255, 255),
                text: Color::Rgb(255, 255, 255),
                dim: Color::Rgb(176, 176, 176),
                selection: Color::Rgb(0, 0, 160),
                good: Color::Rgb(0, 255, 0),
                ok: Color::Rgb(0, 255, 255),
                warn: Color::Rgb(255, 255, 0),
                bad: Color::Rgb(255, 80, 80),
                special: Color::Rgb(255, 0, 255),
            },
        }
    }
}


/// Every theme reads back from the slug it is stored under, so a stored
/// preference (`to_ref`, then `from_ref`) resolves to the theme that wrote it,
/// and no two themes share a slug.
pub proof fn lemma_slug_round_trip(t: Theme)
    ensures
        theme_from_slug(theme_slug(t)) == Some(t),
{
    reveal_strlit("colorblind-safe");
    reveal_strlit("default");
    reveal_strlit("dracula");
    reveal_strlit("nord");
    reveal_strlit("solarized");
    reveal_strlit("gruvbox");
    reveal_strlit("monokai");
    reveal_strlit("tokyo-night");
    reveal_strlit("catppuccin-mocha");
    reveal_strlit("rose-pine");
    reveal_strlit("everforest");
    reveal_strlit("kanagawa");
    reveal_strlit("one-dark");
    reveal_strlit("ocean");
    reveal_strlit("forest");
    reveal_strlit("sunset");
    reveal_strlit("slate");
    reveal_strlit("aurora");
    reveal_strlit("matrix");
    reveal_strlit("sakura");
    reveal_strlit("colourblind-safe");
    reveal_strlit("high-contrast");
    let n = theme_slug(t);
    assert(trim_start(n) == n);
    assert(trim_end(n) == n);
    assert(lower_seq(n) =~= n);
    assert(replace_chars(n, seq!['_', ' '], '-') =~= n);
}

/// A character a slug is written with: a lowercase ASCII letter or `-`.
pub open spec fn slug_char(c: char) -> bool {
    ('a' <= c && c <= 'z') || c == '-'
}

/// Slugs tell the themes apart, and each is a non-empty run of lowercase
/// letters and hyphens.
pub proof fn lemma_slugs_are_distinct_and_plain(t: Theme, u: Theme)
    ensures
        theme_slug(t) == theme_slug(u) ==> t == u,
        theme_slug(t).len() > 0,
        forall|i: int| 0 <= i < theme_slug(t).len() ==> slug_char(#[trigger] theme_slug(t)[i]),
{
    lemma_slug_round_trip(t);
    lemma_slug_round_trip(u);
    reveal_strlit("default");
    reveal_strlit("dracula");
    reveal_strlit("nord");
    reveal_strlit("solarized");
    reveal_strlit("gruvbox");
    reveal_strlit("monokai");
    reveal_strlit("tokyo-night");
    reveal_strlit("catppuccin-mocha");
    reveal_strlit("rose-pine");
    reveal_strlit("everforest");
    reveal_strlit("kanagawa");
    reveal_strlit("one-dark");
    reveal_strlit("ocean");
    reveal_strlit("forest");
    reveal_strlit("sunset");
    reveal_strlit("slate");
    reveal_strlit("aurora");
    reveal_strlit("matrix");
    reveal_strlit("sakura");
    reveal_strlit("colourblind-safe");
    reveal_strlit("high-contrast");
}

/// Index and position agree: `from_index(index(t))` is `t`.
pub proof fn lemma_index_round_trip(t: Theme)
    ensures
        theme_at(theme_pos(t)) == Some(t),
        theme_pos(t) < 21,
{
}

proof fn lemma_at_pos(i: nat)
    requires
        i < 21,
    ensures
        theme_at(i) is Some,
        theme_pos(theme_at(i).unwrap()) == i,
{
}

/// `k` steps of `next` from `t`.
#[verifier::opaque]
pub open spec fn cycle(t: Theme, k: nat) -> Theme
    decreases k,
{
    if k == 0 {
        t
    } else {
        theme_next(cycle(t, (k - 1) as nat))
    }
}

proof fn lemma_cycle_pos(t: Theme, k: nat)
    ensures
        theme_pos(cycle(t, k)) == (theme_pos(t) + k) % 21,
    decreases k,
{
    reveal(cycle);
    if k > 0 {
        lemma_cycle_pos(t, (k - 1) as nat);
        let prev = cycle(t, (k - 1) as nat);
        lemma_at_pos(((theme_pos(prev) + 1) % 21) as nat);
    }
}

proof fn lemma_pos_injective(a: Theme, b: Theme)
    requires
        theme_pos(a) == theme_pos(b),
    ensures
        a == b,
{
    lemma_index_round_trip(a);
    lemma_index_round_trip(b);
}

/// Cycling with `next` visits every theme and is back where it started after
/// one step per theme.
pub proof fn lemma_cycle_visits_every_theme(t: Theme, u: Theme)
    ensures
        cycle(t, 21) == t,
        exists|k: nat| k < 21 && cycle(t, k) == u,
{
    let pt = theme_pos(t);
    let pu = theme_pos(u);
    lemma_index_round_trip(t);
    lemma_index_round_trip(u);
    lemma_cycle_pos(t, 21);
    assert((pt + 21) % 21 == pt);
    lemma_pos_injective(cycle(t, 21), t);
    let k: nat = if pu >= pt { (pu - pt) as nat } else { (pu + 21 - pt) as nat };
    lemma_cycle_pos(t, k);
    assert((pt + k) % 21 == pu);
    lemma_pos_injective(cycle(t, k), u);
}

/// Every theme gives its four verdicts four different colours, and can dim
/// text.
pub proof fn lemma_verdict_colours_are_distinct(t: Theme)
    ensures
        ({
            let p = theme_palette(t);
            &&& p.good != p.ok && p.good != p.warn && p.good != p.bad
            &&& p.ok != p.warn && p.ok != p.bad
            &&& p.warn != p.bad
            &&& p.dim != p.text
        }),
{
}

/// Only the default theme uses the terminal's named colours; every other
/// theme is RGB throughout.
pub proof fn lemma_only_default_uses_named_colours(t: Theme)
    requires
        t != Theme::Default,
    ensures
        ({
            let p = theme_palette(t);
            &&& p.accent is Rgb && p.text is Rgb && p.dim is Rgb
            &&& p.selection is Rgb && p.good is Rgb && p.ok is Rgb
            &&& p.warn is Rgb && p.bad is Rgb && p.special is Rgb
        }),
{
}


impl Palette {
    /// The colour a fit verdict is drawn in.
    pub fn fit_colour(&self, fit: FitLevel) -> (r: Color)
        ensures
            r == match fit {
                FitLevel::Perfect => self.good,
                FitLevel::Good => self.ok,
                FitLevel::Marginal => self.warn,
                FitLevel::TooTight => self.bad,
            },
    {
        match fit {
            FitLevel::Perfect => self.good,
            FitLevel::Good => self.ok,
            FitLevel::Marginal => self.warn,
            FitLevel::TooTight => self.bad,
        }
    }

    /// The colour a run mode is drawn in: how a model runs, not how well.
    pub fn mode_colour(&self, mode: RunMode) -> (r: Color)
        ensures
            r == match mode {
                RunMode::Gpu => self.good,
                RunMode::Moe => self.special,
                RunMode::CpuGpu => self.warn,
                RunMode::Cpu => self.dim,
            },
    {
        match mode {
            RunMode::Gpu => self.good,
            RunMode::Moe => self.special,
            RunMode::CpuGpu => self.warn,
            RunMode::Cpu => self.dim,
        }
    }
}
} // verus!
