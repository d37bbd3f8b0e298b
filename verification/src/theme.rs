//! Colour themes: each a named palette of RGB colours.

use vstd::prelude::*;

use crate::menus::{theme_names, theme_registry, theme_table};
use crate::text::str_eq;

verus! {

/// A colour given by its red, green and blue components.
#[derive(Debug, Clone, Copy, PartialEq, Eq, Structural)]
pub struct Rgb {
    pub r: u8,
    pub g: u8,
    pub b: u8,
}

/// A named palette: the colours of backgrounds, accents, states, text and
/// borders.
#[derive(Debug, Clone, Copy)]
pub struct Theme {
    pub name: &'static str,
    pub bg_primary: Rgb,
    pub bg_secondary: Rgb,
    pub bg_tertiary: Rgb,
    pub accent: Rgb,
    pub accent_selection: Rgb,
    pub success: Rgb,
    pub warning: Rgb,
    pub error: Rgb,
    pub text_primary: Rgb,
    pub text_secondary: Rgb,
    pub text_muted: Rgb,
    pub text_disabled: Rgb,
    pub text_placeholder: Rgb,
    pub border_default: Rgb,
}

/// Whether some theme of the registry is called `name`.
pub open spec fn is_theme_name(name: Seq<char>) -> bool {
    exists|i: int| 0 <= i < theme_table().len() && #[trigger] theme_table()[i].0@ == name
}

/// The "one-dark" palette.
pub open spec fn one_dark_palette() -> Theme {
    Theme {
        name: "one-dark",
            bg_primary: Rgb { r: 0x28, g: 0x2c, b: 0x34 },
            bg_secondary: Rgb { r: 0x2f, g: 0x34, b: 0x3e },
            bg_tertiary: Rgb { r: 0x3a, g: 0x4b, b: 0x5f },
            accent: Rgb { r: 0x6b, g: 0xbc, b: 0xff },
            accent_selection: Rgb { r: 0x3a, g: 0x4b, b: 0x5f },
            success: Rgb { r: 0xa6, g: 0xd1, b: 0x89 },
            warning: Rgb { r: 0xf0, g: 0xca, b: 0x83 },
            error: Rgb { r: 0xea, g: 0x75, b: 0x80 },
            text_primary: Rgb { r: 0xe5, g: 0xe9, b: 0xf2 },
            text_secondary: Rgb { r: 0xc4, g: 0xcb, b: 0xd6 },
            text_muted: Rgb { r: 0x74, g: 0x7f, b: 0x96 },
            text_disabled: Rgb { r: 0x74, g: 0x7f, b: 0x96 },
            text_placeholder: Rgb { r: 0x74, g: 0x7f, b: 0x96 },
            border_default: Rgb { r: 0x3b, g: 0x41, b: 0x4d },
    }
}

/// The "catppuccin-mocha" palette.
pub open spec fn catppuccin_mocha_palette() -> Theme {
    Theme {
        name: "catppuccin-mocha",
            bg_primary: Rgb { r: 0x1e, g: 0x1e, b: 0x2e },
            bg_secondary: Rgb { r: 0x25, g: 0x25, b: 0x3a },
            bg_tertiary: Rgb { r: 0x30, g: 0x30, b: 0x4a },
            accent: Rgb { r: 0x89, g: 0xb4, b: 0xfa },
            accent_selection: Rgb { r: 0x30, g: 0x30, b: 0x4a },
            success: Rgb { r: 0xa6, g: 0xe3, b: 0xa1 },
            warning: Rgb { r: 0xf9, g: 0xe2, b: 0xaf },
            error: Rgb { r: 0xf3, g: 0x8b, b: 0xa8 },
            text_primary: Rgb { r: 0xcd, g: 0xd6, b: 0xf4 },
            text_secondary: Rgb { r: 0xba, g: 0xc2, b: 0xde },
            text_muted: Rgb { r: 0x6c, g: 0x70, b: 0x86 },
            text_disabled: Rgb { r: 0x6c, g: 0x70, b: 0x86 },
            text_placeholder: Rgb { r: 0x6c, g: 0x70, b: 0x86 },
            border_default: Rgb { r: 0x45, g: 0x45, b: 0x64 },
    }
}

/// The "dracula" palette.
pub open spec fn dracula_palette() -> Theme {
    Theme {
        name: "dracula",
            bg_primary: Rgb { r: 0x28, g: 0x28, b: 0x28 },
            bg_secondary: Rgb { r: 0x32, g: 0x32, b: 0x32 },
            bg_tertiary: Rgb { r: 0x3c, g: 0x3c, b: 0x3c },
            accent: Rgb { r: 0xbd, g: 0x93, b: 0xf9 },
            accent_selection: Rgb { r: 0x3c, g: 0x3c, b: 0x3c },
            success: Rgb { r: 0x50, g: 0xfa, b: 0x7b },
            warning: Rgb { r: 0xf1, g: 0xfa, b: 0x8c },
            error: Rgb { r: 0xff, g: 0x55, b: 0x55 },
            text_primary: Rgb { r: 0xf8, g: 0xf8, b: 0xf2 },
            text_secondary: Rgb { r: 0xbf, g: 0xbf, b: 0xbf },
            text_muted: Rgb { r: 0x62, g: 0x62, b: 0x62 },
            text_disabled: Rgb { r: 0x62, g: 0x62, b: 0x62 },
            text_placeholder: Rgb { r: 0x62, g: 0x62, b: 0x62 },
            border_default: Rgb { r: 0x44, g: 0x44, b: 0x44 },
    }
}

/// The "nord" palette.
pub open spec fn nord_palette() -> Theme {
    Theme {
        name: "nord",
            bg_primary: Rgb { r: 0x2e, g: 0x34, b: 0x40 },
            bg_secondary: Rgb { r: 0x3b, g: 0x42, b: 0x52 },
            bg_tertiary: Rgb { r: 0x43, g: 0x4c, b: 0x5e },
            accent: Rgb { r: 0x88, g: 0xc0, b: 0xd0 },
            accent_selection: Rgb { r: 0x43, g: 0x4c, b: 0x5e },
            success: Rgb { r: 0xa3, g: 0xbe, b: 0x8c },
            warning: Rgb { r: 0xeb, g: 0xcb, b: 0x8b },
            error: Rgb { r: 0xbf, g: 0x61, b: 0x6a },
            text_primary: Rgb { r: 0xd8, g: 0xde, b: 0xe9 },
            text_secondary: Rgb { r: 0xe5, g: 0xe9, b: 0xf0 },
            text_muted: Rgb { r: 0x61, g: 0x6e, b: 0x88 },
            text_disabled: Rgb { r: 0x61, g: 0x6e, b: 0x88 },
            text_placeholder: Rgb { r: 0x61, g: 0x6e, b: 0x88 },
            border_default: Rgb { r: 0x4c, g: 0x56, b: 0x6a },
    }
}

/// The "gruvbox" palette.
pub open spec fn gruvbox_palette() -> Theme {
    Theme {
        name: "gruvbox",
            bg_primary: Rgb { r: 0x28, g: 0x28, b: 0x28 },
            bg_secondary: Rgb { r: 0x32, g: 0x30, b: 0x2f },
            bg_tertiary: Rgb { r: 0x3c, g: 0x38, b: 0x36 },
            accent: Rgb { r: 0xd7, g: 0x99, b: 0x21 },
            accent_selection: Rgb { r: 0x3c, g: 0x38, b: 0x36 },
            success: Rgb { r: 0x98, g: 0x97, b: 0x1a },
            warning: Rgb { r: 0xd7, g: 0x99, b: 0x21 },
            error: Rgb { r: 0xfb, g: 0x49, b: 0x34 },
            text_primary: Rgb { r: 0xeb, g: 0xdb, b: 0xb2 },
            text_secondary: Rgb { r: 0xd5, g: 0xc4, b: 0xa1 },
            text_muted: Rgb { r: 0x92, g: 0x83, b: 0x74 },
            text_disabled: Rgb { r: 0x92, g: 0x83, b: 0x74 },
            text_placeholder: Rgb { r: 0x92, g: 0x83, b: 0x74 },
            border_default: Rgb { r: 0x50, g: 0x49, b: 0x45 },
    }
}

/// The "one-light" palette.
pub open spec fn one_light_palette() -> Theme {
    Theme {
        name: "one-light",
            bg_primary: Rgb { r: 0xfa, g: 0xfa, b: 0xfa },
            bg_secondary: Rgb { r: 0xef, g: 0xef, b: 0xef },
            bg_tertiary: Rgb { r: 0xdc, g: 0xe2, b: 0xea },
            accent: Rgb { r: 0x40, g: 0x78, b: 0xf2 },
            accent_selection: Rgb { r: 0xdc, g: 0xe2, b: 0xea },
            success: Rgb { r: 0x50, g: 0xa1, b: 0x4f },
            warning: Rgb { r: 0xc1, g: 0x84, b: 0x01 },
            error: Rgb { r: 0xe4, g: 0x56, b: 0x49 },
            text_primary: Rgb { r: 0x38, g: 0x3a, b: 0x42 },
            text_secondary: Rgb { r: 0x4f, g: 0x52, b: 0x5c },
            text_muted: Rgb { r: 0xa0, g: 0xa1, b: 0xa7 },
            text_disabled: Rgb { r: 0xa0, g: 0xa1, b: 0xa7 },
            text_placeholder: Rgb { r: 0xa0, g: 0xa1, b: 0xa7 },
            border_default: Rgb { r: 0xd0, g: 0xd0, b: 0xd0 },
    }
}

/// The "catppuccin-latte" palette.
pub open spec fn catppuccin_latte_palette() -> Theme {
    Theme {
        name: "catppuccin-latte",
            bg_primary: Rgb { r: 0xef, g: 0xf1, b: 0xf5 },
            bg_secondary: Rgb { r: 0xe6, g: 0xe9, b: 0xef },
            bg_tertiary: Rgb { r: 0xcc, g: 0xd0, b: 0xda },
            accent: Rgb { r: 0x1e, g: 0x66, b: 0xf5 },
            accent_selection: Rgb { r: 0xcc, g: 0xd0, b: 0xda },
            success: Rgb { r: 0x40, g: 0xa0, b: 0x2b },
            warning: Rgb { r: 0xdf, g: 0x8e, b: 0x1d },
            error: Rgb { r: 0xd2, g: 0x0f, b: 0x39 },
            text_primary: Rgb { r: 0x4c, g: 0x4f, b: 0x69 },
            text_secondary: Rgb { r: 0x6c, g: 0x6f, b: 0x85 },
            text_muted: Rgb { r: 0x9c, g: 0xa0, b: 0xb0 },
            text_disabled: Rgb { r: 0x9c, g: 0xa0, b: 0xb0 },
            text_placeholder: Rgb { r: 0x9c, g: 0xa0, b: 0xb0 },
            border_default: Rgb { r: 0xbc, g: 0xc0, b: 0xcc },
    }
}

/// The "solarized-light" palette.
pub open spec fn solarized_light_palette() -> Theme {
    Theme {
        name: "solarized-light",
            bg_primary: Rgb { r: 0xfd, g: 0xf6, b: 0xe3 },
            bg_secondary: Rgb { r: 0xee, g: 0xe8, b: 0xd5 },
            bg_tertiary: Rgb { r: 0xe3, g: 0xdb, b: 0xb8 },
            accent: Rgb { r: 0x26, g: 0x8b, b: 0xd2 },
            accent_selection: Rgb { r: 0xe3, g: 0xdb, b: 0xb8 },
            success: Rgb { r: 0x85, g: 0x99, b: 0x00 },
            warning: Rgb { r: 0xb5, g: 0x89, b: 0x00 },
            error: Rgb { r: 0xdc, g: 0x32, b: 0x2f },
            text_primary: Rgb { r: 0x58, g: 0x6e, b: 0x75 },
            text_secondary: Rgb { r: 0x65, g: 0x7b, b: 0x83 },
            text_muted: Rgb { r: 0x93, g: 0xa1, b: 0xa1 },
            text_disabled: Rgb { r: 0x93, g: 0xa1, b: 0xa1 },
            text_placeholder: Rgb { r: 0x93, g: 0xa1, b: 0xa1 },
            border_default: Rgb { r: 0xd6, g: 0xce, b: 0xac },
    }
}

/// The "gruvbox-light" palette.
pub open spec fn gruvbox_light_palette() -> Theme {
    Theme {
        name: "gruvbox-light",
            bg_primary: Rgb { r: 0xfb, g: 0xf1, b: 0xc7 },
            bg_secondary: Rgb { r: 0xf2, g: 0xe5, b: 0xbc },
            bg_tertiary: Rgb { r: 0xeb, g: 0xdb, b: 0xb2 },
            accent: Rgb { r: 0x07, g: 0x66, b: 0x78 },
            accent_selection: Rgb { r: 0xeb, g: 0xdb, b: 0xb2 },
            success: Rgb { r: 0x79, g: 0x74, b: 0x0e },
            warning: Rgb { r: 0xb5, g: 0x76, b: 0x14 },
            error: Rgb { r: 0xcc, g: 0x24, b: 0x1d },
            text_primary: Rgb { r: 0x3c, g: 0x38, b: 0x36 },
            text_secondary: Rgb { r: 0x50, g: 0x49, b: 0x45 },
            text_muted: Rgb { r: 0x7c, g: 0x6f, b: 0x64 },
            text_disabled: Rgb { r: 0x7c, g: 0x6f, b: 0x64 },
            text_placeholder: Rgb { r: 0x7c, g: 0x6f, b: 0x64 },
            border_default: Rgb { r: 0xd5, g: 0xc4, b: 0xa1 },
    }
}

/// The preset palette called `name`, if there is one.
pub open spec fn preset(name: Seq<char>) -> Option<Theme> {
    if name == "one-dark"@ {
        Some(one_dark_palette())
    } else if name == "catppuccin-mocha"@ {
        Some(catppuccin_mocha_palette())
    } else if name == "dracula"@ {
        Some(dracula_palette())
    } else if name == "nord"@ {
        Some(nord_palette())
    } else if name == "gruvbox"@ {
        Some(gruvbox_palette())
    } else if name == "one-light"@ {
        Some(one_light_palette())
    } else if name == "catppuccin-latte"@ {
        Some(catppuccin_latte_palette())
    } else if name == "solarized-light"@ {
        Some(solarized_light_palette())
    } else if name == "gruvbox-light"@ {
        Some(gruvbox_light_palette())
    } else {
        None
    }
}

impl Theme {
    /// The "one-dark" palette.
    pub fn one_dark() -> (r: Self)
        ensures
            r.name@ == "one-dark"@,
            r == one_dark_palette(),
    {
        Theme {
            name: "one-dark",
            bg_primary: Rgb { r: 0x28, g: 0x2c, b: 0x34 },
            bg_secondary: Rgb { r: 0x2f, g: 0x34, b: 0x3e },
            bg_tertiary: Rgb { r: 0x3a, g: 0x4b, b: 0x5f },
            accent: Rgb { r: 0x6b, g: 0xbc, b: 0xff },
            accent_selection: Rgb { r: 0x3a, g: 0x4b, b: 0x5f },
            success: Rgb { r: 0xa6, g: 0xd1, b: 0x89 },
            warning: Rgb { r: 0xf0, g: 0xca, b: 0x83 },
            error: Rgb { r: 0xea, g: 0x75, b: 0x80 },
            text_primary: Rgb { r: 0xe5, g: 0xe9, b: 0xf2 },
            text_secondary: Rgb { r: 0xc4, g: 0xcb, b: 0xd6 },
            text_muted: Rgb { r: 0x74, g: 0x7f, b: 0x96 },
            text_disabled: Rgb { r: 0x74, g: 0x7f, b: 0x96 },
            text_placeholder: Rgb { r: 0x74, g: 0x7f, b: 0x96 },
            border_default: Rgb { r: 0x3b, g: 0x41, b: 0x4d },
        }
    }

    /// The "catppuccin-mocha" palette.
    pub fn catppuccin_mocha() -> (r: Self)
        ensures
            r.name@ == "catppuccin-mocha"@,
            r == catppuccin_mocha_palette(),
    {
        Theme {
            name: "catppuccin-mocha",
            bg_primary: Rgb { r: 0x1e, g: 0x1e, b: 0x2e },
            bg_secondary: Rgb { r: 0x25, g: 0x25, b: 0x3a },
            bg_tertiary: Rgb { r: 0x30, g: 0x30, b: 0x4a },
            accent: Rgb { r: 0x89, g: 0xb4, b: 0xfa },
            accent_selection: Rgb { r: 0x30, g: 0x30, b: 0x4a },
            success: Rgb { r: 0xa6, g: 0xe3, b: 0xa1 },
            warning: Rgb { r: 0xf9, g: 0xe2, b: 0xaf },
            error: Rgb { r: 0xf3, g: 0x8b, b: 0xa8 },
            text_primary: Rgb { r: 0xcd, g: 0xd6, b: 0xf4 },
            text_secondary: Rgb { r: 0xba, g: 0xc2, b: 0xde },
            text_muted: Rgb { r: 0x6c, g: 0x70, b: 0x86 },
            text_disabled: Rgb { r: 0x6c, g: 0x70, b: 0x86 },
            text_placeholder: Rgb { r: 0x6c, g: 0x70, b: 0x86 },
            border_default: Rgb { r: 0x45, g: 0x45, b: 0x64 },
        }
    }

    /// The "dracula" palette.
    pub fn dracula() -> (r: Self)
        ensures
            r.name@ == "dracula"@,
            r == dracula_palette(),
    {
        Theme {
            name: "dracula",
            bg_primary: Rgb { r: 0x28, g: 0x28, b: 0x28 },
            bg_secondary: Rgb { r: 0x32, g: 0x32, b: 0x32 },
            bg_tertiary: Rgb { r: 0x3c, g: 0x3c, b: 0x3c },
            accent: Rgb { r: 0xbd, g: 0x93, b: 0xf9 },
            accent_selection: Rgb { r: 0x3c, g: 0x3c, b: 0x3c },
            success: Rgb { r: 0x50, g: 0xfa, b: 0x7b },
            warning: Rgb { r: 0xf1, g: 0xfa, b: 0x8c },
            error: Rgb { r: 0xff, g: 0x55, b: 0x55 },
            text_primary: Rgb { r: 0xf8, g: 0xf8, b: 0xf2 },
            text_secondary: Rgb { r: 0xbf, g: 0xbf, b: 0xbf },
            text_muted: Rgb { r: 0x62, g: 0x62, b: 0x62 },
            text_disabled: Rgb { r: 0x62, g: 0x62, b: 0x62 },
            text_placeholder: Rgb { r: 0x62, g: 0x62, b: 0x62 },
            border_default: Rgb { r: 0x44, g: 0x44, b: 0x44 },
        }
    }

    /// The "nord" palette.
    pub fn nord() -> (r: Self)
        ensures
            r.name@ == "nord"@,
            r == nord_palette(),
    {
        Theme {
            name: "nord",
            bg_primary: Rgb { r: 0x2e, g: 0x34, b: 0x40 },
            bg_secondary: Rgb { r: 0x3b, g: 0x42, b: 0x52 },
            bg_tertiary: Rgb { r: 0x43, g: 0x4c, b: 0x5e },
            accent: Rgb { r: 0x88, g: 0xc0, b: 0xd0 },
            accent_selection: Rgb { r: 0x43, g: 0x4c, b: 0x5e },
            success: Rgb { r: 0xa3, g: 0xbe, b: 0x8c },
            warning: Rgb { r: 0xeb, g: 0xcb, b: 0x8b },
            error: Rgb { r: 0xbf, g: 0x61, b: 0x6a },
            text_primary: Rgb { r: 0xd8, g: 0xde, b: 0xe9 },
            text_secondary: Rgb { r: 0xe5, g: 0xe9, b: 0xf0 },
            text_muted: Rgb { r: 0x61, g: 0x6e, b: 0x88 },
            text_disabled: Rgb { r: 0x61, g: 0x6e, b: 0x88 },
            text_placeholder: Rgb { r: 0x61, g: 0x6e, b: 0x88 },
            border_default: Rgb { r: 0x4c, g: 0x56, b: 0x6a },
        }
    }

    /// The "gruvbox" palette.
    pub fn gruvbox() -> (r: Self)
        ensures
            r.name@ == "gruvbox"@,
            r == gruvbox_palette(),
    {
        Theme {
            name: "gruvbox",
            bg_primary: Rgb { r: 0x28, g: 0x28, b: 0x28 },
            bg_secondary: Rgb { r: 0x32, g: 0x30, b: 0x2f },
            bg_tertiary: Rgb { r: 0x3c, g: 0x38, b: 0x36 },
            accent: Rgb { r: 0xd7, g: 0x99, b: 0x21 },
            accent_selection: Rgb { r: 0x3c, g: 0x38, b: 0x36 },
            success: Rgb { r: 0x98, g: 0x97, b: 0x1a },
            warning: Rgb { r: 0xd7, g: 0x99, b: 0x21 },
            error: Rgb { r: 0xfb, g: 0x49, b: 0x34 },
            text_primary: Rgb { r: 0xeb, g: 0xdb, b: 0xb2 },
            text_secondary: Rgb { r: 0xd5, g: 0xc4, b: 0xa1 },
            text_muted: Rgb { r: 0x92, g: 0x83, b: 0x74 },
            text_disabled: Rgb { r: 0x92, g: 0x83, b: 0x74 },
            text_placeholder: Rgb { r: 0x92, g: 0x83, b: 0x74 },
            border_default: Rgb { r: 0x50, g: 0x49, b: 0x45 },
        }
    }

    /// The "one-light" palette.
    pub fn one_light() -> (r: Self)
        ensures
            r.name@ == "one-light"@,
            r == one_light_palette(),
    {
        Theme {
            name: "one-light",
            bg_primary: Rgb { r: 0xfa, g: 0xfa, b: 0xfa },
            bg_secondary: Rgb { r: 0xef, g: 0xef, b: 0xef },
            bg_tertiary: Rgb { r: 0xdc, g: 0xe2, b: 0xea },
            accent: Rgb { r: 0x40, g: 0x78, b: 0xf2 },
            accent_selection: Rgb { r: 0xdc, g: 0xe2, b: 0xea },
            success: Rgb { r: 0x50, g: 0xa1, b: 0x4f },
            warning: Rgb { r: 0xc1, g: 0x84, b: 0x01 },
            error: Rgb { r: 0xe4, g: 0x56, b: 0x49 },
            text_primary: Rgb { r: 0x38, g: 0x3a, b: 0x42 },
            text_secondary: Rgb { r: 0x4f, g: 0x52, b: 0x5c },
            text_muted: Rgb { r: 0xa0, g: 0xa1, b: 0xa7 },
            text_disabled: Rgb { r: 0xa0, g: 0xa1, b: 0xa7 },
            text_placeholder: Rgb { r: 0xa0, g: 0xa1, b: 0xa7 },
            border_default: Rgb { r: 0xd0, g: 0xd0, b: 0xd0 },
        }
    }

    /// The "catppuccin-latte" palette.
    pub fn catppuccin_latte() -> (r: Self)
        ensures
            r.name@ == "catppuccin-latte"@,
            r == catppuccin_latte_palette(),
    {
        Theme {
            name: "catppuccin-latte",
            bg_primary: Rgb { r: 0xef, g: 0xf1, b: 0xf5 },
            bg_secondary: Rgb { r: 0xe6, g: 0xe9, b: 0xef },
            bg_tertiary: Rgb { r: 0xcc, g: 0xd0, b: 0xda },
            accent: Rgb { r: 0x1e, g: 0x66, b: 0xf5 },
            accent_selection: Rgb { r: 0xcc, g: 0xd0, b: 0xda },
            success: Rgb { r: 0x40, g: 0xa0, b: 0x2b },
            warning: Rgb { r: 0xdf, g: 0x8e, b: 0x1d },
            error: Rgb { r: 0xd2, g: 0x0f, b: 0x39 },
            text_primary: Rgb { r: 0x4c, g: 0x4f, b: 0x69 },
            text_secondary: Rgb { r: 0x6c, g: 0x6f, b: 0x85 },
            text_muted: Rgb { r: 0x9c, g: 0xa0, b: 0xb0 },
            text_disabled: Rgb { r: 0x9c, g: 0xa0, b: 0xb0 },
            text_placeholder: Rgb { r: 0x9c, g: 0xa0, b: 0xb0 },
            border_default: Rgb { r: 0xbc, g: 0xc0, b: 0xcc },
        }
    }

    /// The "solarized-light" palette.
    pub fn solarized_light() -> (r: Self)
        ensures
            r.name@ == "solarized-light"@,
            r == solarized_light_palette(),
    {
        Theme {
            name: "solarized-light",
            bg_primary: Rgb { r: 0xfd, g: 0xf6, b: 0xe3 },
            bg_secondary: Rgb { r: 0xee, g: 0xe8, b: 0xd5 },
            bg_tertiary: Rgb { r: 0xe3, g: 0xdb, b: 0xb8 },
            accent: Rgb { r: 0x26, g: 0x8b, b: 0xd2 },
            accent_selection: Rgb { r: 0xe3, g: 0xdb, b: 0xb8 },
            success: Rgb { r: 0x85, g: 0x99, b: 0x00 },
            warning: Rgb { r: 0xb5, g: 0x89, b: 0x00 },
            error: Rgb { r: 0xdc, g: 0x32, b: 0x2f },
            text_primary: Rgb { r: 0x58, g: 0x6e, b: 0x75 },
            text_secondary: Rgb { r: 0x65, g: 0x7b, b: 0x83 },
            text_muted: Rgb { r: 0x93, g: 0xa1, b: 0xa1 },
            text_disabled: Rgb { r: 0x93, g: 0xa1, b: 0xa1 },
            text_placeholder: Rgb { r: 0x93, g: 0xa1, b: 0xa1 },
            border_default: Rgb { r: 0xd6, g: 0xce, b: 0xac },
        }
    }

    /// The "gruvbox-light" palette.
    pub fn gruvbox_light() -> (r: Self)
        ensures
            r.name@ == "gruvbox-light"@,
            r == gruvbox_light_palette(),
    {
        Theme {
            name: "gruvbox-light",
            bg_primary: Rgb { r: 0xfb, g: 0xf1, b: 0xc7 },
            bg_secondary: Rgb { r: 0xf2, g: 0xe5, b: 0xbc },
            bg_tertiary: Rgb { r: 0xeb, g: 0xdb, b: 0xb2 },
            accent: Rgb { r: 0x07, g: 0x66, b: 0x78 },
            accent_selection: Rgb { r: 0xeb, g: 0xdb, b: 0xb2 },
            success: Rgb { r: 0x79, g: 0x74, b: 0x0e },
            warning: Rgb { r: 0xb5, g: 0x76, b: 0x14 },
            error: Rgb { r: 0xcc, g: 0x24, b: 0x1d },
            text_primary: Rgb { r: 0x3c, g: 0x38, b: 0x36 },
            text_secondary: Rgb { r: 0x50, g: 0x49, b: 0x45 },
            text_muted: Rgb { r: 0x7c, g: 0x6f, b: 0x64 },
            text_disabled: Rgb { r: 0x7c, g: 0x6f, b: 0x64 },
            text_placeholder: Rgb { r: 0x7c, g: 0x6f, b: 0x64 },
            border_default: Rgb { r: 0xd5, g: 0xc4, b: 0xa1 },
        }
    }

    /// The palette called `name`, if there is one.
    pub fn by_name(name: &str) -> (r: Option<Self>)
        ensures
            r == preset(name@),
            r is Some <==> is_theme_name(name@),
            r matches Some(t) ==> t.name@ == name@,
    {
        proof {
            reveal_strlit("one-dark");
            reveal_strlit("catppuccin-mocha");
            reveal_strlit("dracula");
            reveal_strlit("nord");
            reveal_strlit("gruvbox");
            reveal_strlit("one-light");
            reveal_strlit("catppuccin-latte");
            reveal_strlit("solarized-light");
            reveal_strlit("gruvbox-light");
            assert(theme_table()[0].0@ == "catppuccin-latte"@);
            assert(theme_table()[1].0@ == "gruvbox-light"@);
            assert(theme_table()[2].0@ == "one-light"@);
            assert(theme_table()[3].0@ == "solarized-light"@);
            assert(theme_table()[4].0@ == "catppuccin-mocha"@);
            assert(theme_table()[5].0@ == "dracula"@);
            assert(theme_table()[6].0@ == "gruvbox"@);
            assert(theme_table()[7].0@ == "nord"@);
            assert(theme_table()[8].0@ == "one-dark"@);
        }
        if str_eq(name, "one-dark") {
            Some(Theme::one_dark())
        } else if str_eq(name, "catppuccin-mocha") {
            Some(Theme::catppuccin_mocha())
        } else if str_eq(name, "dracula") {
            Some(Theme::dracula())
        } else if str_eq(name, "nord") {
            Some(Theme::nord())
        } else if str_eq(name, "gruvbox") {
            Some(Theme::gruvbox())
        } else if str_eq(name, "one-light") {
            Some(Theme::one_light())
        } else if str_eq(name, "catppuccin-latte") {
            Some(Theme::catppuccin_latte())
        } else if str_eq(name, "solarized-light") {
            Some(Theme::solarized_light())
        } else if str_eq(name, "gruvbox-light") {
            Some(Theme::gruvbox_light())
        } else {
            None
        }
    }

    /// `(name, is_light)` of every theme, the light ones first.
    pub fn theme_registry() -> (r: Vec<(&'static str, bool)>)
        ensures
            r@ == theme_table(),
    {
        theme_registry()
    }

    /// The theme names, in picker order.
    pub fn theme_names() -> (r: Vec<&'static str>)
        ensures
            r@.len() == theme_table().len(),
            forall|i: int| 0 <= i < r@.len() ==> #[trigger] r@[i] == theme_table()[i].0,
    {
        theme_names()
    }
}

impl Default for Theme {
    fn default() -> (r: Self)
        ensures
            r.name@ == "one-dark"@,
            r == one_dark_palette(),
    {
        Theme::one_dark()
    }
}


/// The theme for the screen behind the calendar: every accent and text
/// colour muted, the highlight backgrounds as the plain secondary one.
pub open spec fn dimmed(theme: Theme) -> Theme {
    Theme {
        accent: theme.text_muted,
        success: theme.text_muted,
        warning: theme.text_muted,
        error: theme.text_muted,
        text_primary: theme.text_muted,
        text_secondary: theme.text_muted,
        border_default: theme.text_muted,
        bg_tertiary: theme.bg_secondary,
        accent_selection: theme.bg_secondary,
        ..theme
    }
}

/// The theme dimmed as `dimmed` says.
pub fn dimmed_theme(theme: &Theme) -> (r: Theme)
    ensures
        r == dimmed(*theme),
{
    let mut d = *theme;
    d.accent = theme.text_muted;
    d.success = theme.text_muted;
    d.warning = theme.text_muted;
    d.error = theme.text_muted;
    d.text_primary = theme.text_muted;
    d.text_secondary = theme.text_muted;
    d.border_default = theme.text_muted;
    d.bg_tertiary = theme.bg_secondary;
    d.accent_selection = theme.bg_secondary;
    d
}

} // verus!
