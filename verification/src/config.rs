//! The settings file: a theme, by name and with colour overrides, and the
//! sidebar width. Reading and writing the file is the caller's part; this
//! module decides what a read file means and what a change writes.

use vstd::prelude::*;

use crate::defs::{display_from_label, display_label, NoteDisplay};
use crate::text::chars_of;
use crate::theme::{is_theme_name, one_dark_palette, preset, Rgb, Theme};

verus! {

/// The settings file.
pub struct Config {
    pub theme: Option<ThemeConfig>,
    pub sidebar_width: Option<u16>,
    /// How inline notes show: "all", "latest" or "hidden".
    pub notes_inline: Option<String>,
}

/// The theme part of the settings: a preset name and colour overrides, each
/// a hex colour.
pub struct ThemeConfig {
    pub name: Option<String>,
    pub bg_primary: Option<String>,
    pub bg_secondary: Option<String>,
    pub bg_tertiary: Option<String>,
    pub accent: Option<String>,
    pub accent_selection: Option<String>,
    pub success: Option<String>,
    pub warning: Option<String>,
    pub error: Option<String>,
    pub text_primary: Option<String>,
    pub text_secondary: Option<String>,
    pub text_muted: Option<String>,
    pub text_disabled: Option<String>,
    pub text_placeholder: Option<String>,
    pub border_default: Option<String>,
}

impl Default for Config {
    fn default() -> (r: Self)
        ensures
            r.theme is None,
            r.sidebar_width is None,
            r.notes_inline is None,
    {
        Config { theme: None, sidebar_width: None, notes_inline: None }
    }
}

impl Default for ThemeConfig {
    fn default() -> (r: Self)
        ensures
            r.name is None,
            r.bg_primary is None,
            r.bg_secondary is None,
            r.bg_tertiary is None,
            r.accent is None,
            r.accent_selection is None,
            r.success is None,
            r.warning is None,
            r.error is None,
            r.text_primary is None,
            r.text_secondary is None,
            r.text_muted is None,
            r.text_disabled is None,
            r.text_placeholder is None,
            r.border_default is None,
    {
        ThemeConfig {
            name: None,
            bg_primary: None,
            bg_secondary: None,
            bg_tertiary: None,
            accent: None,
            accent_selection: None,
            success: None,
            warning: None,
            error: None,
            text_primary: None,
            text_secondary: None,
            text_muted: None,
            text_disabled: None,
            text_placeholder: None,
            border_default: None,
        }
    }
}

/// Value of a hexadecimal digit.
pub open spec fn hex_digit(c: char) -> Option<int> {
    if '0' <= c <= '9' {
        Some(c as int - '0' as int)
    } else if 'a' <= c <= 'f' {
        Some(c as int - 'a' as int + 10)
    } else if 'A' <= c <= 'F' {
        Some(c as int - 'A' as int + 10)
    } else {
        None
    }
}

/// `s` without its leading `#` characters.
pub open spec fn strip_hashes(s: Seq<char>) -> Seq<char>
    decreases s.len(),
{
    if s.len() > 0 && s[0] == '#' {
        strip_hashes(s.drop_first())
    } else {
        s
    }
}

/// A two-character piece read as a hexadecimal byte: two digits, or a `+`
/// sign and one digit.
pub open spec fn hex_pair(a: char, b: char) -> Option<int> {
    match (hex_digit(a), hex_digit(b)) {
        (Some(x), Some(y)) => Some(16 * x + y),
        (None, Some(y)) => if a == '+' {
            Some(y)
        } else {
            None
        },
        _ => None,
    }
}

/// The colour written as `#rgb` or `#rrggbb` (any number of leading `#`);
/// a short digit stands for itself repeated.
pub open spec fn hex_color(s: Seq<char>) -> Option<Rgb> {
    let h = strip_hashes(s);
    if h.len() == 3 {
        match (hex_digit(h[0]), hex_digit(h[1]), hex_digit(h[2])) {
            (Some(r), Some(g), Some(b)) => Some(
                Rgb { r: (17 * r) as u8, g: (17 * g) as u8, b: (17 * b) as u8 },
            ),
            _ => None,
        }
    } else if h.len() == 6 {
        match (hex_pair(h[0], h[1]), hex_pair(h[2], h[3]), hex_pair(h[4], h[5])) {
            (Some(r), Some(g), Some(b)) => Some(Rgb { r: r as u8, g: g as u8, b: b as u8 }),
            _ => None,
        }
    } else {
        None
    }
}

fn hex_digit_exec(c: char) -> (r: Option<u8>)
    ensures
        match r {
            Some(v) => hex_digit(c) == Some(v as int),
            None => hex_digit(c) is None,
        },
{
    if '0' <= c && c <= '9' {
        Some((c as u32 - '0' as u32) as u8)
    } else if 'a' <= c && c <= 'f' {
        Some((c as u32 - 'a' as u32 + 10) as u8)
    } else if 'A' <= c && c <= 'F' {
        Some((c as u32 - 'A' as u32 + 10) as u8)
    } else {
        None
    }
}

fn hex_pair_exec(a: char, b: char) -> (r: Option<u8>)
    ensures
        match r {
            Some(v) => hex_pair(a, b) == Some(v as int),
            None => hex_pair(a, b) is None,
        },
{
    match (hex_digit_exec(a), hex_digit_exec(b)) {
        (Some(x), Some(y)) => Some(16 * x + y),
        (None, Some(y)) => if a == '+' {
            Some(y)
        } else {
            None
        },
        _ => None,
    }
}

/// The colour written in `hex` as `#rgb` or `#rrggbb`; `None` when it is
/// neither.
pub fn parse_hex_color(hex: &str) -> (r: Option<Rgb>)
    ensures
        r == hex_color(hex@),
{
    let cs = chars_of(hex);
    let mut start: usize = 0;
    assert(cs@.skip(0) =~= cs@);
    while start < cs.len() && cs[start] == '#'
        invariant
            0 <= start <= cs.len(),
            strip_hashes(cs@) == strip_hashes(cs@.skip(start as int)),
        decreases cs.len() - start,
    {
        assert(cs@.skip(start as int).drop_first() =~= cs@.skip(start + 1));
        start = start + 1;
    }
    let ghost h = cs@.skip(start as int);
    assert(strip_hashes(h) == h);
    let n = cs.len() - start;
    if n == 3 {
        assert(h[0] == cs@[start as int] && h[1] == cs@[start + 1] && h[2] == cs@[start + 2]);
        match (hex_digit_exec(cs[start]), hex_digit_exec(cs[start + 1]), hex_digit_exec(cs[start + 2])) {
            (Some(r), Some(g), Some(b)) => Some(Rgb { r: 17 * r, g: 17 * g, b: 17 * b }),
            _ => None,
        }
    } else if n == 6 {
        assert(h[0] == cs@[start as int] && h[1] == cs@[start + 1] && h[2] == cs@[start + 2]);
        assert(h[3] == cs@[start + 3] && h[4] == cs@[start + 4] && h[5] == cs@[start + 5]);
        match (
            hex_pair_exec(cs[start], cs[start + 1]),
            hex_pair_exec(cs[start + 2], cs[start + 3]),
            hex_pair_exec(cs[start + 4], cs[start + 5]),
        ) {
            (Some(r), Some(g), Some(b)) => Some(Rgb { r, g, b }),
            _ => None,
        }
    } else {
        None
    }
}

/// A colour after an override: the override's colour when it is given and
/// reads as one, else the colour unchanged.
pub open spec fn overridden(c: Rgb, o: Option<String>) -> Rgb {
    match o {
        Some(v) => match hex_color(v@) {
            Some(x) => x,
            None => c,
        },
        None => c,
    }
}

fn override_color(c: Rgb, o: &Option<String>) -> (r: Rgb)
    ensures
        r == overridden(c, *o),
{
    match o {
        Some(v) => match parse_hex_color(v.as_str()) {
            Some(x) => x,
            None => c,
        },
        None => c,
    }
}

/// Replaces each colour of `theme` that `overrides` gives as a valid hex
/// colour.
pub fn apply_theme_overrides(theme: &mut Theme, overrides: &ThemeConfig)
    ensures
        final(theme).name == old(theme).name,
            final(theme).bg_primary == overridden(old(theme).bg_primary, overrides.bg_primary),
            final(theme).bg_secondary == overridden(old(theme).bg_secondary, overrides.bg_secondary),
            final(theme).bg_tertiary == overridden(old(theme).bg_tertiary, overrides.bg_tertiary),
            final(theme).accent == overridden(old(theme).accent, overrides.accent),
            final(theme).accent_selection == overridden(old(theme).accent_selection, overrides.accent_selection),
            final(theme).success == overridden(old(theme).success, overrides.success),
            final(theme).warning == overridden(old(theme).warning, overrides.warning),
            final(theme).error == overridden(old(theme).error, overrides.error),
            final(theme).text_primary == overridden(old(theme).text_primary, overrides.text_primary),
            final(theme).text_secondary == overridden(old(theme).text_secondary, overrides.text_secondary),
            final(theme).text_muted == overridden(old(theme).text_muted, overrides.text_muted),
            final(theme).text_disabled == overridden(old(theme).text_disabled, overrides.text_disabled),
            final(theme).text_placeholder == overridden(old(theme).text_placeholder, overrides.text_placeholder),
            final(theme).border_default == overridden(old(theme).border_default, overrides.border_default),
{
        theme.bg_primary = override_color(theme.bg_primary, &overrides.bg_primary);
        theme.bg_secondary = override_color(theme.bg_secondary, &overrides.bg_secondary);
        theme.bg_tertiary = override_color(theme.bg_tertiary, &overrides.bg_tertiary);
        theme.accent = override_color(theme.accent, &overrides.accent);
        theme.accent_selection = override_color(theme.accent_selection, &overrides.accent_selection);
        theme.success = override_color(theme.success, &overrides.success);
        theme.warning = override_color(theme.warning, &overrides.warning);
        theme.error = override_color(theme.error, &overrides.error);
        theme.text_primary = override_color(theme.text_primary, &overrides.text_primary);
        theme.text_secondary = override_color(theme.text_secondary, &overrides.text_secondary);
        theme.text_muted = override_color(theme.text_muted, &overrides.text_muted);
        theme.text_disabled = override_color(theme.text_disabled, &overrides.text_disabled);
        theme.text_placeholder = override_color(theme.text_placeholder, &overrides.text_placeholder);
        theme.border_default = override_color(theme.border_default, &overrides.border_default);
}

/// Every colour that `tc` overrides with a valid hex colour is that colour
/// in `t`.
pub open spec fn overrides_taken(t: Theme, tc: ThemeConfig) -> bool {
    &&& match tc.bg_primary {
        Some(v) => match hex_color(v@) {
            Some(x) => t.bg_primary == x,
            None => true,
        },
        None => true,
    }
    &&& match tc.bg_secondary {
        Some(v) => match hex_color(v@) {
            Some(x) => t.bg_secondary == x,
            None => true,
        },
        None => true,
    }
    &&& match tc.bg_tertiary {
        Some(v) => match hex_color(v@) {
            Some(x) => t.bg_tertiary == x,
            None => true,
        },
        None => true,
    }
    &&& match tc.accent {
        Some(v) => match hex_color(v@) {
            Some(x) => t.accent == x,
            None => true,
        },
        None => true,
    }
    &&& match tc.accent_selection {
        Some(v) => match hex_color(v@) {
            Some(x) => t.accent_selection == x,
            None => true,
        },
        None => true,
    }
    &&& match tc.success {
        Some(v) => match hex_color(v@) {
            Some(x) => t.success == x,
            None => true,
        },
        None => true,
    }
    &&& match tc.warning {
        Some(v) => match hex_color(v@) {
            Some(x) => t.warning == x,
            None => true,
        },
        None => true,
    }
    &&& match tc.error {
        Some(v) => match hex_color(v@) {
            Some(x) => t.error == x,
            None => true,
        },
        None => true,
    }
    &&& match tc.text_primary {
        Some(v) => match hex_color(v@) {
            Some(x) => t.text_primary == x,
            None => true,
        },
        None => true,
    }
    &&& match tc.text_secondary {
        Some(v) => match hex_color(v@) {
            Some(x) => t.text_secondary == x,
            None => true,
        },
        None => true,
    }
    &&& match tc.text_muted {
        Some(v) => match hex_color(v@) {
            Some(x) => t.text_muted == x,
            None => true,
        },
        None => true,
    }
    &&& match tc.text_disabled {
        Some(v) => match hex_color(v@) {
            Some(x) => t.text_disabled == x,
            None => true,
        },
        None => true,
    }
    &&& match tc.text_placeholder {
        Some(v) => match hex_color(v@) {
            Some(x) => t.text_placeholder == x,
            None => true,
        },
        None => true,
    }
    &&& match tc.border_default {
        Some(v) => match hex_color(v@) {
            Some(x) => t.border_default == x,
            None => true,
        },
        None => true,
    }
}

/// `t` with every colour that `tc` gives as a valid hex colour replaced.
pub open spec fn with_overrides(t: Theme, tc: ThemeConfig) -> Theme {
    Theme {
        name: t.name,
        bg_primary: overridden(t.bg_primary, tc.bg_primary),
        bg_secondary: overridden(t.bg_secondary, tc.bg_secondary),
        bg_tertiary: overridden(t.bg_tertiary, tc.bg_tertiary),
        accent: overridden(t.accent, tc.accent),
        accent_selection: overridden(t.accent_selection, tc.accent_selection),
        success: overridden(t.success, tc.success),
        warning: overridden(t.warning, tc.warning),
        error: overridden(t.error, tc.error),
        text_primary: overridden(t.text_primary, tc.text_primary),
        text_secondary: overridden(t.text_secondary, tc.text_secondary),
        text_muted: overridden(t.text_muted, tc.text_muted),
        text_disabled: overridden(t.text_disabled, tc.text_disabled),
        text_placeholder: overridden(t.text_placeholder, tc.text_placeholder),
        border_default: overridden(t.border_default, tc.border_default),
    }
}

/// The preset a theme part names, or "one-dark" when the name is missing
/// or unknown.
pub open spec fn named_base(tc: ThemeConfig) -> Theme {
    match tc.name {
        Some(n) => match preset(n@) {
            Some(t) => t,
            None => one_dark_palette(),
        },
        None => one_dark_palette(),
    }
}

/// The theme that the settings `cfg` select.
pub open spec fn configured_theme(cfg: Option<Config>) -> Theme {
    match cfg {
        Some(c) => match c.theme {
            Some(tc) => with_overrides(named_base(tc), tc),
            None => one_dark_palette(),
        },
        None => one_dark_palette(),
    }
}

/// The theme that a read settings file selects: the named preset, or
/// "one-dark" when the name is missing or unknown, with the overrides
/// applied; plain "one-dark" when there is no file or no theme part.
pub fn theme_from_config(cfg: &Option<Config>) -> (r: Theme)
    ensures
        r == configured_theme(*cfg),
        match cfg {
            Some(c) => match &c.theme {
                Some(tc) => {
                    &&& (match &tc.name {
                        Some(n) => if is_theme_name(n@) {
                            r.name@ == n@
                        } else {
                            r.name@ == "one-dark"@
                        },
                        None => r.name@ == "one-dark"@,
                    })
                    &&& overrides_taken(r, *tc)
                },
                None => r.name@ == "one-dark"@,
            },
            None => r.name@ == "one-dark"@,
        },
{
    match cfg {
        Some(c) => match &c.theme {
            Some(tc) => {
                let mut theme = match &tc.name {
                    Some(n) => match Theme::by_name(n.as_str()) {
                        Some(t) => t,
                        None => Theme::one_dark(),
                    },
                    None => Theme::one_dark(),
                };
                apply_theme_overrides(&mut theme, tc);
                theme
            },
            None => Theme::one_dark(),
        },
        None => Theme::one_dark(),
    }
}

/// `a` and `b` override the same colours with the same text.
pub open spec fn same_overrides(a: ThemeConfig, b: ThemeConfig) -> bool {
    &&& a.bg_primary == b.bg_primary
    &&& a.bg_secondary == b.bg_secondary
    &&& a.bg_tertiary == b.bg_tertiary
    &&& a.accent == b.accent
    &&& a.accent_selection == b.accent_selection
    &&& a.success == b.success
    &&& a.warning == b.warning
    &&& a.error == b.error
    &&& a.text_primary == b.text_primary
    &&& a.text_secondary == b.text_secondary
    &&& a.text_muted == b.text_muted
    &&& a.text_disabled == b.text_disabled
    &&& a.text_placeholder == b.text_placeholder
    &&& a.border_default == b.border_default
}

/// `t` overrides no colour.
pub open spec fn no_overrides(t: ThemeConfig) -> bool {
    &&& t.bg_primary is None
    &&& t.bg_secondary is None
    &&& t.bg_tertiary is None
    &&& t.accent is None
    &&& t.accent_selection is None
    &&& t.success is None
    &&& t.warning is None
    &&& t.error is None
    &&& t.text_primary is None
    &&& t.text_secondary is None
    &&& t.text_muted is None
    &&& t.text_disabled is None
    &&& t.text_placeholder is None
    &&& t.border_default is None
}

/// The settings to write after choosing the theme `name`: the read
/// settings, or empty ones, with a theme part made if there was none and
/// its name set; everything else kept.
pub fn with_theme_name(cfg: Option<Config>, name: &str) -> (r: Config)
    ensures
        r.sidebar_width == (match cfg {
            Some(c) => c.sidebar_width,
            None => None,
        }),
        r.notes_inline == (match cfg {
            Some(c) => c.notes_inline,
            None => None,
        }),
        r.theme matches Some(tc) && tc.name matches Some(n) && n@ == name@,
        match (cfg, r.theme) {
            (Some(c), Some(tc)) => match c.theme {
                Some(old_tc) => same_overrides(tc, old_tc),
                None => no_overrides(tc),
            },
            _ => true,
        },
{
    let mut c = match cfg {
        Some(c) => c,
        None => Config::default(),
    };
    let mut tc = match c.theme {
        Some(tc) => tc,
        None => ThemeConfig::default(),
    };
    tc.name = Some(name.to_string());
    c.theme = Some(tc);
    c
}

/// The settings to write after resizing the sidebar to `width`: the read
/// settings, or empty ones, with the width set.
pub fn with_sidebar_width(cfg: Option<Config>, width: u16) -> (r: Config)
    ensures
        r.sidebar_width == Some(width),
        r.theme == (match cfg {
            Some(c) => c.theme,
            None => None,
        }),
        r.notes_inline == (match cfg {
            Some(c) => c.notes_inline,
            None => None,
        }),
{
    let mut c = match cfg {
        Some(c) => c,
        None => Config::default(),
    };
    c.sidebar_width = Some(width);
    c
}


/// The settings to write after choosing how notes show: the read settings,
/// or empty ones, with the display's name set.
pub fn with_note_display(cfg: Option<Config>, d: NoteDisplay) -> (r: Config)
    ensures
        r.notes_inline matches Some(n) && n@ == display_label(d),
        r.theme == (match cfg {
            Some(c) => c.theme,
            None => None,
        }),
        r.sidebar_width == (match cfg {
            Some(c) => c.sidebar_width,
            None => None,
        }),
{
    let mut c = match cfg {
        Some(c) => c,
        None => Config::default(),
    };
    c.notes_inline = Some(d.label().to_string());
    c
}

/// How notes show according to the settings: the named display, or all
/// notes when none (or an unknown one) is named.
pub fn note_display_of(cfg: &Config) -> (r: NoteDisplay)
    ensures
        r == match cfg.notes_inline {
            Some(n) => match display_from_label(n@) {
                Some(d) => d,
                None => NoteDisplay::All,
            },
            None => NoteDisplay::All,
        },
{
    match &cfg.notes_inline {
        Some(n) => match NoteDisplay::from_label(n.as_str()) {
            Some(d) => d,
            None => NoteDisplay::All,
        },
        None => NoteDisplay::All,
    }
}

} // verus!
