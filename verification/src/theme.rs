//! The launcher's named colour themes, and choosing one by its index.

use vstd::prelude::*;

verus! {

/// A named colour theme. Colours are 0xRRGGBB.
#[derive(Clone, Copy, Debug)]
pub struct ThemeDef {
    pub name: &'static str,
    pub bg: u32,
    pub panel: u32,
    pub cap: u32,
    pub cap_hover: u32,
    pub cap_text: u32,
    pub text: u32,
    pub dim: u32,
    pub accent: u32,
    pub ok: u32,
}

/// The number of themes.
pub const THEME_COUNT: usize = 10;

/// The themes, in menu order; the first is the default.
pub open spec fn themes_spec() -> Seq<ThemeDef> {
    seq![
        ThemeDef { name: "Dark", bg: 0x15161a, panel: 0x1d1f24, cap: 0x3a3e47, cap_hover: 0x484d58, cap_text: 0xffffff, text: 0xededf3, dim: 0x93989f, accent: 0xe04848, ok: 0x4cc46a },
        ThemeDef { name: "Light", bg: 0xd9dce3, panel: 0xe8eaef, cap: 0xf3f5f8, cap_hover: 0xffffff, cap_text: 0x24272d, text: 0x22252b, dim: 0x64697d, accent: 0xe04848, ok: 0x2c9c4c },
        ThemeDef { name: "Nord", bg: 0x2e3440, panel: 0x3b4252, cap: 0x434c5e, cap_hover: 0x4c566a, cap_text: 0xeceff4, text: 0xeceff4, dim: 0x9aa4b8, accent: 0x88c0d0, ok: 0xa3be8c },
        ThemeDef { name: "Dracula", bg: 0x282a36, panel: 0x21222c, cap: 0x44475a, cap_hover: 0x565872, cap_text: 0xf8f8f2, text: 0xf8f8f2, dim: 0x8a8fa3, accent: 0xbd93f9, ok: 0x50fa7b },
        ThemeDef { name: "Gruvbox", bg: 0x282828, panel: 0x1d2021, cap: 0x3c3836, cap_hover: 0x504945, cap_text: 0xebdbb2, text: 0xebdbb2, dim: 0xa89984, accent: 0xfe8019, ok: 0xb8bb26 },
        ThemeDef { name: "Solarized Dark", bg: 0x002b36, panel: 0x073642, cap: 0x0a4a58, cap_hover: 0x0f5a6a, cap_text: 0x93a1a1, text: 0xeee8d5, dim: 0x839496, accent: 0x268bd2, ok: 0x859900 },
        ThemeDef { name: "Catppuccin Mocha", bg: 0x1e1e2e, panel: 0x181825, cap: 0x313244, cap_hover: 0x45475a, cap_text: 0xcdd6f4, text: 0xcdd6f4, dim: 0xa6adc8, accent: 0xcba6f7, ok: 0xa6e3a1 },
        ThemeDef { name: "Catppuccin Latte", bg: 0xeff1f5, panel: 0xe6e9ef, cap: 0xffffff, cap_hover: 0xdce0e8, cap_text: 0x4c4f69, text: 0x4c4f69, dim: 0x6c6f85, accent: 0x8839ef, ok: 0x40a02b },
        ThemeDef { name: "Tokyo Night", bg: 0x1a1b26, panel: 0x16161e, cap: 0x2a2e42, cap_hover: 0x3b4261, cap_text: 0xc0caf5, text: 0xc0caf5, dim: 0x9aa5ce, accent: 0x7aa2f7, ok: 0x9ece6a },
        ThemeDef { name: "Rosé Pine", bg: 0x191724, panel: 0x1f1d2e, cap: 0x26233a, cap_hover: 0x393552, cap_text: 0xe0def4, text: 0xe0def4, dim: 0x908caa, accent: 0xebbcba, ok: 0x9ccfd8 },
    ]
}

/// The themes, in menu order; the first is the default.
pub fn themes() -> (t: Vec<ThemeDef>)
    ensures
        t@ == themes_spec(),
{
    vec![
        ThemeDef { name: "Dark", bg: 0x15161a, panel: 0x1d1f24, cap: 0x3a3e47, cap_hover: 0x484d58, cap_text: 0xffffff, text: 0xededf3, dim: 0x93989f, accent: 0xe04848, ok: 0x4cc46a },
        ThemeDef { name: "Light", bg: 0xd9dce3, panel: 0xe8eaef, cap: 0xf3f5f8, cap_hover: 0xffffff, cap_text: 0x24272d, text: 0x22252b, dim: 0x64697d, accent: 0xe04848, ok: 0x2c9c4c },
        ThemeDef { name: "Nord", bg: 0x2e3440, panel: 0x3b4252, cap: 0x434c5e, cap_hover: 0x4c566a, cap_text: 0xeceff4, text: 0xeceff4, dim: 0x9aa4b8, accent: 0x88c0d0, ok: 0xa3be8c },
        ThemeDef { name: "Dracula", bg: 0x282a36, panel: 0x21222c, cap: 0x44475a, cap_hover: 0x565872, cap_text: 0xf8f8f2, text: 0xf8f8f2, dim: 0x8a8fa3, accent: 0xbd93f9, ok: 0x50fa7b },
        ThemeDef { name: "Gruvbox", bg: 0x282828, panel: 0x1d2021, cap: 0x3c3836, cap_hover: 0x504945, cap_text: 0xebdbb2, text: 0xebdbb2, dim: 0xa89984, accent: 0xfe8019, ok: 0xb8bb26 },
        ThemeDef { name: "Solarized Dark", bg: 0x002b36, panel: 0x073642, cap: 0x0a4a58, cap_hover: 0x0f5a6a, cap_text: 0x93a1a1, text: 0xeee8d5, dim: 0x839496, accent: 0x268bd2, ok: 0x859900 },
        ThemeDef { name: "Catppuccin Mocha", bg: 0x1e1e2e, panel: 0x181825, cap: 0x313244, cap_hover: 0x45475a, cap_text: 0xcdd6f4, text: 0xcdd6f4, dim: 0xa6adc8, accent: 0xcba6f7, ok: 0xa6e3a1 },
        ThemeDef { name: "Catppuccin Latte", bg: 0xeff1f5, panel: 0xe6e9ef, cap: 0xffffff, cap_hover: 0xdce0e8, cap_text: 0x4c4f69, text: 0x4c4f69, dim: 0x6c6f85, accent: 0x8839ef, ok: 0x40a02b },
        ThemeDef { name: "Tokyo Night", bg: 0x1a1b26, panel: 0x16161e, cap: 0x2a2e42, cap_hover: 0x3b4261, cap_text: 0xc0caf5, text: 0xc0caf5, dim: 0x9aa5ce, accent: 0x7aa2f7, ok: 0x9ece6a },
        ThemeDef { name: "Rosé Pine", bg: 0x191724, panel: 0x1f1d2e, cap: 0x26233a, cap_hover: 0x393552, cap_text: 0xe0def4, text: 0xe0def4, dim: 0x908caa, accent: 0xebbcba, ok: 0x9ccfd8 },
    ]
}

/// The index of the theme a menu index selects: out-of-range indices select the last theme.
pub open spec fn theme_index_spec(i: int, count: int) -> int {
    if i < count - 1 {
        i
    } else {
        count - 1
    }
}

/// The theme a menu index selects: out-of-range indices select the last theme.
pub fn theme_for(i: usize) -> (t: ThemeDef)
    ensures
        t == themes_spec()[theme_index_spec(i as int, THEME_COUNT as int)],
{
    let all = themes();
    let k = if i < all.len() - 1 {
        i
    } else {
        all.len() - 1
    };
    all[k]
}

/// The red, green and blue bytes of a 0xRRGGBB colour.
pub open spec fn rgb_spec(v: u32) -> (u8, u8, u8) {
    (((v / 0x1_0000) % 0x100) as u8, ((v / 0x100) % 0x100) as u8, (v % 0x100) as u8)
}

/// The red, green and blue bytes of a 0xRRGGBB colour.
pub fn rgb(v: u32) -> (c: (u8, u8, u8))
    ensures
        c == rgb_spec(v),
{
    let r = (v >> 16) as u8;
    let g = (v >> 8) as u8;
    let b = v as u8;
    assert(r == ((v / 0x1_0000) % 0x100) as u8 && g == ((v / 0x100) % 0x100) as u8 && b == (v % 0x100) as u8) by (bit_vector)
        requires
            r == (v >> 16) as u8,
            g == (v >> 8) as u8,
            b == v as u8,
    ;
    (r, g, b)
}

/// Law: the red, green and blue bytes put back together give the colour.
pub proof fn rgb_recombines(v: u32)
    requires
        v <= 0xFF_FFFF,
    ensures
        rgb_spec(v).0 * 0x1_0000 + rgb_spec(v).1 * 0x100 + rgb_spec(v).2 == v,
{
    assert(((v / 0x1_0000) % 0x100) * 0x1_0000 + ((v / 0x100) % 0x100) * 0x100 + v % 0x100 == v) by (bit_vector)
        requires
            v <= 0xFF_FFFF,
    ;
}

/// Law: every menu index selects one of the themes, and an index in range
/// selects the theme at that index.
pub proof fn theme_index_in_range(i: int)
    requires
        i >= 0,
    ensures
        0 <= theme_index_spec(i, THEME_COUNT as int) < themes_spec().len(),
        i < THEME_COUNT ==> theme_index_spec(i, THEME_COUNT as int) == i,
{
}

/// How bright a 0xRRGGBB colour is: the sum of its three bytes.
pub open spec fn brightness(c: u32) -> int {
    rgb_spec(c).0 + rgb_spec(c).1 + rgb_spec(c).2
}

/// Law: the default theme is "Dark", on a dark background (0x15161a) with
/// light text (0xededf3); "Light" (second) and "Catppuccin Latte" (eighth)
/// are the only themes whose background is brighter than their text, and
/// every other theme's background is darker than its text.
pub proof fn themes_are_dark_or_light(i: int)
    requires
        0 <= i < themes_spec().len(),
    ensures
        themes_spec().len() == THEME_COUNT,
        themes_spec()[0].name@ == seq!['D', 'a', 'r', 'k'],
        themes_spec()[0].bg == 0x15161a && themes_spec()[0].text == 0xededf3,
        themes_spec()[1].name@ == seq!['L', 'i', 'g', 'h', 't'],
        themes_spec()[1].bg == 0xd9dce3 && themes_spec()[1].text == 0x22252b,
        (i == 1 || i == 7) ==> brightness(themes_spec()[i].bg) > brightness(themes_spec()[i].text),
        !(i == 1 || i == 7) ==> brightness(themes_spec()[i].bg) < brightness(themes_spec()[i].text),
{
    reveal_strlit("Dark");
    reveal_strlit("Light");
    assert("Dark"@ =~= seq!['D', 'a', 'r', 'k']);
    assert("Light"@ =~= seq!['L', 'i', 'g', 'h', 't']);
}

/// Law: `theme_for(0)` is the dark default, with a background darker than its text.
pub proof fn default_theme_is_dark()
    ensures
        brightness(themes_spec()[theme_index_spec(0, THEME_COUNT as int)].bg) < brightness(
            themes_spec()[theme_index_spec(0, THEME_COUNT as int)].text,
        ),
{
}

} // verus!
