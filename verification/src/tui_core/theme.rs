//! Color themes for the TUI.
//!
//! Only four foreground accent roles are themed (the terminal's background
//! shows through), so a theme is its name, the key that picks it, and four
//! colors. The active theme is an index into [`themes`].

use vstd::prelude::*;

use crate::text;

verus! {

/// A terminal color: one of the named ANSI colors or an explicit RGB value.
#[derive(Debug, Clone, Copy, PartialEq, Eq)]
pub enum Color {
    Reset,
    Cyan,
    Green,
    Red,
    Yellow,
    DarkGray,
    Rgb(u8, u8, u8),
}

/// A named color scheme.
#[derive(Debug, Clone, Copy)]
pub struct Theme {
    pub name: &'static str,
    /// Mnemonic key used to pick this theme in the picker popup.
    pub key: &'static str,
    /// Primary accent: titles, borders, prompts.
    pub header: Color,
    /// Success / selection accent.
    pub select: Color,
    /// Errors and "off" states.
    pub error: Color,
    /// Muted secondary text.
    pub dim: Color,
}

/// The number of themes.
pub const THEME_COUNT: usize = 7;

/// Name of theme `i`.
pub open spec fn theme_name(i: int) -> Seq<char> {
    if i == 0 {
        "auto"@
    } else if i == 1 {
        "noir-cat"@
    } else if i == 2 {
        "knew-pines"@
    } else if i == 3 {
        "catppuccin"@
    } else if i == 4 {
        "gruvbox"@
    } else if i == 5 {
        "nord"@
    } else {
        "tokyo-night"@
    }
}

/// Picker key of theme `i`.
pub open spec fn theme_key(i: int) -> Seq<char> {
    if i == 0 {
        "a"@
    } else if i == 1 {
        "o"@
    } else if i == 2 {
        "k"@
    } else if i == 3 {
        "c"@
    } else if i == 4 {
        "g"@
    } else if i == 5 {
        "n"@
    } else {
        "t"@
    }
}

/// Colors of theme `i`: header, select, error, dim.
pub open spec fn theme_colors(i: int) -> (Color, Color, Color, Color) {
    if i == 0 {
        (Color::Cyan, Color::Green, Color::Red, Color::DarkGray)
    } else if i == 1 {
        (
            Color::Rgb(0xcb, 0xa6, 0xf7),
            Color::Rgb(0xa6, 0xe3, 0xa1),
            Color::Rgb(0xf3, 0x8b, 0xa8),
            Color::Rgb(0x58, 0x5b, 0x70),
        )
    } else if i == 2 {
        (
            Color::Rgb(0xc4, 0xa7, 0xe7),
            Color::Rgb(0x9c, 0xcf, 0xd8),
            Color::Rgb(0xeb, 0x6f, 0x92),
            Color::Rgb(0x6e, 0x6a, 0x86),
        )
    } else if i == 3 {
        (
            Color::Rgb(0x89, 0xb4, 0xfa),
            Color::Rgb(0xa6, 0xe3, 0xa1),
            Color::Rgb(0xf3, 0x8b, 0xa8),
            Color::Rgb(0x58, 0x5b, 0x70),
        )
    } else if i == 4 {
        (
            Color::Rgb(0x83, 0xa5, 0x98),
            Color::Rgb(0xb8, 0xbb, 0x26),
            Color::Rgb(0xfb, 0x49, 0x34),
            Color::Rgb(0x92, 0x83, 0x74),
        )
    } else if i == 5 {
        (
            Color::Rgb(0x88, 0xc0, 0xd0),
            Color::Rgb(0xa3, 0xbe, 0x8c),
            Color::Rgb(0xbf, 0x61, 0x6a),
            Color::Rgb(0x4c, 0x56, 0x6a),
        )
    } else {
        (
            Color::Rgb(0x7a, 0xa2, 0xf7),
            Color::Rgb(0x9e, 0xce, 0x6a),
            Color::Rgb(0xf7, 0x76, 0x8e),
            Color::Rgb(0x56, 0x5f, 0x89),
        )
    }
}

/// Theme `i` matches the table.
pub open spec fn is_theme(t: Theme, i: int) -> bool {
    &&& t.name@ == theme_name(i)
    &&& t.key@ == theme_key(i)
    &&& (t.header, t.select, t.error, t.dim) == theme_colors(i)
}

/// Theme `i` of the table (`i < THEME_COUNT`). `auto` (index 0) is the
/// default and follows the terminal's own ANSI palette; the rest pin RGB
/// values.
pub fn theme_at(i: usize) -> (t: Theme)
    requires
        i < THEME_COUNT,
    ensures
        is_theme(t, i as int),
{
    if i == 0 {
        Theme { name: "auto", key: "a", header: Color::Cyan, select: Color::Green, error: Color::Red, dim: Color::DarkGray }
    } else if i == 1 {
        Theme {
            name: "noir-cat",
            key: "o",
            header: Color::Rgb(0xcb, 0xa6, 0xf7),
            select: Color::Rgb(0xa6, 0xe3, 0xa1),
            error: Color::Rgb(0xf3, 0x8b, 0xa8),
            dim: Color::Rgb(0x58, 0x5b, 0x70),
        }
    } else if i == 2 {
        Theme {
            name: "knew-pines",
            key: "k",
            header: Color::Rgb(0xc4, 0xa7, 0xe7),
            select: Color::Rgb(0x9c, 0xcf, 0xd8),
            error: Color::Rgb(0xeb, 0x6f, 0x92),
            dim: Color::Rgb(0x6e, 0x6a, 0x86),
        }
    } else if i == 3 {
        Theme {
            name: "catppuccin",
            key: "c",
            header: Color::Rgb(0x89, 0xb4, 0xfa),
            select: Color::Rgb(0xa6, 0xe3, 0xa1),
            error: Color::Rgb(0xf3, 0x8b, 0xa8),
            dim: Color::Rgb(0x58, 0x5b, 0x70),
        }
    } else if i == 4 {
        Theme {
            name: "gruvbox",
            key: "g",
            header: Color::Rgb(0x83, 0xa5, 0x98),
            select: Color::Rgb(0xb8, 0xbb, 0x26),
            error: Color::Rgb(0xfb, 0x49, 0x34),
            dim: Color::Rgb(0x92, 0x83, 0x74),
        }
    } else if i == 5 {
        Theme {
            name: "nord",
            key: "n",
            header: Color::Rgb(0x88, 0xc0, 0xd0),
            select: Color::Rgb(0xa3, 0xbe, 0x8c),
            error: Color::Rgb(0xbf, 0x61, 0x6a),
            dim: Color::Rgb(0x4c, 0x56, 0x6a),
        }
    } else {
        Theme {
            name: "tokyo-night",
            key: "t",
            header: Color::Rgb(0x7a, 0xa2, 0xf7),
            select: Color::Rgb(0x9e, 0xce, 0x6a),
            error: Color::Rgb(0xf7, 0x76, 0x8e),
            dim: Color::Rgb(0x56, 0x5f, 0x89),
        }
    }
}

/// All selectable themes, in picker order.
pub fn themes() -> (r: Vec<Theme>)
    ensures
        r.len() == THEME_COUNT,
        forall|i: int| 0 <= i < THEME_COUNT ==> is_theme(#[trigger] r@[i], i),
{
    let mut out: Vec<Theme> = Vec::new();
    let mut i: usize = 0;
    while i < THEME_COUNT
        invariant
            0 <= i <= THEME_COUNT,
            out.len() == i,
            forall|j: int| 0 <= j < i ==> is_theme(#[trigger] out@[j], j),
        decreases THEME_COUNT - i,
    {
        out.push(theme_at(i));
        i += 1;
    }
    out
}

/// The index of the theme called `name`, if any.
pub fn theme_index(name: &str) -> (r: Option<usize>)
    ensures
        match r {
            Some(i) => i < THEME_COUNT && theme_name(i as int) == name@ && forall|j: int|
                0 <= j < i ==> theme_name(j) != name@,
            None => forall|j: int| 0 <= j < THEME_COUNT ==> theme_name(j) != name@,
        },
{
    let n = text::chars_of(name);
    let mut i: usize = 0;
    while i < THEME_COUNT
        invariant
            0 <= i <= THEME_COUNT,
            n@ == name@,
            forall|j: int| 0 <= j < i ==> theme_name(j) != name@,
        decreases THEME_COUNT - i,
    {
        let t = theme_at(i);
        let tn = text::chars_of(t.name);
        if text::chars_eq(&tn, &n) {
            return Some(i);
        }
        i += 1;
    }
    None
}

/// Point the active theme (`current`) at `name`. Returns `false` and changes
/// nothing when the name is unknown — e.g. a stale value in the config file.
pub fn set_theme(current: &mut usize, name: &str) -> (found: bool)
    ensures
        found == (exists|j: int| 0 <= j < THEME_COUNT && theme_name(j) == name@),
        found ==> *final(current) < THEME_COUNT && theme_name(*final(current) as int) == name@,
        !found ==> *final(current) == *old(current),
{
    match theme_index(name) {
        Some(i) => {
            *current = i;
            true
        },
        None => false,
    }
}

/// The active theme for index `active`; an out-of-range index means the
/// last theme.
pub fn current(active: usize) -> (t: Theme)
    ensures
        is_theme(t, if active < THEME_COUNT { active as int } else { THEME_COUNT - 1 }),
{
    if active < THEME_COUNT {
        theme_at(active)
    } else {
        theme_at(THEME_COUNT - 1)
    }
}

/// Every theme has its own name and its own picker key, and `auto` comes
/// first (it is the default).
pub proof fn lemma_themes_distinct()
    ensures
        theme_name(0) == "auto"@,
        forall|i: int, j: int|
            0 <= i < THEME_COUNT && 0 <= j < THEME_COUNT && i != j ==> #[trigger] theme_key(i)
                != #[trigger] theme_key(j) && theme_name(i) != theme_name(j),
{
    reveal_strlit("auto");
    reveal_strlit("noir-cat");
    reveal_strlit("knew-pines");
    reveal_strlit("catppuccin");
    reveal_strlit("gruvbox");
    reveal_strlit("nord");
    reveal_strlit("tokyo-night");
    reveal_strlit("a");
    reveal_strlit("o");
    reveal_strlit("k");
    reveal_strlit("c");
    reveal_strlit("g");
    reveal_strlit("n");
    reveal_strlit("t");
    assert forall|i: int, j: int|
        0 <= i < THEME_COUNT && 0 <= j < THEME_COUNT && i != j implies #[trigger] theme_key(i)
        != #[trigger] theme_key(j) && theme_name(i) != theme_name(j) by {
        assert(theme_key(i)[0] != theme_key(j)[0]);
        assert(theme_name(i).len() != theme_name(j).len() || theme_name(i)[0] != theme_name(j)[0]);
    }
}

} // verus!
