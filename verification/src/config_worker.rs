//! The persisted configuration, as the layout logic consumes it.
//!
//! Colors are parsed from `#rgb`, `#rgba`, `#rrggbb` or `#rrggbbaa`
//! strings. The process glue that watches and deserializes the
//! configuration file lives outside; it hands these plain values in.

use vstd::prelude::*;

use crate::gui_state::GuiState;
use crate::gui_state::LayoutParams;
use crate::gui_state::MAX_DIM;

verus! {

/// An RGBA color with 8-bit channels.
#[derive(Clone, Copy, PartialEq, Eq, Structural, Debug)]
pub struct ColorConfig {
    pub r: u8,
    pub g: u8,
    pub b: u8,
    pub a: u8,
}

/// The value of one hex digit, or `None` for any other character.
pub open spec fn spec_hex_digit(c: char) -> Option<int> {
    let v = c as u32;
    if 48 <= v <= 57 {
        Some(v - 48)
    } else if 97 <= v <= 102 {
        Some(v - 97 + 10)
    } else if 65 <= v <= 70 {
        Some(v - 65 + 10)
    } else {
        None
    }
}

/// Whether every character from `from` on is a hex digit.
pub open spec fn spec_all_hex(s: Seq<char>, from: int) -> bool {
    forall|i: int| from <= i < s.len() ==> spec_hex_digit(#[trigger] s[i]) is Some
}

/// The byte two hex digits spell.
pub open spec fn spec_hex_pair(hi: char, lo: char) -> int {
    spec_hex_digit(hi).unwrap() * 16 + spec_hex_digit(lo).unwrap()
}

/// The byte one hex digit spells when doubled, as in `#rgb` shorthand.
pub open spec fn spec_hex_single(c: char) -> int {
    spec_hex_digit(c).unwrap() * 17
}

/// The color a hex string denotes: `#rgb`, `#rgba`, `#rrggbb` or
/// `#rrggbbaa`, and nothing else.
pub open spec fn spec_parse_hex_color(s: Seq<char>) -> Option<ColorConfig> {
    if s.len() == 0 || s[0] != '#' || !spec_all_hex(s, 1) {
        None
    } else if s.len() == 4 {
        Some(ColorConfig {
            r: spec_hex_single(s[1]) as u8,
            g: spec_hex_single(s[2]) as u8,
            b: spec_hex_single(s[3]) as u8,
            a: 255,
        })
    } else if s.len() == 5 {
        Some(ColorConfig {
            r: spec_hex_single(s[1]) as u8,
            g: spec_hex_single(s[2]) as u8,
            b: spec_hex_single(s[3]) as u8,
            a: spec_hex_single(s[4]) as u8,
        })
    } else if s.len() == 7 {
        Some(ColorConfig {
            r: spec_hex_pair(s[1], s[2]) as u8,
            g: spec_hex_pair(s[3], s[4]) as u8,
            b: spec_hex_pair(s[5], s[6]) as u8,
            a: 255,
        })
    } else if s.len() == 9 {
        Some(ColorConfig {
            r: spec_hex_pair(s[1], s[2]) as u8,
            g: spec_hex_pair(s[3], s[4]) as u8,
            b: spec_hex_pair(s[5], s[6]) as u8,
            a: spec_hex_pair(s[7], s[8]) as u8,
        })
    } else {
        None
    }
}

fn hex_digit(c: char) -> (r: Option<u8>)
    ensures
        match r {
            Some(v) => spec_hex_digit(c) == Some(v as int) && v < 16,
            None => spec_hex_digit(c) is None,
        },
{
    let v = c as u32;
    if 48 <= v && v <= 57 {
        Some((v - 48) as u8)
    } else if 97 <= v && v <= 102 {
        Some((v - 97 + 10) as u8)
    } else if 65 <= v && v <= 70 {
        Some((v - 65 + 10) as u8)
    } else {
        None
    }
}

impl ColorConfig {
    /// Parse a `#`-prefixed hex color string, in any of the four
    /// accepted lengths; anything else is rejected.
    pub fn from_hex(s: &str) -> (r: Option<ColorConfig>)
        ensures
            r == spec_parse_hex_color(s@),
    {
        let n = s.unicode_len();
        if n != 4 && n != 5 && n != 7 && n != 9 {
            return None;
        }
        if s.get_char(0) != '#' {
            return None;
        }
        let mut digits: Vec<u8> = Vec::new();
        let mut i: usize = 1;
        while i < n
            invariant
                1 <= i <= n,
                n == s@.len(),
                digits@.len() == i - 1,
                forall|j: int|
                    0 <= j < digits@.len() ==> spec_hex_digit(s@[j + 1]) == Some(
                        #[trigger] digits@[j] as int,
                    ) && digits@[j] < 16,
            decreases n - i,
        {
            match hex_digit(s.get_char(i)) {
                Some(v) => {
                    digits.push(v);
                }
                None => {
                    return None;
                }
            }
            i = i + 1;
        }
        proof {
            assert forall|m: int| 1 <= m < s@.len() implies spec_hex_digit(#[trigger] s@[m])
                is Some by {
                assert(spec_hex_digit(s@[(m - 1) + 1]) == Some(digits@[m - 1] as int));
            }
            assert(spec_all_hex(s@, 1));
        }
        if n == 4 {
            Some(ColorConfig {
                r: digits[0] * 17,
                g: digits[1] * 17,
                b: digits[2] * 17,
                a: 255,
            })
        } else if n == 5 {
            Some(ColorConfig {
                r: digits[0] * 17,
                g: digits[1] * 17,
                b: digits[2] * 17,
                a: digits[3] * 17,
            })
        } else if n == 7 {
            Some(ColorConfig {
                r: digits[0] * 16 + digits[1],
                g: digits[2] * 16 + digits[3],
                b: digits[4] * 16 + digits[5],
                a: 255,
            })
        } else {
            Some(ColorConfig {
                r: digits[0] * 16 + digits[1],
                g: digits[2] * 16 + digits[3],
                b: digits[4] * 16 + digits[5],
                a: digits[6] * 16 + digits[7],
            })
        }
    }
}

/// Which rendering backend the daemon should drive.
#[derive(Clone, Copy, PartialEq, Eq, Structural, Debug)]
pub enum RenderBackend {
    Default,
    Vulkan,
    Gl,
    Software,
}

/// The window-level look: padding, background and inter-item gaps.
/// The corner radius concerns only the painter and stays with it.
#[derive(Clone, Copy, PartialEq, Debug)]
pub struct WindowConfig {
    pub padding: u32,
    pub background: ColorConfig,
    pub gap: [u32; 2],
}

impl Default for WindowConfig {
    fn default() -> (c: WindowConfig)
        ensures
            c.padding == 10,
            c.gap[0] == 10,
            c.gap[1] == 10,
    {
        WindowConfig {
            padding: 10,
            background: ColorConfig { r: 0x19, g: 0x19, b: 0x19, a: 0xee },
            gap: [10, 10],
        }
    }
}

/// The per-item look: padding, borders, colors, icon and gaps.
#[derive(Clone, Copy, PartialEq, Debug)]
pub struct ItemConfig {
    pub padding: u32,
    pub border_width: u32,
    pub border_color: ColorConfig,
    pub hover_border_color: ColorConfig,
    pub active_border_color: ColorConfig,
    pub background: ColorConfig,
    pub hover_background: ColorConfig,
    pub active_background: ColorConfig,
    pub icon_size: u32,
    pub text_color: ColorConfig,
    pub gap: [u32; 2],
}

impl Default for ItemConfig {
    fn default() -> (c: ItemConfig)
        ensures
            c.padding == 7,
            c.border_width == 2,
            c.icon_size == 18,
            c.gap[0] == 7,
            c.gap[1] == 5,
    {
        ItemConfig {
            padding: 7,
            border_width: 2,
            border_color: ColorConfig { r: 0xee, g: 0xee, b: 0xee, a: 0x00 },
            hover_border_color: ColorConfig { r: 0xee, g: 0xee, b: 0xee, a: 0x77 },
            active_border_color: ColorConfig { r: 0xdd, g: 0xdd, b: 0xdd, a: 0xff },
            background: ColorConfig { r: 0x11, g: 0x11, b: 0x11, a: 0x00 },
            hover_background: ColorConfig { r: 0x11, g: 0x11, b: 0x11, a: 0x44 },
            active_background: ColorConfig { r: 0x11, g: 0x11, b: 0x11, a: 0x44 },
            icon_size: 18,
            text_color: ColorConfig { r: 0xbb, g: 0xbb, b: 0xbb, a: 0xff },
            gap: [7, 5],
        }
    }
}

/// Everything the configuration file can set, as plain values.
#[derive(Clone, Copy, PartialEq, Debug)]
pub struct Config {
    pub render_backend: RenderBackend,
    pub window: WindowConfig,
    pub item: ItemConfig,
}

impl Default for Config {
    fn default() -> (c: Config)
        ensures
            c.render_backend is Software,
            c.window.padding == 10,
            c.window.gap[0] == 10,
            c.window.gap[1] == 10,
            c.item.padding == 7,
            c.item.border_width == 2,
            c.item.icon_size == 18,
            c.item.gap[0] == 7,
            c.item.gap[1] == 5,
    {
        Config {
            render_backend: RenderBackend::Software,
            window: WindowConfig::default(),
            item: ItemConfig::default(),
        }
    }
}

/// What the configuration file watcher reports.
pub enum ConfigEvent {
    Updated,
}

/// A configuration value clipped into what the layout arithmetic takes.
pub open spec fn spec_clamped(v: u32, cap: int) -> int {
    if v <= cap {
        v as int
    } else {
        cap
    }
}

fn clamped(v: u32, cap: u32) -> (r: u32)
    ensures
        r == spec_clamped(v, cap as int),
{
    if v <= cap {
        v
    } else {
        cap
    }
}

impl LayoutParams {
    /// Take the configured sizes and gaps over, each clipped into the
    /// layout's accepted range; the window padding additionally stays
    /// within half the window's width so a row always has room.
    pub fn update_from_config(&mut self, config: &Config)
        requires
            old(self).wf(),
        ensures
            final(self).wf(),
            final(self).window_padding == spec_clamped(
                config.window.padding,
                old(self).window_max_width as int / 2,
            ),
            final(self).items_horizontal_gap == spec_clamped(config.window.gap[0], MAX_DIM as int),
            final(self).items_vertical_gap == spec_clamped(config.window.gap[1], MAX_DIM as int),
            final(self).item_padding == spec_clamped(config.item.padding, MAX_DIM as int),
            final(self).item_stroke == spec_clamped(config.item.border_width, MAX_DIM as int),
            final(self).icon_size == spec_clamped(config.item.icon_size, MAX_DIM as int),
            final(self).item_horizontal_gap == spec_clamped(config.item.gap[0], MAX_DIM as int),
            final(self).item_vertical_gap == spec_clamped(config.item.gap[1], MAX_DIM as int),
            final(self).window_max_width == old(self).window_max_width,
            final(self).title_height == old(self).title_height,
            final(self).preview_height == old(self).preview_height,
            final(self).preview_min_width == old(self).preview_min_width,
            final(self).preview_max_width == old(self).preview_max_width,
    {
        self.window_padding = clamped(config.window.padding, self.window_max_width / 2);
        self.items_horizontal_gap = clamped(config.window.gap[0], MAX_DIM);
        self.items_vertical_gap = clamped(config.window.gap[1], MAX_DIM);
        self.item_padding = clamped(config.item.padding, MAX_DIM);
        self.item_stroke = clamped(config.item.border_width, MAX_DIM);
        self.icon_size = clamped(config.item.icon_size, MAX_DIM);
        self.item_horizontal_gap = clamped(config.item.gap[0], MAX_DIM);
        self.item_vertical_gap = clamped(config.item.gap[1], MAX_DIM);
    }
}

impl GuiState {
    /// Refresh the layout parameters from a (re)loaded configuration.
    pub fn update_from_config(&mut self, config: &Config)
        requires
            old(self).wf(),
        ensures
            final(self).wf(),
            final(self).items@ == old(self).items@,
            final(self).selected_item == old(self).selected_item,
            final(self).hovered_item == old(self).hovered_item,
            final(self).needs_repaint == old(self).needs_repaint,
            final(self).layout_computed == old(self).layout_computed,
            final(self).layout_params == ({
                LayoutParams {
                    window_padding: spec_clamped(
                        config.window.padding,
                        old(self).layout_params.window_max_width as int / 2,
                    ) as u32,
                    items_horizontal_gap: spec_clamped(config.window.gap[0], MAX_DIM as int) as u32,
                    items_vertical_gap: spec_clamped(config.window.gap[1], MAX_DIM as int) as u32,
                    item_padding: spec_clamped(config.item.padding, MAX_DIM as int) as u32,
                    item_stroke: spec_clamped(config.item.border_width, MAX_DIM as int) as u32,
                    icon_size: spec_clamped(config.item.icon_size, MAX_DIM as int) as u32,
                    item_horizontal_gap: spec_clamped(config.item.gap[0], MAX_DIM as int) as u32,
                    item_vertical_gap: spec_clamped(config.item.gap[1], MAX_DIM as int) as u32,
                    ..old(self).layout_params
                }
            }),
    {
        self.layout_params.update_from_config(config);
    }
}

} // verus!
