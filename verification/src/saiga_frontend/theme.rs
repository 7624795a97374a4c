use std::collections::HashMap;
use vstd::prelude::*;

use crate::saiga_vte::ansi::handler::Rgb;

verus! {

/// The colors of the terminal.
#[derive(Debug, Clone, Copy)]
pub struct ColorPalette {
    pub foreground: Rgb,
    pub background: Rgb,
    pub black: Rgb,
    pub red: Rgb,
    pub green: Rgb,
    pub yellow: Rgb,
    pub blue: Rgb,
    pub magenta: Rgb,
    pub cyan: Rgb,
    pub white: Rgb,
    pub bright_black: Rgb,
    pub bright_red: Rgb,
    pub bright_green: Rgb,
    pub bright_yellow: Rgb,
    pub bright_blue: Rgb,
    pub bright_magenta: Rgb,
    pub bright_cyan: Rgb,
    pub bright_white: Rgb,
    pub bright_foreground: Option<Rgb>,
    pub dim_foreground: Rgb,
    pub dim_black: Rgb,
    pub dim_red: Rgb,
    pub dim_green: Rgb,
    pub dim_yellow: Rgb,
    pub dim_blue: Rgb,
    pub dim_magenta: Rgb,
    pub dim_cyan: Rgb,
    pub dim_white: Rgb,
}

/// The default colors.
pub open spec fn spec_default_palette() -> ColorPalette {
    ColorPalette {
        foreground: Rgb { r: 216, g: 216, b: 216 },
        background: Rgb { r: 24, g: 24, b: 24 },
        black: Rgb { r: 24, g: 24, b: 24 },
        red: Rgb { r: 172, g: 66, b: 66 },
        green: Rgb { r: 144, g: 169, b: 89 },
        yellow: Rgb { r: 244, g: 191, b: 117 },
        blue: Rgb { r: 106, g: 159, b: 181 },
        magenta: Rgb { r: 170, g: 117, b: 159 },
        cyan: Rgb { r: 117, g: 181, b: 170 },
        white: Rgb { r: 216, g: 216, b: 216 },
        bright_black: Rgb { r: 107, g: 107, b: 107 },
        bright_red: Rgb { r: 197, g: 85, b: 85 },
        bright_green: Rgb { r: 170, g: 196, b: 116 },
        bright_yellow: Rgb { r: 254, g: 202, b: 136 },
        bright_blue: Rgb { r: 130, g: 184, b: 200 },
        bright_magenta: Rgb { r: 194, g: 140, b: 184 },
        bright_cyan: Rgb { r: 147, g: 211, b: 195 },
        bright_white: Rgb { r: 248, g: 248, b: 248 },
        bright_foreground: None,
        dim_foreground: Rgb { r: 130, g: 132, b: 130 },
        dim_black: Rgb { r: 15, g: 15, b: 15 },
        dim_red: Rgb { r: 113, g: 43, b: 43 },
        dim_green: Rgb { r: 95, g: 111, b: 58 },
        dim_yellow: Rgb { r: 161, g: 126, b: 77 },
        dim_blue: Rgb { r: 69, g: 104, b: 119 },
        dim_magenta: Rgb { r: 112, g: 77, b: 104 },
        dim_cyan: Rgb { r: 77, g: 119, b: 112 },
        dim_white: Rgb { r: 142, g: 142, b: 142 },
    }
}

impl Default for ColorPalette {
    fn default() -> (r: ColorPalette)
        ensures
            r == spec_default_palette(),
    {
        ColorPalette {
            foreground: Rgb::new(216, 216, 216),
            background: Rgb::new(24, 24, 24),
            black: Rgb::new(24, 24, 24),
            red: Rgb::new(172, 66, 66),
            green: Rgb::new(144, 169, 89),
            yellow: Rgb::new(244, 191, 117),
            blue: Rgb::new(106, 159, 181),
            magenta: Rgb::new(170, 117, 159),
            cyan: Rgb::new(117, 181, 170),
            white: Rgb::new(216, 216, 216),
            bright_black: Rgb::new(107, 107, 107),
            bright_red: Rgb::new(197, 85, 85),
            bright_green: Rgb::new(170, 196, 116),
            bright_yellow: Rgb::new(254, 202, 136),
            bright_blue: Rgb::new(130, 184, 200),
            bright_magenta: Rgb::new(194, 140, 184),
            bright_cyan: Rgb::new(147, 211, 195),
            bright_white: Rgb::new(248, 248, 248),
            bright_foreground: None,
            dim_foreground: Rgb::new(130, 132, 130),
            dim_black: Rgb::new(15, 15, 15),
            dim_red: Rgb::new(113, 43, 43),
            dim_green: Rgb::new(95, 111, 58),
            dim_yellow: Rgb::new(161, 126, 77),
            dim_blue: Rgb::new(69, 104, 119),
            dim_magenta: Rgb::new(112, 77, 104),
            dim_cyan: Rgb::new(77, 119, 112),
            dim_white: Rgb::new(142, 142, 142),
        }
    }
}

/// One channel of the 6x6x6 color cube: 0, then 95 to 255 in steps of 40.
pub open spec fn cube_channel(x: int) -> u8 {
    if x == 0 {
        0
    } else {
        (x * 40 + 55) as u8
    }
}

/// Color `index` (16 to 255) of the 256-color palette: the color cube, then
/// 24 grays from 8 to 238.
pub open spec fn spec_ansi256(index: int) -> Rgb {
    if index < 232 {
        let c = index - 16;
        Rgb { r: cube_channel(c / 36), g: cube_channel((c / 6) % 6), b: cube_channel(c % 6) }
    } else {
        let v = ((index - 232) * 10 + 8) as u8;
        Rgb { r: v, g: v, b: v }
    }
}

fn cube(x: u8) -> (r: u8)
    requires
        x < 6,
    ensures
        r == cube_channel(x as int),
{
    if x == 0 {
        0
    } else {
        x * 40 + 55
    }
}

/// The colors of the 256-color palette from 16 on, by index.
pub open spec fn spec_ansi256_table(upto: int) -> Map<u8, Rgb> {
    Map::new(|k: u8| 16 <= k < upto, |k: u8| spec_ansi256(k as int))
}

proof fn lemma_table_insert(upto: int, color: Rgb)
    requires
        16 <= upto < 256,
        color == spec_ansi256(upto),
    ensures
        spec_ansi256_table(upto).insert(upto as u8, color) == spec_ansi256_table(upto + 1),
{
    assert(spec_ansi256_table(upto).insert(upto as u8, color) =~= spec_ansi256_table(upto + 1));
}

/// Colors 16 to 255 of the 256-color palette, by index: the 6x6x6 color
/// cube, then 24 grays.
pub fn build_ansi256_colors() -> (r: HashMap<u8, Rgb>)
    ensures
        r@ == spec_ansi256_table(256),
{
    broadcast use vstd::std_specs::hash::group_hash_axioms;

    let mut colors: HashMap<u8, Rgb> = HashMap::new();
    assert(colors@ =~= spec_ansi256_table(16));
    let mut r: u8 = 0;
    while r < 6
        invariant
            r <= 6,
            colors@ == spec_ansi256_table(16 + 36 * r),
        decreases 6 - r,
    {
        let mut g: u8 = 0;
        while g < 6
            invariant
                r < 6,
                g <= 6,
                colors@ == spec_ansi256_table(16 + 36 * r + 6 * g),
            decreases 6 - g,
        {
            let mut b: u8 = 0;
            while b < 6
                invariant
                    r < 6,
                    g < 6,
                    b <= 6,
                    colors@ == spec_ansi256_table(16 + 36 * r + 6 * g + b),
                decreases 6 - b,
            {
                // Reserve the first 16 colors for the palette.
                let index: u8 = 16 + r * 36 + g * 6 + b;
                let ghost k = 36 * r + 6 * g + b;
                assert(k / 36 == r && (k / 6) % 6 == g && k % 6 == b) by (nonlinear_arith)
                    requires
                        k == 36 * r + 6 * g + b,
                        r < 6,
                        g < 6,
                        b < 6,
                ;
                let color = Rgb::new(cube(r), cube(g), cube(b));
                proof {
                    lemma_table_insert(index as int, color);
                }
                colors.insert(index, color);
                b = b + 1;
            }
            g = g + 1;
        }
        r = r + 1;
    }
    let mut i: u8 = 0;
    while i < 24
        invariant
            i <= 24,
            colors@ == spec_ansi256_table(232 + i),
        decreases 24 - i,
    {
        let value = i * 10 + 8;
        let color = Rgb::new(value, value, value);
        proof {
            lemma_table_insert(232 + i, color);
        }
        colors.insert(232 + i, color);
        i = i + 1;
    }
    colors
}

/// The palette and the 256-color table.
pub struct Theme {
    pub palette: ColorPalette,
    pub ansi256_colors: HashMap<u8, Rgb>,
}

impl Default for Theme {
    fn default() -> (r: Theme)
        ensures
            r.palette == spec_default_palette(),
            r.ansi256_colors@ == spec_ansi256_table(256),
    {
        Theme { palette: ColorPalette::default(), ansi256_colors: build_ansi256_colors() }
    }
}

} // verus!
