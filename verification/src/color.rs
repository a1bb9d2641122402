use vstd::prelude::*;
use rand::Rng;

verus! {

/// The terminal colors of the ANSI palette, with the variants of `crossterm::style::Color`.
#[derive(Clone, Copy, Debug, PartialEq, Eq, Structural)]
pub enum AnsiColor {
    Reset,
    Black,
    DarkGrey,
    Red,
    DarkRed,
    Green,
    DarkGreen,
    Yellow,
    DarkYellow,
    Blue,
    DarkBlue,
    Magenta,
    DarkMagenta,
    Cyan,
    DarkCyan,
    White,
    Grey,
    Rgb { r: u8, g: u8, b: u8 },
    AnsiValue(u8),
}

/// A true color with an alpha channel (255 is opaque, 0 fully transparent).
#[derive(Clone, Copy, Debug, PartialEq, Eq, Structural)]
pub struct Rgba {
    pub r: u8,
    pub g: u8,
    pub b: u8,
    /// alpha
    pub a: u8,
}

/// A color that is the same at every position and every moment: an ANSI palette color or a
/// true color. (Gradients, time gradients and patterns are evaluated down to one of these.)
#[derive(Clone, Copy, Debug, PartialEq, Eq, Structural)]
pub enum SolidColor {
    ANSI(AnsiColor),
    Rgba(Rgba),
}

pub open spec fn rgb(r: u8, g: u8, b: u8) -> SolidColor {
    SolidColor::Rgba(Rgba { r, g, b, a: 255 })
}

impl Default for Rgba {
    fn default() -> (c: Rgba)
        ensures
            c == (Rgba { r: 0, g: 0, b: 0, a: 255 }),
    {
        Rgba::new(0, 0, 0)
    }
}

impl Rgba {
    /// An opaque color.
    pub fn new(r: u8, g: u8, b: u8) -> (c: Rgba)
        ensures
            c == (Rgba { r, g, b, a: 255 }),
    {
        Rgba { r, g, b, a: 255 }
    }

    pub fn new_with_alpha(r: u8, g: u8, b: u8, a: u8) -> (c: Rgba)
        ensures
            c == (Rgba { r, g, b, a }),
    {
        Rgba { r, g, b, a }
    }

    /// returns a tuple of the rgba values
    pub fn to_tuple(&self) -> (t: (u8, u8, u8, u8))
        ensures
            t == (self.r, self.g, self.b, self.a),
    {
        (self.r, self.g, self.b, self.a)
    }
}

/// A channel scaled by one half, as `(v as f64 * 0.5) as u8` computes it (the product is
/// exact, and the cast rounds toward zero).
pub open spec fn half(v: u8) -> u8 {
    (v / 2) as u8
}

/// A channel scaled by one and a half, as `(v as f64 * 1.5) as u8` computes it (the product is
/// exact, and the cast rounds toward zero and saturates at 255).
pub open spec fn one_and_half(v: u8) -> u8 {
    if v * 3 / 2 > 255 { 255 } else { (v * 3 / 2) as u8 }
}

fn halved(c: Rgba) -> (o: Rgba)
    ensures
        o == (Rgba { r: half(c.r), g: half(c.g), b: half(c.b), a: 255 }),
{
    Rgba::new(c.r / 2, c.g / 2, c.b / 2)
}

fn scale_channel_up(v: u8) -> (o: u8)
    ensures
        o == one_and_half(v),
{
    let w: u16 = v as u16 * 3 / 2;
    if w > 255 { 255 } else { w as u8 }
}

fn one_and_halved(c: Rgba) -> (o: Rgba)
    ensures
        o == (Rgba { r: one_and_half(c.r), g: one_and_half(c.g), b: one_and_half(c.b), a: 255 }),
{
    Rgba::new(scale_channel_up(c.r), scale_channel_up(c.g), scale_channel_up(c.b))
}

/// The true color that each palette color stands for.
pub open spec fn spec_crossterm_to_rgb(ct: AnsiColor) -> SolidColor {
    match ct {
        AnsiColor::Reset => SolidColor::ANSI(AnsiColor::Reset),
        AnsiColor::Black => rgb(0, 0, 0),
        AnsiColor::DarkGrey => rgb(169, 169, 169),
        AnsiColor::Red => rgb(255, 0, 0),
        AnsiColor::DarkRed => rgb(139, 0, 0),
        AnsiColor::Green => rgb(0, 128, 0),
        AnsiColor::DarkGreen => rgb(0, 100, 0),
        AnsiColor::Yellow => rgb(255, 255, 0),
        AnsiColor::DarkYellow => rgb(128, 128, 0),
        AnsiColor::Blue => rgb(0, 0, 255),
        AnsiColor::DarkBlue => rgb(0, 0, 139),
        AnsiColor::Magenta => rgb(255, 0, 255),
        AnsiColor::DarkMagenta => rgb(139, 0, 139),
        AnsiColor::Cyan => rgb(0, 255, 255),
        AnsiColor::DarkCyan => rgb(0, 139, 139),
        AnsiColor::White => rgb(255, 255, 255),
        AnsiColor::Grey => rgb(128, 128, 128),
        AnsiColor::Rgb { r, g, b } => rgb(r, g, b),
        AnsiColor::AnsiValue(n) => SolidColor::Rgba(spec_ansi_rgb(n)),
    }
}

/// The 16 system colors of the 256-color palette.
pub open spec fn system_rgb(n: u8) -> (u8, u8, u8) {
    if n == 0 { (0, 0, 0) }
    else if n == 1 { (128, 0, 0) }
    else if n == 2 { (0, 128, 0) }
    else if n == 3 { (128, 128, 0) }
    else if n == 4 { (0, 0, 128) }
    else if n == 5 { (128, 0, 128) }
    else if n == 6 { (0, 128, 128) }
    else if n == 7 { (192, 192, 192) }
    else if n == 8 { (128, 128, 128) }
    else if n == 9 { (255, 0, 0) }
    else if n == 10 { (0, 255, 0) }
    else if n == 11 { (255, 255, 0) }
    else if n == 12 { (0, 0, 255) }
    else if n == 13 { (255, 0, 255) }
    else if n == 14 { (0, 255, 255) }
    else { (255, 255, 255) }
}

/// The intensity of level `i` (0 to 5) of the 6x6x6 color cube: 0, 95, 135, 175, 215, 255.
pub open spec fn cube_level(i: int) -> u8 {
    if i == 0 { 0 } else { (55 + 40 * i) as u8 }
}

/// The color of entry `n` of the 256-color palette: the 16 system colors, then the 6x6x6 color
/// cube (entry 16 + 36r + 6g + b), then 24 greys from 8 to 238 in steps of 10.
pub open spec fn spec_ansi_rgb(n: u8) -> Rgba {
    if n < 16 {
        let (r, g, b) = system_rgb(n);
        Rgba { r, g, b, a: 255 }
    } else if n < 232 {
        let k = n - 16;
        Rgba { r: cube_level(k / 36), g: cube_level((k / 6) % 6), b: cube_level(k % 6), a: 255 }
    } else {
        let v = (8 + 10 * (n - 232)) as u8;
        Rgba { r: v, g: v, b: v, a: 255 }
    }
}

fn exec_cube_level(i: u8) -> (v: u8)
    requires
        i < 6,
    ensures
        v == cube_level(i as int),
{
    if i == 0 { 0 } else { 55 + 40 * i }
}

/// converts an entry of the 256-color palette to its true color
pub fn ansi_to_rgb_color(ansi: u8) -> (c: SolidColor)
    ensures
        c == SolidColor::Rgba(spec_ansi_rgb(ansi)),
{
    if ansi < 16 {
        let (r, g, b) = match ansi {
            0 => (0, 0, 0),
            1 => (128, 0, 0),
            2 => (0, 128, 0),
            3 => (128, 128, 0),
            4 => (0, 0, 128),
            5 => (128, 0, 128),
            6 => (0, 128, 128),
            7 => (192, 192, 192),
            8 => (128, 128, 128),
            9 => (255, 0, 0),
            10 => (0, 255, 0),
            11 => (255, 255, 0),
            12 => (0, 0, 255),
            13 => (255, 0, 255),
            14 => (0, 255, 255),
            _ => (255, 255, 255),
        };
        SolidColor::Rgba(Rgba::new(r, g, b))
    } else if ansi < 232 {
        let k = ansi - 16;
        SolidColor::Rgba(
            Rgba::new(exec_cube_level(k / 36), exec_cube_level((k / 6) % 6), exec_cube_level(k % 6)),
        )
    } else {
        let v = 8 + 10 * (ansi - 232);
        SolidColor::Rgba(Rgba::new(v, v, v))
    }
}

/// converts a palette color to the true color it stands for; `Reset` stays as it is
pub fn crossterm_to_rgb(ct: AnsiColor) -> (c: SolidColor)
    ensures
        c == spec_crossterm_to_rgb(ct),
{
    match ct {
        AnsiColor::Reset => SolidColor::ANSI(AnsiColor::Reset),
        AnsiColor::Black => SolidColor::Rgba(Rgba::new(0, 0, 0)),
        AnsiColor::DarkGrey => SolidColor::Rgba(Rgba::new(169, 169, 169)),
        AnsiColor::Red => SolidColor::Rgba(Rgba::new(255, 0, 0)),
        AnsiColor::DarkRed => SolidColor::Rgba(Rgba::new(139, 0, 0)),
        AnsiColor::Green => SolidColor::Rgba(Rgba::new(0, 128, 0)),
        AnsiColor::DarkGreen => SolidColor::Rgba(Rgba::new(0, 100, 0)),
        AnsiColor::Yellow => SolidColor::Rgba(Rgba::new(255, 255, 0)),
        AnsiColor::DarkYellow => SolidColor::Rgba(Rgba::new(128, 128, 0)),
        AnsiColor::Blue => SolidColor::Rgba(Rgba::new(0, 0, 255)),
        AnsiColor::DarkBlue => SolidColor::Rgba(Rgba::new(0, 0, 139)),
        AnsiColor::Magenta => SolidColor::Rgba(Rgba::new(255, 0, 255)),
        AnsiColor::DarkMagenta => SolidColor::Rgba(Rgba::new(139, 0, 139)),
        AnsiColor::Cyan => SolidColor::Rgba(Rgba::new(0, 255, 255)),
        AnsiColor::DarkCyan => SolidColor::Rgba(Rgba::new(0, 139, 139)),
        AnsiColor::White => SolidColor::Rgba(Rgba::new(255, 255, 255)),
        AnsiColor::Grey => SolidColor::Rgba(Rgba::new(128, 128, 128)),
        AnsiColor::Rgb { r, g, b } => SolidColor::Rgba(Rgba::new(r, g, b)),
        AnsiColor::AnsiValue(n) => ansi_to_rgb_color(n),
    }
}

/// The darker palette color of each bright one; true colors are halved.
pub open spec fn spec_darken_ansi(c: AnsiColor) -> SolidColor {
    match c {
        AnsiColor::Red => SolidColor::ANSI(AnsiColor::DarkRed),
        AnsiColor::Green => SolidColor::ANSI(AnsiColor::DarkGreen),
        AnsiColor::Yellow => SolidColor::ANSI(AnsiColor::DarkYellow),
        AnsiColor::Blue => SolidColor::ANSI(AnsiColor::DarkBlue),
        AnsiColor::Magenta => SolidColor::ANSI(AnsiColor::DarkMagenta),
        AnsiColor::Cyan => SolidColor::ANSI(AnsiColor::DarkCyan),
        AnsiColor::Grey => SolidColor::ANSI(AnsiColor::DarkGrey),
        AnsiColor::White => SolidColor::ANSI(AnsiColor::Grey),
        AnsiColor::Rgb { r, g, b } => SolidColor::Rgba(
            Rgba { r: half(r), g: half(g), b: half(b), a: 255 },
        ),
        _ => SolidColor::ANSI(c),
    }
}

/// The brighter palette color of each dark one; true colors are scaled by one and a half.
pub open spec fn spec_lighten_ansi(c: AnsiColor) -> SolidColor {
    match c {
        AnsiColor::DarkRed => SolidColor::ANSI(AnsiColor::Red),
        AnsiColor::DarkGreen => SolidColor::ANSI(AnsiColor::Green),
        AnsiColor::DarkYellow => SolidColor::ANSI(AnsiColor::Yellow),
        AnsiColor::DarkBlue => SolidColor::ANSI(AnsiColor::Blue),
        AnsiColor::DarkMagenta => SolidColor::ANSI(AnsiColor::Magenta),
        AnsiColor::DarkCyan => SolidColor::ANSI(AnsiColor::Cyan),
        AnsiColor::DarkGrey => SolidColor::ANSI(AnsiColor::Grey),
        AnsiColor::Grey => SolidColor::ANSI(AnsiColor::White),
        AnsiColor::Rgb { r, g, b } => SolidColor::Rgba(
            Rgba { r: one_and_half(r), g: one_and_half(g), b: one_and_half(b), a: 255 },
        ),
        _ => SolidColor::ANSI(c),
    }
}

pub fn darken_ansi(c: AnsiColor) -> (o: SolidColor)
    ensures
        o == spec_darken_ansi(c),
{
    match c {
        AnsiColor::Red => SolidColor::ANSI(AnsiColor::DarkRed),
        AnsiColor::Green => SolidColor::ANSI(AnsiColor::DarkGreen),
        AnsiColor::Yellow => SolidColor::ANSI(AnsiColor::DarkYellow),
        AnsiColor::Blue => SolidColor::ANSI(AnsiColor::DarkBlue),
        AnsiColor::Magenta => SolidColor::ANSI(AnsiColor::DarkMagenta),
        AnsiColor::Cyan => SolidColor::ANSI(AnsiColor::DarkCyan),
        AnsiColor::Grey => SolidColor::ANSI(AnsiColor::DarkGrey),
        AnsiColor::White => SolidColor::ANSI(AnsiColor::Grey),
        AnsiColor::Rgb { r, g, b } => SolidColor::Rgba(halved(Rgba::new(r, g, b))),
        _ => SolidColor::ANSI(c),
    }
}

pub fn lighten_ansi(c: AnsiColor) -> (o: SolidColor)
    ensures
        o == spec_lighten_ansi(c),
{
    match c {
        AnsiColor::DarkRed => SolidColor::ANSI(AnsiColor::Red),
        AnsiColor::DarkGreen => SolidColor::ANSI(AnsiColor::Green),
        AnsiColor::DarkYellow => SolidColor::ANSI(AnsiColor::Yellow),
        AnsiColor::DarkBlue => SolidColor::ANSI(AnsiColor::Blue),
        AnsiColor::DarkMagenta => SolidColor::ANSI(AnsiColor::Magenta),
        AnsiColor::DarkCyan => SolidColor::ANSI(AnsiColor::Cyan),
        AnsiColor::DarkGrey => SolidColor::ANSI(AnsiColor::Grey),
        AnsiColor::Grey => SolidColor::ANSI(AnsiColor::White),
        AnsiColor::Rgb { r, g, b } => SolidColor::Rgba(one_and_halved(Rgba::new(r, g, b))),
        _ => SolidColor::ANSI(c),
    }
}

/// A darker color: palette colors step to their dark variant, true colors are halved (and made
/// opaque).
pub open spec fn spec_darken(c: SolidColor) -> SolidColor {
    match c {
        SolidColor::ANSI(a) => spec_darken_ansi(a),
        SolidColor::Rgba(c) => SolidColor::Rgba(Rgba { r: half(c.r), g: half(c.g), b: half(c.b), a: 255 }),
    }
}

impl SolidColor {
    /// An opaque true color.
    pub fn new(r: u8, g: u8, b: u8) -> (c: SolidColor)
        ensures
            c == rgb(r, g, b),
    {
        SolidColor::Rgba(Rgba::new(r, g, b))
    }

    pub fn new_with_alpha(r: u8, g: u8, b: u8, a: u8) -> (c: SolidColor)
        ensures
            c == SolidColor::Rgba(Rgba { r, g, b, a }),
    {
        SolidColor::Rgba(Rgba::new_with_alpha(r, g, b, a))
    }

    /// A darker color: palette colors step to their dark variant, true colors are halved (and
    /// made opaque).
    pub fn darken(&self) -> (o: SolidColor)
        ensures
            o == spec_darken(*self),
    {
        match self {
            SolidColor::ANSI(c) => darken_ansi(*c),
            SolidColor::Rgba(c) => SolidColor::Rgba(halved(*c)),
        }
    }

    /// A lighter color: dark palette colors step to their bright variant, true colors are
    /// scaled by one and a half (and made opaque).
    pub fn lighten(&self) -> (o: SolidColor)
        ensures
            o == (match *self {
                SolidColor::ANSI(c) => spec_lighten_ansi(c),
                SolidColor::Rgba(c) => SolidColor::Rgba(
                    Rgba { r: one_and_half(c.r), g: one_and_half(c.g), b: one_and_half(c.b), a: 255 },
                ),
            }),
    {
        match self {
            SolidColor::ANSI(c) => lighten_ansi(*c),
            SolidColor::Rgba(c) => SolidColor::Rgba(one_and_halved(*c)),
        }
    }

    /// The true color of this color. The terminal default `Reset` has no true color: it gives
    /// the fully transparent color, so that whatever is below shows through.
    pub fn to_rgba(&self) -> (o: Rgba)
        ensures
            *self == SolidColor::ANSI(AnsiColor::Reset) ==> o == (Rgba { r: 0, g: 0, b: 0, a: 0 }),
            o == self.to_rgba_spec(),
    {
        match self {
            SolidColor::Rgba(c) => *c,
            SolidColor::ANSI(a) => match crossterm_to_rgb(*a) {
                SolidColor::Rgba(c) => c,
                SolidColor::ANSI(_) => Rgba::new_with_alpha(0, 0, 0, 0),
            },
        }
    }

    /// The true color of this color with the alpha replaced (black for the terminal default
    /// `Reset`, which has no true color).
    pub fn with_alpha(&self, alpha: u8) -> (o: SolidColor)
        ensures
            o == SolidColor::Rgba(
                Rgba {
                    r: self.to_rgba_spec().r,
                    g: self.to_rgba_spec().g,
                    b: self.to_rgba_spec().b,
                    a: alpha,
                },
            ),
    {
        match self {
            SolidColor::Rgba(c) => SolidColor::Rgba(Rgba { a: alpha, ..*c }),
            SolidColor::ANSI(a) => match crossterm_to_rgb(*a) {
                SolidColor::Rgba(c) => SolidColor::Rgba(Rgba { a: alpha, ..c }),
                SolidColor::ANSI(_) => SolidColor::Rgba(Rgba { r: 0, g: 0, b: 0, a: alpha }),
            },
        }
    }

    /// The true color that a color stands for: transparent for the terminal default `Reset`.
    pub open spec fn to_rgba_spec(self) -> Rgba {
        match self {
            SolidColor::Rgba(c) => c,
            SolidColor::ANSI(a) => match spec_crossterm_to_rgb(a) {
                SolidColor::Rgba(c) => c,
                SolidColor::ANSI(_) => Rgba { r: 0, g: 0, b: 0, a: 0 },
            },
        }
    }

    /// A random light color: every channel drawn from 150 to 255.
    pub fn random_light() -> (c: SolidColor)
        ensures
            c matches SolidColor::Rgba(v) && v.a == 255 && 150 <= v.r && 150 <= v.g && 150 <= v.b,
    {
        let r = gen_range_inclusive(150, 255);
        let g = gen_range_inclusive(150, 255);
        let b = gen_range_inclusive(150, 255);
        SolidColor::new(r, g, b)
    }

    /// A random dark color: every channel drawn from 0 to 149.
    pub fn random_dark() -> (c: SolidColor)
        ensures
            c matches SolidColor::Rgba(v) && v.a == 255 && v.r < 150 && v.g < 150 && v.b < 150,
    {
        let r = gen_range_inclusive(0, 149);
        let g = gen_range_inclusive(0, 149);
        let b = gen_range_inclusive(0, 149);
        SolidColor::new(r, g, b)
    }
}

/// Calls `rand::Rng::gen_range` on the thread-local generator with the inclusive range
/// `low..=high`. Claimed: the value drawn lies in that range (its documented contract, and
/// `gen_range` panics only on an empty range, which `low <= high` rules out). Which value is
/// drawn is left unsaid: it is random.
#[verifier::external_body]
fn gen_range_inclusive(low: u8, high: u8) -> (v: u8)
    requires
        low <= high,
    ensures
        low <= v <= high,
{
    rand::thread_rng().gen_range(low..=high)
}

/// A repeating pattern of colors, kept in the color store under `pattern_id`, moved by `offset`.
#[derive(Clone, Copy, Debug, PartialEq, Eq)]
pub struct Pattern {
    pub pattern_id: usize,
    pub offset: (i32, i32),
}

/// `v` as `as usize` takes an `i32`: the value modulo the width of `usize`.
pub open spec fn wrap_usize(v: int) -> usize {
    v as usize
}

impl Pattern {
    pub fn add_to_offset(&mut self, x: i32, y: i32)
        requires
            i32::MIN <= old(self).offset.0 + x <= i32::MAX,
            i32::MIN <= old(self).offset.1 + y <= i32::MAX,
        ensures
            final(self).pattern_id == old(self).pattern_id,
            final(self).offset == (
                (old(self).offset.0 + x) as i32,
                (old(self).offset.1 + y) as i32,
            ),
    {
        self.offset.0 = self.offset.0 + x;
        self.offset.1 = self.offset.1 + y;
    }

    /// The cell of `rows` (the pattern's colors, by row then column) shown at (`x`, `y`),
    /// looping once the end is reached; `None` for an empty pattern. The position moved by the
    /// offset is taken to `usize` as `as` does before the remainder is taken, so a position
    /// before the offset wraps through the top of `usize`.
    pub fn to_color<C: Clone>(&self, rows: &Vec<Vec<C>>, x: u16, y: u16) -> (c: Option<C>)
        requires
            i32::MIN <= x - self.offset.0 <= i32::MAX,
            i32::MIN <= y - self.offset.1 <= i32::MAX,
            rows@.len() > 0 ==> rows@[0].len() > 0,
            forall|i: int| 0 <= i < rows@.len() ==> #[trigger] rows@[i].len() >= rows@[0].len(),
        ensures
            rows@.len() == 0 ==> c.is_none(),
            rows@.len() > 0 ==> {
                let col = (wrap_usize(x - self.offset.0) as int) % (rows@[0].len() as int);
                let row = (wrap_usize(y - self.offset.1) as int) % (rows@.len() as int);
                &&& c.is_some()
                &&& cloned(rows@[row][col], c.unwrap())
            },
    {
        if rows.len() == 0 {
            return None;
        }
        let xo: i32 = x as i32 - self.offset.0;
        let yo: i32 = y as i32 - self.offset.1;
        let col: usize = (xo as usize) % rows[0].len();
        let row: usize = (yo as usize) % rows.len();
        assert(rows@[row as int].len() >= rows@[0].len());
        Some(rows[row][col].clone())
    }
}

/// The `tile_height * 2` rows of `tile_width * 2` cells of a checkered tile pattern: the top
/// left and bottom right tiles have `tile1`, the other two `tile2`.
pub fn tiles_pattern<C: Clone>(tile_width: usize, tile_height: usize, tile1: C, tile2: C) -> (p: Vec<Vec<C>>)
    requires
        tile_width * 2 <= usize::MAX,
        tile_height * 2 <= usize::MAX,
    ensures
        p@.len() == tile_height * 2,
        forall|y: int| 0 <= y < p@.len() ==> #[trigger] p@[y].len() == tile_width * 2,
        forall|y: int, x: int|
            0 <= y < tile_height * 2 && 0 <= x < tile_width * 2 ==> cloned(
                if (x < tile_width) == (y < tile_height) { tile1 } else { tile2 },
                #[trigger] p@[y][x],
            ),
{
    let mut pattern: Vec<Vec<C>> = Vec::new();
    let h2 = tile_height * 2;
    let w2 = tile_width * 2;
    let mut y: usize = 0;
    while y < h2
        invariant
            h2 == tile_height * 2,
            w2 == tile_width * 2,
            y <= tile_height * 2,
            tile_width * 2 <= usize::MAX,
            pattern@.len() == y,
            forall|j: int| 0 <= j < y ==> #[trigger] pattern@[j].len() == tile_width * 2,
            forall|j: int, i: int|
                0 <= j < y && 0 <= i < tile_width * 2 ==> cloned(
                    if (i < tile_width) == (j < tile_height) { tile1 } else { tile2 },
                    #[trigger] pattern@[j][i],
                ),
        decreases h2 - y,
    {
        let mut row: Vec<C> = Vec::new();
        let mut x: usize = 0;
        while x < w2
            invariant
                w2 == tile_width * 2,
                x <= tile_width * 2,
                y < tile_height * 2,
                row@.len() == x,
                forall|i: int|
                    0 <= i < x ==> cloned(
                        if (i < tile_width) == (y < tile_height) { tile1 } else { tile2 },
                        #[trigger] row@[i],
                    ),
            decreases w2 - x,
        {
            let left = x < tile_width;
            let top = y < tile_height;
            let c = if left == top { tile1.clone() } else { tile2.clone() };
            row.push(c);
            x = x + 1;
        }
        pattern.push(row);
        y = y + 1;
    }
    pattern
}

/// Darkening then lightening a bright palette color gives the color back.
pub proof fn lemma_lighten_undoes_darken(c: AnsiColor)
    requires
        c == AnsiColor::Red || c == AnsiColor::Green || c == AnsiColor::Yellow || c
            == AnsiColor::Blue || c == AnsiColor::Magenta || c == AnsiColor::Cyan || c
            == AnsiColor::Grey || c == AnsiColor::White,
    ensures
        spec_darken_ansi(c) matches SolidColor::ANSI(d) && spec_lighten_ansi(d) == SolidColor::ANSI(c),
{
}

/// Darkening never makes a true color brighter, and lightening never makes it darker.
pub proof fn lemma_darken_lighten_monotone(v: u8)
    ensures
        half(v) <= v,
        one_and_half(v) >= v,
{
}


// ------------------------------------------------------------------------------------------
// Locating a position on a gradient.

/// The position `pos` looped into the gradient's range, as the two loops of the gradient
/// evaluation do: below zero it is moved up by `max_pos` until it is at least zero; above
/// `max_pos` it is moved down by `max_pos` until it is at most `max_pos`.
pub open spec fn spec_loop_pos(pos: int, max_pos: int) -> int {
    if pos < 0 {
        pos % max_pos
    } else if pos > max_pos {
        if pos % max_pos == 0 { max_pos } else { pos % max_pos }
    } else {
        pos
    }
}

/// Loops a position on a gradient into the range of the gradient, whose last stop is at
/// `max_pos`. Where `max_pos` is not positive and the position lies outside, looping never
/// reaches the range, so those inputs are left out.
pub fn loop_gradient_pos(pos: i32, max_pos: i32) -> (p: i32)
    requires
        pos < 0 ==> max_pos > 0,
        pos > max_pos ==> max_pos > 0,
    ensures
        p == spec_loop_pos(pos as int, max_pos as int),
        (pos < 0 || pos > max_pos) ==> 0 <= p <= max_pos,
{
    if pos < 0 {
        let a: u64 = (0i64 - pos as i64) as u64;
        let m: u64 = max_pos as u64;
        let r: u64 = a % m;
        proof {
            lemma_negated_mod(a as int, m as int);
        }
        if r == 0 {
            0
        } else {
            (m - r) as i32
        }
    } else if pos > max_pos {
        let a: u64 = pos as u64;
        let m: u64 = max_pos as u64;
        let r: u64 = a % m;
        if r == 0 {
            max_pos
        } else {
            r as i32
        }
    } else {
        pos
    }
}

/// The remainder of a negated number: `(-a) % m` is `m - a % m`, or zero where `m` divides `a`.
proof fn lemma_negated_mod(a: int, m: int)
    requires
        a >= 0,
        m > 0,
    ensures
        (-a) % m == if a % m == 0 { 0 } else { m - a % m },
{
    let q = a / m;
    let r = a % m;
    vstd::arithmetic::div_mod::lemma_fundamental_div_mod(a, m);
    assert(0 <= r < m) by {
        vstd::arithmetic::div_mod::lemma_mod_bound(a, m);
    }
    if r == 0 {
        assert(-a == (-q) * m + 0) by (nonlinear_arith)
            requires
                a == m * q + r,
                r == 0,
        ;
        vstd::arithmetic::div_mod::lemma_fundamental_div_mod_converse(-a, m, -q, 0);
    } else {
        assert(-a == (-q - 1) * m + (m - r)) by (nonlinear_arith)
            requires
                a == m * q + r,
        ;
        vstd::arithmetic::div_mod::lemma_fundamental_div_mod_converse(-a, m, -q - 1, m - r);
    }
}

/// Stop `k` and the next one bracket `v`.
pub open spec fn brackets(stops: Seq<i128>, k: int, v: int) -> bool {
    0 <= k && k + 1 < stops.len() && stops[k] <= v < stops[k + 1]
}

/// Finds the stops of a gradient (positions, or times in nanoseconds) between which `v`
/// lies: the indices of the first neighboring pair with `stops[k] <= v < stops[k + 1]`, or of
/// the first and the last stop where no pair brackets `v`.
pub fn gradient_segment(stops: &Vec<i128>, v: i128) -> (r: (usize, usize))
    requires
        stops@.len() > 0,
    ensures
        r.0 < stops@.len(),
        r.1 < stops@.len(),
        (exists|k: int| brackets(stops@, k, v as int)) ==> {
            &&& brackets(stops@, r.0 as int, v as int)
            &&& r.1 == r.0 + 1
            &&& forall|j: int| 0 <= j < r.0 ==> !brackets(stops@, j, v as int)
        },
        !(exists|k: int| brackets(stops@, k, v as int)) ==> r == (0usize, (stops@.len() - 1) as usize),
{
    let n = stops.len();
    let mut k: usize = 0;
    while k + 1 < n
        invariant
            n == stops@.len(),
            n > 0,
            k < n,
            forall|j: int| 0 <= j < k ==> !brackets(stops@, j, v as int),
        decreases n - k,
    {
        if stops[k] <= v && v < stops[k + 1] {
            assert(brackets(stops@, k as int, v as int));
            return (k, k + 1);
        }
        k = k + 1;
    }
    proof {
        assert forall|j: int| !brackets(stops@, j, v as int) by {
            if 0 <= j < k {
            }
        }
    }
    (0, n - 1)
}

/// A gradient over time: its colours are kept in the colour store under `gradient_id`, and it
/// repeats every `total_dur`.
pub struct TimeGradient {
    /// The total time duration of the gradient
    pub total_dur: std::time::Duration,
    pub gradient_id: usize,
}

/// The time since launch looped into a time gradient of total duration `total` (both in
/// nanoseconds): `total` is taken away while the time is at least `total`. A gradient of no
/// length stays at its start: the time is 0.
pub fn loop_time(d: u128, total: u128) -> (r: u128)
    ensures
        total > 0 ==> r == d % total,
        total == 0 ==> r == 0,
{
    if total == 0 {
        0
    } else {
        d % total
    }
}

} // verus!
