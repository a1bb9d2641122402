use vstd::prelude::*;
use crate::ch::{
    grid_clone_of, grid_width, max_line_len, padded_bottom, padded_left, padded_right, push_char,
    str_chars, text_cell, text_lines, with_ch, ChPlus, DrawCh, DrawChs2D,
};
use crate::color::{rgb, SolidColor, spec_darken};
use crate::text_style::{plain_style, TextStyle};

verus! {

/// How a button is drawn.
pub enum ButtonStyle {
    /// the text alone, in the given style while pressed (if any)
    Basic(Option<TextStyle>),
    /// the text between two sides
    Sides(ButtonSides),
    /// the text with a shadow below and to the right
    Shadow(ButtonShadow),
    /// the text with a very thin shadow on the right: `░▏`
    MicroShadow(ButtonMicroShadow),
}

/// The sides of a button, e.g. `]button[` or `⡇button⢸`.
pub struct ButtonSides {
    /// style while pressed
    pub depressed_style: TextStyle,
    pub left: String,
    pub right: String,
    pub left_depressed: String,
    /// while clicked
    pub right_depressed: String,
}

/// A shadow below and to the right of a button.
pub struct ButtonShadow {
    /// if None will use a darkened version of the button's bg color
    pub shadow_style: Option<SolidColor>,
    pub bottom_left: char,
    pub bottom_middle: char,
    pub bottom_right: char,
    /// beside the button
    pub right: char,
    pub top_right: char,
}

/// A very thin shadow on the right of a button.
pub struct ButtonMicroShadow {
    pub shadow_style: Option<SolidColor>,
    pub depressed_style: TextStyle,
    pub right: char,
}

impl Default for ButtonSides {
    /// `]button[`, with blank sides while pressed, black on white.
    fn default() -> (s: ButtonSides)
        ensures
            s.depressed_style == (TextStyle {
                fg: Some(rgb(0, 0, 0)),
                bg: Some(rgb(255, 255, 255)),
                ..plain_style()
            }),
            s.left@ == seq![']'],
            s.right@ == seq!['['],
            s.left_depressed@ == seq![' '],
            s.right_depressed@ == seq![' '],
    {
        proof {
            reveal_strlit("]");
            reveal_strlit("[");
            reveal_strlit(" ");
        }
        ButtonSides {
            depressed_style: TextStyle::default_const().with_fg(SolidColor::new(0, 0, 0)).with_bg(
                SolidColor::new(255, 255, 255),
            ),
            left: "]".to_owned(),
            right: "[".to_owned(),
            left_depressed: " ".to_owned(),
            right_depressed: " ".to_owned(),
        }
    }
}

impl Default for ButtonShadow {
    /// A shadow of half blocks in the darkened background color: `▝▀▀▘` below, `▌` beside.
    fn default() -> (s: ButtonShadow)
        ensures
            s.shadow_style is None,
            s.bottom_left == '▝',
            s.bottom_middle == '▀',
            s.bottom_right == '▘',
            s.right == '▌',
            s.top_right == '▖',
    {
        ButtonShadow {
            shadow_style: None,
            bottom_left: '▝',
            bottom_middle: '▀',
            bottom_right: '▘',
            right: '▌',
            top_right: '▖',
        }
    }
}

impl Default for ButtonMicroShadow {
    /// A `▎` shadow in the darkened background color, black on blue while pressed.
    fn default() -> (s: ButtonMicroShadow)
        ensures
            s.shadow_style is None,
            s.depressed_style == (TextStyle {
                fg: Some(rgb(0, 0, 0)),
                bg: Some(rgb(0, 0, 255)),
                ..plain_style()
            }),
            s.right == '▎',
    {
        ButtonMicroShadow {
            shadow_style: None,
            depressed_style: TextStyle::default_const().with_fg(SolidColor::new(0, 0, 0)).with_bg(
                SolidColor::new(0, 0, 255),
            ),
            right: '▎',
        }
    }
}

impl ButtonMicroShadow {
    /// A `▎` shadow in the given color (or the darkened background color), in the given style
    /// while pressed.
    pub fn new(shadow_style: Option<SolidColor>, depressed_sty: TextStyle) -> (s: ButtonMicroShadow)
        ensures
            s.shadow_style == shadow_style,
            s.depressed_style == depressed_sty,
            s.right == '▎',
    {
        ButtonMicroShadow { shadow_style, depressed_style: depressed_sty, right: '▎' }
    }
}

/// The fully transparent color.
pub open spec fn transparent() -> SolidColor {
    SolidColor::Rgba(crate::color::Rgba { r: 0, g: 0, b: 0, a: 0 })
}

/// The color that a missing background stands for: opaque black.
pub open spec fn default_color() -> SolidColor {
    SolidColor::Rgba(crate::color::Rgba { r: 0, g: 0, b: 0, a: 255 })
}

/// A style with a transparent background and the foreground `fg`.
pub open spec fn over_transparent(fg: Option<SolidColor>) -> TextStyle {
    TextStyle { fg, bg: Some(transparent()), ..plain_style() }
}

/// The background of `st`, or the default color where it has none.
pub open spec fn bg_or_default(st: TextStyle) -> SolidColor {
    match st.bg {
        Some(c) => c,
        None => default_color(),
    }
}

/// The style of a shadow: the shadow color where one is given, else the button's background
/// darkened, over a transparent background.
pub open spec fn shadow_style_of(shadow: Option<SolidColor>, text_sty: TextStyle) -> TextStyle {
    match shadow {
        Some(c) => over_transparent(Some(c)),
        None => over_transparent(Some(spec_darken(bg_or_default(text_sty)))),
    }
}

/// The grid that `DrawChs2D::from_string` gives for the characters `s` in the style `sty`.
pub open spec fn text_grid(s: Seq<char>, sty: TextStyle) -> Seq<Seq<DrawCh<TextStyle>>> {
    let ls = text_lines(s);
    Seq::new(ls.len(), |y: int| Seq::new(max_line_len(ls), |x: int| DrawCh { ch: text_cell(ls, y, x), style: sty }))
}

/// `n` copies of `c`.
pub open spec fn copies<T>(c: T, n: nat) -> Seq<T> {
    Seq::new(n, |i: int| c)
}

/// The grid with `n` copies of `c` on the left of every row.
pub open spec fn with_left<S>(g: Seq<Seq<DrawCh<S>>>, c: DrawCh<S>, n: nat) -> Seq<Seq<DrawCh<S>>> {
    g.map_values(|row: Seq<DrawCh<S>>| copies(c, n) + row)
}

/// The grid with `n` copies of `c` on the right of every row.
pub open spec fn with_right<S>(g: Seq<Seq<DrawCh<S>>>, c: DrawCh<S>, n: nat) -> Seq<Seq<DrawCh<S>>> {
    g.map_values(|row: Seq<DrawCh<S>>| row + copies(c, n))
}

/// The grid with `n` rows of copies of `c`, as wide as the grid, below it.
pub open spec fn with_bottom<S>(g: Seq<Seq<DrawCh<S>>>, c: DrawCh<S>, n: nat) -> Seq<Seq<DrawCh<S>>> {
    g + copies(copies(c, grid_width(g)), n)
}

/// A character in a style.
pub open spec fn cell(c: char, st: TextStyle) -> DrawCh<TextStyle> {
    DrawCh { ch: ChPlus::Char(c), style: st }
}

/// The grid of a pressed button with a shadow: the text with a space on each side, moved one
/// cell right and down from where it was, the freed cells blank.
pub open spec fn pressed_shadow_grid(text: Seq<char>, text_sty: TextStyle) -> Seq<Seq<DrawCh<TextStyle>>> {
    let pad = cell(' ', text_sty);
    let blank = cell(' ', over_transparent(None));
    with_bottom(with_left(with_right(with_left(text_grid(text, text_sty), pad, 1), pad, 1), blank, 1), blank, 1)
}

/// The top of a button with a shadow: the text with a space on each side and the shadow's
/// right side (its top cell the shadow's top right corner).
pub open spec fn shadow_top(sh: ButtonShadow, text: Seq<char>, text_sty: TextStyle) -> Seq<Seq<DrawCh<TextStyle>>> {
    let ss = shadow_style_of(sh.shadow_style, text_sty);
    let pad = cell(' ', text_sty);
    let top0 = with_right(with_right(with_left(text_grid(text, text_sty), pad, 1), pad, 1), cell(sh.right, ss), 1);
    with_ch(top0, grid_width(top0) - 1, 0, cell(sh.top_right, ss))
}

/// The bottom of a shadow `w` cells wide: its bottom left corner, middles, bottom right corner.
pub open spec fn shadow_bottom_text(sh: ButtonShadow, w: nat) -> Seq<char> {
    seq![sh.bottom_left] + copies(sh.bottom_middle, (w - 2) as nat) + seq![sh.bottom_right]
}

/// The grid of a button with a shadow that is not pressed: its top with the bottom of the
/// shadow below.
pub open spec fn shadow_grid(sh: ButtonShadow, text: Seq<char>, text_sty: TextStyle) -> Seq<Seq<DrawCh<TextStyle>>> {
    let top = shadow_top(sh, text, text_sty);
    top + text_grid(shadow_bottom_text(sh, grid_width(top)), shadow_style_of(sh.shadow_style, text_sty))
}

/// The grid of a button drawn in the style `bs` with the text `text`, pressed or not, where
/// the element's current style is `current`.
pub open spec fn button_grid(bs: ButtonStyle, text: Seq<char>, clicked_down: bool, current: TextStyle) -> Seq<
    Seq<DrawCh<TextStyle>>,
> {
    match bs {
        ButtonStyle::Basic(depressed) => text_grid(
            text,
            match depressed {
                Some(d) => if clicked_down {
                    d
                } else {
                    current
                },
                None => current,
            },
        ),
        ButtonStyle::Sides(s) => if clicked_down {
            text_grid(s.left_depressed@ + text + s.right_depressed@, s.depressed_style)
        } else {
            text_grid(s.left@ + text + s.right@, current)
        },
        ButtonStyle::Shadow(sh) => if clicked_down {
            pressed_shadow_grid(text, current)
        } else {
            shadow_grid(sh, text, current)
        },
        ButtonStyle::MicroShadow(m) => if clicked_down {
            with_right(
                text_grid(text, m.depressed_style),
                cell(m.right, over_transparent(Some(bg_or_default(m.depressed_style)))),
                1,
            )
        } else {
            with_right(text_grid(text, current), cell(m.right, shadow_style_of(m.shadow_style, current)), 1)
        },
    }
}

/// With the style type `TextStyle`, a clone is the value itself, so the grid operations give
/// exactly the grids above.
proof fn lemma_from_string_grid(r: Seq<Seq<DrawCh<TextStyle>>>, s: Seq<char>, sty: TextStyle)
    requires
        r.len() == text_lines(s).len(),
        forall|y: int| 0 <= y < r.len() ==> (#[trigger] r[y]).len() == max_line_len(text_lines(s)),
        forall|y: int, x: int|
            0 <= y < r.len() && 0 <= x < r[y].len() ==> (#[trigger] r[y][x]).ch == text_cell(text_lines(s), y, x)
                && cloned(sty, r[y][x].style),
    ensures
        r == text_grid(s, sty),
{
    let g = text_grid(s, sty);
    assert forall|y: int| 0 <= y < r.len() implies #[trigger] r[y] == g[y] by {
        assert forall|x: int| 0 <= x < r[y].len() implies #[trigger] r[y][x] == g[y][x] by {
            assert(cloned(sty, r[y][x].style));
        }
        assert(r[y] =~= g[y]);
    }
    assert(r =~= g);
}

proof fn lemma_left(g0: Seq<Seq<DrawCh<TextStyle>>>, g1: Seq<Seq<DrawCh<TextStyle>>>, c: DrawCh<TextStyle>, n: nat)
    requires
        padded_left(g0, g1, c, n),
    ensures
        g1 == with_left(g0, c, n),
{
    let g = with_left(g0, c, n);
    assert forall|y: int| 0 <= y < g1.len() implies #[trigger] g1[y] == g[y] by {
        assert forall|x: int| 0 <= x < g1[y].len() implies #[trigger] g1[y][x] == g[y][x] by {
            if x < n {
                assert(cloned(c.style, g1[y][x].style));
            } else {
                assert(g1[y].subrange(n as int, g1[y].len() as int)[x - n] == g1[y][x]);
            }
        }
        assert(g1[y] =~= g[y]);
    }
    assert(g1 =~= g);
}

proof fn lemma_right(g0: Seq<Seq<DrawCh<TextStyle>>>, g1: Seq<Seq<DrawCh<TextStyle>>>, c: DrawCh<TextStyle>, n: nat)
    requires
        padded_right(g0, g1, c, n),
    ensures
        g1 == with_right(g0, c, n),
{
    let g = with_right(g0, c, n);
    assert forall|y: int| 0 <= y < g1.len() implies #[trigger] g1[y] == g[y] by {
        assert forall|x: int| 0 <= x < g1[y].len() implies #[trigger] g1[y][x] == g[y][x] by {
            if x < g0[y].len() {
                assert(g1[y].subrange(0, g0[y].len() as int)[x] == g1[y][x]);
            } else {
                assert(cloned(c.style, g1[y][x].style));
            }
        }
        assert(g1[y] =~= g[y]);
    }
    assert(g1 =~= g);
}

proof fn lemma_bottom(g0: Seq<Seq<DrawCh<TextStyle>>>, g1: Seq<Seq<DrawCh<TextStyle>>>, c: DrawCh<TextStyle>, n: nat)
    requires
        padded_bottom(g0, g1, c, n),
    ensures
        g1 == with_bottom(g0, c, n),
{
    let g = with_bottom(g0, c, n);
    assert forall|y: int| 0 <= y < g1.len() implies #[trigger] g1[y] == g[y] by {
        if y < g0.len() {
            assert(g1.subrange(0, g0.len() as int)[y] == g1[y]);
        } else {
            assert forall|x: int| 0 <= x < g1[y].len() implies #[trigger] g1[y][x] == g[y][x] by {
                assert(cloned(c.style, g1[y][x].style));
            }
            assert(g1[y] =~= g[y]);
        }
    }
    assert(g1 =~= g);
}

proof fn lemma_concat(a: Seq<Seq<DrawCh<TextStyle>>>, r: Seq<Seq<DrawCh<TextStyle>>>)
    requires
        grid_clone_of(a, r),
    ensures
        r == a,
{
    assert forall|y: int| 0 <= y < r.len() implies #[trigger] r[y] == a[y] by {
        assert forall|x: int| 0 <= x < r[y].len() implies #[trigger] r[y][x] == a[y][x] by {
            assert(cloned(a[y][x].style, r[y][x].style));
        }
        assert(r[y] =~= a[y]);
    }
    assert(r =~= a);
}

/// The lines of text, each padded to the longest, in the style `sty` (as
/// `DrawChs2D::from_string`).
fn text_chs(text: String, sty: TextStyle) -> (r: DrawChs2D<TextStyle>)
    ensures
        r@ == text_grid(text@, sty),
{
    let ghost s = text@;
    let r = DrawChs2D::from_string(text, sty);
    proof {
        lemma_from_string_grid(r@, s, sty);
    }
    r
}

/// Adds the characters of `s` to the end of `out`.
fn push_all(out: &mut String, s: &String)
    ensures
        final(out)@ == old(out)@ + s@,
{
    let chars = str_chars(s.as_str());
    let ghost before = out@;
    let mut i: usize = 0;
    while i < chars.len()
        invariant
            out@ == before + chars@.take(i as int),
            i <= chars@.len(),
        decreases chars@.len() - i,
    {
        push_char(out, chars[i]);
        assert(chars@.take(i + 1) =~= chars@.take(i as int).push(chars@[i as int]));
        i = i + 1;
    }
    assert(chars@.take(chars@.len() as int) =~= chars@);
}

/// `a`, then `b`, then `c`, as one string.
fn joined(a: &String, b: &String, c: &String) -> (r: String)
    ensures
        r@ == a@ + b@ + c@,
{
    let mut out = String::new();
    push_all(&mut out, a);
    push_all(&mut out, b);
    push_all(&mut out, c);
    assert(out@ =~= a@ + b@ + c@);
    out
}

/// The style of a shadow (see `shadow_style_of`).
fn shadow_style(shadow: Option<SolidColor>, text_sty: TextStyle) -> (r: TextStyle)
    ensures
        r == shadow_style_of(shadow, text_sty),
{
    let fg = match shadow {
        Some(c) => c,
        None => {
            let bg = match text_sty.bg {
                Some(c) => c,
                None => SolidColor::new(0, 0, 0),
            };
            bg.darken()
        },
    };
    TextStyle::default_const().with_bg(SolidColor::new_with_alpha(0, 0, 0, 0)).with_fg(fg)
}

/// Draws a button: its text in the style `bs`, pressed or not, where the element's current
/// style is `current` (see `button_grid`). A button with a shadow that is not pressed needs a
/// line of text.
pub fn button_drawing(bs: &ButtonStyle, text: &String, clicked_down: bool, current: TextStyle) -> (r:
    DrawChs2D<TextStyle>)
    requires
        bs matches ButtonStyle::Shadow(_) && !clicked_down ==> text_lines(text@).len() > 0,
    ensures
        r@ == button_grid(*bs, text@, clicked_down, current),
{
    match bs {
        ButtonStyle::Basic(depressed) => {
            let sty = match depressed {
                Some(d) => if clicked_down {
                    *d
                } else {
                    current
                },
                None => current,
            };
            text_chs(text.clone(), sty)
        },
        ButtonStyle::Sides(sides) => {
            if clicked_down {
                let s = joined(&sides.left_depressed, text, &sides.right_depressed);
                text_chs(s, sides.depressed_style)
            } else {
                let s = joined(&sides.left, text, &sides.right);
                text_chs(s, current)
            }
        },
        ButtonStyle::Shadow(shadow) => {
            let pad = DrawCh::new(ChPlus::Char(' '), current);
            if clicked_down {
                let non_button_sty = TextStyle::default_const().with_bg(SolidColor::new_with_alpha(0, 0, 0, 0));
                let blank = DrawCh::new(ChPlus::Char(' '), non_button_sty);
                let mut chs = text_chs(text.clone(), current);
                let ghost g0 = chs@;
                chs.pad_left(pad.clone(), 1);
                proof { lemma_left(g0, chs@, pad, 1); }
                let ghost g1 = chs@;
                chs.pad_right(pad.clone(), 1);
                proof { lemma_right(g1, chs@, pad, 1); }
                let ghost g2 = chs@;
                chs.pad_left(blank.clone(), 1);
                proof { lemma_left(g2, chs@, blank, 1); }
                let ghost g3 = chs@;
                chs.pad_bottom(blank.clone(), 1);
                proof { lemma_bottom(g3, chs@, blank, 1); }
                chs
            } else {
                let ss = shadow_style(shadow.shadow_style, current);
                let mut top = text_chs(text.clone(), current);
                let ghost g0 = top@;
                top.pad_left(pad.clone(), 1);
                proof { lemma_left(g0, top@, pad, 1); }
                let ghost g1 = top@;
                top.pad_right(pad.clone(), 1);
                proof { lemma_right(g1, top@, pad, 1); }
                let right_shadow = DrawCh::new(ChPlus::Char(shadow.right), ss);
                let ghost g2 = top@;
                top.pad_right(right_shadow.clone(), 1);
                proof { lemma_right(g2, top@, right_shadow, 1); }
                let ghost g3 = top@;
                assert(g3.len() > 0 && grid_width(g3) == max_line_len(text_lines(text@)) + 3) by {
                    assert(g3[0] == g2[0] + copies(right_shadow, 1));
                    assert(g2[0] == g1[0] + copies(pad, 1));
                    assert(g1[0] == copies(pad, 1) + g0[0]);
                }
                let w = top.width();
                let top_right_shadow = DrawCh::new(ChPlus::Char(shadow.top_right), ss);
                top.set_ch(w - 1, 0, top_right_shadow);
                let mut bottom_text = String::new();
                push_char(&mut bottom_text, shadow.bottom_left);
                let mut i: usize = 0;
                while i < w - 2
                    invariant
                        w >= 3,
                        i <= w - 2,
                        bottom_text@ == seq![shadow.bottom_left] + copies(shadow.bottom_middle, i as nat),
                    decreases w - 2 - i,
                {
                    push_char(&mut bottom_text, shadow.bottom_middle);
                    assert(copies(shadow.bottom_middle, (i + 1) as nat) =~= copies(shadow.bottom_middle, i as nat).push(shadow.bottom_middle));
                    i = i + 1;
                }
                push_char(&mut bottom_text, shadow.bottom_right);
                assert(grid_width(top@) == grid_width(g3));
                assert(bottom_text@ =~= shadow_bottom_text(*shadow, grid_width(top@)));
                let bottom = text_chs(bottom_text, ss);
                let r = top.concat_top_bottom(bottom);
                proof { lemma_concat(top@ + bottom@, r@); }
                r
            }
        },
        ButtonStyle::MicroShadow(shadow) => {
            if clicked_down {
                let sty = shadow.depressed_style;
                let mut chs = text_chs(text.clone(), sty);
                let bg = match sty.bg {
                    Some(c) => c,
                    None => SolidColor::new(0, 0, 0),
                };
                let shadow_sty = TextStyle::default_const().with_bg(SolidColor::new_with_alpha(0, 0, 0, 0)).with_fg(bg);
                let right_shadow = DrawCh::new(ChPlus::Char(shadow.right), shadow_sty);
                let ghost g0 = chs@;
                chs.pad_right(right_shadow.clone(), 1);
                proof { lemma_right(g0, chs@, right_shadow, 1); }
                chs
            } else {
                let shadow_sty = shadow_style(shadow.shadow_style, current);
                let mut chs = text_chs(text.clone(), current);
                let right_shadow = DrawCh::new(ChPlus::Char(shadow.right), shadow_sty);
                let ghost g0 = chs@;
                chs.pad_right(right_shadow.clone(), 1);
                proof { lemma_right(g0, chs@, right_shadow, 1); }
                chs
            }
        },
    }
}

} // verus!
